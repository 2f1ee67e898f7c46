use unreal_mcphub::config::{ConfigStore, ProjectMcpEndpoint};
use unreal_mcphub::lifecycle::{
    active_project_endpoint, active_project_entry, build_discovery_candidates,
    choose_discovered_pid, complete_launch_at, complete_stop_at, editor_launch_args,
    editor_process_query, endpoint_manual_start_note, instance_health_at,
    instance_health_is_healthy, launch_endpoint_notes, launch_log_paths, mark_unreachable_at,
    record_discovered_at, reuse_candidate, stop_needs_forced_retry, stop_without_signal,
};
use unreal_mcphub::orchestrator::HubError;
use unreal_mcphub::paths::UnrealProjectPaths;
use unreal_mcphub::projects::configure_project_from_uproject_at;
use unreal_mcphub::smap::SortedMap;
use unreal_mcphub::state::{AppState, StateStore};
use unreal_mcphub::ue_client::EndpointHealth;

fn endpoint(id: &str, host: &str, port: u16, auto_start: bool) -> ProjectMcpEndpoint {
    ProjectMcpEndpoint {
        name: id.to_string(),
        endpoint_id: id.to_string(),
        host: host.to_string(),
        port,
        path: "/mcp".to_string(),
        transport: "http".to_string(),
        auto_start,
    }
}

fn paths(name: &str) -> UnrealProjectPaths {
    UnrealProjectPaths {
        project_name: name.to_string(),
        project_dir: format!("/p/{name}"),
        uproject_path: format!("/p/{name}/{name}.uproject"),
        engine_association: String::new(),
        engine_root: "/ue".to_string(),
        editor_exe: "/ue/Engine/Binaries/Win64/UnrealEditor.exe".to_string(),
        build_bat: String::new(),
    }
}

fn empty_state() -> StateStore {
    StateStore::from_data(
        "s".to_string(),
        AppState { instances: SortedMap::new(), active_instance: String::new() },
    )
}

fn health() -> EndpointHealth {
    EndpointHealth { healthy: true, tool_count: 11, latency_ms: 5 }
}

#[test]
fn manual_start_note_only_without_auto_start() {
    assert!(endpoint_manual_start_note("Lyra", &endpoint("a", "h", 1, true)).is_none());
    let n = endpoint_manual_start_note("Lyra", &endpoint("a", "h", 1, false)).unwrap();
    assert!(n.starts_with("Active MCP 'a' for project 'Lyra' is configured with auto_start=false."));
}

#[test]
fn timeout_note_after_an_unhealthy_wait() {
    let e = endpoint("lyra-local", "127.0.0.1", 19840, true);
    assert!(launch_endpoint_notes("Lyra", &e, 0, false).is_empty());
    assert!(launch_endpoint_notes("Lyra", &e, 30, true).is_empty());
    let n = launch_endpoint_notes("Lyra", &e, 30, false);
    assert_eq!(n.len(), 1);
    assert!(n[0].starts_with("Timed out waiting up to 30s for 'lyra-local' at http://127.0.0.1:19840/mcp. "));
    let both = launch_endpoint_notes("Lyra", &endpoint("x", "h", 2, false), 5, false);
    assert_eq!(both.len(), 2);
}

#[test]
fn a_launch_records_an_active_instance() {
    let mut state = empty_state();
    let e = endpoint("lyra-local", "127.0.0.1", 19840, true);
    let r = complete_launch_at(
        &mut state, &paths("Lyra"), &e, 777, false, 10, None, "out.log".to_string(), "err.log".to_string(), 99,
    );
    assert_eq!(r.pid, 777);
    assert!(!r.reused_existing);
    assert_eq!(r.endpoint_url, "http://127.0.0.1:19840/mcp");
    assert_eq!(r.stdout_log, "out.log");
    assert_eq!(r.notes.len(), 1);
    let a = state.get_active_instance().unwrap();
    assert_eq!(a.key, "Lyra:lyra-local:19840");
    assert_eq!(a.status, "starting");
    assert_eq!(a.pid, Some(777));
    assert_eq!(a.project_path, "/p/Lyra/Lyra.uproject");
}

#[test]
fn a_reused_editor_is_reported_as_such() {
    let mut state = empty_state();
    let e = endpoint("lyra-local", "127.0.0.1", 19840, true);
    let r = complete_launch_at(
        &mut state, &paths("Lyra"), &e, 5, true, 10, Some(health()), "o".to_string(), "e".to_string(), 1,
    );
    assert!(r.reused_existing);
    assert_eq!(r.stdout_log, "");
    assert_eq!(r.notes, vec!["Reused existing Unreal Editor process for 'Lyra' (pid 5).".to_string()]);
    assert_eq!(state.get_active_instance().unwrap().status, "online");
    let c = reuse_candidate(&state, "Lyra", &e).unwrap();
    assert_eq!(c.pid, Some(5));
    assert!(reuse_candidate(&state, "Lyra", &endpoint("lyra-local", "other", 19840, true)).is_none());
}

#[test]
fn launch_files_and_arguments() {
    let (logs, out, err) = launch_log_paths("/p/Lyra", 1234);
    assert_eq!(logs, "/p/Lyra/Saved/Logs");
    assert_eq!(out, "/p/Lyra/Saved/Logs/orchestrator-stdout-1234.log");
    assert_eq!(err, "/p/Lyra/Saved/Logs/orchestrator-stderr-1234.log");
    assert_eq!(
        editor_launch_args("/p/L.uproject"),
        vec!["/p/L.uproject", "-stdout", "-FullStdOutLogOutput", "-NoSplash"]
    );
    let (name, needle) = editor_process_query("/ue/Engine/Binaries/Win64/UnrealEditor.exe", "/p/L.uproject", true);
    assert_eq!(name, "UnrealEditor.exe");
    assert_eq!(needle, "/p/L.uproject");
    let (name, _) = editor_process_query("", "/p/L.uproject", false);
    assert_eq!(name, "UnrealEditor");
}

#[test]
fn active_project_and_target_are_required() {
    let mut config = ConfigStore::from_loaded("c".to_string(), false, None);
    assert!(matches!(active_project_entry(&config), Err(HubError::NoActiveProject)));
    configure_project_from_uproject_at(
        &mut config,
        "Lyra",
        &paths("Lyra"),
        vec![endpoint("a", "h", 1, true), endpoint("b", "h", 1, true)],
        3,
    )
    .ok()
    .unwrap();
    let p = active_project_entry(&config).ok().unwrap();
    assert_eq!(active_project_endpoint(&p).ok().unwrap().endpoint_id, "a");
    let candidates = build_discovery_candidates(&config);
    assert_eq!(candidates.len(), 1);
    assert_eq!(candidates[0].url, "http://h:1/mcp");
    assert_eq!(candidates[0].instance_key, "Lyra:a:1");
}

#[test]
fn discovery_records_reachable_and_downgrades_unreachable() {
    let mut config = ConfigStore::from_loaded("c".to_string(), false, None);
    configure_project_from_uproject_at(
        &mut config,
        "Lyra",
        &paths("Lyra"),
        vec![endpoint("a", "h", 1, true), endpoint("b", "h", 2, true)],
        3,
    )
    .ok()
    .unwrap();
    let cands = build_discovery_candidates(&config);
    assert_eq!(cands.len(), 2);
    let mut state = empty_state();
    let pid = choose_discovered_pid(Some(3), false, Some(9));
    assert_eq!(pid, Some(9));
    let saved = record_discovered_at(&mut state, &cands[0], pid, 10).unwrap();
    assert_eq!(saved.status, "online");
    assert_eq!(saved.pid, Some(9));
    mark_unreachable_at(&mut state, "Lyra:a:1", false, 11);
    let i = state.get_instance("Lyra:a:1").unwrap();
    assert_eq!(i.status, "offline");
    assert_eq!(i.pid, Some(9));
}

#[test]
fn health_of_an_instance_without_target() {
    let mut state = empty_state();
    let e = endpoint("a", "h", 1, true);
    complete_launch_at(&mut state, &paths("L"), &e, 4, false, 0, None, String::new(), String::new(), 1);
    let mut inst = state.get_instance("L:a:1").unwrap().clone();
    inst.url = String::new();
    let r = instance_health_at(&mut state, &inst, Some(false), Err("x".to_string()), 2);
    assert_eq!(r.instance.status, "offline");
    assert_eq!(r.instance.pid, None);
    assert_eq!(r.endpoint_error.as_deref(), Some("instance has no reachable MCP target"));
    assert!(!instance_health_is_healthy(&r));
}

#[test]
fn health_after_a_probe() {
    let mut state = empty_state();
    let e = endpoint("a", "h", 1, true);
    complete_launch_at(&mut state, &paths("L"), &e, 4, false, 0, None, String::new(), String::new(), 1);
    let inst = state.get_instance("L:a:1").unwrap().clone();
    let r = instance_health_at(&mut state, &inst, Some(true), Ok(health()), 2);
    assert_eq!(r.instance.status, "online");
    assert_eq!(r.instance.pid, Some(4));
    assert!(instance_health_is_healthy(&r));
    assert_eq!(state.get_instance("L:a:1").unwrap().status, "online");
    let inst = state.get_instance("L:a:1").unwrap().clone();
    let r = instance_health_at(&mut state, &inst, Some(false), Err("refused".to_string()), 3);
    assert_eq!(r.instance.status, "offline");
    assert_eq!(r.endpoint_error.as_deref(), Some("refused"));
}

#[test]
fn stopping_decisions() {
    assert_eq!(stop_without_signal(None, false, true), Some((true, true)));
    assert_eq!(stop_without_signal(Some(3), false, true), Some((true, false)));
    assert_eq!(stop_without_signal(Some(3), true, false), None);
    assert!(stop_needs_forced_retry(false, false));
    assert!(!stop_needs_forced_retry(false, true));
    let mut state = empty_state();
    let e = endpoint("a", "h", 1, true);
    complete_launch_at(&mut state, &paths("L"), &e, 4, false, 0, None, String::new(), String::new(), 1);
    let r = complete_stop_at(&mut state, "L:a:1", Some(4), true, false, true, 2);
    assert!(!r.stopped);
    assert_eq!(state.get_instance("L:a:1").unwrap().status, "stopping");
    let r = complete_stop_at(&mut state, "L:a:1", Some(4), true, true, true, 3);
    assert!(r.stopped && r.force);
    assert_eq!(state.get_instance("L:a:1").unwrap().status, "offline");
}

#[test]
fn stop_and_relaunch_keep_the_session() {
    let mut state = empty_state();
    let e = endpoint("a", "h", 1, true);
    complete_launch_at(&mut state, &paths("L"), &e, 4, false, 0, None, String::new(), String::new(), 1);
    assert!(unreal_mcphub::orchestrator::add_note_at(&mut state, "before restart", 2).is_ok());
    complete_stop_at(&mut state, "L:a:1", Some(4), true, true, false, 3);
    let stopped = state.get_instance("L:a:1").unwrap();
    assert_eq!(stopped.status, "offline");
    assert_eq!(stopped.notes.len(), 1);
    assert_eq!(stopped.notes[0].content, "before restart");
    assert_eq!(state.get_active_instance().unwrap().key, "L:a:1");
    complete_launch_at(&mut state, &paths("L"), &e, 9, false, 0, None, String::new(), String::new(), 4);
    let relaunched = state.get_active_instance().unwrap();
    assert_eq!(relaunched.key, "L:a:1");
    assert_eq!(relaunched.pid, Some(9));
    assert_eq!(relaunched.notes.len(), 1);
    assert_eq!(relaunched.notes[0].content, "before restart");
}
