use unreal_mcphub::config::{AppConfig, ConfigStore, ProjectMcpEndpoint};
use unreal_mcphub::orchestrator::{
    add_note_at, add_project_mcp, get_notes, get_project_config, get_session, hub_status,
    record_tool_call_at, resolve_instance_or_active, sync_mcphub, use_editor, use_mcp,
    use_project, HubError,
};
use unreal_mcphub::projects::{
    bind_action, bind_needs_refresh, configure_project_from_uproject_at,
    discover_or_default_project_endpoints, endpoint_display_name, project_entry_needs_refresh,
    resolve_project_and_endpoint, BindAction,
};
use unreal_mcphub::paths::UnrealProjectPaths;
use unreal_mcphub::smap::SortedMap;
use unreal_mcphub::state::{make_instance_key, AppState, InstanceState, StateStore};
use unreal_mcphub::ue_client::ToolCallOutput;

fn empty_config() -> ConfigStore {
    ConfigStore::from_loaded("config.json".to_string(), false, None)
}

fn empty_state() -> StateStore {
    StateStore::from_data(
        "state.json".to_string(),
        AppState { instances: SortedMap::new(), active_instance: String::new() },
    )
}

fn endpoint(id: &str, port: u16, auto_start: bool) -> ProjectMcpEndpoint {
    ProjectMcpEndpoint {
        name: format!("{id} name"),
        endpoint_id: id.to_string(),
        host: "127.0.0.1".to_string(),
        port,
        path: "/mcp".to_string(),
        transport: "http".to_string(),
        auto_start,
    }
}

fn paths(name: &str) -> UnrealProjectPaths {
    UnrealProjectPaths {
        project_name: name.to_string(),
        project_dir: format!("/p/{name}"),
        uproject_path: format!("/p/{name}/{name}.uproject"),
        engine_association: "5.4".to_string(),
        engine_root: "/ue".to_string(),
        editor_exe: "/ue/Engine/Binaries/Win64/UnrealEditor.exe".to_string(),
        build_bat: "/ue/Engine/Build/BatchFiles/Build.bat".to_string(),
    }
}

fn instance(project: &str, id: &str, port: u16, status: &str) -> InstanceState {
    InstanceState {
        key: String::new(),
        project_name: project.to_string(),
        endpoint_id: id.to_string(),
        project_path: String::new(),
        engine_root: String::new(),
        host: "127.0.0.1".to_string(),
        port,
        url: format!("http://127.0.0.1:{port}/mcp"),
        pid: Some(42),
        status: status.to_string(),
        last_seen: String::new(),
        crash_count: 0,
        notes: Vec::new(),
        call_history: Vec::new(),
    }
}

fn configured() -> ConfigStore {
    let mut config = empty_config();
    let eps = vec![endpoint("lyra-local", 19840, true), endpoint("lyra-remote-mcp-local", 8422, false)];
    configure_project_from_uproject_at(&mut config, "Lyra", &paths("Lyra"), eps, 1000).ok().unwrap();
    config
}

#[test]
fn default_config_has_builtin_strategies_and_needs_saving() {
    let config = empty_config();
    assert!(config.needs_save());
    let names: Vec<&str> = config.discovery_strategies().iter().map(|s| s.name.as_str()).collect();
    assert_eq!(names, vec!["unrealcopilot", "remote-mcp"]);
    assert_eq!(config.active_project_name(), "");
}

#[test]
fn loaded_config_missing_a_builtin_strategy_gets_it() {
    let data = AppConfig {
        projects: SortedMap::new(),
        active_project: String::new(),
        discovery_strategies: Vec::new(),
        plugin_source_local: String::new(),
        plugin_source_repo: String::new(),
    };
    let config = ConfigStore::from_loaded("c.json".to_string(), true, Some(data));
    assert_eq!(config.discovery_strategies().len(), 2);
    assert!(config.needs_save());
}

#[test]
fn configuring_a_project_saves_all_targets_and_activates_it() {
    let config = configured();
    assert_eq!(config.active_project_name(), "Lyra");
    let summaries = get_project_config(&config);
    assert_eq!(summaries.len(), 1);
    let s = &summaries[0];
    assert_eq!(s.name, "Lyra");
    assert_eq!(s.active_endpoint, "lyra-local");
    assert_eq!(s.endpoints.len(), 2);
    assert_eq!(s.endpoints[0].endpoint_url, "http://127.0.0.1:19840/mcp");
    assert_eq!(s.endpoints[1].endpoint_id, "lyra-remote-mcp-local");
}

#[test]
fn setting_up_another_project_makes_it_active() {
    let mut config = configured();
    assert_eq!(config.active_project_name(), "Lyra");
    let r = configure_project_from_uproject_at(
        &mut config,
        "Other",
        &paths("Other"),
        vec![endpoint("other-local", 19850, true)],
        7,
    );
    assert!(r.is_ok());
    assert_eq!(config.active_project_name(), "Other");
    assert_eq!(get_project_config(&config).len(), 2);
}

#[test]
fn configuring_without_targets_is_refused() {
    let mut config = empty_config();
    let r = configure_project_from_uproject_at(&mut config, "Lyra", &paths("Lyra"), Vec::new(), 1);
    assert!(matches!(r, Err(HubError::NoMcpsDiscovered)));
    assert_eq!(HubError::NoMcpsDiscovered.message(), "no MCPs discovered");
}

#[test]
fn default_target_is_used_when_nothing_is_discovered() {
    let config = empty_config();
    let files: Vec<Vec<String>> = Vec::new();
    let eps = discover_or_default_project_endpoints("Lyra Game", "LyraStarterGame", &config, &files);
    assert_eq!(eps.len(), 1);
    assert_eq!(eps[0].name, "Lyra Game default");
    assert_eq!(eps[0].endpoint_id, "lyrastartergame-local");
    assert_eq!(eps[0].port, 19840);
    assert_eq!(eps[0].path, "/mcp");
    assert_eq!(eps[0].transport, "http");
    assert!(!eps[0].auto_start);
}

#[test]
fn refresh_is_needed_only_when_something_changed() {
    let config = configured();
    let entry = config.get_active_project().unwrap();
    let same = vec![endpoint("lyra-local", 19840, true), endpoint("lyra-remote-mcp-local", 8422, false)];
    assert!(!project_entry_needs_refresh(entry, true, true, &same));
    assert!(project_entry_needs_refresh(entry, false, true, &same));
    assert!(project_entry_needs_refresh(entry, true, false, &same));
    let changed = vec![endpoint("lyra-local", 19841, true)];
    assert!(project_entry_needs_refresh(entry, true, true, &changed));
}

#[test]
fn requests_resolve_to_the_named_or_active_target() {
    let config = configured();
    let (name, _, e) = resolve_project_and_endpoint(&config, None, None).ok().unwrap();
    assert_eq!(name, "Lyra");
    assert_eq!(e.endpoint_id, "lyra-local");
    let (_, _, e) =
        resolve_project_and_endpoint(&config, Some(" Lyra "), Some(" lyra-remote-mcp-local ")).ok().unwrap();
    assert_eq!(e.port, 8422);
    let (_, _, e) = resolve_project_and_endpoint(&config, None, Some("unknown")).ok().unwrap();
    assert_eq!(e.endpoint_id, "lyra-local");
    match resolve_project_and_endpoint(&config, Some("Other"), None) {
        Err(HubError::ProjectNotFound(n)) => assert_eq!(n, "Other"),
        _ => panic!("unknown project"),
    }
    let empty = empty_config();
    assert!(matches!(
        resolve_project_and_endpoint(&empty, None, None),
        Err(HubError::NoProjectSelected)
    ));
    assert_eq!(
        HubError::ProjectNotFound("X".to_string()).message(),
        "project 'X' not found"
    );
}

#[test]
fn mcphub_registration_names_the_target_after_the_project_file() {
    let config = configured();
    let g = sync_mcphub(&config, None, Some("lyra-remote-mcp-local")).ok().unwrap();
    assert_eq!(g.endpoint_id, "lyra-remote-mcp-local");
    assert_eq!(g.endpoint_url, "http://127.0.0.1:8422/mcp");
    assert_eq!(g.endpoint_name, "Lyra lyra-remote-mcp-local name");
    let entry = config.get_active_project().unwrap();
    let mut blank = endpoint("x-local", 1, false);
    blank.name = "  ".to_string();
    assert_eq!(endpoint_display_name("Lyra", entry, &blank), "Lyra x-local");
}

#[test]
fn instance_keys_follow_the_documented_shape() {
    assert_eq!(make_instance_key("Lyra", "lyra-local", 19840), "Lyra:lyra-local:19840");
    assert_eq!(make_instance_key("  ", "lyra-local", 1), "unknown:lyra-local:1");
    assert_eq!(make_instance_key(" Lyra ", "  ", 8422), "Lyra:8422");
}

#[test]
fn an_upserted_instance_is_found_by_key_port_and_name() {
    let mut state = empty_state();
    state.upsert_instance_at(instance("Lyra", "lyra-local", 19840, "online"), 500);
    assert!(state.needs_save());
    let key = "Lyra:lyra-local:19840";
    let i = state.get_instance(key).unwrap();
    assert_eq!(i.key, key);
    assert_eq!(i.last_seen, "500");
    assert_eq!(state.get_instance("19840").unwrap().key, key);
    assert_eq!(state.get_instance("lyra").unwrap().key, key);
    assert!(state.get_instance("nothing").is_none());
    assert_eq!(state.get_active_instance().unwrap().key, key);
}

#[test]
fn upsert_merges_into_the_existing_record() {
    let mut state = empty_state();
    let mut first = instance("Lyra", "lyra-local", 19840, "online");
    first.crash_count = 3;
    state.upsert_instance_at(first, 1);
    let mut second = instance("Lyra", "lyra-local", 19840, "starting");
    second.pid = None;
    second.host = String::new();
    state.upsert_instance_at(second, 2);
    let i = state.get_instance("Lyra:lyra-local:19840").unwrap();
    assert_eq!(i.status, "starting");
    assert_eq!(i.pid, Some(42));
    assert_eq!(i.host, "127.0.0.1");
    assert_eq!(i.crash_count, 3);
    assert_eq!(state.list_instances().len(), 1);
}

#[test]
fn notes_and_calls_are_kept_on_the_active_instance() {
    let config = configured();
    let mut state = empty_state();
    assert!(matches!(add_note_at(&mut state, "x", 1), Err(HubError::NoActiveInstance)));
    state.upsert_instance_at(instance("Lyra", "lyra-local", 19840, "online"), 10);
    add_note_at(&mut state, "first note", 20).ok().unwrap();
    let notes = get_notes(&state).ok().unwrap();
    assert_eq!(notes.len(), 1);
    assert_eq!(notes[0].content, "first note");
    assert_eq!(notes[0].timestamp, "20");

    let e = endpoint("lyra-local", 19840, true);
    let out = ToolCallOutput {
        success: true,
        content: Vec::new(),
        structured_content: None,
        error: None,
        duration_ms: 12,
    };
    let env = record_tool_call_at(&mut state, "Lyra".to_string(), &e, "search", out, 30);
    assert_eq!(env.instance_key, "Lyra:lyra-local:19840");
    assert_eq!(env.endpoint_url, "http://127.0.0.1:19840/mcp");
    let history = state.get_call_history("Lyra:lyra-local:19840", 10);
    assert_eq!(history.len(), 1);
    assert_eq!(history[0].tool_name, "search");
    assert_eq!(history[0].duration_ms, 12);

    let s = get_session(&config, &state, None, Some("FULL"), 5).ok().unwrap();
    assert_eq!(s.scope, "full");
    assert_eq!(s.notes.len(), 1);
    assert_eq!(s.call_history.len(), 1);
    assert!(s.instance.notes.is_empty());
    let s = get_session(&config, &state, None, Some("notes"), 5).ok().unwrap();
    assert!(s.call_history.is_empty());
    let s = get_session(&config, &state, None, Some("history"), 5).ok().unwrap();
    assert!(s.notes.is_empty());
}

#[test]
fn a_call_on_an_unknown_target_records_nothing() {
    let mut state = empty_state();
    let e = endpoint("lyra-local", 19840, true);
    let out = ToolCallOutput {
        success: false,
        content: Vec::new(),
        structured_content: None,
        error: Some("boom".to_string()),
        duration_ms: 1,
    };
    let env = record_tool_call_at(&mut state, "Lyra".to_string(), &e, "search", out, 30);
    assert_eq!(env.instance_key, "Lyra:lyra-local:19840");
    assert!(state.list_instances().is_empty());
}

#[test]
fn switching_project_and_target_follows_their_instance() {
    let mut config = configured();
    let mut state = empty_state();
    state.upsert_instance_at(instance("Lyra", "lyra-local", 19840, "online"), 1);
    state.upsert_instance_at(instance("Lyra", "lyra-remote-mcp-local", 8422, "online"), 2);
    assert_eq!(state.get_active_instance().unwrap().endpoint_id, "lyra-local");
    assert!(use_mcp(&mut config, &mut state, "lyra-remote-mcp-local"));
    assert_eq!(state.get_active_instance().unwrap().endpoint_id, "lyra-remote-mcp-local");
    assert!(!use_mcp(&mut config, &mut state, "missing"));
    assert!(use_project(&mut config, &mut state, "Lyra"));
    assert!(!use_project(&mut config, &mut state, "Nope"));
    assert!(use_editor(&mut state, "19840"));
    assert_eq!(state.get_active_instance().unwrap().port, 19840);
    assert!(!use_editor(&mut state, "nope"));
}

#[test]
fn adding_a_target_normalizes_its_path_and_transport() {
    let mut config = configured();
    let s = add_project_mcp(
        &mut config, None, "extra", Some(" "), "localhost", 1234, "api", "HTTP", false, true,
    )
    .ok()
    .unwrap();
    let e = s.endpoints.iter().find(|e| e.endpoint_id == "extra").unwrap();
    assert_eq!(e.name, "extra");
    assert_eq!(e.endpoint_url, "http://localhost:1234/api");
    assert_eq!(e.transport, "http");
    assert_eq!(s.active_endpoint, "extra");
    let mut empty = empty_config();
    assert!(matches!(
        add_project_mcp(&mut empty, None, "x", None, "h", 1, "/", "http", false, false),
        Err(HubError::NoTargetProject)
    ));
}

#[test]
fn hub_status_reports_everything() {
    let config = configured();
    let mut state = empty_state();
    state.upsert_instance_at(instance("Lyra", "lyra-local", 19840, "online"), 1);
    let st = hub_status(&config, &state, "vendor/MCPHub/Cargo.toml".to_string());
    assert_eq!(st.active_project, "Lyra");
    assert_eq!(st.configured_projects.len(), 1);
    assert_eq!(st.known_instances.len(), 1);
    assert_eq!(st.active_instance.unwrap().key, "Lyra:lyra-local:19840");
    assert_eq!(st.mcphub_submodule_path, "vendor/MCPHub/Cargo.toml");
}

#[test]
fn unknown_instance_is_reported() {
    let config = configured();
    let state = empty_state();
    match resolve_instance_or_active(&config, &state, Some("x")) {
        Err(HubError::InstanceNotFound(id)) => assert_eq!(id, "x"),
        _ => panic!("no instance"),
    }
    assert!(matches!(
        resolve_instance_or_active(&config, &state, None),
        Err(HubError::NoActiveInstance)
    ));
}

#[test]
fn cleanup_drops_only_stale_inactive_instances() {
    let mut state = empty_state();
    let mut old = instance("A", "a-local", 1, "offline");
    old.last_seen = "100".to_string();
    state.upsert_instance_at(old, 0);
    let mut live = instance("B", "b-local", 2, "online");
    live.last_seen = "100".to_string();
    state.upsert_instance_at(live, 0);
    let mut fresh = instance("C", "c-local", 3, "offline");
    fresh.last_seen = "9000".to_string();
    state.upsert_instance_at(fresh, 0);
    let removed = state.cleanup_at(3600, 10000);
    assert_eq!(removed, vec!["A:a-local:1".to_string()]);
    assert_eq!(state.list_instances().len(), 2);
}

#[test]
fn crash_marks_status_and_counts() {
    let mut state = empty_state();
    state.upsert_instance_at(instance("A", "a-local", 1, "online"), 0);
    state.mark_crashed_at("A:a-local:1", 5);
    let i = state.get_instance("A:a-local:1").unwrap();
    assert_eq!(i.status, "crashed");
    assert_eq!(i.crash_count, 1);
    assert_eq!(i.last_seen, "5");
}

#[test]
fn binding_reuses_a_configured_project_and_refreshes_only_on_change() {
    let config = configured();
    match bind_action(&config, &vec![true], "/p/Lyra/Lyra.uproject") {
        BindAction::Existing(n) => assert_eq!(n, "Lyra"),
        BindAction::New(_) => panic!("the configured project is bound"),
    }
    match bind_action(&config, &vec![false], "/p/Other/Other.uproject") {
        BindAction::New(n) => assert_eq!(n, "Other"),
        BindAction::Existing(_) => panic!("a new project is set up"),
    }
    let same = vec![endpoint("lyra-local", 19840, true), endpoint("lyra-remote-mcp-local", 8422, false)];
    assert!(!bind_needs_refresh(&config, "Lyra", true, true, &same));
    assert!(bind_needs_refresh(&config, "Lyra", true, false, &same));
    assert!(bind_needs_refresh(&config, "Lyra", true, true, &vec![endpoint("lyra-local", 19840, true)]));
    assert!(bind_needs_refresh(&config, "Gone", true, true, &same));
}

#[test]
fn switching_target_marks_the_config_for_saving() {
    let mut config = configured();
    config.mark_saved();
    let mut state = empty_state();
    state.mark_saved();
    assert!(use_mcp(&mut config, &mut state, "lyra-remote-mcp-local"));
    assert!(config.needs_save());
    let before = config.get_active_project().unwrap().active_endpoint.clone();
    assert_eq!(before, "lyra-remote-mcp-local");
    config.mark_saved();
    assert!(!use_mcp(&mut config, &mut state, "missing"));
    assert!(!config.needs_save());
}
