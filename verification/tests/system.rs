use unreal_mcphub::cli::{default_serve_port, switch_label};
use unreal_mcphub::json::JsonValue;
use unreal_mcphub::process::{
    first_line_pid, kill_signal, powershell_pid_script, process_query, ps_find_pid,
    ps_reports_alive, taskkill_args, taskkill_failure, tasklist_args, tasklist_reports_alive,
    terminate_next, TerminateStep,
};
use unreal_mcphub::server::{as_object, default_wait_seconds, switch_reply, Switch};
use unreal_mcphub::smap::SortedMap;
use unreal_mcphub::state::{AppState, InstanceState, StateStore};
use unreal_mcphub::submodule::{
    mcphub_binary_path, mcphub_manifest_path, register_args, sync_report, McphubFailure,
};
use unreal_mcphub::watcher::{cycle_after, refresh_instance_at, tick_interval};

#[test]
fn process_tool_output_is_read() {
    assert_eq!(tasklist_args(12), vec!["/FI", "PID eq 12", "/FO", "CSV", "/NH"]);
    assert!(tasklist_reports_alive(true, "\"UnrealEditor.exe\",\"12\""));
    assert!(!tasklist_reports_alive(true, "INFO: No tasks are running which match the specified criteria."));
    assert!(!tasklist_reports_alive(false, "x"));
    assert!(ps_reports_alive(true, "  PID TTY\n 12 ?\n"));
    assert!(!ps_reports_alive(true, "  PID TTY\n"));
    assert_eq!(first_line_pid("\r\n 4242 \r\n5\r\n"), Some(4242));
    assert_eq!(first_line_pid("x"), None);
    let ps = "  10 bash bash\n  20 UnrealEditor /ue/UnrealEditor /p/L.uproject\n";
    assert_eq!(ps_find_pid(ps, "UnrealEditor", "/p/L.uproject"), Some(20));
    assert_eq!(ps_find_pid(ps, "UnrealEditor", "/p/M.uproject"), None);
    assert_eq!(process_query(" UnrealEditor.exe ", " /p "), Some(("UnrealEditor.exe".to_string(), "/p".to_string())));
    assert_eq!(process_query("x", "  "), None);
    assert!(powershell_pid_script("a'b", "c").contains("Name = 'a''b'"));
    assert_eq!(kill_signal(true), "-KILL");
    assert_eq!(taskkill_args(7, true), vec!["/PID", "7", "/T", "/F"]);
    assert_eq!(taskkill_failure("", " ", "1"), "taskkill returned exit code 1");
    assert_eq!(taskkill_failure("e", "o", "1"), "e\no");
}

#[test]
fn terminating_tries_gracefully_then_by_force() {
    assert!(matches!(terminate_next(7, false, &Vec::new()), TerminateStep::Taskkill(false)));
    assert!(matches!(terminate_next(7, false, &vec![Ok(())]), TerminateStep::Finished(false)));
    assert!(matches!(terminate_next(7, false, &vec![Err("a".to_string())]), TerminateStep::Taskkill(true)));
    assert!(matches!(
        terminate_next(7, false, &vec![Err("a".to_string()), Ok(())]),
        TerminateStep::Finished(true)
    ));
    match terminate_next(7, false, &vec![Err("a".to_string()), Err("b".to_string())]) {
        TerminateStep::Failed(m) => assert_eq!(m, "taskkill failed for PID 7: graceful=a; forced=b"),
        _ => panic!("both failed"),
    }
    assert!(matches!(terminate_next(7, true, &Vec::new()), TerminateStep::Taskkill(true)));
    match terminate_next(7, true, &vec![Err("x".to_string())]) {
        TerminateStep::Failed(m) => assert_eq!(m, "x"),
        _ => panic!("forced failed"),
    }
}

#[test]
fn watcher_cadence() {
    assert_eq!(tick_interval(0), 1);
    assert_eq!(tick_interval(5), 5);
    assert_eq!(cycle_after(5), (6, true, false));
    assert_eq!(cycle_after(59), (60, true, true));
    assert_eq!(cycle_after(u64::MAX), (u64::MAX, false, false));
}

#[test]
fn a_dead_editor_that_stops_answering_counts_as_a_crash() {
    let mut state = StateStore::from_data(
        "s".to_string(),
        AppState { instances: SortedMap::new(), active_instance: String::new() },
    );
    let inst = InstanceState {
        key: "L:a:1".to_string(),
        project_name: "L".to_string(),
        endpoint_id: "a".to_string(),
        project_path: String::new(),
        engine_root: String::new(),
        host: "h".to_string(),
        port: 1,
        url: "http://h:1/mcp".to_string(),
        pid: Some(3),
        status: "online".to_string(),
        last_seen: String::new(),
        crash_count: 0,
        notes: Vec::new(),
        call_history: Vec::new(),
    };
    state.upsert_instance_at(inst, 1);
    let current = state.get_instance("L:a:1").unwrap().clone();
    refresh_instance_at(&mut state, &current, false, false, 2);
    let i = state.get_instance("L:a:1").unwrap();
    assert_eq!(i.status, "crashed");
    assert_eq!(i.crash_count, 1);
    let current = i.clone();
    refresh_instance_at(&mut state, &current, true, true, 3);
    assert_eq!(state.get_instance("L:a:1").unwrap().status, "online");
}

#[test]
fn mcphub_locations_and_commands() {
    assert_eq!(mcphub_manifest_path(Some("/b/mcphub".to_string()), None), "/b/mcphub");
    assert_eq!(mcphub_manifest_path(None, Some("/r".to_string())), "/r/vendor/MCPHub/Cargo.toml");
    assert_eq!(mcphub_manifest_path(None, None), "vendor/MCPHub/Cargo.toml");
    assert_eq!(
        mcphub_binary_path(None, Some("/r".to_string()), &vec![false, true], None, false),
        "/r/vendor/MCPHub/target/debug/mcphub"
    );
    assert_eq!(
        mcphub_binary_path(None, Some("/r".to_string()), &vec![false, false], None, true),
        "/r/vendor/MCPHub/target/release/mcphub.exe"
    );
    assert_eq!(mcphub_binary_path(None, None, &Vec::new(), None, false), "./mcphub");
    assert_eq!(register_args("id", "u", "n"), vec!["register-http", "id", "u", "--name", "n"]);
    assert_eq!(sync_report(" a \n", "\nb"), "a\nb");
    assert_eq!(McphubFailure::Discover("e".to_string()).message(), "mcphub discover failed: e");
}

#[test]
fn tool_defaults_and_replies() {
    assert_eq!(default_wait_seconds(), 180);
    assert_eq!(default_serve_port(), 9422);
    assert_eq!(switch_label(false), "not-found");
    assert_eq!(switch_reply(Switch::Mcp, "x", true), Ok("active mcp switched to x".to_string()));
    assert_eq!(switch_reply(Switch::Editor, "k", false), Err("instance 'k' not found".to_string()));
    assert!(as_object(JsonValue::Null).ok().map(|m| m.is_empty()).unwrap());
    assert!(as_object(JsonValue::Bool(true)).is_err());
}
