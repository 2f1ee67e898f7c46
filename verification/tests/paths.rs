use unreal_mcphub::config::{builtin_discovery_strategies, default_unrealcopilot_strategy};
use unreal_mcphub::paths::{
    copilot_settings_paths, engine_association_from_text, engine_fallback_dirs,
    engine_registry_queries, normalize_endpoint_id, pick_uproject, read_copilot_transport,
    read_project_mcp_endpoints, registry_value_from_output, resolve_engine_root,
    resolve_project_paths, strategy_config_paths, uproject_from_file, PathsError, UprojectError,
};

const COPILOT_INI: &str = "[/Script/UnrealCopilot.UnrealCopilotSettings]\r\nMcpHost = 0.0.0.0\r\nMcpPort=19841\r\nMcpPath=api\r\nTransport=SSE stream\r\nbAutoStartMcpServer=True\r\n; comment\r\n[Other]\r\nMcpPort=1\r\n";

#[test]
fn endpoint_ids_are_slugs_ending_in_local() {
    assert_eq!(normalize_endpoint_id("Lyra Starter"), "lyra-starter-local");
    assert_eq!(normalize_endpoint_id("LyraStarterGame"), "lyrastartergame-local");
    assert_eq!(normalize_endpoint_id("  --My__Game!! "), "my-game-local");
    assert_eq!(normalize_endpoint_id(""), "unreal-local");
    assert_eq!(normalize_endpoint_id("***"), "unreal-local");
}

#[test]
fn project_paths_come_from_the_project_file_and_engine_root() {
    let p = resolve_project_paths("/games/Lyra/Lyra.uproject", "5.4".to_string(), Some("/ue".to_string()))
        .ok()
        .unwrap();
    assert_eq!(p.project_name, "Lyra");
    assert_eq!(p.project_dir, "/games/Lyra");
    assert_eq!(p.engine_root, "/ue");
    assert_eq!(p.editor_exe, "/ue/Engine/Binaries/Win64/UnrealEditor.exe");
    assert_eq!(p.build_bat, "/ue/Engine/Build/BatchFiles/Build.bat");
    match resolve_project_paths("/games/Lyra/Lyra.uproject", "5.4".to_string(), None) {
        Err(e) => {
            assert!(matches!(e, PathsError::EngineRootUnknown(_)));
            assert_eq!(e.message(), "could not resolve engine root for '5.4'");
        }
        Ok(_) => panic!("no engine root"),
    }
    match resolve_project_paths("", "5.4".to_string(), Some("/ue".to_string())) {
        Err(e) => assert_eq!(e.message(), "uproject path has no parent directory"),
        Ok(_) => panic!("no parent"),
    }
}

#[test]
fn copilot_transport_defaults_and_overrides() {
    let d = read_copilot_transport(&Vec::new());
    assert_eq!(d.host, "127.0.0.1");
    assert_eq!(d.port, 19840);
    assert_eq!(d.path, "/mcp");
    assert_eq!(d.transport, "http");
    assert!(!d.auto_start);
    let c = read_copilot_transport(&vec![COPILOT_INI.to_string()]);
    assert_eq!(c.host, "0.0.0.0");
    assert_eq!(c.port, 19841);
    assert_eq!(c.path, "/api");
    assert_eq!(c.transport, "sse");
    assert!(c.auto_start);
    let later = "[/script/unrealcopilot.unrealcopilotsettings]\nMcpPort=notanumber\nTransport=stdio\n";
    let c = read_copilot_transport(&vec![COPILOT_INI.to_string(), later.to_string()]);
    assert_eq!(c.port, 19841);
    assert_eq!(c.transport, "stdio");
}

#[test]
fn copilot_settings_files_are_in_config_and_saved() {
    let p = copilot_settings_paths("/proj");
    assert_eq!(p[0], "/proj/Config/DefaultEditorPerProjectUserSettings.ini");
    assert_eq!(p[1], "/proj/Saved/Config/WindowsEditor/EditorPerProjectUserSettings.ini");
    let s = strategy_config_paths("/proj", &default_unrealcopilot_strategy());
    assert_eq!(s[0], "/proj/Config/DefaultEditorPerProjectUserSettings.ini");
}

#[test]
fn strategies_yield_endpoints_only_for_present_enabled_sections() {
    let strategies = builtin_discovery_strategies();
    let remote_off = "[/Script/RemoteMCP.MCPSetting]\nbEnable=False\nPort=9000\n";
    let files = vec![vec![COPILOT_INI.to_string()], vec![remote_off.to_string()]];
    let eps = read_project_mcp_endpoints("Lyra", &strategies, &files);
    assert_eq!(eps.len(), 1);
    assert_eq!(eps[0].endpoint_id, "lyra-local");
    assert_eq!(eps[0].name, "Lyra unrealcopilot");
    assert_eq!(eps[0].port, 19841);
    assert_eq!(eps[0].host, "0.0.0.0");

    let remote_on = "[/Script/RemoteMCP.MCPSetting]\nbEnable=1\nPort=9000\nbAutoStart=yes\n";
    let files = vec![vec![COPILOT_INI.to_string()], vec![remote_on.to_string()]];
    let eps = read_project_mcp_endpoints("Lyra", &strategies, &files);
    assert_eq!(eps.len(), 2);
    assert_eq!(eps[1].endpoint_id, "lyra-remote-mcp-local");
    assert_eq!(eps[1].port, 9000);
    assert_eq!(eps[1].host, "127.0.0.1");
    assert_eq!(eps[1].path, "/mcp");
    assert!(eps[1].auto_start);

    let only_remote = vec![Vec::new(), vec![remote_on.to_string()]];
    let eps = read_project_mcp_endpoints("Lyra", &strategies, &only_remote);
    assert_eq!(eps.len(), 1);
    assert_eq!(eps[0].endpoint_id, "lyra-local");
    assert_eq!(eps[0].port, 9000);
    assert!(read_project_mcp_endpoints("Lyra", &strategies, &Vec::new()).is_empty());
}

#[test]
fn the_least_uproject_of_a_directory_is_chosen() {
    let entries = vec![
        "/d/b.uproject".to_string(),
        "/d/readme.txt".to_string(),
        "/d/a.uproject".to_string(),
    ];
    assert_eq!(pick_uproject(&entries), Some("/d/a.uproject".to_string()));
    assert_eq!(pick_uproject(&vec!["/d/x.txt".to_string()]), None);
    assert!(uproject_from_file("/d/a.uproject").is_ok());
    match uproject_from_file("/d/a.txt") {
        Err(e) => assert_eq!(e.message(), "expected a .uproject file, got /d/a.txt"),
        Ok(_) => panic!("not a project file"),
    }
    assert_eq!(
        UprojectError::NotFound("/x".to_string()).message(),
        "could not locate a .uproject by walking upward from /x"
    );
}

#[test]
fn engine_association_is_read_from_the_project_json() {
    assert_eq!(
        engine_association_from_text(r#"{"EngineAssociation":"5.4","Modules":[]}"#),
        Some("5.4".to_string())
    );
    assert_eq!(engine_association_from_text(r#"{"Modules":[]}"#), Some(String::new()));
    assert_eq!(engine_association_from_text(r#"{"EngineAssociation":5}"#), Some(String::new()));
    assert_eq!(engine_association_from_text("not json"), None);
}

#[test]
fn registry_output_gives_the_value_after_the_type() {
    let out = "\r\nHKEY_LOCAL_MACHINE\\SOFTWARE\\EpicGames\\Unreal Engine\\5.4\r\n    InstalledDirectory    REG_SZ    C:\\Program Files\\Epic Games\\UE_5.4\r\n\r\n";
    assert_eq!(
        registry_value_from_output(out, "InstalledDirectory"),
        Some("C:\\Program Files\\Epic Games\\UE_5.4".to_string())
    );
    assert_eq!(registry_value_from_output(out, "Missing"), None);
    assert_eq!(registry_value_from_output("InstalledDirectoryX REG_SZ a", "InstalledDirectory"), None);
    let q = engine_registry_queries("5.4");
    assert_eq!(q[0].0, "HKLM\\SOFTWARE\\EpicGames\\Unreal Engine\\5.4");
    assert_eq!(q[0].1, "InstalledDirectory");
    assert_eq!(q[1].1, "5.4");
}

#[test]
fn engine_root_prefers_registry_then_fallbacks() {
    let f = engine_fallback_dirs("5.4");
    assert_eq!(f[1], "C:\\Program Files\\Epic Games\\UE_5.4");
    assert_eq!(
        resolve_engine_root("5.4", &vec![None, Some("X".to_string())], &vec![true, true, true]),
        Some("X".to_string())
    );
    assert_eq!(
        resolve_engine_root("5.4", &vec![None, None], &vec![false, true]),
        Some("C:\\Program Files\\Epic Games\\UE_5.4".to_string())
    );
    assert_eq!(resolve_engine_root("5.4", &Vec::new(), &vec![false, false, false, true]), None);
}
