use unreal_mcphub::config::ConfigStore;
use unreal_mcphub::orchestrator::HubError;
use unreal_mcphub::samples::{
    asset_name, collect_skips_dir, extract_cpp_symbol, find_sample_cpp_header, game_asset_path,
    guess_scope_from_asset_path, next_blueprint_candidate, normalize_asset_relative_path, path_before,
    plugin_asset_path, score_blueprint_candidate, score_cpp_header_candidate, uplugin_name,
};
use unreal_mcphub::workspace::{
    build_command_args, build_configuration, compile_failure_message, compile_success_message,
    copy_skips_dir, crash_context_path, crash_report, crash_summary, crashes_dir,
    find_matching_target_rule, install_message, latest_crash, plugin_source_for_install,
    plugin_target, plugins_dir, resolve_build_target_name, resolve_plugin_source_root,
};

#[test]
fn crash_summary_reads_the_error_message() {
    let xml = "<Root>\r\n  <ErrorMessage>Assertion failed: x</ErrorMessage>\r\n</Root>";
    assert_eq!(crash_summary(Some(xml)), "Assertion failed: x");
    assert_eq!(
        crash_summary(Some("<Root/>")),
        "Crash report found but no ErrorMessage tag was parsed"
    );
    assert_eq!(
        crash_summary(None),
        "Crash directory found, but CrashContext.runtime-xml is missing"
    );
    let r = crash_report("/c/1".to_string(), Some(xml));
    assert_eq!(r.crash_dir, "/c/1");
    assert_eq!(r.summary, "Assertion failed: x");
}

#[test]
fn crash_locations() {
    assert_eq!(crashes_dir("/p/L/L.uproject").ok(), Some("/p/L/Saved/Crashes".to_string()));
    assert!(matches!(crashes_dir(""), Err(HubError::NoProjectDirectory)));
    assert_eq!(crash_context_path("/c/1"), "/c/1/CrashContext.runtime-xml");
    assert_eq!(latest_crash(&vec![3, 9, 2, 9, 1]), Some(3));
    assert_eq!(latest_crash(&Vec::new()), None);
}

#[test]
fn build_messages_and_arguments() {
    assert_eq!(build_configuration(None), "Development");
    assert_eq!(build_configuration(Some("Shipping".to_string())), "Shipping");
    assert_eq!(
        build_command_args("LyraEditor", "Development", "/p/L.uproject"),
        vec!["LyraEditor", "Win64", "Development", "/p/L.uproject", "-waitmutex"]
    );
    assert_eq!(
        compile_failure_message("T", "  out \n", "\nerr "),
        "build failed for target T: out\nerr"
    );
    assert_eq!(compile_failure_message("T", " ", ""), "build failed for target T: no compiler output captured");
    assert_eq!(compile_failure_message("T", "", "e"), "build failed for target T: e");
    assert_eq!(compile_success_message("T", "Dev", "log"), "Built T Win64 Dev successfully.\nlog");
}

#[test]
fn target_rules_are_matched_by_suffix_in_any_case() {
    let files = vec![
        "LyraGame.Target.cs".to_string(),
        "LyraEditor.Target.cs".to_string(),
        "LyraClient.Target.cs".to_string(),
        "Lyra.Build.cs".to_string(),
    ];
    assert_eq!(find_matching_target_rule(&files, "editor"), Some("LyraEditor".to_string()));
    assert_eq!(find_matching_target_rule(&files, "Server"), None);
    assert_eq!(resolve_build_target_name("Lyra", None, &files), "LyraEditor");
    assert_eq!(resolve_build_target_name("Lyra", Some(" Client "), &files), "LyraClient");
    assert_eq!(resolve_build_target_name("Lyra", Some("Server"), &files), "Server");
    assert_eq!(resolve_build_target_name("Lyra", Some("Custom"), &files), "Custom");
    assert_eq!(resolve_build_target_name("Lyra", None, &Vec::new()), "LyraEditor");
    let both = vec!["BEditor.Target.cs".to_string(), "AEditor.Target.cs".to_string()];
    assert_eq!(find_matching_target_rule(&both, "Editor"), Some("AEditor".to_string()));
}

#[test]
fn plugin_installation_decisions() {
    assert_eq!(plugins_dir("/p/L/L.uproject").ok(), Some("/p/L/Plugins".to_string()));
    assert_eq!(plugin_target("/p/L/Plugins"), "/p/L/Plugins/UnrealCopilot");
    assert_eq!(resolve_plugin_source_root("/src", true, true), Some("/src".to_string()));
    assert_eq!(
        resolve_plugin_source_root("/src", false, true),
        Some("/src/Plugins/UnrealCopilot".to_string())
    );
    assert_eq!(resolve_plugin_source_root("/src", false, false), None);
    assert!(copy_skips_dir("Binaries") && copy_skips_dir(".git") && !copy_skips_dir("Source"));
    assert_eq!(install_message("/a", "/b"), "Installed UnrealCopilot plugin from /a to /b");
    let mut config = ConfigStore::from_loaded("c".to_string(), false, None);
    assert!(matches!(plugin_source_for_install(&config, None, None), Err(HubError::PluginSourceNotFound)));
    config.set_plugin_source_local("/mine");
    match plugin_source_for_install(&config, None, Some("/det".to_string())) {
        Err(e) => assert_eq!(
            e.message(),
            "configured plugin source does not contain UnrealCopilot.uplugin: /mine"
        ),
        Ok(_) => panic!("configured source without the plugin"),
    }
}

#[test]
fn samples_are_ranked_by_score_then_path() {
    assert_eq!(score_cpp_header_candidate("/s/LyraHealthComponent.h"), 110);
    assert_eq!(score_cpp_header_candidate("/s/Other.h"), 0);
    assert_eq!(score_blueprint_candidate("/c/B_Hero_Lyra.uasset"), 140);
    let headers = vec![
        "/s/b/Component.h".to_string(),
        "/s/a/Component.h".to_string(),
        "/s/GameMode.h".to_string(),
    ];
    assert_eq!(find_sample_cpp_header(&headers), Some("/s/GameMode.h".to_string()));
    assert_eq!(find_sample_cpp_header(&Vec::new()), None);
    let assets = vec!["/c/Map.uasset".to_string(), "/c/BP_Weapon.uasset".to_string()];
    assert_eq!(next_blueprint_candidate(&assets, &Vec::new()), Some(1));
    assert_eq!(next_blueprint_candidate(&assets, &vec![false, true]), Some(0));
    assert_eq!(next_blueprint_candidate(&assets, &vec![true, true]), None);
    assert!(collect_skips_dir("DerivedDataCache") && !collect_skips_dir("Content"));
}

#[test]
fn the_first_class_of_a_header_is_its_symbol() {
    let header = "#pragma once\n// class Fake\nclass LYRAGAME_API ULyraHealthComponent : public UActorComponent\n{\n";
    assert_eq!(extract_cpp_symbol(header, "/s/H.h").ok(), Some("ULyraHealthComponent".to_string()));
    assert_eq!(extract_cpp_symbol("class Foo;\n", "/s/H.h").ok(), Some("Foo".to_string()));
    assert_eq!(extract_cpp_symbol("int x;\n", "/s/Fallback.h").ok(), Some("Fallback".to_string()));
    match extract_cpp_symbol("", "") {
        Err(e) => assert_eq!(e.message(), "could not infer a C++ symbol from "),
        Ok(_) => panic!("no stem"),
    }
}

#[test]
fn asset_paths_are_game_or_plugin_relative() {
    assert_eq!(
        game_asset_path("/p", "/p/Content/Heroes/B_Hero.uasset"),
        Some("/Game/Heroes/B_Hero".to_string())
    );
    assert_eq!(game_asset_path("/p", "/q/Content/X.uasset"), None);
    assert_eq!(
        plugin_asset_path("/p/Plugins/Foo", "Foo", "/p/Plugins/Foo/Content/A/B.uasset"),
        Some("/Foo/A/B".to_string())
    );
    assert_eq!(normalize_asset_relative_path("A\\B\\C.uasset"), "A/B/C");
    assert_eq!(normalize_asset_relative_path("A/B.umap"), "A/B.umap");
    assert_eq!(
        uplugin_name(&vec!["/x/readme.md".to_string(), "/x/Foo.uplugin".to_string()]),
        Some("Foo".to_string())
    );
    assert_eq!(guess_scope_from_asset_path("/Game/X"), "project");
    assert_eq!(guess_scope_from_asset_path("/Script/X"), "engine");
    assert_eq!(guess_scope_from_asset_path("/Foo/X"), "plugin");
    assert_eq!(asset_name("/Game/Heroes/B_Hero"), "B_Hero");
    assert_eq!(asset_name("plain"), "plain");
}

#[test]
fn equal_scores_are_ordered_by_path_components() {
    assert!(std::path::Path::new("S/a/z.h") < std::path::Path::new("S/a-z.h"));
    assert!("S/a-z.h" < "S/a/z.h");
    assert!(path_before("S/a/z.h", "S/a-z.h"));
    assert!(!path_before("S/a-z.h", "S/a/z.h"));
    assert!(!path_before("S/a/z.h", "S/a/z.h"));
    assert!(path_before("/x", "./x") == (std::path::Path::new("/x") < std::path::Path::new("./x")));
    assert!(path_before("../x", "-x") == (std::path::Path::new("../x") < std::path::Path::new("-x")));
    assert!(path_before("a//b", "a/c") == (std::path::Path::new("a//b") < std::path::Path::new("a/c")));
    let headers = vec!["S/a-z.h".to_string(), "S/a/z.h".to_string()];
    assert_eq!(find_sample_cpp_header(&headers), Some("S/a/z.h".to_string()));
    let assets = vec!["C/a-z.uasset".to_string(), "C/a/z.uasset".to_string()];
    assert_eq!(next_blueprint_candidate(&assets, &Vec::new()), Some(1));
}
