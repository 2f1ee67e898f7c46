use unreal_mcphub::json::{JsonNumber, JsonValue};
use unreal_mcphub::lifecycle::{DiscoveryResult, LaunchResult};
use unreal_mcphub::ue_client::{ToolCallOutput, ToolDescriptor};
use unreal_mcphub::verify::{
    blueprint_tool_calls, compile_check, cpp_tool_calls, crash_check, discovery_check,
    extract_tool_payload, header_tool_call, launch_check, launched_note, list_tools_check,
    listed_skill_names, missing_expected_tools, overall_success, payload_declares_success,
    read_skill_call, rule_holds, run_skill_call, skill_list_check, stop_after_note, sync_check,
    sample_tool_calls, skill_to_read, tool_check, verification_note, PayloadRule,
    VerificationSamples, first_verify_step, next_verify_step, VerifyEvent, VerifyStep,
};

fn obj(pairs: Vec<(&str, JsonValue)>) -> JsonValue {
    JsonValue::Object(pairs.into_iter().map(|(k, v)| (k.to_string(), v)).collect())
}

fn text(s: &str) -> JsonValue {
    JsonValue::String(s.to_string())
}

fn output(success: bool, structured: Option<JsonValue>, content: Vec<JsonValue>) -> ToolCallOutput {
    ToolCallOutput { success, content, structured_content: structured, error: None, duration_ms: 1 }
}

fn tool(name: &str) -> ToolDescriptor {
    ToolDescriptor { name: name.to_string(), description: String::new(), input_schema: JsonValue::Null }
}

#[test]
fn missing_tools_are_listed_in_expected_order() {
    let tools = vec![tool("search"), tool("get_details"), tool("extra")];
    let missing = missing_expected_tools(&tools);
    assert_eq!(missing.len(), 9);
    assert_eq!(missing[0], "get_hierarchy");
    assert_eq!(missing[8], "run_unreal_skill");
    let check = list_tools_check(Ok(&tools), JsonValue::Null);
    assert!(!check.passed);
    assert!(check.summary.starts_with("missing expected tools: get_hierarchy, get_references"));
    let all: Vec<ToolDescriptor> = [
        "search", "get_hierarchy", "get_references", "get_details", "get_blueprint_graph",
        "detect_ue_patterns", "trace_reference_chain", "find_cpp_class_usage", "list_unreal_skill",
        "read_unreal_skill", "run_unreal_skill",
    ]
    .iter()
    .map(|n| tool(n))
    .collect();
    let check = list_tools_check(Ok(&all), JsonValue::Null);
    assert!(check.passed);
    assert_eq!(check.summary, "all expected Unreal tools are exposed (11)");
}

#[test]
fn payload_comes_from_structured_content_then_items() {
    let s = output(true, Some(obj(vec![("ok", JsonValue::Bool(true))])), Vec::new());
    assert!(extract_tool_payload(&s).unwrap().is_object());
    let items = vec![obj(vec![("type", text("text")), ("text", text("{\"cpp_count\": 3}"))])];
    let t = output(true, None, items);
    let p = extract_tool_payload(&t).unwrap();
    assert_eq!(p.get("cpp_count").and_then(|v| v.as_u64()), Some(3));
    let none = output(true, None, vec![obj(vec![("text", text("plain words"))])]);
    assert!(extract_tool_payload(&none).is_none());
    assert_eq!(payload_declares_success(&obj(vec![("ok", JsonValue::Bool(false))])), Some(false));
    assert_eq!(payload_declares_success(&JsonValue::Null), None);
}

#[test]
fn payload_rules() {
    let count = obj(vec![("cpp_count", JsonValue::Number(JsonNumber::PosInt(2)))]);
    assert!(rule_holds(PayloadRule::CppCount, &count));
    assert!(!rule_holds(PayloadRule::BlueprintCount, &count));
    assert!(rule_holds(PayloadRule::ClassUsage, &JsonValue::Null));
    assert!(!rule_holds(PayloadRule::ClassUsage, &obj(vec![("as_parent_class", text("x"))])));
    assert!(rule_holds(PayloadRule::Hierarchy, &obj(vec![("hierarchy", JsonValue::Array(Vec::new()))])));
    assert!(!rule_holds(PayloadRule::AssetDetails, &JsonValue::Null));
    assert!(rule_holds(PayloadRule::Chain, &obj(vec![("chain", obj(Vec::new()))])));
    assert!(!rule_holds(PayloadRule::SkillContent, &obj(vec![("content", text(""))])));
    assert!(rule_holds(PayloadRule::SkillRan, &obj(vec![("result", JsonValue::Null)])));
}

#[test]
fn tool_checks_judge_success_declared_failure_and_rule() {
    let good = output(true, Some(obj(vec![("hierarchy", JsonValue::Array(Vec::new()))])), Vec::new());
    let c = tool_check("tool.get_hierarchy", "get_hierarchy", Ok(&good), JsonValue::Null, PayloadRule::Hierarchy);
    assert!(c.passed);
    assert_eq!(c.summary, "get_hierarchy returned a valid live UE response");
    let refused = output(
        true,
        Some(obj(vec![("ok", JsonValue::Bool(false)), ("hierarchy", JsonValue::Array(Vec::new()))])),
        Vec::new(),
    );
    let c = tool_check("n", "get_hierarchy", Ok(&refused), JsonValue::Null, PayloadRule::Hierarchy);
    assert!(!c.passed);
    assert_eq!(c.summary, "get_hierarchy returned an unexpected payload");
    let c = tool_check("n", "search", Err("timeout".to_string()), JsonValue::Null, PayloadRule::CppCount);
    assert_eq!(c.summary, "search failed: timeout");
    assert!(matches!(c.details, JsonValue::String(ref s) if s == "timeout"));
}

#[test]
fn planned_calls_carry_their_arguments() {
    let cpp = cpp_tool_calls("ULyraHealthComponent");
    assert_eq!(cpp.len(), 2);
    assert_eq!(cpp[0].tool_name, "search");
    assert_eq!(cpp[0].arguments[0].0, "query");
    assert!(matches!(cpp[0].arguments[3].1, JsonValue::Number(JsonNumber::PosInt(25))));
    assert_eq!(cpp[1].check_name, "tool.find_cpp_class_usage");
    let h = header_tool_call("/s/H.h");
    assert_eq!(h.arguments.len(), 2);
    let bp = blueprint_tool_calls("/Game/Heroes/B_Hero");
    assert_eq!(bp.len(), 7);
    assert!(matches!(bp[0].arguments[0].1, JsonValue::String(ref s) if s == "B_Hero"));
    assert!(matches!(bp[0].arguments[2].1, JsonValue::String(ref s) if s == "project"));
    assert_eq!(bp[6].tool_name, "trace_reference_chain");
    assert_eq!(read_skill_call("s").arguments.len(), 1);
    let run = run_skill_call();
    assert_eq!(run.arguments.len(), 4);
    assert!(run.arguments[3].1.is_object());
}

#[test]
fn skills_are_listed_from_the_payload() {
    let payload = obj(vec![(
        "skills",
        JsonValue::Array(vec![obj(vec![("name", text("a"))]), obj(vec![]), obj(vec![("name", text("b"))])]),
    )]);
    assert_eq!(listed_skill_names(&payload), vec!["a".to_string(), "b".to_string()]);
    let out = output(true, Some(payload), Vec::new());
    let (c, names) = skill_list_check(Ok(&out));
    assert!(c.passed);
    assert_eq!(c.summary, "listed 2 Unreal skill(s)");
    assert_eq!(names.len(), 2);
    let (c, names) = skill_list_check(Err("down".to_string()));
    assert_eq!(c.summary, "list_unreal_skill failed: down");
    assert!(names.is_empty());
}

#[test]
fn step_checks_and_notes() {
    let c = compile_check(Ok("built".to_string()));
    assert!(c.passed);
    let c = compile_check(Err("boom".to_string()));
    assert_eq!(c.summary, "compile failed: boom");
    let launch = LaunchResult {
        project_name: "L".to_string(),
        pid: 1,
        reused_existing: false,
        endpoint_url: String::new(),
        stdout_log: String::new(),
        stderr_log: String::new(),
        health: None,
        notes: Vec::new(),
    };
    let c = launch_check(Ok(&launch), JsonValue::Null);
    assert!(!c.passed);
    let d = DiscoveryResult { active_instance_key: None, instances: Vec::new() };
    assert_eq!(discovery_check(Ok(&d), JsonValue::Null).summary, "no reachable Unreal instances were discovered");
    assert!(sync_check(Ok("x".to_string())).passed);
    assert_eq!(crash_check(Ok(false), JsonValue::Null).summary, "crash report lookup succeeded (no crash reports present)");
    assert_eq!(verification_note(1700), "verify-ue 1700");
    assert_eq!(launched_note(42), "Launched Unreal Editor with PID 42.");
    assert_eq!(stop_after_note(Ok("k"), Err("unused")), "Stopped editor instance 'k' after verification.");
    assert_eq!(
        stop_after_note(Err("g"), Err("f")),
        "Failed to stop editor after verification: graceful=g; forced=f"
    );
    let checks = vec![compile_check(Ok(String::new())), compile_check(Err(String::new()))];
    assert!(!overall_success(&checks));
    assert!(overall_success(&Vec::new()));
}

#[test]
fn sample_plan_follows_the_samples_found() {
    let none = VerificationSamples { cpp_header: None, cpp_symbol: None, blueprint_asset: None, skill_name: None };
    let (calls, notes) = sample_tool_calls(&none);
    assert!(calls.is_empty());
    assert_eq!(
        notes,
        vec![
            "Skipped C++ verification because no representative header was found.".to_string(),
            "Skipped Blueprint/asset verification because no representative .uasset was found.".to_string(),
        ]
    );
    let all = VerificationSamples {
        cpp_header: Some("/p/Source/A.h".to_string()),
        cpp_symbol: Some("AHero".to_string()),
        blueprint_asset: Some("/Game/BP_Hero".to_string()),
        skill_name: None,
    };
    let (calls, notes) = sample_tool_calls(&all);
    let names: Vec<&str> = calls.iter().map(|c| c.check_name.as_str()).collect();
    assert_eq!(
        names,
        vec![
            "tool.search_cpp",
            "tool.find_cpp_class_usage",
            "tool.detect_ue_patterns",
            "tool.search_blueprint",
            "tool.get_hierarchy",
            "tool.get_details_blueprint",
            "tool.get_details_asset",
            "tool.get_blueprint_graph",
            "tool.get_references",
            "tool.trace_reference_chain",
        ]
    );
    assert!(notes.is_empty());
    let header_only = VerificationSamples {
        cpp_header: Some("/p/Source/A.h".to_string()),
        cpp_symbol: None,
        blueprint_asset: None,
        skill_name: None,
    };
    let (calls, notes) = sample_tool_calls(&header_only);
    assert_eq!(calls.len(), 1);
    assert_eq!(calls[0].tool_name, "detect_ue_patterns");
    assert_eq!(notes.len(), 2);
}

#[test]
fn the_sample_skill_comes_before_the_listed_ones() {
    assert_eq!(skill_to_read(&Some("a".to_string()), &vec!["b".to_string()]), Some("a".to_string()));
    assert_eq!(skill_to_read(&None, &vec!["b".to_string(), "c".to_string()]), Some("b".to_string()));
    assert_eq!(skill_to_read(&None, &vec![]), None);
}

fn run(compile: bool, stop_after: bool, healthy: bool, listed: bool, found: bool, stopped: bool) -> Vec<VerifyStep> {
    let mut steps = Vec::new();
    let mut step = first_verify_step();
    while step != VerifyStep::Done {
        steps.push(step);
        let event = match step {
            VerifyStep::Probe => VerifyEvent::Healthy(healthy),
            VerifyStep::ListSkills => VerifyEvent::Skills { listed, found },
            VerifyStep::Stop => VerifyEvent::Stopped(stopped),
            _ => VerifyEvent::Finished,
        };
        step = next_verify_step(step, event, compile, stop_after);
        assert!(steps.len() < 30);
    }
    steps
}

#[test]
fn a_run_takes_every_check_and_only_the_asked_for_extras() {
    assert_eq!(
        run(false, false, false, false, false, true),
        vec![VerifyStep::HubStatus, VerifyStep::DiscoverFirst, VerifyStep::Probe, VerifyStep::Launch, VerifyStep::Discover, VerifyStep::Health, VerifyStep::ListTools, VerifyStep::SampleCalls, VerifyStep::ListSkills, VerifyStep::RunSkill, VerifyStep::Session, VerifyStep::Sync, VerifyStep::CrashReport]
    );
    assert_eq!(
        run(true, true, true, true, true, false),
        vec![VerifyStep::HubStatus, VerifyStep::Compile, VerifyStep::DiscoverFirst, VerifyStep::Probe, VerifyStep::ReuseNote, VerifyStep::Discover, VerifyStep::Health, VerifyStep::ListTools, VerifyStep::SampleCalls, VerifyStep::ListSkills, VerifyStep::ReadSkill, VerifyStep::RunSkill, VerifyStep::Session, VerifyStep::Sync, VerifyStep::CrashReport, VerifyStep::Stop, VerifyStep::ForcedStop]
    );
    let r = run(false, true, true, true, false, true);
    assert!(r.contains(&VerifyStep::SkippedReadNote) && !r.contains(&VerifyStep::ReadSkill));
    assert_eq!(r.last(), Some(&VerifyStep::Stop));
}
