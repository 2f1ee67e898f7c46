//! The checks of a live verification run: what each step's outcome counts as, the tool
//! calls it makes on the samples, and how their payloads are judged.
use vstd::prelude::*;

use crate::config::{opt_view, strings_view};
use crate::json::{
    entries_view, spec_as_bool, spec_as_str, spec_as_u64, spec_member, JsonNumber, JsonValue,
    JsonView, NumberView,
};
use crate::json_args::{parse_strict_json, strict_json};
use crate::lifecycle::{
    instance_health_is_healthy, DiscoveryResult, InstanceHealthReport, LaunchResult,
    StopEditorResult,
};
use crate::orchestrator::{HubStatus, SessionReport};
use crate::samples::{asset_name, guess_scope_from_asset_path, spec_asset_name, spec_guess_scope};
use crate::state::notes_view;
use crate::text::{
    chars_of, decimal, owned, push_decimal, push_str, str_eq, string_from_chars,
};
use crate::ue_client::{ToolCallOutput, ToolCallOutputView, ToolDescriptor};

verus! {

broadcast use vstd::string::group_string_axioms;

// ---------------------------------------------------------------------------
// Checks and samples
// ---------------------------------------------------------------------------

/// One check of a verification run.
pub struct VerificationCheck {
    pub name: String,
    pub passed: bool,
    pub summary: String,
    pub details: JsonValue,
}

/// The project files and skill a verification run exercises.
pub struct VerificationSamples {
    pub cpp_header: Option<String>,
    pub cpp_symbol: Option<String>,
    pub blueprint_asset: Option<String>,
    pub skill_name: Option<String>,
}

/// The report of a verification run.
pub struct VerifyUeReport {
    pub project_name: String,
    pub endpoint_url: String,
    pub wait_seconds: u64,
    pub compile_requested: bool,
    pub compile_output: Option<String>,
    pub launch: Option<LaunchResult>,
    pub stop: Option<StopEditorResult>,
    pub hub_status: Option<HubStatus>,
    pub discovery: Option<DiscoveryResult>,
    pub health: Option<InstanceHealthReport>,
    pub tool_names: Vec<String>,
    pub samples: VerificationSamples,
    pub notes: Vec<String>,
    pub checks: Vec<VerificationCheck>,
    pub overall_success: bool,
}

fn jstr(s: &str) -> (r: JsonValue)
    ensures
        r@ == JsonView::Str(s@),
{
    JsonValue::String(owned(s))
}

fn check(name: &str, passed: bool, summary: String, details: JsonValue) -> (r: VerificationCheck)
    ensures
        r.name@ == name@,
        r.passed == passed,
        r.summary == summary,
        r.details == details,
{
    VerificationCheck { name: owned(name), passed, summary, details }
}

fn failed_check(name: &str, prefix: &str, error: String) -> (r: VerificationCheck)
    ensures
        r.name@ == name@,
        !r.passed,
        r.summary@ == prefix@ + error@,
        r.details@ == JsonView::Str(error@),
{
    let mut v = chars_of(prefix);
    push_str(&mut v, error.as_str());
    let summary = string_from_chars(&v);
    VerificationCheck { name: owned(name), passed: false, summary, details: JsonValue::String(error) }
}

/// Whether every check passed.
pub fn overall_success(checks: &Vec<VerificationCheck>) -> (r: bool)
    ensures
        r == forall|i: int| 0 <= i < checks@.len() ==> (#[trigger] checks@[i]).passed,
{
    let mut i: usize = 0;
    while i < checks.len()
        invariant
            0 <= i <= checks@.len(),
            forall|j: int| 0 <= j < i ==> (#[trigger] checks@[j]).passed,
        decreases checks@.len() - i,
    {
        if !checks[i].passed {
            return false;
        }
        i = i + 1;
    }
    true
}

// ---------------------------------------------------------------------------
// Tools and payloads
// ---------------------------------------------------------------------------

pub open spec fn expected_tools() -> Seq<Seq<char>> {
    seq![
        "search"@,
        "get_hierarchy"@,
        "get_references"@,
        "get_details"@,
        "get_blueprint_graph"@,
        "detect_ue_patterns"@,
        "trace_reference_chain"@,
        "find_cpp_class_usage"@,
        "list_unreal_skill"@,
        "read_unreal_skill"@,
        "run_unreal_skill"@,
    ]
}

pub open spec fn tool_names(tools: Seq<ToolDescriptor>) -> Seq<Seq<char>> {
    tools.map_values(|t: ToolDescriptor| t.name@)
}

/// The expected tools among `names[..n]` that no tool of `tools` is named, in order.
pub open spec fn missing_among(names: Seq<Seq<char>>, tools: Seq<Seq<char>>, n: int) -> Seq<Seq<char>>
    decreases n,
{
    if n <= 0 {
        Seq::empty()
    } else {
        let rest = missing_among(names, tools, n - 1);
        if tools.contains(names[n - 1]) {
            rest
        } else {
            rest.push(names[n - 1])
        }
    }
}

fn expected_tool_list() -> (r: Vec<&'static str>)
    ensures
        r@.len() == 11,
        r@.map_values(|s: &str| s@) == expected_tools(),
{
    let r = vec![
        "search",
        "get_hierarchy",
        "get_references",
        "get_details",
        "get_blueprint_graph",
        "detect_ue_patterns",
        "trace_reference_chain",
        "find_cpp_class_usage",
        "list_unreal_skill",
        "read_unreal_skill",
        "run_unreal_skill",
    ];
    assert(r@.map_values(|s: &str| s@) =~= expected_tools());
    r
}

fn has_tool_named(tools: &Vec<ToolDescriptor>, name: &str) -> (r: bool)
    ensures
        r == tool_names(tools@).contains(name@),
{
    let mut i: usize = 0;
    while i < tools.len()
        invariant
            0 <= i <= tools@.len(),
            forall|j: int| 0 <= j < i ==> (#[trigger] tools@[j]).name@ != name@,
        decreases tools@.len() - i,
    {
        if str_eq(tools[i].name.as_str(), name) {
            assert(tool_names(tools@)[i as int] == name@);
            return true;
        }
        i = i + 1;
    }
    proof {
        if tool_names(tools@).contains(name@) {
            let k = choose|k: int| 0 <= k < tool_names(tools@).len() && tool_names(tools@)[k] == name@;
            assert(tools@[k].name@ == name@);
        }
    }
    false
}

/// The expected tools that `tools` lacks, in the order they are expected.
pub fn missing_expected_tools(tools: &Vec<ToolDescriptor>) -> (r: Vec<String>)
    ensures
        strings_view(r@) == missing_among(expected_tools(), tool_names(tools@), 11),
{
    let expected = expected_tool_list();
    let mut out: Vec<String> = Vec::new();
    let mut i: usize = 0;
    while i < expected.len()
        invariant
            0 <= i <= expected@.len(),
            expected@.len() == 11,
            expected@.map_values(|s: &str| s@) == expected_tools(),
            strings_view(out@) == missing_among(expected_tools(), tool_names(tools@), i as int),
        decreases expected@.len() - i,
    {
        let name = expected[i];
        assert(name@ == expected_tools()[i as int]);
        if !has_tool_named(tools, name) {
            let ghost before = strings_view(out@);
            out.push(owned(name));
            assert(strings_view(out@) =~= before.push(name@));
        }
        i = i + 1;
    }
    out
}

/// The JSON payload that the content items `items[i..]` carry: an item's `json` member,
/// or its `text` member read as JSON.
pub open spec fn payload_from_items(items: Seq<JsonView>, i: int) -> Option<JsonView>
    decreases items.len() - i,
{
    if !(0 <= i < items.len()) {
        None
    } else {
        match spec_member(items[i], "json"@) {
            Some(j) => Some(j),
            None => match spec_member(items[i], "text"@) {
                Some(t) => match spec_as_str(t) {
                    Some(s) => match strict_json(s) {
                        Some(v) => Some(v),
                        None => payload_from_items(items, i + 1),
                    },
                    None => payload_from_items(items, i + 1),
                },
                None => payload_from_items(items, i + 1),
            },
        }
    }
}

/// The payload of a tool call: its structured content, else that of its content items.
pub open spec fn spec_tool_payload(o: ToolCallOutputView) -> Option<JsonView> {
    match o.structured_content {
        Some(v) => Some(v),
        None => payload_from_items(o.content, 0),
    }
}

pub fn extract_tool_payload(output: &ToolCallOutput) -> (r: Option<JsonValue>)
    ensures
        match r {
            Some(v) => spec_tool_payload(output@) == Some(v@),
            None => spec_tool_payload(output@) is None,
        },
{
    match &output.structured_content {
        Some(v) => {
            return Some(crate::json::clone_json(v));
        },
        None => {},
    }
    let ghost items = output@.content;
    let mut i: usize = 0;
    while i < output.content.len()
        invariant
            0 <= i <= output.content@.len(),
            items == output@.content,
            output@.structured_content is None,
            items.len() == output.content@.len(),
            forall|j: int| 0 <= j < items.len() ==> items[j] == (#[trigger] output.content@[j])@,
            spec_tool_payload(output@) == payload_from_items(items, i as int),
        decreases output.content@.len() - i,
    {
        let item = &output.content[i];
        match item.get("json") {
            Some(j) => {
                return Some(crate::json::clone_json(j));
            },
            None => {},
        }
        match item.get("text") {
            Some(t) => match t.as_str() {
                Some(s) => match parse_strict_json(s) {
                    Some(v) => {
                        return Some(v);
                    },
                    None => {},
                },
                None => {},
            },
            None => {},
        }
        i = i + 1;
    }
    None
}

/// `ok` of a payload when it is a boolean.
pub open spec fn spec_declared_success(p: JsonView) -> Option<bool> {
    match spec_member(p, "ok"@) {
        Some(v) => spec_as_bool(v),
        None => None,
    }
}

pub fn payload_declares_success(payload: &JsonValue) -> (r: Option<bool>)
    ensures
        r == spec_declared_success(payload@),
{
    match payload.get("ok") {
        Some(v) => v.as_bool(),
        None => None,
    }
}

/// What a tool's payload must show for its check to pass.
#[derive(Clone, Copy)]
pub enum PayloadRule {
    /// `cpp_count` is a positive integer.
    CppCount,
    /// `ok` is not false and `as_parent_class`, when present, is an array.
    ClassUsage,
    /// `ok` is not false, or Blueprint functions or properties are listed.
    Patterns,
    /// `blueprint_count` is a positive integer.
    BlueprintCount,
    /// `hierarchy` is an array.
    Hierarchy,
    /// `ok` is not false.
    NotRefused,
    /// `type` is present, or `ok` is true.
    AssetDetails,
    /// `summary` is present, or `ok` is true.
    GraphSummary,
    /// `incoming` or `outgoing` is an array.
    References,
    /// `chain` is an object.
    Chain,
    /// `content` is a non-empty string.
    SkillContent,
    /// `ok` is not false and `result` is present.
    SkillRan,
}

pub open spec fn ok_or(p: JsonView, d: bool) -> bool {
    match spec_declared_success(p) {
        Some(b) => b,
        None => d,
    }
}

pub open spec fn has_member(p: JsonView, k: Seq<char>) -> bool {
    spec_member(p, k) is Some
}

pub open spec fn member_is_array(p: JsonView, k: Seq<char>) -> bool {
    spec_member(p, k) matches Some(v) && v is Array
}

pub open spec fn positive_count(p: JsonView, k: Seq<char>) -> bool {
    spec_member(p, k) matches Some(v) && spec_as_u64(v) matches Some(n) && n > 0
}

pub open spec fn spec_rule_holds(rule: PayloadRule, p: JsonView) -> bool {
    match rule {
        PayloadRule::CppCount => positive_count(p, "cpp_count"@),
        PayloadRule::ClassUsage => ok_or(p, true) && (!has_member(p, "as_parent_class"@)
            || member_is_array(p, "as_parent_class"@)),
        PayloadRule::Patterns => ok_or(p, true) || has_member(p, "blueprint_callable_functions"@)
            || has_member(p, "blueprint_properties"@),
        PayloadRule::BlueprintCount => positive_count(p, "blueprint_count"@),
        PayloadRule::Hierarchy => member_is_array(p, "hierarchy"@),
        PayloadRule::NotRefused => ok_or(p, true),
        PayloadRule::AssetDetails => has_member(p, "type"@) || ok_or(p, false),
        PayloadRule::GraphSummary => has_member(p, "summary"@) || ok_or(p, false),
        PayloadRule::References => member_is_array(p, "incoming"@) || member_is_array(
            p,
            "outgoing"@,
        ),
        PayloadRule::Chain => spec_member(p, "chain"@) matches Some(v) && v is Object,
        PayloadRule::SkillContent => spec_member(p, "content"@) matches Some(v) && spec_as_str(
            v,
        ) matches Some(s) && s.len() > 0,
        PayloadRule::SkillRan => ok_or(p, true) && has_member(p, "result"@),
    }
}

fn ok_or_exec(p: &JsonValue, d: bool) -> (r: bool)
    ensures
        r == ok_or(p@, d),
{
    match payload_declares_success(p) {
        Some(b) => b,
        None => d,
    }
}

fn member_is_array_exec(p: &JsonValue, k: &str) -> (r: bool)
    ensures
        r == member_is_array(p@, k@),
{
    match p.get(k) {
        Some(v) => v.is_array(),
        None => false,
    }
}

fn positive_count_exec(p: &JsonValue, k: &str) -> (r: bool)
    ensures
        r == positive_count(p@, k@),
{
    match p.get(k) {
        Some(v) => match v.as_u64() {
            Some(n) => n > 0,
            None => false,
        },
        None => false,
    }
}

/// Whether `payload` shows what `rule` asks.
pub fn rule_holds(rule: PayloadRule, payload: &JsonValue) -> (r: bool)
    ensures
        r == spec_rule_holds(rule, payload@),
{
    match rule {
        PayloadRule::CppCount => positive_count_exec(payload, "cpp_count"),
        PayloadRule::ClassUsage => ok_or_exec(payload, true) && match payload.get("as_parent_class") {
            Some(v) => v.is_array(),
            None => true,
        },
        PayloadRule::Patterns => ok_or_exec(payload, true) || payload.get(
            "blueprint_callable_functions",
        ).is_some() || payload.get("blueprint_properties").is_some(),
        PayloadRule::BlueprintCount => positive_count_exec(payload, "blueprint_count"),
        PayloadRule::Hierarchy => member_is_array_exec(payload, "hierarchy"),
        PayloadRule::NotRefused => ok_or_exec(payload, true),
        PayloadRule::AssetDetails => payload.get("type").is_some() || ok_or_exec(payload, false),
        PayloadRule::GraphSummary => payload.get("summary").is_some() || ok_or_exec(payload, false),
        PayloadRule::References => member_is_array_exec(payload, "incoming")
            || member_is_array_exec(payload, "outgoing"),
        PayloadRule::Chain => match payload.get("chain") {
            Some(v) => v.is_object(),
            None => false,
        },
        PayloadRule::SkillContent => match payload.get("content") {
            Some(v) => match v.as_str() {
                Some(s) => !s.is_empty(),
                None => false,
            },
            None => false,
        },
        PayloadRule::SkillRan => ok_or_exec(payload, true) && payload.get("result").is_some(),
    }
}

/// The payload a check judges: the call's payload, else null.
pub open spec fn judged_payload(o: ToolCallOutputView) -> JsonView {
    match spec_tool_payload(o) {
        Some(p) => p,
        None => JsonView::Null,
    }
}

/// Whether a tool call passes its check: it succeeded, its payload does not declare
/// failure, and the payload shows what `rule` asks.
pub open spec fn spec_tool_passed(o: ToolCallOutputView, rule: PayloadRule) -> bool {
    o.success && ok_or(judged_payload(o), true) && spec_rule_holds(rule, judged_payload(o))
}

/// The check of one tool call `check_name` of tool `tool_name`: `outcome` is the call's
/// output or its error, `details` what the check shows of a completed call.
pub fn tool_check(
    check_name: &str,
    tool_name: &str,
    outcome: Result<&ToolCallOutput, String>,
    details: JsonValue,
    rule: PayloadRule,
) -> (r: VerificationCheck)
    ensures
        r.name@ == check_name@,
        match outcome {
            Ok(o) => {
                &&& r.passed == spec_tool_passed(o@, rule)
                &&& r.summary@ == tool_name@ + (if r.passed {
                    " returned a valid live UE response"@
                } else {
                    " returned an unexpected payload"@
                })
                &&& r.details == details
            },
            Err(e) => !r.passed && r.summary@ == tool_name@ + " failed: "@ + e@ && r.details@
                == JsonView::Str(e@),
        },
{
    match outcome {
        Ok(o) => {
            let payload = match extract_tool_payload(o) {
                Some(p) => p,
                None => JsonValue::Null,
            };
            let passed = o.success && ok_or_exec(&payload, true) && rule_holds(rule, &payload);
            let mut v = chars_of(tool_name);
            if passed {
                push_str(&mut v, " returned a valid live UE response");
            } else {
                push_str(&mut v, " returned an unexpected payload");
            }
            check(check_name, passed, string_from_chars(&v), details)
        },
        Err(e) => {
            let mut v = chars_of(tool_name);
            push_str(&mut v, " failed: ");
            push_str(&mut v, e.as_str());
            let summary = string_from_chars(&v);
            VerificationCheck {
                name: owned(check_name),
                passed: false,
                summary,
                details: JsonValue::String(e),
            }
        },
    }
}

// ---------------------------------------------------------------------------
// The tool calls on the samples
// ---------------------------------------------------------------------------

/// A tool call that a verification run makes.
pub struct PlannedToolCall {
    pub check_name: String,
    pub tool_name: String,
    pub arguments: Vec<(String, JsonValue)>,
    pub rule: PayloadRule,
}

/// A planned call as its check name, tool name, arguments and rule.
pub open spec fn planned(c: PlannedToolCall) -> (Seq<char>, Seq<char>, Seq<(Seq<char>, JsonView)>, PayloadRule) {
    (c.check_name@, c.tool_name@, entries_view(c.arguments@), c.rule)
}

/// The C++ calls on the sample class `symbol`: a project search for it, then its usages.
pub open spec fn spec_cpp_calls(symbol: Seq<char>) -> Seq<
    (Seq<char>, Seq<char>, Seq<(Seq<char>, JsonView)>, PayloadRule),
> {
    seq![
        (
            "tool.search_cpp"@,
            "search"@,
            seq![
                ("query"@, jtext(symbol)),
                ("domain"@, jtext("cpp"@)),
                ("scope"@, jtext("project"@)),
                ("max_results"@, jint(25)),
            ],
            PayloadRule::CppCount,
        ),
        (
            "tool.find_cpp_class_usage"@,
            "find_cpp_class_usage"@,
            seq![("cpp_class"@, jtext(symbol))],
            PayloadRule::ClassUsage,
        ),
    ]
}

/// The call on the sample header: the Unreal patterns it declares.
pub open spec fn spec_header_call(header: Seq<char>) -> (
    Seq<char>,
    Seq<char>,
    Seq<(Seq<char>, JsonView)>,
    PayloadRule,
) {
    (
        "tool.detect_ue_patterns"@,
        "detect_ue_patterns"@,
        seq![("file_path"@, jtext(header)), ("format"@, jtext("summary"@))],
        PayloadRule::Patterns,
    )
}

/// The calls on the sample Blueprint asset `asset`.
pub open spec fn spec_blueprint_calls(asset: Seq<char>) -> Seq<
    (Seq<char>, Seq<char>, Seq<(Seq<char>, JsonView)>, PayloadRule),
> {
    seq![
        (
            "tool.search_blueprint"@,
            "search"@,
            seq![
                ("query"@, jtext(spec_asset_name(asset))),
                ("domain"@, jtext("blueprint"@)),
                ("scope"@, jtext(spec_guess_scope(asset))),
                ("max_results"@, jint(25)),
            ],
            PayloadRule::BlueprintCount,
        ),
        (
            "tool.get_hierarchy"@,
            "get_hierarchy"@,
            seq![("name"@, jtext(asset)), ("domain"@, jtext("blueprint"@))],
            PayloadRule::Hierarchy,
        ),
        (
            "tool.get_details_blueprint"@,
            "get_details"@,
            seq![("path"@, jtext(asset)), ("domain"@, jtext("blueprint"@))],
            PayloadRule::NotRefused,
        ),
        (
            "tool.get_details_asset"@,
            "get_details"@,
            seq![("path"@, jtext(asset)), ("domain"@, jtext("asset"@))],
            PayloadRule::AssetDetails,
        ),
        (
            "tool.get_blueprint_graph"@,
            "get_blueprint_graph"@,
            seq![
                ("bp_path"@, jtext(asset)),
                ("graph_name"@, jtext("EventGraph"@)),
                ("format"@, jtext("summary"@)),
            ],
            PayloadRule::GraphSummary,
        ),
        (
            "tool.get_references"@,
            "get_references"@,
            seq![
                ("path"@, jtext(asset)),
                ("domain"@, jtext("asset"@)),
                ("direction"@, jtext("both"@)),
            ],
            PayloadRule::References,
        ),
        (
            "tool.trace_reference_chain"@,
            "trace_reference_chain"@,
            seq![
                ("start_asset"@, jtext(asset)),
                ("max_depth"@, jint(2)),
                ("direction"@, jtext("both"@)),
            ],
            PayloadRule::Chain,
        ),
    ]
}

pub open spec fn jint(n: int) -> JsonView {
    JsonView::Number(NumberView::Int(n))
}

pub open spec fn jtext(s: Seq<char>) -> JsonView {
    JsonView::Str(s)
}

fn plan(check_name: &str, tool_name: &str, arguments: Vec<(String, JsonValue)>, rule: PayloadRule) -> (r:
    PlannedToolCall)
    ensures
        planned(r) == (check_name@, tool_name@, entries_view(arguments@), rule),
{
    PlannedToolCall { check_name: owned(check_name), tool_name: owned(tool_name), arguments, rule }
}

fn arg_str(args: &mut Vec<(String, JsonValue)>, k: &str, v: &str)
    ensures
        entries_view(final(args)@) == entries_view(old(args)@).push((k@, jtext(v@))),
{
    let ghost before = entries_view(args@);
    args.push((owned(k), jstr(v)));
    assert(entries_view(args@) =~= before.push((k@, jtext(v@))));
}

fn arg_value(args: &mut Vec<(String, JsonValue)>, k: &str, v: JsonValue)
    ensures
        entries_view(final(args)@) == entries_view(old(args)@).push((k@, v@)),
{
    let ghost before = entries_view(args@);
    let ghost vv = v@;
    args.push((owned(k), v));
    assert(entries_view(args@) =~= before.push((k@, vv)));
}

fn empty_args() -> (r: Vec<(String, JsonValue)>)
    ensures
        entries_view(r@) == Seq::<(Seq<char>, JsonView)>::empty(),
{
    let r: Vec<(String, JsonValue)> = Vec::new();
    assert(entries_view(r@) =~= Seq::<(Seq<char>, JsonView)>::empty());
    r
}

/// The C++ calls on the sample class `symbol`: a project search for it, then its usages.
pub fn cpp_tool_calls(symbol: &str) -> (r: Vec<PlannedToolCall>)
    ensures
        r@.map_values(|c: PlannedToolCall| planned(c)) == spec_cpp_calls(symbol@),
{
    let mut a = empty_args();
    arg_str(&mut a, "query", symbol);
    arg_str(&mut a, "domain", "cpp");
    arg_str(&mut a, "scope", "project");
    arg_value(&mut a, "max_results", JsonValue::Number(JsonNumber::PosInt(25)));
    let mut b = empty_args();
    arg_str(&mut b, "cpp_class", symbol);
    assert(entries_view(a@) =~= seq![
        ("query"@, jtext(symbol@)),
        ("domain"@, jtext("cpp"@)),
        ("scope"@, jtext("project"@)),
        ("max_results"@, jint(25)),
    ]);
    assert(entries_view(b@) =~= seq![("cpp_class"@, jtext(symbol@))]);
    let mut r: Vec<PlannedToolCall> = Vec::new();
    r.push(plan("tool.search_cpp", "search", a, PayloadRule::CppCount));
    r.push(plan("tool.find_cpp_class_usage", "find_cpp_class_usage", b, PayloadRule::ClassUsage));
    assert(r@.map_values(|c: PlannedToolCall| planned(c)) =~= spec_cpp_calls(symbol@));
    r
}

/// The call on the sample header: the Unreal patterns it declares.
pub fn header_tool_call(header: &str) -> (r: PlannedToolCall)
    ensures
        planned(r) == spec_header_call(header@),
{
    let mut a = empty_args();
    arg_str(&mut a, "file_path", header);
    arg_str(&mut a, "format", "summary");
    plan("tool.detect_ue_patterns", "detect_ue_patterns", a, PayloadRule::Patterns)
}

/// The calls on the sample Blueprint asset `asset`.
pub fn blueprint_tool_calls(asset: &str) -> (r: Vec<PlannedToolCall>)
    ensures
        r@.map_values(|c: PlannedToolCall| planned(c)) == spec_blueprint_calls(asset@),
{
    let name = asset_name(asset);
    let scope = guess_scope_from_asset_path(asset);
    let mut a1 = empty_args();
    arg_str(&mut a1, "query", name.as_str());
    arg_str(&mut a1, "domain", "blueprint");
    arg_str(&mut a1, "scope", scope);
    arg_value(&mut a1, "max_results", JsonValue::Number(JsonNumber::PosInt(25)));
    let mut a2 = empty_args();
    arg_str(&mut a2, "name", asset);
    arg_str(&mut a2, "domain", "blueprint");
    let mut a3 = empty_args();
    arg_str(&mut a3, "path", asset);
    arg_str(&mut a3, "domain", "blueprint");
    let mut a4 = empty_args();
    arg_str(&mut a4, "path", asset);
    arg_str(&mut a4, "domain", "asset");
    let mut a5 = empty_args();
    arg_str(&mut a5, "bp_path", asset);
    arg_str(&mut a5, "graph_name", "EventGraph");
    arg_str(&mut a5, "format", "summary");
    let mut a6 = empty_args();
    arg_str(&mut a6, "path", asset);
    arg_str(&mut a6, "domain", "asset");
    arg_str(&mut a6, "direction", "both");
    let mut a7 = empty_args();
    arg_str(&mut a7, "start_asset", asset);
    arg_value(&mut a7, "max_depth", JsonValue::Number(JsonNumber::PosInt(2)));
    arg_str(&mut a7, "direction", "both");
    assert(entries_view(a1@) =~= seq![
        ("query"@, jtext(spec_asset_name(asset@))),
        ("domain"@, jtext("blueprint"@)),
        ("scope"@, jtext(spec_guess_scope(asset@))),
        ("max_results"@, jint(25)),
    ]);
    assert(entries_view(a2@) =~= seq![("name"@, jtext(asset@)), ("domain"@, jtext("blueprint"@))]);
    assert(entries_view(a3@) =~= seq![("path"@, jtext(asset@)), ("domain"@, jtext("blueprint"@))]);
    assert(entries_view(a4@) =~= seq![("path"@, jtext(asset@)), ("domain"@, jtext("asset"@))]);
    assert(entries_view(a5@) =~= seq![
        ("bp_path"@, jtext(asset@)),
        ("graph_name"@, jtext("EventGraph"@)),
        ("format"@, jtext("summary"@)),
    ]);
    assert(entries_view(a6@) =~= seq![
        ("path"@, jtext(asset@)),
        ("domain"@, jtext("asset"@)),
        ("direction"@, jtext("both"@)),
    ]);
    assert(entries_view(a7@) =~= seq![
        ("start_asset"@, jtext(asset@)),
        ("max_depth"@, jint(2)),
        ("direction"@, jtext("both"@)),
    ]);
    let mut r: Vec<PlannedToolCall> = Vec::new();
    r.push(plan("tool.search_blueprint", "search", a1, PayloadRule::BlueprintCount));
    r.push(plan("tool.get_hierarchy", "get_hierarchy", a2, PayloadRule::Hierarchy));
    r.push(plan("tool.get_details_blueprint", "get_details", a3, PayloadRule::NotRefused));
    r.push(plan("tool.get_details_asset", "get_details", a4, PayloadRule::AssetDetails));
    r.push(plan("tool.get_blueprint_graph", "get_blueprint_graph", a5, PayloadRule::GraphSummary));
    r.push(plan("tool.get_references", "get_references", a6, PayloadRule::References));
    r.push(plan("tool.trace_reference_chain", "trace_reference_chain", a7, PayloadRule::Chain));
    assert(r@.map_values(|c: PlannedToolCall| planned(c)) =~= spec_blueprint_calls(asset@));
    r
}

/// The calls a run makes on the samples it found, in order: the C++ calls on the sample
/// class, the call on the sample header, the calls on the sample Blueprint asset.
pub open spec fn spec_sample_calls(s: VerificationSamples) -> Seq<
    (Seq<char>, Seq<char>, Seq<(Seq<char>, JsonView)>, PayloadRule),
> {
    cpp_part(s) + header_part(s) + blueprint_part(s)
}

pub open spec fn cpp_part(s: VerificationSamples) -> Seq<
    (Seq<char>, Seq<char>, Seq<(Seq<char>, JsonView)>, PayloadRule),
> {
    match s.cpp_symbol {
        Some(x) => spec_cpp_calls(x@),
        None => Seq::empty(),
    }
}

pub open spec fn header_part(s: VerificationSamples) -> Seq<
    (Seq<char>, Seq<char>, Seq<(Seq<char>, JsonView)>, PayloadRule),
> {
    match s.cpp_header {
        Some(h) => seq![spec_header_call(h@)],
        None => Seq::empty(),
    }
}

pub open spec fn blueprint_part(s: VerificationSamples) -> Seq<
    (Seq<char>, Seq<char>, Seq<(Seq<char>, JsonView)>, PayloadRule),
> {
    match s.blueprint_asset {
        Some(a) => spec_blueprint_calls(a@),
        None => Seq::empty(),
    }
}

/// The notes of a run on the samples it did not find.
pub open spec fn spec_sample_notes(s: VerificationSamples) -> Seq<Seq<char>> {
    (if s.cpp_symbol is None {
        seq![run_note_text(RunNote::SkippedCpp)]
    } else {
        Seq::empty()
    }) + (if s.blueprint_asset is None {
        seq![run_note_text(RunNote::SkippedBlueprint)]
    } else {
        Seq::empty()
    })
}

/// The calls a run makes on `samples`, and its notes on the samples it lacks.
pub fn sample_tool_calls(samples: &VerificationSamples) -> (r: (Vec<PlannedToolCall>, Vec<String>))
    ensures
        r.0@.map_values(|c: PlannedToolCall| planned(c)) == spec_sample_calls(*samples),
        r.1@.map_values(|n: String| n@) == spec_sample_notes(*samples),
{
    let mut calls: Vec<PlannedToolCall> = Vec::new();
    let mut notes: Vec<String> = Vec::new();
    let ghost cpp = cpp_part(*samples);
    let ghost head = header_part(*samples);
    let ghost bp = blueprint_part(*samples);
    match &samples.cpp_symbol {
        Some(symbol) => {
            let mut c = cpp_tool_calls(symbol.as_str());
            calls.append(&mut c);
        },
        None => notes.push(owned(run_note(RunNote::SkippedCpp))),
    }
    assert(calls@.map_values(|c: PlannedToolCall| planned(c)) =~= cpp);
    let ghost after_cpp = calls@;
    match &samples.cpp_header {
        Some(header) => calls.push(header_tool_call(header.as_str())),
        None => {},
    }
    assert(calls@.map_values(|c: PlannedToolCall| planned(c)) =~= cpp + head) by {
        assert(calls@ =~= after_cpp + calls@.skip(after_cpp.len() as int));
    }
    let ghost after_head = calls@;
    match &samples.blueprint_asset {
        Some(asset) => {
            let mut b = blueprint_tool_calls(asset.as_str());
            let ghost bv = b@;
            calls.append(&mut b);
            assert(calls@ =~= after_head + bv);
            assert(calls@.map_values(|c: PlannedToolCall| planned(c)) =~= after_head.map_values(
                |c: PlannedToolCall| planned(c),
            ) + bv.map_values(|c: PlannedToolCall| planned(c)));
        },
        None => notes.push(owned(run_note(RunNote::SkippedBlueprint))),
    }
    assert(calls@.map_values(|c: PlannedToolCall| planned(c)) =~= cpp + head + bp);
    assert(notes@.map_values(|n: String| n@) =~= spec_sample_notes(*samples));
    (calls, notes)
}

/// The skill a run reads: the sample's skill when it has one, else the first skill the
/// skill list gave.
pub fn skill_to_read(sample: &Option<String>, listed: &Vec<String>) -> (r: Option<String>)
    ensures
        opt_view(r) == match *sample {
            Some(s) => Some(s@),
            None => if listed@.len() > 0 {
                Some(listed@[0]@)
            } else {
                None
            },
        },
{
    match sample {
        Some(s) => Some(s.clone()),
        None => if listed.len() > 0 {
            Some(listed[0].clone())
        } else {
            None
        },
    }
}

/// The call that reads skill `skill_name`.
pub fn read_skill_call(skill_name: &str) -> (r: PlannedToolCall)
    ensures
        planned(r) == (
            "tool.read_unreal_skill"@,
            "read_unreal_skill"@,
            seq![("skill_name"@, jtext(skill_name@))],
            PayloadRule::SkillContent,
        ),
{
    let mut a = empty_args();
    arg_str(&mut a, "skill_name", skill_name);
    plan("tool.read_unreal_skill", "read_unreal_skill", a, PayloadRule::SkillContent)
}

/// The call that runs a small Python snippet as a skill.
pub fn run_skill_call() -> (r: PlannedToolCall)
    ensures
        planned(r) == (
            "tool.run_unreal_skill"@,
            "run_unreal_skill"@,
            seq![
                ("python"@, jtext("RESULT = {'ok': True, 'source': 'verify-ue'}"@)),
                ("skill_name"@, JsonView::Null),
                ("script"@, JsonView::Null),
                ("args"@, JsonView::Object(Seq::empty())),
            ],
            PayloadRule::SkillRan,
        ),
{
    let mut a = empty_args();
    arg_str(&mut a, "python", "RESULT = {'ok': True, 'source': 'verify-ue'}");
    arg_value(&mut a, "skill_name", JsonValue::Null);
    arg_value(&mut a, "script", JsonValue::Null);
    let inner = empty_args();
    let obj = JsonValue::Object(inner);
    proof {
        crate::json::lemma_view_unfold(obj);
    }
    arg_value(&mut a, "args", obj);
    plan("tool.run_unreal_skill", "run_unreal_skill", a, PayloadRule::SkillRan)
}


// ---------------------------------------------------------------------------
// The steps of a verification run
// ---------------------------------------------------------------------------

/// The check of the hub's status: passed when a project is active.
pub fn hub_status_check(outcome: Result<&HubStatus, String>, details: JsonValue) -> (r:
    VerificationCheck)
    ensures
        r.name@ == "hub_status"@,
        match outcome {
            Ok(st) => {
                &&& r.passed == (st.active_project@.len() > 0)
                &&& r.summary@ == (if r.passed {
                    "active project is '"@ + st.active_project@ + "'"@
                } else {
                    "hub has no active project"@
                })
                &&& r.details == details
            },
            Err(e) => !r.passed && r.summary@ == "failed to read hub status: "@ + e@ && r.details@
                == JsonView::Str(e@),
        },
{
    match outcome {
        Ok(st) => {
            let passed = !st.active_project.as_str().is_empty();
            let summary = if passed {
                crate::text::concat3("active project is '", st.active_project.as_str(), "'")
            } else {
                owned("hub has no active project")
            };
            check("hub_status", passed, summary, details)
        },
        Err(e) => failed_check("hub_status", "failed to read hub status: ", e),
    }
}

/// The check of the build that precedes a launch.
pub fn compile_check(outcome: Result<String, String>) -> (r: VerificationCheck)
    ensures
        r.name@ == "compile_project"@,
        match outcome {
            Ok(o) => r.passed && r.summary@ == "project compiled successfully"@ && r.details@
                == JsonView::Str(o@),
            Err(e) => !r.passed && r.summary@ == "compile failed: "@ + e@ && r.details@
                == JsonView::Str(e@),
        },
{
    match outcome {
        Ok(o) => check(
            "compile_project",
            true,
            owned("project compiled successfully"),
            JsonValue::String(o),
        ),
        Err(e) => failed_check("compile_project", "compile failed: ", e),
    }
}

/// The check of a launch: passed when the target became healthy.
pub fn launch_check(outcome: Result<&LaunchResult, String>, details: JsonValue) -> (r:
    VerificationCheck)
    ensures
        r.name@ == "launch_editor"@,
        match outcome {
            Ok(l) => {
                &&& r.passed == (l.health is Some)
                &&& r.summary@ == (if r.passed {
                    "editor launched and MCP endpoint became healthy"@
                } else {
                    "editor launched but MCP endpoint did not report healthy within wait window"@
                })
                &&& r.details == details
            },
            Err(e) => !r.passed && r.summary@ == "failed to launch editor: "@ + e@ && r.details@
                == JsonView::Str(e@),
        },
{
    match outcome {
        Ok(l) => {
            let passed = l.health.is_some();
            let summary = if passed {
                owned("editor launched and MCP endpoint became healthy")
            } else {
                owned("editor launched but MCP endpoint did not report healthy within wait window")
            };
            check("launch_editor", passed, summary, details)
        },
        Err(e) => failed_check("launch_editor", "failed to launch editor: ", e),
    }
}

/// The check of a discovery round: passed when an instance was found.
pub fn discovery_check(outcome: Result<&DiscoveryResult, String>, details: JsonValue) -> (r:
    VerificationCheck)
    ensures
        r.name@ == "discover_instances"@,
        match outcome {
            Ok(d) => {
                &&& r.passed == (d.instances@.len() > 0)
                &&& r.summary@ == (if r.passed {
                    "discovered "@ + decimal(d.instances@.len()) + " Unreal instance(s)"@
                } else {
                    "no reachable Unreal instances were discovered"@
                })
                &&& r.details == details
            },
            Err(e) => !r.passed && r.summary@ == "discover failed: "@ + e@ && r.details@
                == JsonView::Str(e@),
        },
{
    match outcome {
        Ok(d) => {
            let passed = d.instances.len() > 0;
            let summary = if passed {
                let mut v = chars_of("discovered ");
                push_decimal(&mut v, d.instances.len() as u64);
                push_str(&mut v, " Unreal instance(s)");
                string_from_chars(&v)
            } else {
                owned("no reachable Unreal instances were discovered")
            };
            check("discover_instances", passed, summary, details)
        },
        Err(e) => failed_check("discover_instances", "discover failed: ", e),
    }
}

/// The check of an instance's health.
pub fn health_step_check(outcome: Result<&InstanceHealthReport, String>, details: JsonValue) -> (r:
    VerificationCheck)
    ensures
        r.name@ == "get_instance_health"@,
        match outcome {
            Ok(h) => {
                &&& r.passed == (h.endpoint_error is None && h.endpoint_health is Some
                    && match h.process_alive {
                    Some(a) => a,
                    None => true,
                })
                &&& r.summary@ == "instance '"@ + h.instance.key@ + (if r.passed {
                    "' is healthy and reachable"@
                } else {
                    "' is not healthy"@
                })
                &&& r.details == details
            },
            Err(e) => !r.passed && r.summary@ == "health check failed: "@ + e@ && r.details@
                == JsonView::Str(e@),
        },
{
    match outcome {
        Ok(h) => {
            let passed = instance_health_is_healthy(h);
            let mut v = chars_of("instance '");
            push_str(&mut v, h.instance.key.as_str());
            if passed {
                push_str(&mut v, "' is healthy and reachable");
            } else {
                push_str(&mut v, "' is not healthy");
            }
            check("get_instance_health", passed, string_from_chars(&v), details)
        },
        Err(e) => failed_check("get_instance_health", "health check failed: ", e),
    }
}

/// The names `ns` joined with `, `.
pub open spec fn join_commas(ns: Seq<Seq<char>>) -> Seq<char>
    decreases ns.len(),
{
    if ns.len() == 0 {
        Seq::empty()
    } else if ns.len() == 1 {
        ns[0]
    } else {
        join_commas(ns.drop_last()) + ", "@ + ns.last()
    }
}

/// The check of the listed tools: passed when every expected tool is there.
pub fn list_tools_check(outcome: Result<&Vec<ToolDescriptor>, String>, details: JsonValue) -> (r:
    VerificationCheck)
    ensures
        r.name@ == "list_tools"@,
        match outcome {
            Ok(tools) => {
                let missing = missing_among(expected_tools(), tool_names(tools@), 11);
                &&& r.passed == (missing.len() == 0)
                &&& r.summary@ == (if r.passed {
                    "all expected Unreal tools are exposed ("@ + decimal(tools@.len()) + ")"@
                } else {
                    "missing expected tools: "@ + join_commas(missing)
                })
                &&& r.details == details
            },
            Err(e) => !r.passed && r.summary@ == "failed to list tools: "@ + e@ && r.details@
                == JsonView::Str(e@),
        },
{
    match outcome {
        Ok(tools) => {
            let missing = missing_expected_tools(tools);
            let passed = missing.len() == 0;
            let summary = if passed {
                let mut v = chars_of("all expected Unreal tools are exposed (");
                push_decimal(&mut v, tools.len() as u64);
                push_str(&mut v, ")");
                string_from_chars(&v)
            } else {
                let mut v = chars_of("missing expected tools: ");
                let ghost ms = strings_view(missing@);
                let mut i: usize = 0;
                let ghost head = v@;
                while i < missing.len()
                    invariant
                        0 <= i <= missing@.len(),
                        ms == strings_view(missing@),
                        v@ == head + join_commas(ms.take(i as int)),
                    decreases missing@.len() - i,
                {
                    assert(ms.take(i + 1).drop_last() =~= ms.take(i as int));
                    if i > 0 {
                        push_str(&mut v, ", ");
                    }
                    push_str(&mut v, missing[i].as_str());
                    proof {
                        if i == 0 {
                            assert(ms.take(1).len() == 1);
                        }
                    }
                    i = i + 1;
                }
                assert(ms.take(missing@.len() as int) =~= ms);
                string_from_chars(&v)
            };
            check("list_tools", passed, summary, details)
        },
        Err(e) => failed_check("list_tools", "failed to list tools: ", e),
    }
}

/// The names of the skills `items` that have a string `name`, in order.
pub open spec fn skill_names_of(items: Seq<JsonView>) -> Seq<Seq<char>>
    decreases items.len(),
{
    if items.len() == 0 {
        Seq::empty()
    } else {
        let rest = skill_names_of(items.drop_last());
        match spec_member(items.last(), "name"@) {
            Some(n) => match spec_as_str(n) {
                Some(s) => rest.push(s),
                None => rest,
            },
            None => rest,
        }
    }
}

/// The skills a `list_unreal_skill` payload lists.
pub open spec fn spec_listed_skills(p: JsonView) -> Seq<Seq<char>> {
    match spec_member(p, "skills"@) {
        Some(JsonView::Array(items)) => skill_names_of(items),
        _ => Seq::empty(),
    }
}

pub fn listed_skill_names(payload: &JsonValue) -> (r: Vec<String>)
    ensures
        strings_view(r@) == spec_listed_skills(payload@),
{
    let mut out: Vec<String> = Vec::new();
    match payload.get("skills") {
        Some(JsonValue::Array(items)) => {
            proof {
                crate::json::lemma_view_unfold(JsonValue::Array(*items));
            }
            let ghost iv = crate::json::values_view(items@);
            let mut i: usize = 0;
            while i < items.len()
                invariant
                    0 <= i <= items@.len(),
                    iv == crate::json::values_view(items@),
                    iv.len() == items@.len(),
                    strings_view(out@) == skill_names_of(iv.take(i as int)),
                decreases items@.len() - i,
            {
                assert(iv.take(i + 1).drop_last() =~= iv.take(i as int));
                assert(iv.take(i + 1).last() == items@[i as int]@);
                match items[i].get("name") {
                    Some(n) => match n.as_str() {
                        Some(s) => {
                            let ghost before = strings_view(out@);
                            out.push(owned(s));
                            assert(strings_view(out@) =~= before.push(s@));
                        },
                        None => {},
                    },
                    None => {},
                }
                i = i + 1;
            }
            assert(iv.take(items@.len() as int) =~= iv);
        },
        _ => {
            assert(strings_view(out@) =~= Seq::<Seq<char>>::empty());
        },
    }
    out
}

/// The check of the skill list, with the skills it lists: passed when the call succeeded
/// and listed one.
pub fn skill_list_check(outcome: Result<&ToolCallOutput, String>) -> (r: (VerificationCheck, Vec<
    String,
>))
    ensures
        r.0.name@ == "tool.list_unreal_skill"@,
        match outcome {
            Ok(o) => {
                let names = spec_listed_skills(judged_payload(o@));
                &&& strings_view(r.1@) == names
                &&& r.0.passed == (o.success && names.len() > 0)
                &&& r.0.summary@ == (if names.len() == 0 {
                    "no Unreal skills were returned"@
                } else {
                    "listed "@ + decimal(names.len()) + " Unreal skill(s)"@
                })
                &&& r.0.details@ == judged_payload(o@)
            },
            Err(e) => r.1@.len() == 0 && !r.0.passed && r.0.summary@ == "list_unreal_skill failed: "@
                + e@ && r.0.details@ == JsonView::Str(e@),
        },
{
    match outcome {
        Ok(o) => {
            let payload = match extract_tool_payload(o) {
                Some(p) => p,
                None => JsonValue::Null,
            };
            let names = listed_skill_names(&payload);
            let passed = o.success && names.len() > 0;
            let summary = if names.len() == 0 {
                owned("no Unreal skills were returned")
            } else {
                let mut v = chars_of("listed ");
                push_decimal(&mut v, names.len() as u64);
                push_str(&mut v, " Unreal skill(s)");
                string_from_chars(&v)
            };
            (check("tool.list_unreal_skill", passed, summary, payload), names)
        },
        Err(e) => (
            failed_check("tool.list_unreal_skill", "list_unreal_skill failed: ", e),
            Vec::new(),
        ),
    }
}

/// The note a verification run records: `verify-ue` and the time.
pub fn verification_note(now: u64) -> (r: String)
    ensures
        r@ == "verify-ue "@ + decimal(now as nat),
{
    let mut v = chars_of("verify-ue ");
    push_decimal(&mut v, now);
    string_from_chars(&v)
}

/// The check that the session kept the run's note `note` and its call history:
/// `recorded` is whether recording the note succeeded, `session` the session read after.
pub fn session_state_check(
    note: &str,
    recorded: Result<(), String>,
    session: Result<&SessionReport, String>,
    details: JsonValue,
) -> (r: VerificationCheck)
    ensures
        r.name@ == "session_state"@,
        match recorded {
            Err(e) => !r.passed && r.summary@ == "failed to record session note: "@ + e@
                && r.details@ == JsonView::Str(e@),
            Ok(_) => match session {
                Err(e) => !r.passed && r.summary@ == "failed to read session state: "@ + e@
                    && r.details@ == JsonView::Str(e@),
                Ok(s) => {
                    let found = exists|i: int|
                        0 <= i < s.notes@.len() && (#[trigger] notes_view(s.notes@)[i]).content
                            == note@;
                    let ok = found && s.call_history@.len() > 0;
                    &&& r.passed == ok
                    &&& r.summary@ == (if ok {
                        "session notes and call history were persisted"@
                    } else {
                        "session state is missing notes or call history"@
                    })
                    &&& r.details == details
                },
            },
        },
{
    match recorded {
        Err(e) => failed_check("session_state", "failed to record session note: ", e),
        Ok(_) => match session {
            Err(e) => failed_check("session_state", "failed to read session state: ", e),
            Ok(s) => {
                let mut found = false;
                let mut i: usize = 0;
                while i < s.notes.len()
                    invariant
                        0 <= i <= s.notes@.len(),
                        found == exists|j: int|
                            0 <= j < i && (#[trigger] notes_view(s.notes@)[j]).content == note@,
                    decreases s.notes@.len() - i,
                {
                    if str_eq(s.notes[i].content.as_str(), note) {
                        assert(notes_view(s.notes@)[i as int].content == note@);
                        found = true;
                    }
                    i = i + 1;
                }
                let ok = found && s.call_history.len() > 0;
                let summary = if ok {
                    owned("session notes and call history were persisted")
                } else {
                    owned("session state is missing notes or call history")
                };
                check("session_state", ok, summary, details)
            },
        },
    }
}

/// The check of mirroring the active target into MCPHub.
pub fn sync_check(outcome: Result<String, String>) -> (r: VerificationCheck)
    ensures
        r.name@ == "sync_mcphub"@,
        match outcome {
            Ok(o) => r.passed && r.summary@ == "active Unreal MCP was mirrored into bundled MCPHub"@
                && r.details@ == JsonView::Str(o@),
            Err(e) => !r.passed && r.summary@ == "sync_mcphub failed: "@ + e@ && r.details@
                == JsonView::Str(e@),
        },
{
    match outcome {
        Ok(o) => check(
            "sync_mcphub",
            true,
            owned("active Unreal MCP was mirrored into bundled MCPHub"),
            JsonValue::String(o),
        ),
        Err(e) => failed_check("sync_mcphub", "sync_mcphub failed: ", e),
    }
}

/// The check of the crash report lookup (`found` tells whether a report was found).
pub fn crash_check(outcome: Result<bool, String>, details: JsonValue) -> (r: VerificationCheck)
    ensures
        r.name@ == "get_crash_report"@,
        match outcome {
            Ok(found) => r.passed && r.summary@ == (if found {
                "crash report lookup succeeded and found a report"@
            } else {
                "crash report lookup succeeded (no crash reports present)"@
            }) && r.details == details,
            Err(e) => !r.passed && r.summary@ == "get_crash_report failed: "@ + e@ && r.details@
                == JsonView::Str(e@),
        },
{
    match outcome {
        Ok(found) => {
            let summary = if found {
                owned("crash report lookup succeeded and found a report")
            } else {
                owned("crash report lookup succeeded (no crash reports present)")
            };
            check("get_crash_report", true, summary, details)
        },
        Err(e) => failed_check("get_crash_report", "get_crash_report failed: ", e),
    }
}

/// The fixed notes of a verification run.
pub enum RunNote {
    /// A healthy editor was already running.
    ReusedHealthy,
    /// No C++ header to exercise.
    SkippedCpp,
    /// No Blueprint asset to exercise.
    SkippedBlueprint,
    /// The skill list gave no skill to read.
    SkippedSkillRead,
}

/// The text of a fixed note.
pub open spec fn run_note_text(which: RunNote) -> Seq<char> {
    match which {
        RunNote::ReusedHealthy => "Reused the existing healthy Unreal Editor instance."@,
        RunNote::SkippedCpp => "Skipped C++ verification because no representative header was found."@,
        RunNote::SkippedBlueprint => "Skipped Blueprint/asset verification because no representative .uasset was found."@,
        RunNote::SkippedSkillRead => "Skipped read_unreal_skill because the skill list returned no usable entry."@,
    }
}

pub fn run_note(which: RunNote) -> (r: &'static str)
    ensures
        r@ == run_note_text(which),
{
    match which {
        RunNote::ReusedHealthy => "Reused the existing healthy Unreal Editor instance.",
        RunNote::SkippedCpp => "Skipped C++ verification because no representative header was found.",
        RunNote::SkippedBlueprint => "Skipped Blueprint/asset verification because no representative .uasset was found.",
        RunNote::SkippedSkillRead => "Skipped read_unreal_skill because the skill list returned no usable entry.",
    }
}

/// The note of a launch made by a verification run.
pub fn launched_note(pid: u32) -> (r: String)
    ensures
        r@ == "Launched Unreal Editor with PID "@ + decimal(pid as nat) + "."@,
{
    let mut v = chars_of("Launched Unreal Editor with PID ");
    push_decimal(&mut v, pid as u64);
    push_str(&mut v, ".");
    string_from_chars(&v)
}

/// The note on stopping the editor after a run: stopped (`graceful` is `Ok`), stopped by
/// force after the graceful stop failed, or not stopped.
pub fn stop_after_note(graceful: Result<&str, &str>, forced: Result<&str, &str>) -> (r: String)
    ensures
        r@ == match graceful {
            Ok(key) => "Stopped editor instance '"@ + key@ + "' after verification."@,
            Err(e) => match forced {
                Ok(key) => "Graceful stop failed after verification ("@ + e@
                    + "); forced stop succeeded for '"@ + key@ + "'."@,
                Err(f) => "Failed to stop editor after verification: graceful="@ + e@
                    + "; forced="@ + f@,
            },
        },
{
    match graceful {
        Ok(key) => {
            let mut v = chars_of("Stopped editor instance '");
            push_str(&mut v, key);
            push_str(&mut v, "' after verification.");
            string_from_chars(&v)
        },
        Err(e) => match forced {
            Ok(key) => {
                let mut v = chars_of("Graceful stop failed after verification (");
                push_str(&mut v, e);
                push_str(&mut v, "); forced stop succeeded for '");
                push_str(&mut v, key);
                push_str(&mut v, "'.");
                string_from_chars(&v)
            },
            Err(f) => {
                let mut v = chars_of("Failed to stop editor after verification: graceful=");
                push_str(&mut v, e);
                push_str(&mut v, "; forced=");
                push_str(&mut v, f);
                string_from_chars(&v)
            },
        },
    }
}

// ---------------------------------------------------------------------------
// The order of a run
// ---------------------------------------------------------------------------

/// A step of a verification run.
#[derive(Clone, Copy, Debug, PartialEq, Eq, Structural)]
pub enum VerifyStep {
    /// Record the hub's status.
    HubStatus,
    /// Compile the project.
    Compile,
    /// Discover instances before deciding whether to launch.
    DiscoverFirst,
    /// Probe whether the current instance is already healthy.
    Probe,
    /// Note that the healthy editor is reused.
    ReuseNote,
    /// Launch the editor.
    Launch,
    /// Discover instances and record the discovery.
    Discover,
    /// Record the health of the discovered active instance.
    Health,
    /// Record the tools listed.
    ListTools,
    /// Make the calls on the samples found.
    SampleCalls,
    /// List the skills.
    ListSkills,
    /// Read the skill chosen.
    ReadSkill,
    /// Note that no skill was read though the list came back.
    SkippedReadNote,
    /// Run a Python snippet as a skill.
    RunSkill,
    /// Record a note and check the session keeps it.
    Session,
    /// Mirror the target into MCPHub.
    Sync,
    /// Look for a crash report.
    CrashReport,
    /// Stop the editor.
    Stop,
    /// Stop the editor by force after a graceful stop failed.
    ForcedStop,
    /// The run is over.
    Done,
}

/// What a step found that decides the next one.
#[derive(Clone, Copy)]
pub enum VerifyEvent {
    /// The step ran; nothing it found decides anything.
    Finished,
    /// Whether the probed instance is healthy.
    Healthy(bool),
    /// Whether the skill list came back, and whether there is a skill to read.
    Skills { listed: bool, found: bool },
    /// Whether the stop succeeded.
    Stopped(bool),
}

/// The first step of a run.
pub fn first_verify_step() -> (r: VerifyStep)
    ensures
        r == VerifyStep::HubStatus,
{
    VerifyStep::HubStatus
}

/// The step after `step`, given what it found: a compile only when asked for, a launch only
/// when no healthy editor is running, the skill read only when there is a skill, a stop
/// only when asked for and a forced stop only after a failed one. Every other step follows
/// whatever the step before found, so a failing step never cuts the run short.
pub open spec fn spec_next_step(step: VerifyStep, event: VerifyEvent, compile: bool, stop_after: bool) -> VerifyStep {
    match step {
        VerifyStep::HubStatus => if compile {
            VerifyStep::Compile
        } else {
            VerifyStep::DiscoverFirst
        },
        VerifyStep::Compile => VerifyStep::DiscoverFirst,
        VerifyStep::DiscoverFirst => VerifyStep::Probe,
        VerifyStep::Probe => match event {
            VerifyEvent::Healthy(true) => VerifyStep::ReuseNote,
            _ => VerifyStep::Launch,
        },
        VerifyStep::ReuseNote => VerifyStep::Discover,
        VerifyStep::Launch => VerifyStep::Discover,
        VerifyStep::Discover => VerifyStep::Health,
        VerifyStep::Health => VerifyStep::ListTools,
        VerifyStep::ListTools => VerifyStep::SampleCalls,
        VerifyStep::SampleCalls => VerifyStep::ListSkills,
        VerifyStep::ListSkills => match event {
            VerifyEvent::Skills { listed, found } => if found {
                VerifyStep::ReadSkill
            } else if listed {
                VerifyStep::SkippedReadNote
            } else {
                VerifyStep::RunSkill
            },
            _ => VerifyStep::RunSkill,
        },
        VerifyStep::ReadSkill => VerifyStep::RunSkill,
        VerifyStep::SkippedReadNote => VerifyStep::RunSkill,
        VerifyStep::RunSkill => VerifyStep::Session,
        VerifyStep::Session => VerifyStep::Sync,
        VerifyStep::Sync => VerifyStep::CrashReport,
        VerifyStep::CrashReport => if stop_after {
            VerifyStep::Stop
        } else {
            VerifyStep::Done
        },
        VerifyStep::Stop => match event {
            VerifyEvent::Stopped(false) => VerifyStep::ForcedStop,
            _ => VerifyStep::Done,
        },
        VerifyStep::ForcedStop => VerifyStep::Done,
        VerifyStep::Done => VerifyStep::Done,
    }
}

/// The step after `step`, given what it found.
pub fn next_verify_step(step: VerifyStep, event: VerifyEvent, compile: bool, stop_after: bool) -> (r:
    VerifyStep)
    ensures
        r == spec_next_step(step, event, compile, stop_after),
{
    match step {
        VerifyStep::HubStatus => if compile {
            VerifyStep::Compile
        } else {
            VerifyStep::DiscoverFirst
        },
        VerifyStep::Compile => VerifyStep::DiscoverFirst,
        VerifyStep::DiscoverFirst => VerifyStep::Probe,
        VerifyStep::Probe => match event {
            VerifyEvent::Healthy(true) => VerifyStep::ReuseNote,
            _ => VerifyStep::Launch,
        },
        VerifyStep::ReuseNote => VerifyStep::Discover,
        VerifyStep::Launch => VerifyStep::Discover,
        VerifyStep::Discover => VerifyStep::Health,
        VerifyStep::Health => VerifyStep::ListTools,
        VerifyStep::ListTools => VerifyStep::SampleCalls,
        VerifyStep::SampleCalls => VerifyStep::ListSkills,
        VerifyStep::ListSkills => match event {
            VerifyEvent::Skills { listed, found } => if found {
                VerifyStep::ReadSkill
            } else if listed {
                VerifyStep::SkippedReadNote
            } else {
                VerifyStep::RunSkill
            },
            _ => VerifyStep::RunSkill,
        },
        VerifyStep::ReadSkill => VerifyStep::RunSkill,
        VerifyStep::SkippedReadNote => VerifyStep::RunSkill,
        VerifyStep::RunSkill => VerifyStep::Session,
        VerifyStep::Session => VerifyStep::Sync,
        VerifyStep::Sync => VerifyStep::CrashReport,
        VerifyStep::CrashReport => if stop_after {
            VerifyStep::Stop
        } else {
            VerifyStep::Done
        },
        VerifyStep::Stop => match event {
            VerifyEvent::Stopped(false) => VerifyStep::ForcedStop,
            _ => VerifyStep::Done,
        },
        VerifyStep::ForcedStop => VerifyStep::Done,
        VerifyStep::Done => VerifyStep::Done,
    }
}

/// The place of a step in the order of a run.
pub open spec fn step_rank(step: VerifyStep) -> nat {
    match step {
        VerifyStep::HubStatus => 0,
        VerifyStep::Compile => 1,
        VerifyStep::DiscoverFirst => 2,
        VerifyStep::Probe => 3,
        VerifyStep::ReuseNote => 4,
        VerifyStep::Launch => 5,
        VerifyStep::Discover => 6,
        VerifyStep::Health => 7,
        VerifyStep::ListTools => 8,
        VerifyStep::SampleCalls => 9,
        VerifyStep::ListSkills => 10,
        VerifyStep::ReadSkill => 11,
        VerifyStep::SkippedReadNote => 12,
        VerifyStep::RunSkill => 13,
        VerifyStep::Session => 14,
        VerifyStep::Sync => 15,
        VerifyStep::CrashReport => 16,
        VerifyStep::Stop => 17,
        VerifyStep::ForcedStop => 18,
        VerifyStep::Done => 19,
    }
}

/// The steps every run makes, whatever the steps before them found.
pub open spec fn mandatory_step(step: VerifyStep) -> bool {
    step == VerifyStep::HubStatus || step == VerifyStep::DiscoverFirst || step == VerifyStep::Probe
        || step == VerifyStep::Discover || step == VerifyStep::Health || step
        == VerifyStep::ListTools || step == VerifyStep::SampleCalls || step
        == VerifyStep::ListSkills || step == VerifyStep::RunSkill || step == VerifyStep::Session
        || step == VerifyStep::Sync || step == VerifyStep::CrashReport || step == VerifyStep::Done
}

/// A run moves forward: each step but the last is followed by a later one, so a run ends
/// after at most twenty steps; and it never jumps over a step that every run makes, so a
/// failing step never keeps the later checks out of the report.
pub proof fn law_run_records_every_check(step: VerifyStep, event: VerifyEvent, compile: bool, stop_after: bool, later: VerifyStep)
    requires
        mandatory_step(later),
        step_rank(step) < step_rank(later),
    ensures
        step_rank(spec_next_step(step, event, compile, stop_after)) > step_rank(step),
        step_rank(spec_next_step(step, event, compile, stop_after)) <= step_rank(later),
{
}

} // verus!
