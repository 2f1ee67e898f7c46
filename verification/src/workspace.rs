//! What the hub reads from and writes into a project's directory: crash reports, build
//! targets, and the plugin it installs.
use vstd::prelude::*;

use crate::config::{opt_view, strings_view, ConfigStore};
use crate::orchestrator::HubError;
use crate::paths::{join, join4, join_all, lines, parent, path_join, path_parent, split_lines};
use crate::text::{
    chars_of, concat2, contains, contains_chars, ends_with_chars, eq_ignore_case, has_prefix,
    has_suffix, lower, lower_chars, occurs_at, occurs_at_exec, owned, push_all, push_str, seq_lt,
    slice_eq, str_eq, string_from_chars, trim, trim_chars, trim_str,
};

verus! {

broadcast use vstd::string::group_string_axioms;

// ---------------------------------------------------------------------------
// Crash reports
// ---------------------------------------------------------------------------

/// A crash found in a project's `Saved/Crashes` directory.
pub struct CrashReport {
    pub crash_dir: String,
    pub summary: String,
}

/// The directory holding a project's crash reports.
pub fn crashes_dir(uproject_path: &str) -> (r: Result<String, HubError>)
    ensures
        match path_parent(uproject_path@) {
            Some(d) => r matches Ok(c) && c@ == path_join(path_join(d, "Saved"@), "Crashes"@),
            None => r == Err::<String, HubError>(HubError::NoProjectDirectory),
        },
{
    match parent(uproject_path) {
        Some(d) => {
            let saved = join(d.as_str(), "Saved");
            Ok(join(saved.as_str(), "Crashes"))
        },
        None => Err(HubError::NoProjectDirectory),
    }
}

/// The newest of the crash directories whose modification times are `modified`: the last
/// one with the greatest time.
pub fn latest_crash(modified: &Vec<u128>) -> (r: Option<usize>)
    ensures
        match r {
            Some(i) => i < modified@.len() && (forall|j: int|
                0 <= j < modified@.len() ==> #[trigger] modified@[j] <= modified@[i as int]) && (
            forall|j: int| i < j < modified@.len() ==> #[trigger] modified@[j] < modified@[i as int]),
            None => modified@.len() == 0,
        },
{
    if modified.len() == 0 {
        return None;
    }
    let mut best: usize = 0;
    let mut i: usize = 1;
    while i < modified.len()
        invariant
            1 <= i <= modified@.len(),
            best < i,
            forall|j: int| 0 <= j < i ==> #[trigger] modified@[j] <= modified@[best as int],
            forall|j: int| best < j < i ==> #[trigger] modified@[j] < modified@[best as int],
        decreases modified@.len() - i,
    {
        if modified[i] >= modified[best] {
            best = i;
        }
        i = i + 1;
    }
    Some(best)
}

/// `s` with every occurrence of `p` removed, scanning from the left (`str::replace(p, "")`).
pub open spec fn remove_all(s: Seq<char>, p: Seq<char>) -> Seq<char>
    decreases s.len(),
{
    if s.len() == 0 {
        Seq::empty()
    } else if p.len() > 0 && has_prefix(s, p) {
        remove_all(s.skip(p.len() as int), p)
    } else {
        seq![s[0]] + remove_all(s.drop_first(), p)
    }
}

fn remove_all_exec(s: &[char], p: &[char]) -> (r: Vec<char>)
    ensures
        r@ == remove_all(s@, p@),
{
    let mut out: Vec<char> = Vec::new();
    let mut i: usize = 0;
    assert(s@.skip(0) =~= s@);
    while i < s.len()
        invariant
            0 <= i <= s@.len(),
            remove_all(s@, p@) == out@ + remove_all(s@.skip(i as int), p@),
        decreases s@.len() - i,
    {
        let ghost t = s@.skip(i as int);
        if p.len() > 0 && occurs_at_exec(s, p, i) {
            assert(t.take(p@.len() as int) =~= s@.subrange(i as int, i + p@.len()));
            assert(t.skip(p@.len() as int) =~= s@.skip(i + p@.len()));
            i = i + p.len();
        } else {
            proof {
                if p@.len() > 0 && has_prefix(t, p@) {
                    assert(t.take(p@.len() as int) =~= s@.subrange(i as int, i + p@.len()));
                }
            }
            assert(t.drop_first() =~= s@.skip(i + 1));
            let ghost before = out@;
            out.push(s[i]);
            assert(before + (seq![s@[i as int]] + remove_all(s@.skip(i + 1), p@)) =~= out@
                + remove_all(s@.skip(i + 1), p@));
            i = i + 1;
        }
    }
    assert(s@.skip(i as int) =~= Seq::<char>::empty());
    assert(out@ + Seq::<char>::empty() =~= out@);
    out
}

/// The first of the lines `ls[i..]` that contains `p`.
pub open spec fn first_containing(ls: Seq<Seq<char>>, i: int, p: Seq<char>) -> Option<Seq<char>>
    decreases ls.len() - i,
{
    if !(0 <= i < ls.len()) {
        None
    } else if contains(ls[i], p) {
        Some(ls[i])
    } else {
        first_containing(ls, i + 1, p)
    }
}

/// The summary of a crash: the text of the first `<ErrorMessage>` line of its context file
/// `xml` (`None` when the file is missing), without the tags and trimmed.
pub open spec fn spec_crash_summary(xml: Option<Seq<char>>) -> Seq<char> {
    match xml {
        None => "Crash directory found, but CrashContext.runtime-xml is missing"@,
        Some(raw) => match first_containing(lines(raw), 0, "<ErrorMessage>"@) {
            Some(l) => trim(remove_all(remove_all(l, "<ErrorMessage>"@), "</ErrorMessage>"@)),
            None => "Crash report found but no ErrorMessage tag was parsed"@,
        },
    }
}

pub fn crash_summary(xml: Option<&str>) -> (r: String)
    ensures
        r@ == spec_crash_summary(match xml {
            Some(x) => Some(x@),
            None => None,
        }),
{
    let raw = match xml {
        Some(x) => x,
        None => {
            return owned("Crash directory found, but CrashContext.runtime-xml is missing");
        },
    };
    let ls = split_lines(raw);
    let open = chars_of("<ErrorMessage>");
    let close = chars_of("</ErrorMessage>");
    let ghost lv = lines(raw@);
    let mut i: usize = 0;
    while i < ls.len()
        invariant
            0 <= i <= ls@.len(),
            xml == Some(raw),
            lv == lines(raw@),
            ls@.len() == lv.len(),
            forall|j: int| 0 <= j < ls@.len() ==> (#[trigger] ls@[j])@ == lv[j],
            open@ == "<ErrorMessage>"@,
            close@ == "</ErrorMessage>"@,
            first_containing(lv, 0, "<ErrorMessage>"@) == first_containing(
                lv,
                i as int,
                "<ErrorMessage>"@,
            ),
        decreases ls@.len() - i,
    {
        assert(ls@[i as int]@ == lv[i as int]);
        if contains_chars(&ls[i], &open) {
            let a = remove_all_exec(&ls[i], &open);
            let b = remove_all_exec(&a, &close);
            let t = trim_chars(&b);
            return string_from_chars(&t);
        }
        i = i + 1;
    }
    owned("Crash report found but no ErrorMessage tag was parsed")
}

/// The context file of a crash directory.
pub fn crash_context_path(crash_dir: &str) -> (r: String)
    ensures
        r@ == path_join(crash_dir@, "CrashContext.runtime-xml"@),
{
    join(crash_dir, "CrashContext.runtime-xml")
}

/// The report for crash directory `crash_dir` whose context file holds `xml`.
pub fn crash_report(crash_dir: String, xml: Option<&str>) -> (r: CrashReport)
    ensures
        r.crash_dir == crash_dir,
        r.summary@ == spec_crash_summary(match xml {
            Some(x) => Some(x@),
            None => None,
        }),
{
    CrashReport { crash_dir, summary: crash_summary(xml) }
}

// ---------------------------------------------------------------------------
// Building
// ---------------------------------------------------------------------------

/// The build configuration: the one asked for, else `Development`.
pub fn build_configuration(requested: Option<String>) -> (r: String)
    ensures
        r@ == match requested {
            Some(c) => c@,
            None => "Development"@,
        },
{
    match requested {
        Some(c) => c,
        None => owned("Development"),
    }
}

/// The arguments of `Build.bat`.
pub fn build_command_args(build_target: &str, configuration: &str, uproject_path: &str) -> (r: Vec<
    String,
>)
    ensures
        strings_view(r@) == seq![
            build_target@,
            "Win64"@,
            configuration@,
            uproject_path@,
            "-waitmutex"@,
        ],
{
    let mut r: Vec<String> = Vec::new();
    r.push(owned(build_target));
    r.push(owned("Win64"));
    r.push(owned(configuration));
    r.push(owned(uproject_path));
    r.push(owned("-waitmutex"));
    assert(strings_view(r@) =~= seq![
        build_target@,
        "Win64"@,
        configuration@,
        uproject_path@,
        "-waitmutex"@,
    ]);
    r
}

/// The non-empty ones of `a` and `b`, joined by a newline.
pub open spec fn join_nonempty(a: Seq<char>, b: Seq<char>) -> Seq<char> {
    if a.len() == 0 {
        b
    } else if b.len() == 0 {
        a
    } else {
        a + "\n"@ + b
    }
}

pub open spec fn spec_compile_failure(target: Seq<char>, stdout: Seq<char>, stderr: Seq<char>) -> Seq<
    char,
> {
    let combined = join_nonempty(trim(stdout), trim(stderr));
    "build failed for target "@ + target + ": "@ + (if combined.len() == 0 {
        "no compiler output captured"@
    } else {
        combined
    })
}

/// The error of a failed build of `target`, with what it printed.
pub fn compile_failure_message(target: &str, stdout: &str, stderr: &str) -> (r: String)
    ensures
        r@ == spec_compile_failure(target@, stdout@, stderr@),
{
    let a = trim_str(stdout);
    let b = trim_str(stderr);
    let mut v = chars_of("build failed for target ");
    push_str(&mut v, target);
    push_str(&mut v, ": ");
    if a.as_str().is_empty() && b.as_str().is_empty() {
        push_str(&mut v, "no compiler output captured");
    } else if a.as_str().is_empty() {
        push_str(&mut v, b.as_str());
    } else if b.as_str().is_empty() {
        push_str(&mut v, a.as_str());
    } else {
        push_str(&mut v, a.as_str());
        push_str(&mut v, "\n");
        push_str(&mut v, b.as_str());
    }
    string_from_chars(&v)
}

/// The report of a successful build.
pub fn compile_success_message(target: &str, configuration: &str, stdout: &str) -> (r: String)
    ensures
        r@ == "Built "@ + target@ + " Win64 "@ + configuration@ + " successfully.\n"@ + stdout@,
{
    let mut v = chars_of("Built ");
    push_str(&mut v, target);
    push_str(&mut v, " Win64 ");
    push_str(&mut v, configuration);
    push_str(&mut v, " successfully.\n");
    push_str(&mut v, stdout);
    string_from_chars(&v)
}

/// The target a `<name>.Target.cs` file declares.
pub open spec fn target_of(file_name: Seq<char>) -> Option<Seq<char>> {
    if has_suffix(file_name, ".Target.cs"@) {
        Some(file_name.take(file_name.len() - 10))
    } else {
        None
    }
}

/// Whether target `t` answers query `q`: equal to it, or ending with it, in any ASCII case.
pub open spec fn target_matches(t: Seq<char>, q: Seq<char>) -> bool {
    lower(t) == lower(q) || has_suffix(lower(t), lower(q))
}

/// The least (in `seq_lt` order) target answering `q` among the files `names`.
pub open spec fn least_target(names: Seq<Seq<char>>, q: Seq<char>) -> Option<Seq<char>>
    decreases names.len(),
{
    if names.len() == 0 {
        None
    } else {
        let rest = least_target(names.drop_last(), q);
        match target_of(names.last()) {
            Some(t) => if target_matches(t, q) {
                match rest {
                    Some(b) => if seq_lt(t, b) {
                        Some(t)
                    } else {
                        Some(b)
                    },
                    None => Some(t),
                }
            } else {
                rest
            },
            None => rest,
        }
    }
}

/// The target rule among the files `file_names` of a project's `Source` directory that
/// answers `query`; the least name when several do.
pub fn find_matching_target_rule(file_names: &Vec<String>, query: &str) -> (r: Option<String>)
    ensures
        opt_view(r) == least_target(strings_view(file_names@), query@),
{
    let suffix = chars_of(".Target.cs");
    proof {
        reveal_strlit(".Target.cs");
    }
    let q = chars_of(query);
    let lq = lower_chars(&q);
    let ghost names = strings_view(file_names@);
    let mut best: Option<Vec<char>> = None;
    let mut i: usize = 0;
    assert(names.take(0) =~= Seq::<Seq<char>>::empty());
    while i < file_names.len()
        invariant
            0 <= i <= file_names@.len(),
            names == strings_view(file_names@),
            suffix@ == ".Target.cs"@,
            suffix@.len() == 10,
            lq@ == lower(query@),
            match best {
                Some(b) => least_target(names.take(i as int), query@) == Some(b@),
                None => least_target(names.take(i as int), query@) is None,
            },
        decreases file_names@.len() - i,
    {
        assert(names.take(i + 1).drop_last() =~= names.take(i as int));
        assert(names.take(i + 1).last() == file_names@[i as int]@);
        let name = chars_of(file_names[i].as_str());
        if ends_with_chars(&name, &suffix) {
            let t = crate::text::copy_range(&name, 0, name.len() - 10);
            let lt = lower_chars(&t);
            if slice_eq(&lt, &lq) || ends_with_chars(&lt, &lq) {
                let replace = match &best {
                    Some(b) => crate::text::chars_lt(&t, b),
                    None => true,
                };
                if replace {
                    best = Some(t);
                }
            }
        }
        i = i + 1;
    }
    assert(names.take(file_names@.len() as int) =~= names);
    match best {
        Some(b) => Some(string_from_chars(&b)),
        None => None,
    }
}

/// Whether `r` is one of the target kinds `Editor`, `Game`, `Client`, `Server` (any ASCII
/// case).
pub open spec fn is_target_kind(r: Seq<char>) -> bool {
    eq_ignore_case(r, "Editor"@) || eq_ignore_case(r, "Game"@) || eq_ignore_case(r, "Client"@)
        || eq_ignore_case(r, "Server"@)
}

/// The build target: for a requested name (trimmed), the rule answering it, else for a
/// target kind the rule answering the project name followed by it, else the name itself;
/// with no request, the rule answering `Editor`, else `<project>Editor`'s rule, else
/// `<project>Editor`.
pub open spec fn spec_build_target(
    names: Seq<Seq<char>>,
    project: Seq<char>,
    requested: Option<Seq<char>>,
) -> Seq<char> {
    if requested is Some && trim(requested->0).len() > 0 {
        let r = trim(requested->0);
        match least_target(names, r) {
            Some(f) => f,
            None => if is_target_kind(r) {
                match least_target(names, project + r) {
                    Some(f) => f,
                    None => r,
                }
            } else {
                r
            },
        }
    } else {
        match least_target(names, "Editor"@) {
            Some(f) => f,
            None => match least_target(names, project + "Editor"@) {
                Some(f) => f,
                None => project + "Editor"@,
            },
        }
    }
}

/// The build target for project `project_name`, given the file names of its `Source`
/// directory.
pub fn resolve_build_target_name(
    project_name: &str,
    requested_target: Option<&str>,
    source_file_names: &Vec<String>,
) -> (r: String)
    ensures
        r@ == spec_build_target(
            strings_view(source_file_names@),
            project_name@,
            match requested_target {
                Some(t) => Some(t@),
                None => None,
            },
        ),
{
    let requested = match requested_target {
        Some(t) => {
            let tt = trim_str(t);
            if tt.as_str().is_empty() {
                None
            } else {
                Some(tt)
            }
        },
        None => None,
    };
    match requested {
        Some(r) => {
            match find_matching_target_rule(source_file_names, r.as_str()) {
                Some(f) => {
                    return f;
                },
                None => {},
            }
            if crate::text::eq_ignore_ascii_case(r.as_str(), "Editor")
                || crate::text::eq_ignore_ascii_case(r.as_str(), "Game")
                || crate::text::eq_ignore_ascii_case(r.as_str(), "Client")
                || crate::text::eq_ignore_ascii_case(r.as_str(), "Server") {
                let full = concat2(project_name, r.as_str());
                match find_matching_target_rule(source_file_names, full.as_str()) {
                    Some(f) => {
                        return f;
                    },
                    None => {},
                }
            }
            r
        },
        None => {
            match find_matching_target_rule(source_file_names, "Editor") {
                Some(f) => f,
                None => {
                    let full = concat2(project_name, "Editor");
                    match find_matching_target_rule(source_file_names, full.as_str()) {
                        Some(f) => f,
                        None => full,
                    }
                },
            }
        },
    }
}

// ---------------------------------------------------------------------------
// Installing the plugin
// ---------------------------------------------------------------------------

/// The project's `Plugins` directory.
pub fn plugins_dir(uproject_path: &str) -> (r: Result<String, HubError>)
    ensures
        match path_parent(uproject_path@) {
            Some(d) => r matches Ok(p) && p@ == path_join(d, "Plugins"@),
            None => r == Err::<String, HubError>(HubError::NoProjectDirectory),
        },
{
    match parent(uproject_path) {
        Some(d) => Ok(join(d.as_str(), "Plugins")),
        None => Err(HubError::NoProjectDirectory),
    }
}

/// The two files whose presence marks `candidate` as the plugin's source: its own
/// `UnrealCopilot.uplugin`, and the one of a nested `Plugins/UnrealCopilot`.
pub fn plugin_probe_paths(candidate: &str) -> (r: (String, String))
    ensures
        r.0@ == path_join(candidate@, "UnrealCopilot.uplugin"@),
        r.1@ == path_join(
            path_join(path_join(candidate@, "Plugins"@), "UnrealCopilot"@),
            "UnrealCopilot.uplugin"@,
        ),
{
    let direct = join(candidate, "UnrealCopilot.uplugin");
    let a = join(candidate, "Plugins");
    let b = join(a.as_str(), "UnrealCopilot");
    let nested = join(b.as_str(), "UnrealCopilot.uplugin");
    (direct, nested)
}

/// The plugin source at `candidate`: the directory itself when it holds the plugin file
/// (`direct_is_file`), else its nested `Plugins/UnrealCopilot` when that holds it.
pub fn resolve_plugin_source_root(candidate: &str, direct_is_file: bool, nested_is_file: bool) -> (r:
    Option<String>)
    ensures
        opt_view(r) == (if direct_is_file {
            Some(candidate@)
        } else if nested_is_file {
            Some(path_join(path_join(candidate@, "Plugins"@), "UnrealCopilot"@))
        } else {
            None
        }),
{
    if direct_is_file {
        Some(owned(candidate))
    } else if nested_is_file {
        let a = join(candidate, "Plugins");
        Some(join(a.as_str(), "UnrealCopilot"))
    } else {
        None
    }
}

/// The plugin source to install: with a configured local path, its resolved source
/// (`configured_root`) or a refusal; else the source found near the executable (`detected`).
pub fn plugin_source_for_install(
    config: &ConfigStore,
    configured_root: Option<String>,
    detected: Option<String>,
) -> (r: Result<String, HubError>)
    ensures
        if config.view().plugin_source_local.len() > 0 {
            match configured_root {
                Some(p) => r == Ok::<String, HubError>(p),
                None => r matches Err(HubError::PluginSourceInvalid(p)) && p@
                    == config.view().plugin_source_local,
            }
        } else {
            match detected {
                Some(p) => r == Ok::<String, HubError>(p),
                None => r == Err::<String, HubError>(HubError::PluginSourceNotFound),
            }
        },
{
    if !config.plugin_source_local().is_empty() {
        match configured_root {
            Some(p) => Ok(p),
            None => Err(HubError::PluginSourceInvalid(owned(config.plugin_source_local()))),
        }
    } else {
        match detected {
            Some(p) => Ok(p),
            None => Err(HubError::PluginSourceNotFound),
        }
    }
}

/// Whether copying the plugin skips a directory of this name.
pub fn copy_skips_dir(name: &str) -> (r: bool)
    ensures
        r == (name@ == "Binaries"@ || name@ == "Intermediate"@ || name@ == ".git"@),
{
    str_eq(name, "Binaries") || str_eq(name, "Intermediate") || str_eq(name, ".git")
}

/// Where the plugin is installed in a `Plugins` directory.
pub fn plugin_target(plugins_dir: &str) -> (r: String)
    ensures
        r@ == path_join(plugins_dir@, "UnrealCopilot"@),
{
    join(plugins_dir, "UnrealCopilot")
}

/// The report of an installation.
pub fn install_message(source: &str, target: &str) -> (r: String)
    ensures
        r@ == "Installed UnrealCopilot plugin from "@ + source@ + " to "@ + target@,
{
    let mut v = chars_of("Installed UnrealCopilot plugin from ");
    push_str(&mut v, source);
    push_str(&mut v, " to ");
    push_str(&mut v, target);
    string_from_chars(&v)
}

} // verus!
