//! Where the bundled MCPHub is, how it is built, and what registering a target with it
//! runs and reports.
use vstd::prelude::*;

use crate::config::{opt_view, strings_view};
use crate::paths::{join, join_all, path_join};
use crate::text::{chars_of, owned, push_str, string_from_chars, trim, trim_str};

verus! {

broadcast use vstd::string::group_string_axioms;

pub open spec fn spec_exe_name(windows: bool) -> Seq<char> {
    if windows {
        "mcphub.exe"@
    } else {
        "mcphub"@
    }
}

/// The MCPHub executable's file name on Windows (`windows`) or elsewhere.
pub fn exe_name(windows: bool) -> (r: &'static str)
    ensures
        r@ == spec_exe_name(windows),
{
    if windows {
        "mcphub.exe"
    } else {
        "mcphub"
    }
}

/// The MCPHub binary bundled beside the executable in `exe_dir`.
pub fn bundled_mcphub_candidate(exe_dir: &str, windows: bool) -> (r: String)
    ensures
        r@ == path_join(exe_dir@, spec_exe_name(windows)),
{
    join(exe_dir, exe_name(windows))
}

pub open spec fn manifest_parts() -> Seq<Seq<char>> {
    seq!["vendor"@, "MCPHub"@, "Cargo.toml"@]
}

/// The MCPHub manifest of the source checkout at `root`.
pub fn mcphub_manifest_in(root: &str) -> (r: String)
    ensures
        r@ == join_all(root@, manifest_parts()),
{
    let a = join(root, "vendor");
    let b = join(a.as_str(), "MCPHub");
    let c = join(b.as_str(), "Cargo.toml");
    proof {
        reveal_with_fuel(join_all, 4);
        let p = manifest_parts();
        assert(p.drop_first() =~= seq!["MCPHub"@, "Cargo.toml"@]);
        assert(p.drop_first().drop_first() =~= seq!["Cargo.toml"@]);
        assert(p.drop_first().drop_first().drop_first() =~= Seq::<Seq<char>>::empty());
    }
    c
}

/// The release and the debug binary of the source checkout at `root`.
pub fn source_mcphub_binary_candidates(root: &str, windows: bool) -> (r: Vec<String>)
    ensures
        r@.len() == 2,
        r@[0]@ == join_all(
            root@,
            seq!["vendor"@, "MCPHub"@, "target"@, "release"@, spec_exe_name(windows)],
        ),
        r@[1]@ == join_all(
            root@,
            seq!["vendor"@, "MCPHub"@, "target"@, "debug"@, spec_exe_name(windows)],
        ),
{
    let a = join(root, "vendor");
    let b = join(a.as_str(), "MCPHub");
    let c = join(b.as_str(), "target");
    let rel = join(c.as_str(), "release");
    let dbg = join(c.as_str(), "debug");
    let x = join(rel.as_str(), exe_name(windows));
    let y = join(dbg.as_str(), exe_name(windows));
    proof {
        reveal_with_fuel(join_all, 6);
        let p = seq!["vendor"@, "MCPHub"@, "target"@, "release"@, spec_exe_name(windows)];
        let q = seq!["vendor"@, "MCPHub"@, "target"@, "debug"@, spec_exe_name(windows)];
        assert(p.drop_first() =~= seq!["MCPHub"@, "target"@, "release"@, spec_exe_name(windows)]);
        assert(p.drop_first().drop_first() =~= seq!["target"@, "release"@, spec_exe_name(windows)]);
        assert(p.drop_first().drop_first().drop_first() =~= seq!["release"@, spec_exe_name(windows)]);
        assert(p.drop_first().drop_first().drop_first().drop_first() =~= seq![spec_exe_name(windows)]);
        assert(p.drop_first().drop_first().drop_first().drop_first().drop_first() =~= Seq::<
            Seq<char>,
        >::empty());
        assert(q.drop_first() =~= seq!["MCPHub"@, "target"@, "debug"@, spec_exe_name(windows)]);
        assert(q.drop_first().drop_first() =~= seq!["target"@, "debug"@, spec_exe_name(windows)]);
        assert(q.drop_first().drop_first().drop_first() =~= seq!["debug"@, spec_exe_name(windows)]);
        assert(q.drop_first().drop_first().drop_first().drop_first() =~= seq![spec_exe_name(windows)]);
        assert(q.drop_first().drop_first().drop_first().drop_first().drop_first() =~= Seq::<
            Seq<char>,
        >::empty());
    }
    let mut r: Vec<String> = Vec::new();
    r.push(x);
    r.push(y);
    r
}

/// Where the bundled MCPHub is reported to be: the bundled binary when there is one, else
/// the manifest of the source checkout at `repo_root`, else `vendor/MCPHub/Cargo.toml`.
pub fn mcphub_manifest_path(bundled: Option<String>, repo_root: Option<String>) -> (r: String)
    ensures
        r@ == match bundled {
            Some(b) => b@,
            None => match repo_root {
                Some(root) => join_all(root@, manifest_parts()),
                None => join_all("vendor"@, seq!["MCPHub"@, "Cargo.toml"@]),
            },
        },
{
    match bundled {
        Some(b) => b,
        None => match repo_root {
            Some(root) => mcphub_manifest_in(root.as_str()),
            None => {
                let a = join("vendor", "MCPHub");
                let b = join(a.as_str(), "Cargo.toml");
                proof {
                    reveal_with_fuel(join_all, 3);
                    let p = seq!["MCPHub"@, "Cargo.toml"@];
                    assert(p.drop_first() =~= seq!["Cargo.toml"@]);
                    assert(p.drop_first().drop_first() =~= Seq::<Seq<char>>::empty());
                }
                b
            },
        },
    }
}

/// The MCPHub binary to run: the bundled one; else, with a source checkout, the first of
/// its candidates that exists (`candidate_exists`), else its release binary; else the
/// binary beside the executable in `exe_dir` (or in `.`).
pub fn mcphub_binary_path(
    bundled: Option<String>,
    repo_root: Option<String>,
    candidate_exists: &Vec<bool>,
    exe_dir: Option<String>,
    windows: bool,
) -> (r: String)
    ensures
        r@ == match bundled {
            Some(b) => b@,
            None => match repo_root {
                Some(root) => {
                    let rel = join_all(
                        root@,
                        seq!["vendor"@, "MCPHub"@, "target"@, "release"@, spec_exe_name(windows)],
                    );
                    let dbg = join_all(
                        root@,
                        seq!["vendor"@, "MCPHub"@, "target"@, "debug"@, spec_exe_name(windows)],
                    );
                    if candidate_exists@.len() > 0 && candidate_exists@[0] {
                        rel
                    } else if candidate_exists@.len() > 1 && candidate_exists@[1] {
                        dbg
                    } else {
                        rel
                    }
                },
                None => path_join(
                    match exe_dir {
                        Some(d) => d@,
                        None => "."@,
                    },
                    spec_exe_name(windows),
                ),
            },
        },
{
    match bundled {
        Some(b) => b,
        None => match repo_root {
            Some(root) => {
                let cands = source_mcphub_binary_candidates(root.as_str(), windows);
                if candidate_exists.len() > 0 && candidate_exists[0] {
                    cands[0].clone()
                } else if candidate_exists.len() > 1 && candidate_exists[1] {
                    cands[1].clone()
                } else {
                    cands[0].clone()
                }
            },
            None => {
                let dir = match exe_dir {
                    Some(d) => d,
                    None => owned("."),
                };
                join(dir.as_str(), exe_name(windows))
            },
        },
    }
}

/// The arguments that register a target with MCPHub.
pub fn register_args(endpoint_id: &str, endpoint_url: &str, endpoint_name: &str) -> (r: Vec<String>)
    ensures
        strings_view(r@) == seq![
            "register-http"@,
            endpoint_id@,
            endpoint_url@,
            "--name"@,
            endpoint_name@,
        ],
{
    let mut r: Vec<String> = Vec::new();
    r.push(owned("register-http"));
    r.push(owned(endpoint_id));
    r.push(owned(endpoint_url));
    r.push(owned("--name"));
    r.push(owned(endpoint_name));
    assert(strings_view(r@) =~= seq![
        "register-http"@,
        endpoint_id@,
        endpoint_url@,
        "--name"@,
        endpoint_name@,
    ]);
    r
}

/// The arguments that refresh MCPHub's catalog of a target.
pub fn discover_args(endpoint_id: &str) -> (r: Vec<String>)
    ensures
        strings_view(r@) == seq!["discover"@, endpoint_id@],
{
    let mut r: Vec<String> = Vec::new();
    r.push(owned("discover"));
    r.push(owned(endpoint_id));
    assert(strings_view(r@) =~= seq!["discover"@, endpoint_id@]);
    r
}

/// The arguments that build MCPHub from the manifest `manifest`.
pub fn cargo_build_args(manifest: &str) -> (r: Vec<String>)
    ensures
        strings_view(r@) == seq!["build"@, "--release"@, "--manifest-path"@, manifest@],
{
    let mut r: Vec<String> = Vec::new();
    r.push(owned("build"));
    r.push(owned("--release"));
    r.push(owned("--manifest-path"));
    r.push(owned(manifest));
    assert(strings_view(r@) =~= seq!["build"@, "--release"@, "--manifest-path"@, manifest@]);
    r
}

/// The report of a registration: what the two MCPHub runs printed, trimmed, on two lines.
pub fn sync_report(register_stdout: &str, discover_stdout: &str) -> (r: String)
    ensures
        r@ == trim(register_stdout@) + "\n"@ + trim(discover_stdout@),
{
    let a = trim_str(register_stdout);
    let b = trim_str(discover_stdout);
    crate::text::concat3(a.as_str(), "\n", b.as_str())
}

/// A step of running or building MCPHub that failed.
pub enum McphubFailure {
    /// `register-http` failed with this error output.
    Register(String),
    /// `discover` failed with this error output.
    Discover(String),
    /// No bundled binary and no source checkout.
    NoSource,
    /// The checkout lacks its manifest at this path.
    ManifestMissing(String),
    /// The build ended with this status.
    BuildFailed(String),
    /// The build left no release binary at this path.
    BinaryMissing(String),
}

impl McphubFailure {
    pub fn message(&self) -> (m: String)
        ensures
            m@ == match *self {
                McphubFailure::Register(e) => "mcphub register-http failed: "@ + e@,
                McphubFailure::Discover(e) => "mcphub discover failed: "@ + e@,
                McphubFailure::NoSource => "bundled MCPHub binary is missing and no MCPHub source checkout was found"@,
                McphubFailure::ManifestMissing(p) => "MCPHub source checkout is missing at "@ + p@,
                McphubFailure::BuildFailed(s) => "building MCPHub submodule failed with status "@
                    + s@,
                McphubFailure::BinaryMissing(p) => "MCPHub release binary is missing at "@ + p@,
            },
    {
        match self {
            McphubFailure::Register(e) => crate::text::concat2("mcphub register-http failed: ", e),
            McphubFailure::Discover(e) => crate::text::concat2("mcphub discover failed: ", e),
            McphubFailure::NoSource => owned(
                "bundled MCPHub binary is missing and no MCPHub source checkout was found",
            ),
            McphubFailure::ManifestMissing(p) => crate::text::concat2(
                "MCPHub source checkout is missing at ",
                p,
            ),
            McphubFailure::BuildFailed(s) => crate::text::concat2(
                "building MCPHub submodule failed with status ",
                s,
            ),
            McphubFailure::BinaryMissing(p) => crate::text::concat2(
                "MCPHub release binary is missing at ",
                p,
            ),
        }
    }
}

} // verus!
