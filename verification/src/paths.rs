//! Project paths, MCP endpoint ids, and the MCP settings read from a project's INI files.
use vstd::prelude::*;

use crate::config::{
    default_unrealcopilot_strategy, opt_view, strings_view, unrealcopilot_strategy,
    EndpointDiscoveryStrategy, EndpointView, ProjectMcpEndpoint, StrategyView,
};
use crate::json::{spec_as_str, spec_member, JsonValue};
use crate::json_args::{parse_strict_json, strict_json};
use crate::text::{
    ascii_alnum, chars_of, concat2, contains, copy_range, eq_ignore_case, eq_ignore_ascii_case,
    has_prefix, has_suffix, is_ascii_alnum, lower, lower_char, lower_chars, owned, parse_u16,
    parse_unsigned, parse_unsigned_chars, push_all, concat3, slice_eq, str_contains, str_eq, str_starts_with, string_from_chars,
    to_ascii_lowercase, to_lower_char, trim, trim_chars, contains_chars, starts_with_chars,
    ends_with_chars, is_unicode_ws, unicode_ws, seq_lt, str_lt,
};

verus! {

broadcast use vstd::string::group_string_axioms;

// ---------------------------------------------------------------------------
// Path operations of std
// ---------------------------------------------------------------------------

/// What `Path::file_stem` gives for a path, as text.
pub uninterp spec fn path_file_stem(p: Seq<char>) -> Option<Seq<char>>;

/// What `Path::parent` gives for a path, as text.
pub uninterp spec fn path_parent(p: Seq<char>) -> Option<Seq<char>>;

/// What `Path::join` gives for a path and a part, as text.
pub uninterp spec fn path_join(base: Seq<char>, part: Seq<char>) -> Seq<char>;

/// What `Path::file_name` gives for a path, as text.
pub uninterp spec fn path_file_name(p: Seq<char>) -> Option<Seq<char>>;

/// `Path::file_stem` of `path`, where it is valid UTF-8.
#[verifier::external_body]
pub(crate) fn file_stem(path: &str) -> (r: Option<String>)
    ensures
        opt_view(r) == path_file_stem(path@),
{
    std::path::Path::new(path).file_stem().and_then(|n| n.to_str()).map(|n| n.to_string())
}

/// `Path::parent` of `path`.
#[verifier::external_body]
pub(crate) fn parent(path: &str) -> (r: Option<String>)
    ensures
        opt_view(r) == path_parent(path@),
{
    std::path::Path::new(path).parent().map(|p| p.to_string_lossy().into_owned())
}

/// `Path::join` of `base` and `part`.
#[verifier::external_body]
pub(crate) fn join(base: &str, part: &str) -> (r: String)
    ensures
        r@ == path_join(base@, part@),
{
    std::path::Path::new(base).join(part).to_string_lossy().into_owned()
}

/// `Path::file_name` of `path`, where it is valid UTF-8.
#[verifier::external_body]
pub(crate) fn file_name(path: &str) -> (r: Option<String>)
    ensures
        opt_view(r) == path_file_name(path@),
{
    std::path::Path::new(path).file_name().and_then(|n| n.to_str()).map(|n| n.to_string())
}

/// `base` joined with each of `parts` in turn.
pub open spec fn join_all(base: Seq<char>, parts: Seq<Seq<char>>) -> Seq<char>
    decreases parts.len(),
{
    if parts.len() == 0 {
        base
    } else {
        join_all(path_join(base, parts[0]), parts.drop_first())
    }
}

// ---------------------------------------------------------------------------
// Project paths
// ---------------------------------------------------------------------------

/// The paths of an Unreal project and of the engine it uses.
pub struct UnrealProjectPaths {
    pub project_name: String,
    pub project_dir: String,
    pub uproject_path: String,
    pub engine_association: String,
    pub engine_root: String,
    pub editor_exe: String,
    pub build_bat: String,
}

/// Why project paths could not be made.
pub enum PathsError {
    NoParentDirectory,
    InvalidFileName,
    EngineRootUnknown(String),
}

impl PathsError {
    pub fn message(&self) -> (m: String)
        ensures
            m@ == spec_paths_message(*self),
    {
        match self {
            PathsError::NoParentDirectory => owned("uproject path has no parent directory"),
            PathsError::InvalidFileName => owned("uproject filename is invalid UTF-8"),
            PathsError::EngineRootUnknown(a) => crate::text::concat3(
                "could not resolve engine root for '",
                a,
                "'",
            ),
        }
    }
}

pub open spec fn spec_paths_message(e: PathsError) -> Seq<char> {
    match e {
        PathsError::NoParentDirectory => "uproject path has no parent directory"@,
        PathsError::InvalidFileName => "uproject filename is invalid UTF-8"@,
        PathsError::EngineRootUnknown(a) => "could not resolve engine root for '"@ + a@ + "'"@,
    }
}

pub open spec fn editor_exe_parts() -> Seq<Seq<char>> {
    seq!["Engine"@, "Binaries"@, "Win64"@, "UnrealEditor.exe"@]
}

pub open spec fn build_bat_parts() -> Seq<Seq<char>> {
    seq!["Engine"@, "Build"@, "BatchFiles"@, "Build.bat"@]
}

pub fn join4(base: &str, a: &str, b: &str, c: &str, d: &str) -> (r: String)
    ensures
        r@ == join_all(base@, seq![a@, b@, c@, d@]),
{
    let x1 = join(base, a);
    let x2 = join(&x1, b);
    let x3 = join(&x2, c);
    let x4 = join(&x3, d);
    proof {
        reveal_with_fuel(join_all, 5);
        let parts = seq![a@, b@, c@, d@];
        assert(parts.drop_first() =~= seq![b@, c@, d@]);
        assert(parts.drop_first().drop_first() =~= seq![c@, d@]);
        assert(parts.drop_first().drop_first().drop_first() =~= seq![d@]);
        assert(parts.drop_first().drop_first().drop_first().drop_first() =~= Seq::<Seq<char>>::empty());
    }
    x4
}

/// The paths of the project whose `.uproject` file is `uproject_path`, which names engine
/// `engine_association`, using the engine at `engine_root` (`None` when neither given nor
/// found).
pub fn resolve_project_paths(
    uproject_path: &str,
    engine_association: String,
    engine_root: Option<String>,
) -> (r: Result<UnrealProjectPaths, PathsError>)
    ensures
        match r {
            Ok(p) => {
                &&& path_parent(uproject_path@) == Some(p.project_dir@)
                &&& path_file_stem(uproject_path@) == Some(p.project_name@)
                &&& p.uproject_path@ == uproject_path@
                &&& p.engine_association@ == engine_association@
                &&& engine_root matches Some(e) && p.engine_root@ == e@
                &&& p.editor_exe@ == join_all(p.engine_root@, editor_exe_parts())
                &&& p.build_bat@ == join_all(p.engine_root@, build_bat_parts())
            },
            Err(e) => {
                ||| path_parent(uproject_path@) is None && e == PathsError::NoParentDirectory
                ||| path_parent(uproject_path@) is Some && path_file_stem(uproject_path@) is None
                    && e == PathsError::InvalidFileName
                ||| path_parent(uproject_path@) is Some && path_file_stem(uproject_path@) is Some
                    && engine_root is None && (e matches PathsError::EngineRootUnknown(a)
                    && a@ == engine_association@)
            },
        },
{
    let project_dir = match parent(uproject_path) {
        Some(d) => d,
        None => {
            return Err(PathsError::NoParentDirectory);
        },
    };
    let project_name = match file_stem(uproject_path) {
        Some(n) => n,
        None => {
            return Err(PathsError::InvalidFileName);
        },
    };
    let engine_root = match engine_root {
        Some(e) => e,
        None => {
            return Err(PathsError::EngineRootUnknown(engine_association));
        },
    };
    let editor_exe = join4(&engine_root, "Engine", "Binaries", "Win64", "UnrealEditor.exe");
    let build_bat = join4(&engine_root, "Engine", "Build", "BatchFiles", "Build.bat");
    Ok(
        UnrealProjectPaths {
            project_name,
            project_dir,
            uproject_path: owned(uproject_path),
            engine_association,
            engine_root,
            editor_exe,
            build_bat,
        },
    )
}

// ---------------------------------------------------------------------------
// Endpoint ids and settings values
// ---------------------------------------------------------------------------

/// The characters of a project name, ASCII letters and digits lowered, every other run of
/// characters made one `-`; with whether the last character written is such a `-`.
pub open spec fn slug(s: Seq<char>) -> (Seq<char>, bool)
    decreases s.len(),
{
    if s.len() == 0 {
        (Seq::empty(), false)
    } else {
        let (a, d) = slug(s.drop_last());
        let c = s.last();
        if is_ascii_alnum(c) {
            (a.push(lower_char(c)), false)
        } else if !d {
            (a.push('-'), true)
        } else {
            (a, d)
        }
    }
}

/// `trim_matches('-')`.
pub open spec fn trim_dashes(s: Seq<char>) -> Seq<char>
    decreases s.len(),
{
    if s.len() > 0 && s[0] == '-' {
        trim_dashes(s.drop_first())
    } else if s.len() > 0 && s.last() == '-' {
        trim_dashes(s.drop_last())
    } else {
        s
    }
}

/// `normalize_endpoint_id`: the slug without outer dashes and with `-local` appended, or
/// `unreal-local` when nothing is left.
pub open spec fn spec_endpoint_id(name: Seq<char>) -> Seq<char> {
    let out = trim_dashes(slug(name).0);
    if out.len() == 0 {
        "unreal-local"@
    } else {
        out + "-local"@
    }
}

fn trim_dashes_exec(v: &[char]) -> (r: Vec<char>)
    ensures
        r@ == trim_dashes(v@),
{
    let mut a: usize = 0;
    let mut b: usize = v.len();
    assert(v@.subrange(0, v@.len() as int) =~= v@);
    while a < b && (v[a] == '-' || v[b - 1] == '-')
        invariant
            0 <= a <= b <= v@.len(),
            trim_dashes(v@) == trim_dashes(v@.subrange(a as int, b as int)),
        decreases b - a,
    {
        let ghost t = v@.subrange(a as int, b as int);
        if v[a] == '-' {
            assert(t.drop_first() =~= v@.subrange(a + 1, b as int));
            a = a + 1;
        } else {
            assert(t.drop_last() =~= v@.subrange(a as int, b - 1));
            b = b - 1;
        }
    }
    assert(v@.subrange(0, v@.len() as int) =~= v@);
    let r = copy_range(v, a, b);
    proof {
        let t = v@.subrange(a as int, b as int);
        if a == b {
            assert(t.len() == 0);
        }
    }
    r
}

/// The MCP id derived from a project name: `Lyra Starter` gives `lyra-starter-local`.
pub fn normalize_endpoint_id(project_name: &str) -> (id: String)
    ensures
        id@ == spec_endpoint_id(project_name@),
{
    let s = chars_of(project_name);
    let mut out: Vec<char> = Vec::new();
    let mut last_dash = false;
    let mut i: usize = 0;
    assert(s@.take(0) =~= Seq::<char>::empty());
    while i < s.len()
        invariant
            0 <= i <= s@.len(),
            slug(s@.take(i as int)) == (out@, last_dash),
        decreases s@.len() - i,
    {
        let ch = s[i];
        assert(s@.take(i + 1).drop_last() =~= s@.take(i as int));
        if ascii_alnum(ch) {
            out.push(to_lower_char(ch));
            last_dash = false;
        } else if !last_dash {
            out.push('-');
            last_dash = true;
        }
        i = i + 1;
    }
    assert(s@.take(s@.len() as int) =~= s@);
    let t = trim_dashes_exec(&out);
    if t.len() == 0 {
        owned("unreal-local")
    } else {
        let ts = string_from_chars(&t);
        concat2(&ts, "-local")
    }
}

/// A settings path: `/mcp` when empty, else with a leading `/`.
pub open spec fn spec_normalize_path(p: Seq<char>) -> Seq<char> {
    if p.len() == 0 {
        "/mcp"@
    } else if has_prefix(p, seq!['/']) {
        p
    } else {
        seq!['/'] + p
    }
}

pub fn normalize_path(path: &str) -> (r: String)
    ensures
        r@ == spec_normalize_path(path@),
{
    proof {
        reveal_strlit("/");
        assert("/"@ =~= seq!['/']);
    }
    if path.is_empty() {
        owned("/mcp")
    } else if str_starts_with(path, "/") {
        owned(path)
    } else {
        concat2("/", path)
    }
}

/// A settings transport: `stdio` or `sse` when the value mentions it (in any ASCII case),
/// else `http`.
pub open spec fn spec_normalize_transport(v: Seq<char>) -> Seq<char> {
    if contains(lower(v), "stdio"@) {
        "stdio"@
    } else if contains(lower(v), "sse"@) {
        "sse"@
    } else {
        "http"@
    }
}

pub fn normalize_transport(value: &str) -> (r: String)
    ensures
        r@ == spec_normalize_transport(value@),
{
    let lowered = to_ascii_lowercase(value);
    if str_contains(&lowered, "stdio") {
        owned("stdio")
    } else if str_contains(&lowered, "sse") {
        owned("sse")
    } else {
        owned("http")
    }
}

/// A settings flag: `1`, `true`, `yes` or `on` in any ASCII case.
pub open spec fn spec_parse_bool(v: Seq<char>) -> bool {
    let l = lower(v);
    l == "1"@ || l == "true"@ || l == "yes"@ || l == "on"@
}

pub fn parse_bool(value: &str) -> (r: bool)
    ensures
        r == spec_parse_bool(value@),
{
    let lowered = to_ascii_lowercase(value);
    str_eq(&lowered, "1") || str_eq(&lowered, "true") || str_eq(&lowered, "yes") || str_eq(
        &lowered,
        "on",
    )
}

// ---------------------------------------------------------------------------
// INI settings
// ---------------------------------------------------------------------------

/// The pieces of `raw` between newlines.
pub open spec fn pieces(raw: Seq<char>) -> Seq<Seq<char>>
    decreases raw.len(),
{
    if raw.len() == 0 {
        seq![Seq::empty()]
    } else {
        let p = pieces(raw.drop_last());
        if raw.last() == '\n' {
            p.push(Seq::empty())
        } else {
            p.update(p.len() - 1, p.last().push(raw.last()))
        }
    }
}

/// `str::lines` up to the carriage returns, which trimming removes: the pieces between
/// newlines, without an empty last one.
pub open spec fn lines(raw: Seq<char>) -> Seq<Seq<char>> {
    let p = pieces(raw);
    if p.last().len() == 0 {
        p.drop_last()
    } else {
        p
    }
}

/// `split_once('=')`: the text before the first `=` and after it.
pub open spec fn split_eq(t: Seq<char>) -> Option<(Seq<char>, Seq<char>)> {
    match crate::smap::first_match(t, |c: char| c == '=') {
        Some(i) => Some((t.take(i), t.skip(i + 1))),
        None => None,
    }
}

/// The `key=value` settings (both trimmed) of the sections named `section` (as
/// `[section]`, in any ASCII case) among `ls[i..]`, given whether line `i` is inside one;
/// blank lines and `;` comments are skipped.
pub open spec fn section_entries(ls: Seq<Seq<char>>, i: int, inside: bool, section: Seq<char>) -> Seq<
    (Seq<char>, Seq<char>),
>
    decreases ls.len() - i,
{
    if !(0 <= i < ls.len()) {
        Seq::empty()
    } else {
        let t = trim(ls[i]);
        if has_prefix(t, seq!['[']) && has_suffix(t, seq![']']) {
            section_entries(ls, i + 1, eq_ignore_case(t, seq!['['] + section + seq![']']), section)
        } else if !inside || t.len() == 0 || has_prefix(t, seq![';']) {
            section_entries(ls, i + 1, inside, section)
        } else {
            match split_eq(t) {
                None => section_entries(ls, i + 1, inside, section),
                Some((k, v)) => seq![(trim(k), trim(v))] + section_entries(
                    ls,
                    i + 1,
                    inside,
                    section,
                ),
            }
        }
    }
}

/// Whether a line `[section]` occurs among `ls`.
pub open spec fn section_seen(ls: Seq<Seq<char>>, section: Seq<char>) -> bool {
    exists|i: int|
        0 <= i < ls.len() && has_prefix(trim(#[trigger] ls[i]), seq!['['])
            && has_suffix(trim(ls[i]), seq![']']) && eq_ignore_case(
            trim(ls[i]),
            seq!['['] + section + seq![']'],
        )
}

/// The settings of section `section` in the INI text `raw`.
pub open spec fn ini_entries(raw: Seq<char>, section: Seq<char>) -> Seq<(Seq<char>, Seq<char>)> {
    section_entries(lines(raw), 0, false, section)
}

/// The lines of `raw`.
pub fn split_lines(raw: &str) -> (r: Vec<Vec<char>>)
    ensures
        r@.len() == lines(raw@).len(),
        forall|i: int| 0 <= i < r@.len() ==> (#[trigger] r@[i])@ == lines(raw@)[i],
{
    let s = chars_of(raw);
    let mut out: Vec<Vec<char>> = Vec::new();
    let mut cur: Vec<char> = Vec::new();
    let mut i: usize = 0;
    assert(s@.take(0) =~= Seq::<char>::empty());
    while i < s.len()
        invariant
            0 <= i <= s@.len(),
            out@.len() + 1 == pieces(s@.take(i as int)).len(),
            forall|j: int| 0 <= j < out@.len() ==> (#[trigger] out@[j])@ == pieces(s@.take(i as int))[j],
            cur@ == pieces(s@.take(i as int)).last(),
        decreases s@.len() - i,
    {
        proof {
            lemma_pieces_nonempty(s@.take(i as int));
        }
        assert(s@.take(i + 1).drop_last() =~= s@.take(i as int));
        let c = s[i];
        if c == '\n' {
            let mut done: Vec<char> = Vec::new();
            std::mem::swap(&mut done, &mut cur);
            out.push(done);
        } else {
            cur.push(c);
        }
        i = i + 1;
        proof {
            lemma_pieces_nonempty(s@.take(i as int));
        }
    }
    assert(s@.take(s@.len() as int) =~= s@);
    proof {
        lemma_pieces_nonempty(s@);
    }
    if cur.len() > 0 {
        out.push(cur);
    }
    out
}

proof fn lemma_pieces_nonempty(raw: Seq<char>)
    ensures
        pieces(raw).len() >= 1,
    decreases raw.len(),
{
    if raw.len() > 0 {
        lemma_pieces_nonempty(raw.drop_last());
    }
}

/// `split_once('=')` on the characters `t`.
fn split_eq_exec(t: &[char]) -> (r: Option<(Vec<char>, Vec<char>)>)
    ensures
        match r {
            Some((k, v)) => split_eq(t@) == Some((k@, v@)),
            None => split_eq(t@) is None,
        },
{
    let ghost f = |c: char| c == '=';
    let mut i: usize = 0;
    while i < t.len()
        invariant
            0 <= i <= t@.len(),
            f == (|c: char| c == '='),
            forall|j: int| 0 <= j < i ==> !f(#[trigger] t@[j]),
        decreases t@.len() - i,
    {
        if t[i] == '=' {
            proof {
                crate::smap::lemma_first_match_at(t@, f, i as int);
            }
            let k = copy_range(t, 0, i);
            let v = copy_range(t, i + 1, t.len());
            assert(k@ =~= t@.take(i as int));
            assert(v@ =~= t@.skip(i + 1));
            return Some((k, v));
        }
        i = i + 1;
    }
    proof {
        crate::smap::lemma_first_match_none(t@, f);
    }
    None
}

/// The settings of section `section` in the lines `ls`.
pub fn section_entries_exec(ls: &Vec<Vec<char>>, section: &str) -> (r: Vec<(Vec<char>, Vec<char>)>)
    ensures
        r@.len() == section_entries(ls@.map_values(|l: Vec<char>| l@), 0, false, section@).len(),
        forall|i: int|
            0 <= i < r@.len() ==> ((#[trigger] r@[i]).0@, r@[i].1@) == section_entries(
                ls@.map_values(|l: Vec<char>| l@),
                0,
                false,
                section@,
            )[i],
{
    let ghost lv = ls@.map_values(|l: Vec<char>| l@);
    let sec = chars_of(section);
    let mut header: Vec<char> = Vec::new();
    header.push('[');
    push_all(&mut header, &sec);
    header.push(']');
    let open = chars_of("[");
    let close = chars_of("]");
    let semi = chars_of(";");
    proof {
        reveal_strlit("[");
        reveal_strlit("]");
        reveal_strlit(";");
        assert(open@ =~= seq!['[']);
        assert(close@ =~= seq![']']);
        assert(semi@ =~= seq![';']);
        assert(header@ =~= seq!['['] + section@ + seq![']']);
    }
    let lheader = lower_chars(&header);
    let mut out: Vec<(Vec<char>, Vec<char>)> = Vec::new();
    let mut inside = false;
    let mut i: usize = 0;
    while i < ls.len()
        invariant
            0 <= i <= ls@.len(),
            lv == ls@.map_values(|l: Vec<char>| l@),
            open@ == seq!['['],
            close@ == seq![']'],
            semi@ == seq![';'],
            lheader@ == lower(seq!['['] + section@ + seq![']']),
            section_entries(lv, 0, false, section@) == out@.map_values(
                |e: (Vec<char>, Vec<char>)| (e.0@, e.1@),
            ) + section_entries(lv, i as int, inside, section@),
        decreases ls@.len() - i,
    {
        let t = trim_chars(&ls[i]);
        assert(lv[i as int] == ls@[i as int]@);
        if starts_with_chars(&t, &open) && ends_with_chars(&t, &close) {
            let lt = lower_chars(&t);
            inside = slice_eq(&lt, &lheader);
        } else if !inside || t.len() == 0 || starts_with_chars(&t, &semi) {
        } else {
            match split_eq_exec(&t) {
                None => {},
                Some((k, v)) => {
                    let tk = trim_chars(&k);
                    let tv = trim_chars(&v);
                    let ghost before = out@.map_values(|e: (Vec<char>, Vec<char>)| (e.0@, e.1@));
                    let ghost kv = (tk@, tv@);
                    out.push((tk, tv));
                    assert(out@.map_values(|e: (Vec<char>, Vec<char>)| (e.0@, e.1@)) =~= before.push(
                        kv,
                    ));
                    assert(before.push(kv) + section_entries(lv, i + 1, inside, section@)
                        =~= before + (seq![kv] + section_entries(lv, i + 1, inside, section@)));
                },
            }
        }
        i = i + 1;
    }
    assert(section_entries(lv, i as int, inside, section@) =~= Seq::<(Seq<char>, Seq<char>)>::empty());
    assert(out@.map_values(|e: (Vec<char>, Vec<char>)| (e.0@, e.1@)) =~= section_entries(
        lv,
        0,
        false,
        section@,
    ));
    out
}


// ---------------------------------------------------------------------------
// MCP transport settings read from INI files
// ---------------------------------------------------------------------------

/// The MCP transport settings of a project.
pub struct CopilotTransportConfig {
    pub host: String,
    pub port: u16,
    pub path: String,
    pub transport: String,
    pub auto_start: bool,
}

pub struct TransportView {
    pub host: Seq<char>,
    pub port: u16,
    pub path: Seq<char>,
    pub transport: Seq<char>,
    pub auto_start: bool,
}

impl View for CopilotTransportConfig {
    type V = TransportView;

    open spec fn view(&self) -> TransportView {
        TransportView {
            host: self.host@,
            port: self.port,
            path: self.path@,
            transport: self.transport@,
            auto_start: self.auto_start,
        }
    }
}

/// Host `127.0.0.1`, port 19840, path `/mcp`, transport `http`, no auto-start.
pub open spec fn default_transport() -> TransportView {
    TransportView {
        host: "127.0.0.1"@,
        port: 19840,
        path: "/mcp"@,
        transport: "http"@,
        auto_start: false,
    }
}

impl Default for CopilotTransportConfig {
    fn default() -> (r: Self)
        ensures
            r@ == default_transport(),
    {
        CopilotTransportConfig {
            host: owned("127.0.0.1"),
            port: 19840,
            path: owned("/mcp"),
            transport: owned("http"),
            auto_start: false,
        }
    }
}

/// Whether the optional key name `key` is `k`.
pub open spec fn key_is(key: Option<Seq<char>>, k: Seq<char>) -> bool {
    key == Some(k)
}

/// The settings after the entry `k=v`, where `keys` names the keys to read.
pub open spec fn apply_setting(
    t: TransportView,
    keys: StrategyView,
    k: Seq<char>,
    v: Seq<char>,
) -> TransportView {
    TransportView {
        host: if key_is(keys.host_key, k) {
            v
        } else {
            t.host
        },
        port: if key_is(keys.port_key, k) && parse_unsigned(v, u16::MAX as nat) is Some {
            parse_unsigned(v, u16::MAX as nat).unwrap() as u16
        } else {
            t.port
        },
        path: if key_is(keys.path_key, k) {
            spec_normalize_path(v)
        } else {
            t.path
        },
        transport: if key_is(keys.transport_key, k) {
            spec_normalize_transport(v)
        } else {
            t.transport
        },
        auto_start: if key_is(keys.auto_start_key, k) {
            spec_parse_bool(v)
        } else {
            t.auto_start
        },
    }
}

/// Whether the endpoint stays enabled after the entry `k=v`.
pub open spec fn enabled_after(e: bool, keys: StrategyView, k: Seq<char>, v: Seq<char>) -> bool {
    if key_is(keys.enable_key, k) {
        spec_parse_bool(v)
    } else {
        e
    }
}

/// The settings after the entries `es`, in order.
pub open spec fn apply_entries(
    t: TransportView,
    keys: StrategyView,
    es: Seq<(Seq<char>, Seq<char>)>,
) -> TransportView
    decreases es.len(),
{
    if es.len() == 0 {
        t
    } else {
        let t0 = apply_entries(t, keys, es.drop_last());
        apply_setting(t0, keys, es.last().0, es.last().1)
    }
}

pub open spec fn enabled_entries(e: bool, keys: StrategyView, es: Seq<(Seq<char>, Seq<char>)>) -> bool
    decreases es.len(),
{
    if es.len() == 0 {
        e
    } else {
        enabled_after(enabled_entries(e, keys, es.drop_last()), keys, es.last().0, es.last().1)
    }
}

/// The settings after the section `keys.section` of each of the INI texts `files`, in order.
pub open spec fn apply_files(t: TransportView, keys: StrategyView, files: Seq<Seq<char>>) -> TransportView
    decreases files.len(),
{
    if files.len() == 0 {
        t
    } else {
        apply_entries(
            apply_files(t, keys, files.drop_last()),
            keys,
            ini_entries(files.last(), keys.section),
        )
    }
}

pub open spec fn enabled_files(e: bool, keys: StrategyView, files: Seq<Seq<char>>) -> bool
    decreases files.len(),
{
    if files.len() == 0 {
        e
    } else {
        enabled_entries(
            enabled_files(e, keys, files.drop_last()),
            keys,
            ini_entries(files.last(), keys.section),
        )
    }
}

/// Whether one of the INI texts `files` has the section `section`.
pub open spec fn section_in_files(files: Seq<Seq<char>>, section: Seq<char>) -> bool {
    exists|i: int| 0 <= i < files.len() && section_seen(lines(#[trigger] files[i]), section)
}

/// Whether `key` is `Some(k)`.
fn key_matches(key: &Option<String>, k: &[char]) -> (r: bool)
    ensures
        r == key_is(opt_view(*key), k@),
{
    match key {
        Some(name) => {
            let n = chars_of(name.as_str());
            slice_eq(&n, k)
        },
        None => false,
    }
}

/// The settings of section `keys.section` in the INI text `raw`, applied to `settings`
/// and `enabled`.
fn apply_ini_text(
    settings: &mut CopilotTransportConfig,
    enabled: &mut bool,
    keys: &EndpointDiscoveryStrategy,
    raw: &str,
)
    ensures
        final(settings)@ == apply_entries(old(settings)@, keys@, ini_entries(raw@, keys@.section)),
        *final(enabled) == enabled_entries(*old(enabled), keys@, ini_entries(raw@, keys@.section)),
{
    let ls = split_lines(raw);
    assert(ls@.map_values(|l: Vec<char>| l@) =~= lines(raw@));
    let es = section_entries_exec(&ls, keys.section.as_str());
    let ghost all = ini_entries(raw@, keys@.section);
    let mut i: usize = 0;
    while i < es.len()
        invariant
            0 <= i <= es@.len(),
            es@.len() == all.len(),
            forall|j: int| 0 <= j < es@.len() ==> ((#[trigger] es@[j]).0@, es@[j].1@) == all[j],
            settings@ == apply_entries(old(settings)@, keys@, all.take(i as int)),
            *enabled == enabled_entries(*old(enabled), keys@, all.take(i as int)),
        decreases es@.len() - i,
    {
        let k = &es[i].0;
        let v = &es[i].1;
        assert(all.take(i + 1).drop_last() =~= all.take(i as int));
        assert(all.take(i + 1).last() == all[i as int]);
        let value = string_from_chars(v);
        if key_matches(&keys.host_key, k) {
            settings.host = string_from_chars(v);
        }
        if key_matches(&keys.port_key, k) {
            match parse_unsigned_chars(v, 65535) {
                Some(n) => {
                    settings.port = n as u16;
                },
                None => {},
            }
        }
        if key_matches(&keys.path_key, k) {
            settings.path = normalize_path(value.as_str());
        }
        if key_matches(&keys.transport_key, k) {
            settings.transport = normalize_transport(value.as_str());
        }
        if key_matches(&keys.auto_start_key, k) {
            settings.auto_start = parse_bool(value.as_str());
        }
        if key_matches(&keys.enable_key, k) {
            *enabled = parse_bool(value.as_str());
        }
        i = i + 1;
    }
    assert(all.take(es@.len() as int) =~= all);
}

/// The paths of the two INI files that hold the UnrealCopilot settings of the project in
/// `project_dir`, in the order they are read.
pub fn copilot_settings_paths(project_dir: &str) -> (r: Vec<String>)
    ensures
        r@.len() == 2,
        r@[0]@ == join_all(project_dir@, seq!["Config"@, "DefaultEditorPerProjectUserSettings.ini"@]),
        r@[1]@ == join_all(
            project_dir@,
            seq!["Saved"@, "Config"@, "WindowsEditor"@, "EditorPerProjectUserSettings.ini"@],
        ),
{
    let a1 = join(project_dir, "Config");
    let a2 = join(&a1, "DefaultEditorPerProjectUserSettings.ini");
    let b = join4(project_dir, "Saved", "Config", "WindowsEditor", "EditorPerProjectUserSettings.ini");
    proof {
        reveal_with_fuel(join_all, 3);
        let parts = seq!["Config"@, "DefaultEditorPerProjectUserSettings.ini"@];
        assert(parts.drop_first() =~= seq!["DefaultEditorPerProjectUserSettings.ini"@]);
        assert(parts.drop_first().drop_first() =~= Seq::<Seq<char>>::empty());
    }
    let mut r: Vec<String> = Vec::new();
    r.push(a2);
    r.push(b);
    r
}

/// The UnrealCopilot transport settings given by the INI texts `settings_files` (the
/// contents of those of `copilot_settings_paths` that exist, in that order), over the
/// defaults.
pub fn read_copilot_transport(settings_files: &Vec<String>) -> (r: CopilotTransportConfig)
    ensures
        r@ == apply_files(default_transport(), unrealcopilot_strategy(), strings_view(settings_files@)),
{
    let keys = default_unrealcopilot_strategy();
    let mut settings = CopilotTransportConfig::default();
    let mut enabled = true;
    let ghost files = strings_view(settings_files@);
    let mut i: usize = 0;
    while i < settings_files.len()
        invariant
            0 <= i <= settings_files@.len(),
            files == strings_view(settings_files@),
            keys@ == unrealcopilot_strategy(),
            settings@ == apply_files(default_transport(), keys@, files.take(i as int)),
        decreases settings_files@.len() - i,
    {
        assert(files.take(i + 1).drop_last() =~= files.take(i as int));
        apply_ini_text(&mut settings, &mut enabled, &keys, settings_files[i].as_str());
        i = i + 1;
    }
    assert(files.take(files.len() as int) =~= files);
    settings
}

// ---------------------------------------------------------------------------
// MCP endpoints declared by a project's plugins
// ---------------------------------------------------------------------------

/// Whether a strategy yields an endpoint for the INI texts `files`: its section occurs and,
/// where it has an enable key, the last value given to it is true.
pub open spec fn strategy_yields(st: StrategyView, files: Seq<Seq<char>>) -> bool {
    section_in_files(files, st.section) && enabled_files(true, st, files)
}

/// The settings a strategy starts from: host `127.0.0.1`, its default port, path `/mcp`,
/// transport `http`, no auto-start.
pub open spec fn strategy_defaults(st: StrategyView) -> TransportView {
    TransportView { port: st.default_port, ..default_transport() }
}

/// The endpoint a strategy yields for project `project`: the first endpoint of a project is
/// named after the project alone, a later one after the project and the strategy.
pub open spec fn strategy_endpoint(
    project: Seq<char>,
    st: StrategyView,
    files: Seq<Seq<char>>,
    later: bool,
) -> EndpointView {
    let t = apply_files(strategy_defaults(st), st, files);
    EndpointView {
        name: project + " "@ + st.name,
        endpoint_id: if later {
            spec_endpoint_id(project + " "@ + st.name)
        } else {
            spec_endpoint_id(project)
        },
        host: t.host,
        port: t.port,
        path: t.path,
        transport: t.transport,
        auto_start: t.auto_start,
    }
}

pub open spec fn files_at(cs: Seq<Seq<Seq<char>>>, i: int) -> Seq<Seq<char>> {
    if 0 <= i < cs.len() {
        cs[i]
    } else {
        Seq::empty()
    }
}

/// The endpoints that the strategies `sts[i..]` yield, `cs[j]` being the INI texts read for
/// strategy `j`; `later` tells whether an endpoint was yielded before.
pub open spec fn endpoints_from(
    project: Seq<char>,
    sts: Seq<StrategyView>,
    cs: Seq<Seq<Seq<char>>>,
    i: int,
    later: bool,
) -> Seq<EndpointView>
    decreases sts.len() - i,
{
    if !(0 <= i < sts.len()) {
        Seq::empty()
    } else if strategy_yields(sts[i], files_at(cs, i)) {
        seq![strategy_endpoint(project, sts[i], files_at(cs, i), later)] + endpoints_from(
            project,
            sts,
            cs,
            i + 1,
            true,
        )
    } else {
        endpoints_from(project, sts, cs, i + 1, later)
    }
}

pub open spec fn nested_strings_view(cs: Seq<Vec<String>>) -> Seq<Seq<Seq<char>>> {
    cs.map_values(|v: Vec<String>| strings_view(v@))
}

pub open spec fn spec_strategies(v: Seq<EndpointDiscoveryStrategy>) -> Seq<StrategyView> {
    crate::config::strategies_view(v)
}

/// Whether a line of `raw` is a header of section `section`.
fn text_has_section(raw: &str, section: &str) -> (r: bool)
    ensures
        r == section_seen(lines(raw@), section@),
{
    let ls = split_lines(raw);
    let sec = chars_of(section);
    let mut header: Vec<char> = Vec::new();
    header.push('[');
    push_all(&mut header, &sec);
    header.push(']');
    let lheader = lower_chars(&header);
    let open = chars_of("[");
    let close = chars_of("]");
    proof {
        reveal_strlit("[");
        reveal_strlit("]");
        assert(open@ =~= seq!['[']);
        assert(close@ =~= seq![']']);
        assert(header@ =~= seq!['['] + section@ + seq![']']);
    }
    let ghost lv = lines(raw@);
    let mut i: usize = 0;
    while i < ls.len()
        invariant
            0 <= i <= ls@.len(),
            lv == lines(raw@),
            ls@.len() == lv.len(),
            forall|j: int| 0 <= j < ls@.len() ==> (#[trigger] ls@[j])@ == lv[j],
            open@ == seq!['['],
            close@ == seq![']'],
            lheader@ == lower(seq!['['] + section@ + seq![']']),
            forall|j: int|
                0 <= j < i ==> !(has_prefix(trim(#[trigger] lv[j]), seq!['['])
                    && has_suffix(trim(lv[j]), seq![']']) && eq_ignore_case(
                    trim(lv[j]),
                    seq!['['] + section@ + seq![']'],
                )),
        decreases ls@.len() - i,
    {
        let t = trim_chars(&ls[i]);
        assert(ls@[i as int]@ == lv[i as int]);
        if starts_with_chars(&t, &open) && ends_with_chars(&t, &close) {
            let lt = lower_chars(&t);
            if slice_eq(&lt, &lheader) {
                return true;
            }
        }
        i = i + 1;
    }
    false
}

/// Whether one of the INI texts `files` has the section `section`.
fn files_have_section(files: &Vec<String>, section: &str) -> (r: bool)
    ensures
        r == section_in_files(strings_view(files@), section@),
{
    let ghost fs = strings_view(files@);
    let mut i: usize = 0;
    while i < files.len()
        invariant
            0 <= i <= files@.len(),
            fs == strings_view(files@),
            forall|j: int| 0 <= j < i ==> !section_seen(lines(#[trigger] fs[j]), section@),
        decreases files@.len() - i,
    {
        if text_has_section(files[i].as_str(), section) {
            assert(section_seen(lines(fs[i as int]), section@));
            return true;
        }
        i = i + 1;
    }
    false
}

/// The settings that strategy `st` reads from the INI texts `files`, with whether the
/// endpoint stays enabled.
fn read_strategy_settings(st: &EndpointDiscoveryStrategy, files: &Vec<String>) -> (r: (
    CopilotTransportConfig,
    bool,
))
    ensures
        r.0@ == apply_files(strategy_defaults(st@), st@, strings_view(files@)),
        r.1 == enabled_files(true, st@, strings_view(files@)),
{
    let mut settings = CopilotTransportConfig::default();
    settings.port = st.default_port;
    let mut enabled = true;
    let ghost fs = strings_view(files@);
    let mut i: usize = 0;
    while i < files.len()
        invariant
            0 <= i <= files@.len(),
            fs == strings_view(files@),
            settings@ == apply_files(strategy_defaults(st@), st@, fs.take(i as int)),
            enabled == enabled_files(true, st@, fs.take(i as int)),
        decreases files@.len() - i,
    {
        assert(fs.take(i + 1).drop_last() =~= fs.take(i as int));
        apply_ini_text(&mut settings, &mut enabled, st, files[i].as_str());
        i = i + 1;
    }
    assert(fs.take(fs.len() as int) =~= fs);
    (settings, enabled)
}

/// The paths of the INI files that strategy `st` reads for the project in `project_dir`.
pub fn strategy_config_paths(project_dir: &str, st: &EndpointDiscoveryStrategy) -> (r: Vec<String>)
    ensures
        r@.len() == st@.config_files.len(),
        forall|i: int|
            0 <= i < r@.len() ==> (#[trigger] r@[i])@ == path_join(project_dir@, st@.config_files[i]),
{
    let mut r: Vec<String> = Vec::new();
    let mut i: usize = 0;
    while i < st.config_files.len()
        invariant
            0 <= i <= st.config_files@.len(),
            r@.len() == i,
            forall|j: int|
                0 <= j < i ==> (#[trigger] r@[j])@ == path_join(project_dir@, st@.config_files[j]),
        decreases st.config_files@.len() - i,
    {
        r.push(join(project_dir, st.config_files[i].as_str()));
        i = i + 1;
    }
    r
}

/// The MCP endpoints that the discovery strategies `strategies` find for project
/// `project_name`, where `strategy_files[i]` holds the INI texts read for strategy `i`
/// (the contents of those of its `strategy_config_paths` that exist, in that order).
pub fn read_project_mcp_endpoints(
    project_name: &str,
    strategies: &[EndpointDiscoveryStrategy],
    strategy_files: &Vec<Vec<String>>,
) -> (r: Vec<ProjectMcpEndpoint>)
    ensures
        r@.map_values(|e: ProjectMcpEndpoint| e@) == endpoints_from(
            project_name@,
            spec_strategies(strategies@),
            nested_strings_view(strategy_files@),
            0,
            false,
        ),
{
    let ghost sts = spec_strategies(strategies@);
    let ghost cs = nested_strings_view(strategy_files@);
    let mut out: Vec<ProjectMcpEndpoint> = Vec::new();
    let mut later = false;
    let empty: Vec<String> = Vec::new();
    let mut i: usize = 0;
    while i < strategies.len()
        invariant
            0 <= i <= strategies@.len(),
            sts == spec_strategies(strategies@),
            cs == nested_strings_view(strategy_files@),
            empty@.len() == 0,
            endpoints_from(project_name@, sts, cs, 0, false) == out@.map_values(
                |e: ProjectMcpEndpoint| e@,
            ) + endpoints_from(project_name@, sts, cs, i as int, later),
        decreases strategies@.len() - i,
    {
        let st = &strategies[i];
        let files = if i < strategy_files.len() {
            &strategy_files[i]
        } else {
            &empty
        };
        assert(strings_view(files@) == files_at(cs, i as int)) by {
            if i >= strategy_files.len() {
                assert(strings_view(files@) =~= Seq::<Seq<char>>::empty());
            }
        }
        assert(sts[i as int] == st@);
        let seen = files_have_section(files, st.section.as_str());
        let (settings, enabled) = read_strategy_settings(st, files);
        if seen && enabled {
            let label = concat3(project_name, " ", st.name.as_str());
            let endpoint_id = if later {
                normalize_endpoint_id(label.as_str())
            } else {
                normalize_endpoint_id(project_name)
            };
            let e = ProjectMcpEndpoint {
                name: label,
                endpoint_id,
                host: settings.host,
                port: settings.port,
                path: settings.path,
                transport: settings.transport,
                auto_start: settings.auto_start,
            };
            let ghost before = out@.map_values(|e: ProjectMcpEndpoint| e@);
            let ghost ev = e@;
            assert(ev == strategy_endpoint(project_name@, sts[i as int], files_at(cs, i as int), later));
            out.push(e);
            assert(out@.map_values(|e: ProjectMcpEndpoint| e@) =~= before.push(ev));
            assert(before.push(ev) + endpoints_from(project_name@, sts, cs, i + 1, true) =~= before
                + (seq![ev] + endpoints_from(project_name@, sts, cs, i + 1, true)));
            later = true;
        }
        i = i + 1;
    }
    assert(out@.map_values(|e: ProjectMcpEndpoint| e@) =~= endpoints_from(
        project_name@,
        sts,
        cs,
        0,
        false,
    ));
    out
}


// ---------------------------------------------------------------------------
// Locating the project file and its engine
// ---------------------------------------------------------------------------

/// What `Path::extension` gives for a path, as text.
pub uninterp spec fn path_extension(p: Seq<char>) -> Option<Seq<char>>;

/// `Path::extension` of `path`, where it is valid UTF-8.
#[verifier::external_body]
pub(crate) fn extension(path: &str) -> (r: Option<String>)
    ensures
        opt_view(r) == path_extension(path@),
{
    std::path::Path::new(path).extension().and_then(|e| e.to_str()).map(|e| e.to_string())
}

pub open spec fn is_uproject(p: Seq<char>) -> bool {
    path_extension(p) == Some("uproject"@)
}

fn has_uproject_extension(path: &str) -> (r: bool)
    ensures
        r == is_uproject(path@),
{
    match extension(path) {
        Some(e) => str_eq(e.as_str(), "uproject"),
        None => false,
    }
}

/// Why no project file was found.
pub enum UprojectError {
    /// The given file is no `.uproject` file.
    NotAProjectFile(String),
    /// No directory from the start upward holds a `.uproject` file.
    NotFound(String),
}

impl UprojectError {
    pub fn message(&self) -> (m: String)
        ensures
            m@ == match *self {
                UprojectError::NotAProjectFile(p) => "expected a .uproject file, got "@ + p@,
                UprojectError::NotFound(p) => "could not locate a .uproject by walking upward from "@
                    + p@,
            },
    {
        match self {
            UprojectError::NotAProjectFile(p) => concat2("expected a .uproject file, got ", p),
            UprojectError::NotFound(p) => concat2(
                "could not locate a .uproject by walking upward from ",
                p,
            ),
        }
    }
}

/// The start path itself when it is a file: accepted when its extension is `uproject`.
pub fn uproject_from_file(path: &str) -> (r: Result<String, UprojectError>)
    ensures
        match r {
            Ok(p) => is_uproject(path@) && p@ == path@,
            Err(e) => !is_uproject(path@) && (e matches UprojectError::NotAProjectFile(p) && p@
                == path@),
        },
{
    if has_uproject_extension(path) {
        Ok(owned(path))
    } else {
        Err(UprojectError::NotAProjectFile(owned(path)))
    }
}


/// The project file chosen among the entries `entries` of one directory: the least, in the
/// order of `seq_lt`, of those with extension `uproject`.
pub fn pick_uproject(entries: &Vec<String>) -> (r: Option<String>)
    ensures
        match r {
            Some(p) => exists|i: int|
                0 <= i < entries@.len() && (#[trigger] entries@[i])@ == p@ && is_uproject(p@) && forall|
                    j: int,
                | 0 <= j < entries@.len() && is_uproject((#[trigger] entries@[j])@) ==> !seq_lt(
                    entries@[j]@,
                    p@,
                ),
            None => forall|j: int|
                0 <= j < entries@.len() ==> !is_uproject((#[trigger] entries@[j])@),
        },
{
    let mut best: Option<usize> = None;
    let mut i: usize = 0;
    while i < entries.len()
        invariant
            0 <= i <= entries@.len(),
            match best {
                Some(b) => b < i && is_uproject(entries@[b as int]@) && forall|j: int|
                    0 <= j < i && is_uproject((#[trigger] entries@[j])@) ==> !seq_lt(
                        entries@[j]@,
                        entries@[b as int]@,
                    ),
                None => forall|j: int| 0 <= j < i ==> !is_uproject((#[trigger] entries@[j])@),
            },
        decreases entries@.len() - i,
    {
        if has_uproject_extension(entries[i].as_str()) {
            match best {
                Some(b) => {
                    if str_lt(entries[i].as_str(), entries[b].as_str()) {
                        proof {
                            assert forall|j: int|
                                0 <= j < i + 1 && is_uproject((#[trigger] entries@[j])@) implies !seq_lt(
                                entries@[j]@,
                                entries@[i as int]@,
                            ) by {
                                if j < i && seq_lt(entries@[j]@, entries@[i as int]@) {
                                    crate::text::lemma_seq_lt_transitive(
                                        entries@[j]@,
                                        entries@[i as int]@,
                                        entries@[b as int]@,
                                    );
                                } else if j == i {
                                    crate::text::lemma_seq_lt_irreflexive(entries@[j]@);
                                }
                            }
                        }
                        best = Some(i);
                    } else {
                    }
                },
                None => {
                    proof {
                        crate::text::lemma_seq_lt_irreflexive(entries@[i as int]@);
                    }
                    best = Some(i);
                },
            }
        }
        i = i + 1;
    }
    match best {
        Some(b) => Some(entries[b].clone()),
        None => None,
    }
}

/// `EngineAssociation` of a `.uproject` file with text `raw`: the member's string, or empty
/// when it is missing or no string; `None` when the text is no JSON.
pub open spec fn spec_engine_association(raw: Seq<char>) -> Option<Seq<char>> {
    match strict_json(raw) {
        Some(v) => Some(
            match spec_member(v, "EngineAssociation"@) {
                Some(m) => match spec_as_str(m) {
                    Some(s) => s,
                    None => Seq::empty(),
                },
                None => Seq::empty(),
            },
        ),
        None => None,
    }
}

pub fn engine_association_from_text(raw: &str) -> (r: Option<String>)
    ensures
        opt_view(r) == spec_engine_association(raw@),
{
    match parse_strict_json(raw) {
        Some(v) => match v.get("EngineAssociation") {
            Some(m) => match m.as_str() {
                Some(s) => Some(owned(s)),
                None => Some(String::new()),
            },
            None => Some(String::new()),
        },
        None => None,
    }
}

/// `str::split_whitespace`, with whether the text ends inside a word.
pub open spec fn words_state(s: Seq<char>) -> (Seq<Seq<char>>, bool)
    decreases s.len(),
{
    if s.len() == 0 {
        (Seq::empty(), false)
    } else {
        let (w, inside) = words_state(s.drop_last());
        let c = s.last();
        if is_unicode_ws(c) {
            (w, false)
        } else if inside {
            (w.update(w.len() - 1, w.last().push(c)), true)
        } else {
            (w.push(seq![c]), true)
        }
    }
}

/// The words of `s`: its maximal runs of characters that are no Unicode whitespace.
pub open spec fn words(s: Seq<char>) -> Seq<Seq<char>> {
    words_state(s).0
}

/// The words `ws` joined with single spaces.
pub open spec fn join_spaced(ws: Seq<Seq<char>>) -> Seq<char>
    decreases ws.len(),
{
    if ws.len() == 0 {
        Seq::empty()
    } else if ws.len() == 1 {
        ws[0]
    } else {
        join_spaced(ws.drop_last()) + " "@ + ws.last()
    }
}

pub(crate) fn words_of(s: &[char]) -> (r: Vec<Vec<char>>)
    ensures
        r@.len() == words(s@).len(),
        forall|i: int| 0 <= i < r@.len() ==> (#[trigger] r@[i])@ == words(s@)[i],
{
    let mut out: Vec<Vec<char>> = Vec::new();
    let mut cur: Vec<char> = Vec::new();
    let mut inside = false;
    let mut i: usize = 0;
    assert(s@.take(0) =~= Seq::<char>::empty());
    while i < s.len()
        invariant
            0 <= i <= s@.len(),
            words_state(s@.take(i as int)).1 == inside,
            ({
                let w = words_state(s@.take(i as int)).0;
                &&& w.len() == out@.len() + (if inside { 1int } else { 0int })
                &&& forall|j: int| 0 <= j < out@.len() ==> (#[trigger] out@[j])@ == w[j]
                &&& inside ==> w.last() == cur@
            }),
        decreases s@.len() - i,
    {
        let c = s[i];
        assert(s@.take(i + 1).drop_last() =~= s@.take(i as int));
        assert(s@.take(i + 1).last() == c);
        if unicode_ws(c) {
            if inside {
                let mut done: Vec<char> = Vec::new();
                std::mem::swap(&mut done, &mut cur);
                out.push(done);
            }
            inside = false;
        } else if inside {
            cur.push(c);
        } else {
            cur = Vec::new();
            cur.push(c);
            inside = true;
        }
        i = i + 1;
    }
    assert(s@.take(s@.len() as int) =~= s@);
    if inside {
        out.push(cur);
    }
    out
}

/// The value of registry entry `name` on one line of `reg query` output: the line, trimmed,
/// starts with `name`, its first word is `name`, and after the type word the remaining words
/// joined with spaces are the value.
pub open spec fn registry_line_value(line: Seq<char>, name: Seq<char>) -> Option<Seq<char>> {
    let t = trim(line);
    let w = words(t);
    if !has_prefix(t, name) || w.len() < 2 || w[0] != name {
        None
    } else {
        Some(join_spaced(w.skip(2)))
    }
}

/// The value of registry entry `name` on the first of the lines `ls[i..]` that gives one.
pub open spec fn registry_value_from(ls: Seq<Seq<char>>, i: int, name: Seq<char>) -> Option<Seq<char>>
    decreases ls.len() - i,
{
    if !(0 <= i < ls.len()) {
        None
    } else {
        match registry_line_value(ls[i], name) {
            Some(v) => Some(v),
            None => registry_value_from(ls, i + 1, name),
        }
    }
}

fn join_words_from(ws: &Vec<Vec<char>>, from: usize) -> (r: String)
    requires
        from <= ws@.len(),
    ensures
        r@ == join_spaced(ws@.map_values(|w: Vec<char>| w@).skip(from as int)),
{
    let ghost all = ws@.map_values(|w: Vec<char>| w@).skip(from as int);
    let mut out: Vec<char> = Vec::new();
    let mut i = from;
    assert(all.take(0) =~= Seq::<Seq<char>>::empty());
    while i < ws.len()
        invariant
            from <= i <= ws@.len(),
            all == ws@.map_values(|w: Vec<char>| w@).skip(from as int),
            out@ == join_spaced(all.take(i - from)),
        decreases ws@.len() - i,
    {
        assert(all.take(i - from + 1).drop_last() =~= all.take(i - from));
        assert(all.take(i - from + 1).last() == ws@[i as int]@);
        if i > from {
            out.push(' ');
            proof {
                reveal_strlit(" ");
                assert(" "@ =~= seq![' ']);
            }
        }
        push_all(&mut out, &ws[i]);
        proof {
            if i == from {
                assert(all.take(1).len() == 1);
            }
        }
        i = i + 1;
    }
    assert(all.take(ws@.len() - from) =~= all);
    string_from_chars(&out)
}

/// The value that `reg query <key> /v <name>` printed in `stdout`.
pub fn registry_value_from_output(stdout: &str, name: &str) -> (r: Option<String>)
    ensures
        opt_view(r) == registry_value_from(lines(stdout@), 0, name@),
{
    let ls = split_lines(stdout);
    let n = chars_of(name);
    let ghost lv = lines(stdout@);
    let mut i: usize = 0;
    while i < ls.len()
        invariant
            0 <= i <= ls@.len(),
            lv == lines(stdout@),
            n@ == name@,
            ls@.len() == lv.len(),
            forall|j: int| 0 <= j < ls@.len() ==> (#[trigger] ls@[j])@ == lv[j],
            registry_value_from(lv, 0, name@) == registry_value_from(lv, i as int, name@),
        decreases ls@.len() - i,
    {
        assert(ls@[i as int]@ == lv[i as int]);
        let t = trim_chars(&ls[i]);
        if starts_with_chars(&t, &n) {
            let ws = words_of(&t);
            let ghost wv = ws@.map_values(|w: Vec<char>| w@);
            assert(wv =~= words(t@));
            if ws.len() >= 2 && slice_eq(&ws[0], &n) {
                let v = join_words_from(&ws, 2);
                return Some(v);
            }
        }
        i = i + 1;
    }
    None
}

/// The `reg query` lookups that may name the engine installed for `engine_association`:
/// (key, value name) pairs, in the order they are tried.
pub fn engine_registry_queries(engine_association: &str) -> (r: Vec<(String, String)>)
    ensures
        r@.len() == 2,
        r@[0].0@ == "HKLM\\SOFTWARE\\EpicGames\\Unreal Engine\\"@ + engine_association@,
        r@[0].1@ == "InstalledDirectory"@,
        r@[1].0@ == "HKCU\\SOFTWARE\\Epic Games\\Unreal Engine\\Builds"@,
        r@[1].1@ == engine_association@,
{
    let mut r: Vec<(String, String)> = Vec::new();
    r.push(
        (
            concat2("HKLM\\SOFTWARE\\EpicGames\\Unreal Engine\\", engine_association),
            owned("InstalledDirectory"),
        ),
    );
    r.push((owned("HKCU\\SOFTWARE\\Epic Games\\Unreal Engine\\Builds"), owned(engine_association)));
    r
}

/// The directories where an engine for `engine_association` is looked for when the registry
/// names none, in order.
pub fn engine_fallback_dirs(engine_association: &str) -> (r: Vec<String>)
    ensures
        r@.len() == 3,
        r@[0]@ == "D:\\Epic Games\\UE_"@ + engine_association@,
        r@[1]@ == "C:\\Program Files\\Epic Games\\UE_"@ + engine_association@,
        r@[2]@ == "C:\\Epic Games\\UE_"@ + engine_association@,
{
    let mut r: Vec<String> = Vec::new();
    r.push(concat2("D:\\Epic Games\\UE_", engine_association));
    r.push(concat2("C:\\Program Files\\Epic Games\\UE_", engine_association));
    r.push(concat2("C:\\Epic Games\\UE_", engine_association));
    r
}

/// At most the first three of `b`.
pub open spec fn first3(b: Seq<bool>) -> Seq<bool> {
    if b.len() < 3 {
        b
    } else {
        b.take(3)
    }
}

/// The index of the first `Some` in `s`.
pub open spec fn first_some(s: Seq<Option<Seq<char>>>) -> Option<int> {
    crate::smap::first_match(s, |o: Option<Seq<char>>| o is Some)
}

/// The engine root: the first registry value that names a directory (`registry_dirs[i]` is
/// the value of query `i` where it is a directory), else the first fallback directory that
/// exists (`fallback_is_dir[i]` for `engine_fallback_dirs`).
pub fn resolve_engine_root(
    engine_association: &str,
    registry_dirs: &Vec<Option<String>>,
    fallback_is_dir: &Vec<bool>,
) -> (r: Option<String>)
    ensures
        ({
            let rv = registry_dirs@.map_values(|o: Option<String>| opt_view(o));
            let fb = seq![
                "D:\\Epic Games\\UE_"@ + engine_association@,
                "C:\\Program Files\\Epic Games\\UE_"@ + engine_association@,
                "C:\\Epic Games\\UE_"@ + engine_association@,
            ];
            match first_some(rv) {
                Some(i) => opt_view(r) == rv[i],
                None => match crate::smap::first_match(first3(fallback_is_dir@), |b: bool| b) {
                    Some(j) => opt_view(r) == Some(fb[j]),
                    None => r is None,
                },
            }
        }),
{
    let ghost rv = registry_dirs@.map_values(|o: Option<String>| opt_view(o));
    let ghost f = |o: Option<Seq<char>>| o is Some;
    let mut i: usize = 0;
    while i < registry_dirs.len()
        invariant
            0 <= i <= registry_dirs@.len(),
            rv == registry_dirs@.map_values(|o: Option<String>| opt_view(o)),
            f == (|o: Option<Seq<char>>| o is Some),
            forall|j: int| 0 <= j < i ==> !f(#[trigger] rv[j]),
        decreases registry_dirs@.len() - i,
    {
        match &registry_dirs[i] {
            Some(d) => {
                proof {
                    crate::smap::lemma_first_match_at(rv, f, i as int);
                }
                return Some(d.clone());
            },
            None => {
                assert(!f(rv[i as int]));
            },
        }
        i = i + 1;
    }
    proof {
        crate::smap::lemma_first_match_none(rv, f);
    }
    assert(first_some(rv) is None);
    let dirs = engine_fallback_dirs(engine_association);
    let ghost fb = first3(fallback_is_dir@);
    let ghost g = |b: bool| b;
    let mut j: usize = 0;
    while j < fallback_is_dir.len() && j < 3
        invariant
            0 <= j <= 3,
            j <= fallback_is_dir@.len(),
            fb == first3(fallback_is_dir@),
            g == (|b: bool| b),
            dirs@.len() == 3,
            first_some(rv) is None,
            rv == registry_dirs@.map_values(|o: Option<String>| opt_view(o)),
            dirs@[0]@ == "D:\\Epic Games\\UE_"@ + engine_association@,
            dirs@[1]@ == "C:\\Program Files\\Epic Games\\UE_"@ + engine_association@,
            dirs@[2]@ == "C:\\Epic Games\\UE_"@ + engine_association@,
            forall|k: int| 0 <= k < j ==> !g(#[trigger] fb[k]),
        decreases 3 - j,
    {
        assert(fb[j as int] == fallback_is_dir@[j as int]);
        if fallback_is_dir[j] {
            proof {
                let lits = seq![
                    "D:\\Epic Games\\UE_"@ + engine_association@,
                    "C:\\Program Files\\Epic Games\\UE_"@ + engine_association@,
                    "C:\\Epic Games\\UE_"@ + engine_association@,
                ];
                assert(lits[j as int] == dirs@[j as int]@);
                crate::smap::lemma_first_match_at(fb, g, j as int);
            }
            return Some(dirs[j].clone());
        }
        j = j + 1;
    }
    assert(j == fb.len());
    proof {
        crate::smap::lemma_first_match_none(fb, g);
    }
    None
}

} // verus!
