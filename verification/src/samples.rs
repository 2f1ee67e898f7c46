//! Choosing the project files that a live verification exercises: a representative C++
//! header and the class it declares, and a representative Blueprint asset.
use vstd::prelude::*;

use crate::config::{opt_view, strings_view};
use crate::orchestrator::HubError;
use crate::paths::{
    extension, file_stem, join, lines, path_extension, path_file_stem, path_join, split_lines,
    words, words_of,
};
use crate::text::{
    ascii_alnum, ascii_alpha, chars_of, concat2, concat3, contains, contains_chars, copy_range,
    ends_with_chars, has_prefix, has_suffix, is_ascii_alnum, is_ascii_alpha, lower, lower_chars,
    owned, push_str, seq_lt, starts_with_chars, str_eq, str_lt, str_starts_with,
    string_from_chars, trim, trim_chars,
};

verus! {

broadcast use vstd::string::group_string_axioms;

// ---------------------------------------------------------------------------
// Ranking candidates
// ---------------------------------------------------------------------------

/// The stem of a path's file name, or empty.
pub open spec fn stem_of(p: Seq<char>) -> Seq<char> {
    match path_file_stem(p) {
        Some(s) => s,
        None => Seq::empty(),
    }
}

pub open spec fn weight_if(s: Seq<char>, needle: Seq<char>, w: nat) -> nat {
    if contains(s, needle) {
        w
    } else {
        0
    }
}

/// How representative a header with file stem `stem` is.
pub open spec fn spec_header_score(stem: Seq<char>) -> nat {
    let l = lower(stem);
    weight_if(l, "healthcomponent"@, 90) + weight_if(l, "gamemode"@, 80) + weight_if(
        l,
        "herocomponent"@,
        70,
    ) + weight_if(l, "gameplayability"@, 40) + weight_if(l, "character"@, 30) + weight_if(
        l,
        "component"@,
        20,
    )
}

/// How representative a Blueprint asset with file stem `stem` is.
pub open spec fn spec_blueprint_score(stem: Seq<char>) -> nat {
    let l = lower(stem);
    weight_if(l, "b_"@, 80) + weight_if(l, "bp_"@, 80) + weight_if(l, "ga_"@, 60) + weight_if(
        l,
        "hero"@,
        40,
    ) + weight_if(l, "weapon"@, 30) + weight_if(l, "lyra"@, 20)
}

fn weight_if_exec(s: &[char], needle: &str, w: u64) -> (r: u64)
    ensures
        r == weight_if(s@, needle@, w as nat),
{
    let n = chars_of(needle);
    if contains_chars(s, &n) {
        w
    } else {
        0
    }
}

fn lowered_stem(path: &str) -> (r: Vec<char>)
    ensures
        r@ == lower(stem_of(path@)),
{
    match file_stem(path) {
        Some(s) => {
            let c = chars_of(s.as_str());
            lower_chars(&c)
        },
        None => {
            let e: Vec<char> = Vec::new();
            assert(lower(Seq::<char>::empty()) =~= Seq::<char>::empty());
            e
        },
    }
}

/// The score of a C++ header.
pub fn score_cpp_header_candidate(path: &str) -> (r: u64)
    ensures
        r == spec_header_score(stem_of(path@)),
{
    let l = lowered_stem(path);
    weight_if_exec(&l, "healthcomponent", 90) + weight_if_exec(&l, "gamemode", 80) + weight_if_exec(
        &l,
        "herocomponent",
        70,
    ) + weight_if_exec(&l, "gameplayability", 40) + weight_if_exec(&l, "character", 30)
        + weight_if_exec(&l, "component", 20)
}

/// The score of a Blueprint asset.
pub fn score_blueprint_candidate(path: &str) -> (r: u64)
    ensures
        r == spec_blueprint_score(stem_of(path@)),
{
    let l = lowered_stem(path);
    weight_if_exec(&l, "b_", 80) + weight_if_exec(&l, "bp_", 80) + weight_if_exec(&l, "ga_", 60)
        + weight_if_exec(&l, "hero", 40) + weight_if_exec(&l, "weapon", 30) + weight_if_exec(
        &l,
        "lyra",
        20,
    )
}

/// What `Path::components` gives for a path: each component as its kind (0 a prefix, 1 the
/// root, 2 `.`, 3 `..`, 4 a name, the order of `Component`'s variants) and its text.
pub uninterp spec fn path_components(p: Seq<char>) -> Seq<(u8, Seq<char>)>;

pub open spec fn components_view(v: Seq<(u8, String)>) -> Seq<(u8, Seq<char>)> {
    v.map_values(|c: (u8, String)| (c.0, c.1@))
}

/// `Path::components` of `path`: each component's kind and text.
#[verifier::external_body]
pub(crate) fn components(path: &str) -> (r: Vec<(u8, String)>)
    ensures
        components_view(r@) == path_components(path@),
{
    let mut out = Vec::new();
    for c in std::path::Path::new(path).components() {
        let kind: u8 = match c {
            std::path::Component::Prefix(_) => 0,
            std::path::Component::RootDir => 1,
            std::path::Component::CurDir => 2,
            std::path::Component::ParentDir => 3,
            std::path::Component::Normal(_) => 4,
        };
        out.push((kind, c.as_os_str().to_string_lossy().into_owned()));
    }
    out
}

/// One path component before another: by kind, then by text.
pub open spec fn component_lt(x: (u8, Seq<char>), y: (u8, Seq<char>)) -> bool {
    x.0 < y.0 || (x.0 == y.0 && seq_lt(x.1, y.1))
}

/// Component sequences in lexicographic order.
pub open spec fn components_lt(a: Seq<(u8, Seq<char>)>, b: Seq<(u8, Seq<char>)>) -> bool
    decreases a.len(),
{
    if a.len() == 0 {
        b.len() > 0
    } else if b.len() == 0 {
        false
    } else if a[0] == b[0] {
        components_lt(a.drop_first(), b.drop_first())
    } else {
        component_lt(a[0], b[0])
    }
}

/// The order of paths that `Path`'s `Ord` gives: component by component. Prefixes, which
/// only Windows has and which all paths under one directory share, compare by their text.
pub open spec fn path_lt(a: Seq<char>, b: Seq<char>) -> bool {
    components_lt(path_components(a), path_components(b))
}

proof fn lemma_component_lt(x: (u8, Seq<char>), y: (u8, Seq<char>), z: (u8, Seq<char>))
    ensures
        !component_lt(x, x),
        component_lt(x, y) && component_lt(y, z) ==> component_lt(x, z),
{
    crate::text::lemma_seq_lt_irreflexive(x.1);
    if component_lt(x, y) && component_lt(y, z) && x.0 == y.0 && y.0 == z.0 {
        crate::text::lemma_seq_lt_transitive(x.1, y.1, z.1);
    }
}

pub proof fn lemma_components_lt_irreflexive(a: Seq<(u8, Seq<char>)>)
    ensures
        !components_lt(a, a),
    decreases a.len(),
{
    if a.len() > 0 {
        lemma_components_lt_irreflexive(a.drop_first());
    }
}

pub proof fn lemma_components_lt_transitive(
    a: Seq<(u8, Seq<char>)>,
    b: Seq<(u8, Seq<char>)>,
    c: Seq<(u8, Seq<char>)>,
)
    requires
        components_lt(a, b),
        components_lt(b, c),
    ensures
        components_lt(a, c),
    decreases a.len(),
{
    if a.len() > 0 {
        lemma_component_lt(a[0], b[0], c[0]);
        lemma_component_lt(b[0], a[0], b[0]);
        lemma_component_lt(a[0], b[0], a[0]);
        if a[0] == b[0] && b[0] == c[0] {
            lemma_components_lt_transitive(a.drop_first(), b.drop_first(), c.drop_first());
        }
    }
}

/// Whether path `a` comes before path `b` in component order.
pub fn path_before(a: &str, b: &str) -> (r: bool)
    ensures
        r == path_lt(a@, b@),
{
    let x = components(a);
    let y = components(b);
    let ghost xv = components_view(x@);
    let ghost yv = components_view(y@);
    let mut i: usize = 0;
    assert(xv.skip(0) =~= xv);
    assert(yv.skip(0) =~= yv);
    while i < x.len() && i < y.len()
        invariant
            i <= x@.len(),
            i <= y@.len(),
            xv == components_view(x@),
            yv == components_view(y@),
            xv == path_components(a@),
            yv == path_components(b@),
            components_lt(xv, yv) == components_lt(xv.skip(i as int), yv.skip(i as int)),
        decreases x@.len() - i,
    {
        let ghost xs = xv.skip(i as int);
        let ghost ys = yv.skip(i as int);
        assert(xs[0] == xv[i as int] && ys[0] == yv[i as int]);
        assert(xv[i as int] == (x@[i as int].0, x@[i as int].1@));
        assert(yv[i as int] == (y@[i as int].0, y@[i as int].1@));
        assert(xs.drop_first() =~= xv.skip(i + 1));
        assert(ys.drop_first() =~= yv.skip(i + 1));
        let same = x[i].0 == y[i].0 && str_eq(x[i].1.as_str(), y[i].1.as_str());
        if !same {
            assert(xs.len() > 0 && ys.len() > 0);
            assert(xs[0] != ys[0]);
            assert(components_lt(xs, ys) == component_lt(xs[0], ys[0]));
            if x[i].0 != y[i].0 {
                return x[i].0 < y[i].0;
            }
            return str_lt(x[i].1.as_str(), y[i].1.as_str());
        }
        i = i + 1;
    }
    assert(xv.skip(i as int).len() == x@.len() - i);
    assert(yv.skip(i as int).len() == y@.len() - i);
    i < y.len()
}

/// Whether a candidate with score `sa` and path `pa` comes before one with `sb` and `pb`:
/// a higher score first, and on equal scores the lesser path in component order.
pub open spec fn ranks_before(sa: int, pa: Seq<char>, sb: int, pb: Seq<char>) -> bool {
    sa > sb || (sa == sb && path_lt(pa, pb))
}

pub open spec fn at_or<T>(s: Seq<T>, i: int, d: T) -> T {
    if 0 <= i < s.len() {
        s[i]
    } else {
        d
    }
}

/// The first of `paths` in ranking order (scores `scores`, a missing score counting 0),
/// leaving out those marked in `excluded`.
pub fn best_ranked(paths: &Vec<String>, scores: &Vec<u64>, excluded: &Vec<bool>) -> (r: Option<usize>)
    ensures
        match r {
            Some(i) => i < paths@.len() && !at_or(excluded@, i as int, false) && forall|j: int|
                0 <= j < paths@.len() && !at_or(excluded@, j, false) ==> !ranks_before(
                    at_or(scores@, j, 0u64) as int,
                    (#[trigger] paths@[j])@,
                    at_or(scores@, i as int, 0u64) as int,
                    paths@[i as int]@,
                ),
            None => forall|j: int| 0 <= j < paths@.len() ==> #[trigger] at_or(excluded@, j, false),
        },
{
    let mut best: Option<usize> = None;
    let mut i: usize = 0;
    while i < paths.len()
        invariant
            0 <= i <= paths@.len(),
            match best {
                Some(b) => b < i && !at_or(excluded@, b as int, false) && forall|j: int|
                    0 <= j < i && !at_or(excluded@, j, false) ==> !ranks_before(
                        at_or(scores@, j, 0u64) as int,
                        (#[trigger] paths@[j])@,
                        at_or(scores@, b as int, 0u64) as int,
                        paths@[b as int]@,
                    ),
                None => forall|j: int| 0 <= j < i ==> #[trigger] at_or(excluded@, j, false),
            },
        decreases paths@.len() - i,
    {
        let ex = if i < excluded.len() {
            excluded[i]
        } else {
            false
        };
        let sc = if i < scores.len() {
            scores[i]
        } else {
            0
        };
        assert(ex == at_or(excluded@, i as int, false));
        assert(sc == at_or(scores@, i as int, 0u64));
        if !ex {
            match best {
                Some(b) => {
                    let sb = if b < scores.len() {
                        scores[b]
                    } else {
                        0
                    };
                    assert(sb == at_or(scores@, b as int, 0u64));
                    let better = sc > sb || (sc == sb && path_before(paths[i].as_str(), paths[b].as_str()));
                    if better {
                        proof {
                            assert forall|j: int|
                                0 <= j < i + 1 && !at_or(excluded@, j, false) implies !ranks_before(
                                at_or(scores@, j, 0u64) as int,
                                (#[trigger] paths@[j])@,
                                sc as int,
                                paths@[i as int]@,
                            ) by {
                                if j == i {
                                    lemma_components_lt_irreflexive(path_components(paths@[j]@));
                                } else if at_or(scores@, j, 0u64) == sc && path_lt(
                                    paths@[j]@,
                                    paths@[i as int]@,
                                ) && sc == sb {
                                    lemma_components_lt_transitive(
                                        path_components(paths@[j]@),
                                        path_components(paths@[i as int]@),
                                        path_components(paths@[b as int]@),
                                    );
                                }
                            }
                        }
                        best = Some(i);
                    } else {
                        proof {
                            if sc == sb {
                                lemma_components_lt_irreflexive(path_components(paths@[b as int]@));
                            }
                        }
                    }
                },
                None => {
                    proof {
                        lemma_components_lt_irreflexive(path_components(paths@[i as int]@));
                    }
                    best = Some(i);
                },
            }
        }
        i = i + 1;
    }
    best
}

fn scores_of(paths: &Vec<String>, blueprint: bool) -> (r: Vec<u64>)
    ensures
        r@.len() == paths@.len(),
        forall|i: int|
            0 <= i < r@.len() ==> #[trigger] r@[i] == (if blueprint {
                spec_blueprint_score(stem_of(paths@[i]@))
            } else {
                spec_header_score(stem_of(paths@[i]@))
            }),
{
    let mut r: Vec<u64> = Vec::new();
    let mut i: usize = 0;
    while i < paths.len()
        invariant
            0 <= i <= paths@.len(),
            r@.len() == i,
            forall|k: int|
                0 <= k < i ==> #[trigger] r@[k] == (if blueprint {
                    spec_blueprint_score(stem_of(paths@[k]@))
                } else {
                    spec_header_score(stem_of(paths@[k]@))
                }),
        decreases paths@.len() - i,
    {
        let s = if blueprint {
            score_blueprint_candidate(paths[i].as_str())
        } else {
            score_cpp_header_candidate(paths[i].as_str())
        };
        r.push(s);
        i = i + 1;
    }
    r
}

/// The representative header among `headers` (the `.h` files under the project's
/// `Source`): the best scored, and the least path among equals.
pub fn find_sample_cpp_header(headers: &Vec<String>) -> (r: Option<String>)
    ensures
        match r {
            Some(h) => exists|i: int|
                0 <= i < headers@.len() && (#[trigger] headers@[i])@ == h@ && forall|j: int|
                    0 <= j < headers@.len() ==> !ranks_before(
                        spec_header_score(stem_of((#[trigger] headers@[j])@)) as int,
                        headers@[j]@,
                        spec_header_score(stem_of(h@)) as int,
                        h@,
                    ),
            None => headers@.len() == 0,
        },
{
    let scores = scores_of(headers, false);
    let none: Vec<bool> = Vec::new();
    match best_ranked(headers, &scores, &none) {
        Some(i) => {
            let h = headers[i].clone();
            proof {
                assert forall|j: int| 0 <= j < headers@.len() implies !ranks_before(
                    spec_header_score(stem_of((#[trigger] headers@[j])@)) as int,
                    headers@[j]@,
                    spec_header_score(stem_of(h@)) as int,
                    h@,
                ) by {
                    assert(at_or(none@, j, false) == false);
                    assert(at_or(scores@, j, 0u64) == scores@[j]);
                    assert(at_or(scores@, i as int, 0u64) == scores@[i as int]);
                }
            }
            Some(h)
        },
        None => {
            proof {
                if headers@.len() > 0 {
                    assert(at_or(none@, 0, false) == false);
                }
            }
            None
        },
    }
}

/// The next Blueprint asset to try among `assets` (the `.uasset` files of the project),
/// leaving out those already `tried`: the best scored, and the least path among equals.
pub fn next_blueprint_candidate(assets: &Vec<String>, tried: &Vec<bool>) -> (r: Option<usize>)
    ensures
        match r {
            Some(i) => i < assets@.len() && !at_or(tried@, i as int, false) && forall|j: int|
                0 <= j < assets@.len() && !at_or(tried@, j, false) ==> !ranks_before(
                    spec_blueprint_score(stem_of((#[trigger] assets@[j])@)) as int,
                    assets@[j]@,
                    spec_blueprint_score(stem_of(assets@[i as int]@)) as int,
                    assets@[i as int]@,
                ),
            None => forall|j: int| 0 <= j < assets@.len() ==> #[trigger] at_or(tried@, j, false),
        },
{
    let scores = scores_of(assets, true);
    let r = best_ranked(assets, &scores, tried);
    proof {
        match r {
            Some(i) => {
                assert forall|j: int|
                    0 <= j < assets@.len() && !at_or(tried@, j, false) implies !ranks_before(
                    spec_blueprint_score(stem_of((#[trigger] assets@[j])@)) as int,
                    assets@[j]@,
                    spec_blueprint_score(stem_of(assets@[i as int]@)) as int,
                    assets@[i as int]@,
                ) by {
                    assert(at_or(scores@, j, 0u64) == scores@[j]);
                    assert(at_or(scores@, i as int, 0u64) == scores@[i as int]);
                }
            },
            None => {},
        }
    }
    r
}

/// Whether the walk for sample files skips a directory of this name.
pub fn collect_skips_dir(name: &str) -> (r: bool)
    ensures
        r == (name@ == "Binaries"@ || name@ == "Intermediate"@ || name@ == "Saved"@ || name@
            == "DerivedDataCache"@ || name@ == ".git"@ || name@ == "target"@),
{
    str_eq(name, "Binaries") || str_eq(name, "Intermediate") || str_eq(name, "Saved") || str_eq(
        name,
        "DerivedDataCache",
    ) || str_eq(name, ".git") || str_eq(name, "target")
}

/// Whether a file has extension `ext`.
pub fn has_extension(path: &str, ext: &str) -> (r: bool)
    ensures
        r == (path_extension(path@) == Some(ext@)),
{
    match extension(path) {
        Some(e) => str_eq(e.as_str(), ext),
        None => false,
    }
}

// ---------------------------------------------------------------------------
// The class a header declares
// ---------------------------------------------------------------------------

/// `trim_matches(c)`: without leading and trailing `c`.
pub open spec fn strip_char(s: Seq<char>, c: char) -> Seq<char>
    decreases s.len(),
{
    if s.len() > 0 && s[0] == c {
        strip_char(s.drop_first(), c)
    } else if s.len() > 0 && s.last() == c {
        strip_char(s.drop_last(), c)
    } else {
        s
    }
}

fn strip_char_exec(v: &[char], c: char) -> (r: Vec<char>)
    ensures
        r@ == strip_char(v@, c),
{
    let mut a: usize = 0;
    let mut b: usize = v.len();
    assert(v@.subrange(0, v@.len() as int) =~= v@);
    while a < b && (v[a] == c || v[b - 1] == c)
        invariant
            0 <= a <= b <= v@.len(),
            strip_char(v@, c) == strip_char(v@.subrange(a as int, b as int), c),
        decreases b - a,
    {
        let ghost t = v@.subrange(a as int, b as int);
        if v[a] == c {
            assert(t.drop_first() =~= v@.subrange(a + 1, b as int));
            a = a + 1;
        } else {
            assert(t.drop_last() =~= v@.subrange(a as int, b - 1));
            b = b - 1;
        }
    }
    copy_range(v, a, b)
}

/// The symbol a token names: without `{`, `:` and `;` around it, trimmed.
pub open spec fn symbol_candidate(token: Seq<char>) -> Seq<char> {
    trim(strip_char(strip_char(strip_char(token, '{'), ':'), ';'))
}

/// A C++ identifier made of ASCII letters, digits and `_`, not starting with a digit.
pub open spec fn is_symbol(c: Seq<char>) -> bool {
    c.len() > 0 && (is_ascii_alpha(c[0]) || c[0] == '_') && forall|i: int|
        0 <= i < c.len() ==> is_ascii_alnum(#[trigger] c[i]) || c[i] == '_'
}

/// The first symbol among the tokens `ts[i..]`, skipping `*_API` macros.
pub open spec fn symbol_in_tokens(ts: Seq<Seq<char>>, i: int) -> Option<Seq<char>>
    decreases ts.len() - i,
{
    if !(0 <= i < ts.len()) {
        None
    } else if has_suffix(ts[i], "_API"@) {
        symbol_in_tokens(ts, i + 1)
    } else if is_symbol(symbol_candidate(ts[i])) {
        Some(symbol_candidate(ts[i]))
    } else {
        symbol_in_tokens(ts, i + 1)
    }
}

/// The class declared first among the lines `ls[i..]`: the first symbol after `class`.
pub open spec fn symbol_in_lines(ls: Seq<Seq<char>>, i: int) -> Option<Seq<char>>
    decreases ls.len() - i,
{
    if !(0 <= i < ls.len()) {
        None
    } else {
        let t = trim(ls[i]);
        if has_prefix(t, "class "@) {
            match symbol_in_tokens(words(t), 1) {
                Some(s) => Some(s),
                None => symbol_in_lines(ls, i + 1),
            }
        } else {
            symbol_in_lines(ls, i + 1)
        }
    }
}

fn is_symbol_exec(c: &[char]) -> (r: bool)
    ensures
        r == is_symbol(c@),
{
    if c.len() == 0 {
        return false;
    }
    if !(ascii_alpha(c[0]) || c[0] == '_') {
        return false;
    }
    let mut i: usize = 0;
    while i < c.len()
        invariant
            0 <= i <= c@.len(),
            forall|j: int| 0 <= j < i ==> is_ascii_alnum(#[trigger] c@[j]) || c@[j] == '_',
        decreases c@.len() - i,
    {
        if !(ascii_alnum(c[i]) || c[i] == '_') {
            return false;
        }
        i = i + 1;
    }
    true
}

fn symbol_in_line(t: &[char]) -> (r: Option<Vec<char>>)
    ensures
        match r {
            Some(s) => symbol_in_tokens(words(t@), 1) == Some(s@),
            None => symbol_in_tokens(words(t@), 1) is None,
        },
{
    let ws = words_of(t);
    let api = chars_of("_API");
    let ghost wv = words(t@);
    let mut i: usize = 1;
    while i < ws.len()
        invariant
            1 <= i,
            wv == words(t@),
            ws@.len() == wv.len(),
            forall|j: int| 0 <= j < ws@.len() ==> (#[trigger] ws@[j])@ == wv[j],
            api@ == "_API"@,
            symbol_in_tokens(wv, 1) == symbol_in_tokens(wv, i as int),
        decreases ws@.len() - i,
    {
        assert(ws@[i as int]@ == wv[i as int]);
        if !ends_with_chars(&ws[i], &api) {
            let a = strip_char_exec(&ws[i], '{');
            let b = strip_char_exec(&a, ':');
            let c = strip_char_exec(&b, ';');
            let d = trim_chars(&c);
            if is_symbol_exec(&d) {
                return Some(d);
            }
        }
        i = i + 1;
    }
    None
}

/// The class a header with text `raw` declares, else the header's file stem.
pub open spec fn spec_cpp_symbol(raw: Seq<char>, header_path: Seq<char>) -> Option<Seq<char>> {
    match symbol_in_lines(lines(raw), 0) {
        Some(s) => Some(s),
        None => path_file_stem(header_path),
    }
}

/// The class that the header at `header_path`, with text `raw`, declares first; else its
/// file stem.
pub fn extract_cpp_symbol(raw: &str, header_path: &str) -> (r: Result<String, HubError>)
    ensures
        match spec_cpp_symbol(raw@, header_path@) {
            Some(s) => r matches Ok(v) && v@ == s,
            None => r matches Err(HubError::CppSymbolUnknown(p)) && p@ == header_path@,
        },
{
    let ls = split_lines(raw);
    let class_kw = chars_of("class ");
    let ghost lv = lines(raw@);
    let mut i: usize = 0;
    while i < ls.len()
        invariant
            0 <= i <= ls@.len(),
            lv == lines(raw@),
            ls@.len() == lv.len(),
            forall|j: int| 0 <= j < ls@.len() ==> (#[trigger] ls@[j])@ == lv[j],
            class_kw@ == "class "@,
            symbol_in_lines(lv, 0) == symbol_in_lines(lv, i as int),
        decreases ls@.len() - i,
    {
        assert(ls@[i as int]@ == lv[i as int]);
        let t = trim_chars(&ls[i]);
        if starts_with_chars(&t, &class_kw) {
            match symbol_in_line(&t) {
                Some(s) => {
                    return Ok(string_from_chars(&s));
                },
                None => {},
            }
        }
        i = i + 1;
    }
    match file_stem(header_path) {
        Some(s) => Ok(s),
        None => Err(HubError::CppSymbolUnknown(owned(header_path))),
    }
}

// ---------------------------------------------------------------------------
// Asset paths
// ---------------------------------------------------------------------------

/// What `Path::strip_prefix` gives for a path and a base, as text.
pub uninterp spec fn path_strip_prefix(p: Seq<char>, base: Seq<char>) -> Option<Seq<char>>;

/// `Path::strip_prefix` of `path` by `base`, as text.
#[verifier::external_body]
pub(crate) fn strip_prefix(path: &str, base: &str) -> (r: Option<String>)
    ensures
        opt_view(r) == path_strip_prefix(path@, base@),
{
    std::path::Path::new(path).strip_prefix(base).ok().map(|p| p.to_string_lossy().into_owned())
}

/// `s` with every `\` made `/`.
pub open spec fn forward_slashes(s: Seq<char>) -> Seq<char> {
    s.map_values(|c: char| if c == '\\' { '/' } else { c })
}

/// A path relative to a `Content` directory as an asset path: forward slashes, without a
/// trailing `.uasset`.
pub open spec fn spec_normalize_relative(rel: Seq<char>) -> Seq<char> {
    let r = forward_slashes(rel);
    if has_suffix(r, ".uasset"@) {
        r.take(r.len() - 7)
    } else {
        r
    }
}

pub fn normalize_asset_relative_path(relative: &str) -> (r: String)
    ensures
        r@ == spec_normalize_relative(relative@),
{
    let v = chars_of(relative);
    let mut out: Vec<char> = Vec::new();
    let mut i: usize = 0;
    while i < v.len()
        invariant
            0 <= i <= v@.len(),
            out@ == forward_slashes(v@.take(i as int)),
        decreases v@.len() - i,
    {
        out.push(if v[i] == '\\' { '/' } else { v[i] });
        i = i + 1;
        assert(out@ =~= forward_slashes(v@.take(i as int)));
    }
    assert(v@.take(v@.len() as int) =~= v@);
    let suffix = chars_of(".uasset");
    proof {
        reveal_strlit(".uasset");
    }
    if ends_with_chars(&out, &suffix) {
        let t = copy_range(&out, 0, out.len() - 7);
        string_from_chars(&t)
    } else {
        string_from_chars(&out)
    }
}

/// The asset path of a file under the project's `Content` directory: `/Game/...`.
pub fn game_asset_path(project_dir: &str, file_path: &str) -> (r: Option<String>)
    ensures
        opt_view(r) == match path_strip_prefix(file_path@, path_join(project_dir@, "Content"@)) {
            Some(rel) => Some("/Game/"@ + spec_normalize_relative(rel)),
            None => None,
        },
{
    let content = join(project_dir, "Content");
    match strip_prefix(file_path, content.as_str()) {
        Some(rel) => {
            let n = normalize_asset_relative_path(rel.as_str());
            Some(concat2("/Game/", n.as_str()))
        },
        None => None,
    }
}

/// The asset path of a file under the `Content` directory of plugin `plugin_name` in
/// `plugin_dir`: `/<plugin>/...`.
pub fn plugin_asset_path(plugin_dir: &str, plugin_name: &str, file_path: &str) -> (r: Option<String>)
    ensures
        opt_view(r) == match path_strip_prefix(file_path@, path_join(plugin_dir@, "Content"@)) {
            Some(rel) => Some("/"@ + plugin_name@ + "/"@ + spec_normalize_relative(rel)),
            None => None,
        },
{
    let content = join(plugin_dir, "Content");
    match strip_prefix(file_path, content.as_str()) {
        Some(rel) => {
            let n = normalize_asset_relative_path(rel.as_str());
            let mut v = chars_of("/");
            push_str(&mut v, plugin_name);
            push_str(&mut v, "/");
            push_str(&mut v, n.as_str());
            Some(string_from_chars(&v))
        },
        None => None,
    }
}

/// The plugin a directory holds: the stem of its first `.uplugin` entry (among `entries`,
/// in listing order) that has one.
pub open spec fn spec_uplugin_name(entries: Seq<Seq<char>>, i: int) -> Option<Seq<char>>
    decreases entries.len() - i,
{
    if !(0 <= i < entries.len()) {
        None
    } else if path_extension(entries[i]) == Some("uplugin"@) && path_file_stem(entries[i]) is Some {
        path_file_stem(entries[i])
    } else {
        spec_uplugin_name(entries, i + 1)
    }
}

pub fn uplugin_name(entries: &Vec<String>) -> (r: Option<String>)
    ensures
        opt_view(r) == spec_uplugin_name(strings_view(entries@), 0),
{
    let ghost ev = strings_view(entries@);
    let mut i: usize = 0;
    while i < entries.len()
        invariant
            0 <= i <= entries@.len(),
            ev == strings_view(entries@),
            spec_uplugin_name(ev, 0) == spec_uplugin_name(ev, i as int),
        decreases entries@.len() - i,
    {
        if has_extension(entries[i].as_str(), "uplugin") {
            match file_stem(entries[i].as_str()) {
                Some(s) => {
                    return Some(s);
                },
                None => {},
            }
        }
        i = i + 1;
    }
    None
}

pub open spec fn spec_guess_scope(asset_path: Seq<char>) -> Seq<char> {
    if has_prefix(asset_path, "/Game/"@) {
        "project"@
    } else if has_prefix(asset_path, "/Engine/"@) || has_prefix(asset_path, "/Script/"@) {
        "engine"@
    } else {
        "plugin"@
    }
}

/// The search scope an asset path belongs to.
pub fn guess_scope_from_asset_path(asset_path: &str) -> (r: &'static str)
    ensures
        r@ == spec_guess_scope(asset_path@),
{
    if str_starts_with(asset_path, "/Game/") {
        "project"
    } else if str_starts_with(asset_path, "/Engine/") || str_starts_with(asset_path, "/Script/") {
        "engine"
    } else {
        "plugin"
    }
}

/// The last `/`-separated part of an asset path.
pub open spec fn spec_asset_name(p: Seq<char>) -> Seq<char>
    decreases p.len(),
{
    if p.len() == 0 {
        p
    } else if p.last() == '/' {
        Seq::empty()
    } else {
        spec_asset_name(p.drop_last()).push(p.last())
    }
}

pub fn asset_name(asset_path: &str) -> (r: String)
    ensures
        r@ == spec_asset_name(asset_path@),
{
    let v = chars_of(asset_path);
    let mut start: usize = v.len();
    assert(v@.take(v@.len() as int) =~= v@);
    assert(v@.skip(v@.len() as int) =~= Seq::<char>::empty());
    assert(spec_asset_name(v@) + Seq::<char>::empty() =~= spec_asset_name(v@));
    while start > 0 && v[start - 1] != '/'
        invariant
            0 <= start <= v@.len(),
            spec_asset_name(v@) == spec_asset_name(v@.take(start as int)) + v@.skip(start as int),
        decreases start,
    {
        assert(v@.take(start as int).drop_last() =~= v@.take(start - 1));
        assert(v@.skip(start - 1) =~= seq![v@[start - 1]] + v@.skip(start as int));
        assert(spec_asset_name(v@.take(start - 1)).push(v@[start - 1]) + v@.skip(start as int)
            =~= spec_asset_name(v@.take(start - 1)) + v@.skip(start - 1));
        start = start - 1;
    }
    proof {
        if start > 0 {
            assert(v@.take(start as int).last() == '/');
        } else {
            assert(v@.take(0) =~= Seq::<char>::empty());
        }
    }
    let t = copy_range(&v, start, v.len());
    assert(t@ =~= v@.skip(start as int));
    string_from_chars(&t)
}

} // verus!
