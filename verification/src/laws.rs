//! Properties of the hub that span several operations, proved over the models.
use vstd::prelude::*;

use crate::config::{
    has_endpoint, id_pred, spec_active_endpoint, spec_normalize, ConfigView, EndpointView,
    ProjectView,
};
use crate::lifecycle::has_mcp_target;
use crate::paths::{slug, spec_endpoint_id, trim_dashes};
use crate::smap::{
    first_match, has_key, lemma_first_match_at, lemma_first_match_none, lemma_first_match_some,
    lemma_lookup_index, lemma_lookup_some, lookup, sorted_insert, sorted_keys,
};
use crate::state::{
    crashed, is_online, online_pred, recent_calls, retain, spec_active_instance, spec_cleanup,
    spec_get_instance, spec_modify, spec_resolve, spec_upsert, spec_upsert_key, update_value,
    with_call, with_note, with_status, InstanceView, NoteView, StateView, ToolCallRecordView,
};
use crate::text::{has_suffix, is_ascii_alnum, is_ascii_digit, is_ascii_lower, lower_char};
use crate::watcher::spec_refresh;
use crate::orchestrator::{spec_instance_or_active, spec_preferred_active};

verus! {

/// Normalizing a project does not change which MCP target is active.
pub proof fn law_normalize_keeps_active_endpoint(p: ProjectView)
    ensures
        spec_active_endpoint(spec_normalize(p)) == spec_active_endpoint(p),
{
    let q = spec_normalize(p);
    match spec_active_endpoint(p) {
        Some(e) => {
            if p.active_endpoint.len() == 0 || first_match(p.endpoints, id_pred(p.active_endpoint))
                is None {
                assert(e == p.endpoints[0]);
                if e.endpoint_id.len() > 0 {
                    lemma_first_match_at(q.endpoints, id_pred(e.endpoint_id), 0);
                }
            } else {
                lemma_first_match_some(p.endpoints, id_pred(p.active_endpoint));
            }
        },
        None => {},
    }
}

/// Normalizing twice is normalizing once.
pub proof fn law_normalize_idempotent(p: ProjectView)
    ensures
        spec_normalize(spec_normalize(p)) == spec_normalize(p),
{
    law_normalize_keeps_active_endpoint(p);
}

/// Once a project's target `id` has been made active (whether or not it already was), the
/// project's active target is one with that id.
pub proof fn lemma_activated_endpoint(c: ConfigView, project: Seq<char>, id: Seq<char>)
    requires
        sorted_keys(c.projects),
        lookup(c.projects, project) is Some,
        has_endpoint(lookup(c.projects, project)->0, id),
        id.len() > 0,
    ensures
        ({
            let p = lookup(c.projects, project)->0;
            let after = if p.active_endpoint != id {
                sorted_insert(
                    c.projects,
                    project,
                    spec_normalize(ProjectView { active_endpoint: id, ..p }),
                )
            } else {
                c.projects
            };
            spec_active_endpoint(lookup(after, project)->0) matches Some(e) && e.endpoint_id == id
        }),
{
    let p = lookup(c.projects, project)->0;
    let q = ProjectView { active_endpoint: id, ..p };
    let k = choose|k: int| 0 <= k < p.endpoints.len() && #[trigger] p.endpoints[k].endpoint_id == id;
    assert(id_pred(id)(p.endpoints[k]));
    crate::smap::lemma_first_match_complete(p.endpoints, id_pred(id), k);
    lemma_first_match_some(p.endpoints, id_pred(id));
    if p.active_endpoint != id {
        crate::smap::lemma_sorted_insert(c.projects, project, spec_normalize(q));
        law_normalize_keeps_active_endpoint(q);
    }
}


// ---------------------------------------------------------------------------
// Instances
// ---------------------------------------------------------------------------

/// Every stored record carries the non-empty key it is stored under.
pub open spec fn well_keyed(sv: StateView) -> bool {
    forall|i: int|
        0 <= i < sv.instances.len() ==> (#[trigger] sv.instances[i]).1.key == sv.instances[i].0
            && sv.instances[i].0.len() > 0
}

/// A stored key names its own record, and a change made through it is what reading the
/// key gives back.
pub proof fn law_modify_then_get(
    sv: StateView,
    k: Seq<char>,
    f: spec_fn(InstanceView) -> InstanceView,
)
    requires
        sorted_keys(sv.instances),
        has_key(sv.instances, k),
        k.len() > 0,
    ensures
        spec_resolve(sv, k) == Some(k),
        spec_get_instance(sv, k) == lookup(sv.instances, k),
        spec_get_instance(spec_modify(sv, k, f), k) == Some(f(lookup(sv.instances, k)->0)),
{
    let p = sv.instances;
    let i = choose|i: int| 0 <= i < p.len() && #[trigger] p[i].0 == k;
    lemma_lookup_index(p, k, i);
    crate::state::lemma_update_value_at(p, i, f);
    let q = p.update(i, (k, f(p[i].1)));
    assert(sorted_keys(q)) by {
        assert forall|a: int, b: int| 0 <= a < b < q.len() implies crate::text::seq_lt(
            #[trigger] q[a].0,
            #[trigger] q[b].0,
        ) by {
            assert(q[a].0 == p[a].0);
            assert(q[b].0 == p[b].0);
        }
    }
    assert(q[i].0 == k);
    lemma_lookup_index(q, k, i);
    assert(has_key(q, k));
}

/// What `upsert_instance` stores is found again under its key, with the status, target
/// and port it was given.
pub proof fn law_upsert_then_get(sv: StateView, incoming: InstanceView, now: nat)
    requires
        sorted_keys(sv.instances),
    ensures
        ({
            let k = spec_upsert_key(incoming);
            &&& has_key(spec_upsert(sv, incoming, now).instances, k)
            &&& spec_get_instance(spec_upsert(sv, incoming, now), k) matches Some(i) && i.key == k
                && i.status == incoming.status && i.endpoint_id == incoming.endpoint_id && i.port
                == incoming.port
        }),
{
    let k = spec_upsert_key(incoming);
    let s2 = spec_upsert(sv, incoming, now);
    let merged = match lookup(sv.instances, k) {
        Some(existing) => crate::state::spec_merge(existing, incoming, k, now),
        None => InstanceView {
            key: k,
            last_seen: if incoming.last_seen.len() == 0 {
                crate::state::stamp(now)
            } else {
                incoming.last_seen
            },
            ..incoming
        },
    };
    assert(s2.instances == sorted_insert(sv.instances, k, merged));
    crate::smap::lemma_sorted_insert(sv.instances, k, merged);
    assert(k.len() > 0) by {
        if incoming.key.len() == 0 {
            let n = crate::text::trim(incoming.project_name);
            if n.len() == 0 {
                assert("unknown"@.len() > 0) by {
                    reveal_strlit("unknown");
                }
            }
        }
    }
    lemma_lookup_some(s2.instances, k);
    assert(spec_resolve(s2, k) == Some(k));
}

/// Registering an instance again, as a launch or a discovery does with a record that brings
/// no notes and no call history, keeps the notes and history it had and never lowers its
/// crash count.
pub proof fn law_reregistration_keeps_session(sv: StateView, incoming: InstanceView, now: nat)
    requires
        sorted_keys(sv.instances),
        lookup(sv.instances, spec_upsert_key(incoming)) is Some,
        incoming.notes.len() == 0,
        incoming.call_history.len() == 0,
    ensures
        ({
            let k = spec_upsert_key(incoming);
            let before = lookup(sv.instances, k)->0;
            lookup(spec_upsert(sv, incoming, now).instances, k) matches Some(after)
                && after.notes == before.notes && after.call_history == before.call_history
                && after.crash_count >= before.crash_count
        }),
{
    let k = spec_upsert_key(incoming);
    let existing = lookup(sv.instances, k)->0;
    let merged = crate::state::spec_merge(existing, incoming, k, now);
    assert(spec_upsert(sv, incoming, now).instances == sorted_insert(sv.instances, k, merged));
    crate::smap::lemma_sorted_insert(sv.instances, k, merged);
}

/// Stopping an editor keeps it tracked with its session: the active selection stays, every
/// record stays under its key, and each keeps its notes and call history.
pub proof fn law_stop_keeps_session(
    sv: StateView,
    key: Seq<char>,
    stopped: bool,
    pid: Option<u32>,
    now: nat,
)
    ensures
        ({
            let after = spec_modify(
                sv,
                key,
                with_status(
                    if stopped {
                        "offline"@
                    } else {
                        "stopping"@
                    },
                    if stopped {
                        None
                    } else {
                        pid
                    },
                    now,
                ),
            );
            &&& after.active == sv.active
            &&& after.instances.len() == sv.instances.len()
            &&& forall|j: int|
                0 <= j < sv.instances.len() ==> {
                    &&& (#[trigger] after.instances[j]).0 == sv.instances[j].0
                    &&& after.instances[j].1.notes == sv.instances[j].1.notes
                    &&& after.instances[j].1.call_history == sv.instances[j].1.call_history
                }
        }),
{
}

/// A note added to the active instance is its last note afterwards.
pub proof fn law_added_note_is_kept(sv: StateView, note: NoteView, now: nat)
    requires
        sorted_keys(sv.instances),
        well_keyed(sv),
        spec_active_instance(sv) is Some,
    ensures
        ({
            let a = spec_active_instance(sv)->0;
            spec_get_instance(spec_modify(sv, a.key, with_note(note, now)), a.key) matches Some(
                i,
            ) && i.notes == a.notes.push(note)
        }),
{
    let p = sv.instances;
    let a = spec_active_instance(sv)->0;
    let recorded = lookup(p, sv.active);
    if recorded is Some && is_online(recorded->0) {
        lemma_lookup_some(p, sv.active);
        let i = choose|i: int| 0 <= i < p.len() && #[trigger] p[i].0 == sv.active;
        lemma_lookup_index(p, sv.active, i);
        assert(a == p[i].1);
        assert(has_key(p, a.key));
        lemma_lookup_index(p, a.key, i);
    } else if first_match(p, online_pred()) is Some {
        lemma_first_match_some(p, online_pred());
        let i = first_match(p, online_pred())->0;
        assert(a == p[i].1);
        assert(has_key(p, a.key));
        lemma_lookup_index(p, a.key, i);
    } else {
        lemma_lookup_some(p, sv.active);
        let i = choose|i: int| 0 <= i < p.len() && #[trigger] p[i].0 == sv.active;
        lemma_lookup_index(p, sv.active, i);
        assert(a == p[i].1);
        assert(has_key(p, a.key));
        lemma_lookup_index(p, a.key, i);
    }
    law_modify_then_get(sv, a.key, with_note(note, now));
}

/// Two positions of a sorted map that hold one key are one position.
proof fn lemma_key_position(p: Seq<(Seq<char>, InstanceView)>, i: int, j: int)
    requires
        sorted_keys(p),
        0 <= i < p.len(),
        0 <= j < p.len(),
        p[i].0 == p[j].0,
    ensures
        i == j,
{
    crate::text::lemma_seq_lt_irreflexive(p[i].0);
    if i < j {
        assert(crate::text::seq_lt(p[i].0, p[j].0));
    } else if j < i {
        assert(crate::text::seq_lt(p[j].0, p[i].0));
    }
}

/// Where the active instance of a well-keyed state is stored.
proof fn lemma_active_position(sv: StateView) -> (i: int)
    requires
        sorted_keys(sv.instances),
        well_keyed(sv),
        spec_active_instance(sv) is Some,
    ensures
        0 <= i < sv.instances.len(),
        sv.instances[i].1 == spec_active_instance(sv)->0,
        sv.instances[i].0 == sv.instances[i].1.key,
{
    let p = sv.instances;
    let recorded = lookup(p, sv.active);
    if recorded is Some && is_online(recorded->0) {
        lemma_lookup_some(p, sv.active);
        let i = choose|i: int| 0 <= i < p.len() && #[trigger] p[i].0 == sv.active;
        lemma_lookup_index(p, sv.active, i);
        i
    } else if first_match(p, online_pred()) is Some {
        lemma_first_match_some(p, online_pred());
        first_match(p, online_pred())->0
    } else {
        lemma_lookup_some(p, sv.active);
        let i = choose|i: int| 0 <= i < p.len() && #[trigger] p[i].0 == sv.active;
        lemma_lookup_index(p, sv.active, i);
        i
    }
}

/// First matches agree on sequences whose items the predicate judges alike.
proof fn lemma_first_match_same<T>(s: Seq<T>, t: Seq<T>, f: spec_fn(T) -> bool)
    requires
        s.len() == t.len(),
        forall|j: int| 0 <= j < s.len() ==> f(#[trigger] s[j]) == f(t[j]),
    ensures
        first_match(s, f) == first_match(t, f),
{
    if first_match(s, f) is Some {
        lemma_first_match_some(s, f);
        let i = first_match(s, f)->0;
        assert forall|j: int| 0 <= j < i implies !f(#[trigger] t[j]) by {
            assert(f(s[j]) == f(t[j]));
        }
        assert(f(s[i]) == f(t[i]));
        lemma_first_match_at(t, f, i);
    } else if first_match(t, f) is Some {
        lemma_first_match_some(t, f);
        let i = first_match(t, f)->0;
        assert forall|j: int| 0 <= j < i implies !f(#[trigger] s[j]) by {
            assert(f(s[j]) == f(t[j]));
        }
        assert(f(s[i]) == f(t[i]));
        lemma_first_match_at(s, f, i);
    }
}

/// Looking a key up after the value at position `i` was replaced.
proof fn lemma_lookup_replaced(p: Seq<(Seq<char>, InstanceView)>, i: int, v: InstanceView, k: Seq<char>)
    requires
        sorted_keys(p),
        0 <= i < p.len(),
    ensures
        lookup(p.update(i, (p[i].0, v)), k) == (if k == p[i].0 {
            Some(v)
        } else {
            lookup(p, k)
        }),
{
    let q = p.update(i, (p[i].0, v));
    assert(sorted_keys(q)) by {
        assert forall|a: int, b: int| 0 <= a < b < q.len() implies crate::text::seq_lt(
            #[trigger] q[a].0,
            #[trigger] q[b].0,
        ) by {
            assert(q[a].0 == p[a].0 && q[b].0 == p[b].0);
        }
    }
    if k == p[i].0 {
        lemma_lookup_index(q, k, i);
    } else if has_key(p, k) {
        let m = choose|m: int| 0 <= m < p.len() && #[trigger] p[m].0 == k;
        lemma_lookup_index(p, k, m);
        lemma_lookup_index(q, k, m);
    } else {
        crate::smap::lemma_lookup_none(p, k);
        assert forall|m: int| 0 <= m < q.len() implies #[trigger] q[m].0 != k by {
            assert(q[m].0 == p[m].0);
        }
        crate::smap::lemma_lookup_none(q, k);
    }
}

/// A note added to the active instance is the last note of the session that the next read
/// without an instance name shows, when the instance the hub treats as current is that
/// active instance.
pub proof fn law_note_in_next_session(c: ConfigView, sv: StateView, note: NoteView, now: nat)
    requires
        sorted_keys(sv.instances),
        well_keyed(sv),
        spec_active_instance(sv) is Some,
        spec_preferred_active(c, sv) == spec_active_instance(sv),
    ensures
        ({
            let a = spec_active_instance(sv)->0;
            let after = spec_modify(sv, a.key, with_note(note, now));
            spec_instance_or_active(c, after, None) matches Some(i) && i.key == a.key && i.notes
                == a.notes.push(note)
        }),
{
    let p = sv.instances;
    let a = spec_active_instance(sv)->0;
    let f = with_note(note, now);
    let i = lemma_active_position(sv);
    assert(has_key(p, a.key));
    law_modify_then_get(sv, a.key, f);
    crate::state::lemma_update_value_at(p, i, f);
    let q = p.update(i, (p[i].0, f(p[i].1)));
    let after = spec_modify(sv, a.key, f);
    assert(after.instances == q);
    assert(after.active == sv.active);
    assert forall|j: int| 0 <= j < p.len() implies #[trigger] q[j].1.status == p[j].1.status
        && q[j].1.project_name == p[j].1.project_name && q[j].1.endpoint_id == p[j].1.endpoint_id
        && q[j].0 == p[j].0 by {}
    assert forall|j: int| 0 <= j < p.len() implies online_pred()(#[trigger] p[j]) == online_pred()(
        q[j],
    ) by {
        assert(q[j].1.status == p[j].1.status);
    }
    lemma_first_match_same(p, q, online_pred());
    lemma_lookup_replaced(p, i, f(p[i].1), sv.active);
    let pref = match lookup(c.projects, c.active_project) {
        Some(pp) => match crate::config::spec_active_endpoint(pp) {
            Some(e) => crate::orchestrator::spec_instance_for_endpoint(
                sv,
                c.active_project,
                e.endpoint_id,
            ),
            None => None,
        },
        None => None,
    };
    match lookup(c.projects, c.active_project) {
        Some(pp) => match crate::config::spec_active_endpoint(pp) {
            Some(e) => {
                let tp = crate::orchestrator::target_pred(c.active_project, e.endpoint_id);
                assert forall|j: int| 0 <= j < p.len() implies tp(#[trigger] p[j]) == tp(q[j]) by {
                    assert(q[j].1.project_name == p[j].1.project_name);
                    assert(q[j].1.endpoint_id == p[j].1.endpoint_id);
                }
                lemma_first_match_same(p, q, tp);
                if first_match(p, tp) is Some {
                    lemma_first_match_some(p, tp);
                    let j = first_match(p, tp)->0;
                    assert(p[j].1 == a);
                    assert(p[j].0 == p[j].1.key);
                    lemma_key_position(p, i, j);
                }
            },
            None => {},
        },
        None => {},
    }
    if pref is None {
        let recorded = lookup(p, sv.active);
        if recorded is Some && is_online(recorded->0) {
            lemma_lookup_some(p, sv.active);
            let m = choose|m: int| 0 <= m < p.len() && #[trigger] p[m].0 == sv.active;
            lemma_lookup_index(p, sv.active, m);
            lemma_key_position(p, i, m);
        } else if first_match(p, online_pred()) is Some {
            lemma_first_match_some(p, online_pred());
            let j = first_match(p, online_pred())->0;
            lemma_key_position(p, i, j);
            if recorded is Some {
                lemma_lookup_some(p, sv.active);
                let m = choose|m: int| 0 <= m < p.len() && #[trigger] p[m].0 == sv.active;
                lemma_lookup_index(p, sv.active, m);
                if m == i {
                    assert(q[i].1.status == p[i].1.status);
                }
            }
        } else {
            lemma_lookup_some(p, sv.active);
            let m = choose|m: int| 0 <= m < p.len() && #[trigger] p[m].0 == sv.active;
            lemma_lookup_index(p, sv.active, m);
            lemma_key_position(p, i, m);
        }
    }
}

/// A call recorded on an instance is the last of its history, and the last one its session
/// shows whatever the limit.
pub proof fn law_recorded_call_is_last(
    sv: StateView,
    k: Seq<char>,
    rec: ToolCallRecordView,
    now: nat,
    limit: nat,
)
    requires
        sorted_keys(sv.instances),
        has_key(sv.instances, k),
        k.len() > 0,
    ensures
        spec_get_instance(spec_modify(sv, k, with_call(rec, now)), k) matches Some(i) && i.call_history.last()
            == rec && recent_calls(i.call_history, limit).last() == rec,
{
    law_modify_then_get(sv, k, with_call(rec, now));
    let i = spec_get_instance(spec_modify(sv, k, with_call(rec, now)), k)->0;
    let h = i.call_history;
    let keep: nat = if limit == 0 {
        1
    } else {
        limit
    };
    if h.len() > keep {
        assert(h.skip(h.len() - keep).last() == h.last());
    }
}

/// An instance whose process died while it was online or starting, and whose target no
/// longer answers, is recorded as crashed by the watcher, with one more crash counted.
pub proof fn law_dead_process_is_a_crash(sv: StateView, i: InstanceView, now: nat)
    requires
        sorted_keys(sv.instances),
        lookup(sv.instances, i.key) == Some(i),
        i.key.len() > 0,
        has_mcp_target(i),
        i.pid is Some,
        i.status == "online"@ || i.status == "starting"@,
    ensures
        spec_get_instance(spec_refresh(sv, i, false, false, now), i.key) matches Some(j)
            && j.status == "crashed"@ && j.crash_count == (if i.crash_count == u32::MAX {
            u32::MAX
        } else {
            (i.crash_count + 1) as u32
        }),
{
    lemma_lookup_some(sv.instances, i.key);
    law_modify_then_get(sv, i.key, crashed(now));
}

proof fn lemma_retain_keeps<T>(s: Seq<T>, f: spec_fn(T) -> bool, i: int)
    requires
        0 <= i < s.len(),
        f(s[i]),
    ensures
        retain(s, f).contains(s[i]),
    decreases s.len(),
{
    let r = retain(s.drop_last(), f);
    if i == s.len() - 1 {
        assert(retain(s, f) == r.push(s.last()));
        assert(retain(s, f)[r.len() as int] == s[i]);
    } else {
        lemma_retain_keeps(s.drop_last(), f, i);
        assert(s.drop_last()[i] == s[i]);
        let j = choose|j: int| 0 <= j < r.len() && r[j] == s[i];
        if f(s.last()) {
            assert(retain(s, f)[j] == s[i]);
        }
    }
}

/// Cleanup never drops an instance that is online or starting.
pub proof fn law_cleanup_keeps_live(sv: StateView, max_age: nat, now: nat, k: Seq<char>)
    requires
        sorted_keys(sv.instances),
        lookup(sv.instances, k) matches Some(i) && (i.status == "online"@ || i.status
            == "starting"@),
    ensures
        spec_cleanup(sv, max_age, now).instances.contains((k, lookup(sv.instances, k)->0)),
{
    let p = sv.instances;
    lemma_lookup_some(p, k);
    let i = choose|i: int| 0 <= i < p.len() && #[trigger] p[i].0 == k;
    lemma_lookup_index(p, k, i);
    lemma_retain_keeps(p, crate::state::cleanup_keep(max_age, now), i);
}

// ---------------------------------------------------------------------------
// MCP ids
// ---------------------------------------------------------------------------

pub open spec fn id_char(c: char) -> bool {
    is_ascii_lower(c) || is_ascii_digit(c) || c == '-'
}

proof fn lemma_slug_chars(s: Seq<char>)
    ensures
        forall|i: int| 0 <= i < slug(s).0.len() ==> id_char(#[trigger] slug(s).0[i]),
    decreases s.len(),
{
    if s.len() > 0 {
        lemma_slug_chars(s.drop_last());
        let prev = slug(s.drop_last());
        let c = s.last();
        if is_ascii_alnum(c) {
            let l = lower_char(c);
            if crate::text::is_ascii_upper(c) {
                assert((c as u32 + 32) as u8 == c as u32 + 32);
                assert(l as u32 == c as u32 + 32);
            }
            assert(id_char(l));
            assert(slug(s).0 == prev.0.push(l));
        } else if !prev.1 {
            assert(slug(s).0 == prev.0.push('-'));
        } else {
            assert(slug(s).0 == prev.0);
        }
        assert forall|i: int| 0 <= i < slug(s).0.len() implies id_char(#[trigger] slug(s).0[i]) by {
            if i < prev.0.len() {
                assert(slug(s).0[i] == prev.0[i]);
            }
        }
    }
}

proof fn lemma_trim_dashes_sub(s: Seq<char>)
    ensures
        forall|i: int|
            0 <= i < trim_dashes(s).len() ==> exists|j: int|
                0 <= j < s.len() && s[j] == #[trigger] trim_dashes(s)[i],
    decreases s.len(),
{
    if s.len() > 0 && s[0] == '-' {
        let t = s.drop_first();
        lemma_trim_dashes_sub(t);
        assert(trim_dashes(s) == trim_dashes(t));
        assert forall|i: int| 0 <= i < trim_dashes(s).len() implies exists|j: int|
            0 <= j < s.len() && s[j] == #[trigger] trim_dashes(s)[i] by {
            let j = choose|j: int| 0 <= j < t.len() && t[j] == #[trigger] trim_dashes(t)[i];
            assert(s[j + 1] == t[j]);
        }
    } else if s.len() > 0 && s.last() == '-' {
        let t = s.drop_last();
        lemma_trim_dashes_sub(t);
        assert(trim_dashes(s) == trim_dashes(t));
        assert forall|i: int| 0 <= i < trim_dashes(s).len() implies exists|j: int|
            0 <= j < s.len() && s[j] == #[trigger] trim_dashes(s)[i] by {
            let j = choose|j: int| 0 <= j < t.len() && t[j] == #[trigger] trim_dashes(t)[i];
            assert(s[j] == t[j]);
        }
    } else {
        assert(trim_dashes(s) == s);
        assert forall|i: int| 0 <= i < trim_dashes(s).len() implies exists|j: int|
            0 <= j < s.len() && s[j] == #[trigger] trim_dashes(s)[i] by {
            assert(s[i] == trim_dashes(s)[i]);
        }
    }
}

/// Every MCP id derived from a project name ends with `-local` and is made of lower-case
/// ASCII letters, digits and dashes.
pub proof fn law_endpoint_id_shape(name: Seq<char>)
    ensures
        has_suffix(spec_endpoint_id(name), "-local"@),
        forall|i: int|
            0 <= i < spec_endpoint_id(name).len() ==> id_char(#[trigger] spec_endpoint_id(name)[i]),
{
    reveal_strlit("-local");
    reveal_strlit("unreal-local");
    let sl = slug(name).0;
    let t = trim_dashes(sl);
    lemma_slug_chars(name);
    lemma_trim_dashes_sub(sl);
    let out = spec_endpoint_id(name);
    if t.len() == 0 {
        assert(out == "unreal-local"@);
        assert(out.skip(out.len() - 6) =~= "-local"@);
    } else {
        assert(out == t + "-local"@);
        assert(out.skip(out.len() - 6) =~= "-local"@);
        assert forall|i: int| 0 <= i < out.len() implies id_char(#[trigger] out[i]) by {
            if i < t.len() {
                assert(out[i] == t[i]);
                let j = choose|j: int| 0 <= j < sl.len() && sl[j] == t[i];
            }
        }
    }
}


// ---------------------------------------------------------------------------
// Launching and discovery
// ---------------------------------------------------------------------------

/// After a launch, the launched (or reused) editor's record is the recorded active
/// instance.
pub proof fn law_launch_becomes_active(
    sv: StateView,
    inst: InstanceView,
    reused: bool,
    now: nat,
)
    requires
        sorted_keys(sv.instances),
        inst.key.len() > 0,
    ensures
        crate::lifecycle::spec_after_launch(sv, inst, reused, now).active == inst.key,
{
    let k = spec_upsert_key(inst);
    assert(k == inst.key);
    law_upsert_then_get(sv, inst, now);
    let s1 = spec_upsert(sv, inst, now);
    assert(spec_resolve(s1, k) == Some(k));
    let s2 = if reused {
        spec_modify(s1, k, crate::state::with_status(inst.status, inst.pid, now))
    } else {
        s1
    };
    if reused {
        let i = choose|i: int| 0 <= i < s1.instances.len() && #[trigger] s1.instances[i].0 == k;
        assert(s2.instances == update_value(
            s1.instances,
            k,
            crate::state::with_status(inst.status, inst.pid, now),
        ));
        assert(s2.instances[i].0 == k);
        assert(has_key(s2.instances, k));
    }
    assert(spec_resolve(s2, k) == Some(k));
}

/// What the candidates of a discovery round are kept in: in ascending URL order, each
/// under its own URL.
pub open spec fn candidates_wf(m: Seq<(Seq<char>, crate::lifecycle::CandidateView)>) -> bool {
    sorted_keys(m) && forall|i: int| 0 <= i < m.len() ==> (#[trigger] m[i]).1.url == m[i].0
}

proof fn lemma_add_candidate(
    m: Seq<(Seq<char>, crate::lifecycle::CandidateView)>,
    c: crate::lifecycle::CandidateView,
)
    requires
        candidates_wf(m),
    ensures
        candidates_wf(crate::lifecycle::add_candidate(m, c)),
{
    crate::smap::lemma_sorted_insert(m, c.url, c);
    let q = sorted_insert(m, c.url, c);
    assert forall|i: int| 0 <= i < q.len() implies (#[trigger] q[i]).1.url == q[i].0 by {
        assert(q.contains(q[i]));
        if q[i] != (c.url, c) {
            let j = choose|j: int| 0 <= j < m.len() && m[j] == q[i];
        }
    }
}

proof fn lemma_endpoint_candidates(
    m: Seq<(Seq<char>, crate::lifecycle::CandidateView)>,
    name: Seq<char>,
    p: ProjectView,
    n: int,
)
    requires
        candidates_wf(m),
    ensures
        candidates_wf(crate::lifecycle::add_endpoint_candidates(m, name, p, n)),
    decreases n,
{
    if n > 0 {
        lemma_endpoint_candidates(m, name, p, n - 1);
        lemma_add_candidate(
            crate::lifecycle::add_endpoint_candidates(m, name, p, n - 1),
            crate::lifecycle::spec_candidate(name, p, p.endpoints[n - 1]),
        );
    }
}

proof fn lemma_project_candidates(
    m: Seq<(Seq<char>, crate::lifecycle::CandidateView)>,
    ps: Seq<(Seq<char>, ProjectView)>,
    n: int,
)
    requires
        candidates_wf(m),
    ensures
        candidates_wf(crate::lifecycle::add_project_candidates(m, ps, n)),
    decreases n,
{
    if n > 0 {
        lemma_project_candidates(m, ps, n - 1);
        let pm = crate::lifecycle::add_project_candidates(m, ps, n - 1);
        lemma_endpoint_candidates(pm, ps[n - 1].0, ps[n - 1].1, ps[n - 1].1.endpoints.len() as int);
    }
}

/// A discovery round probes each URL once: no two candidates share a URL.
pub proof fn law_one_candidate_per_url(c: ConfigView)
    ensures
        ({
            let cs = crate::lifecycle::spec_discovery_candidates(c);
            forall|i: int, j: int| 0 <= i < j < cs.len() ==> (#[trigger] cs[i]).url != (#[trigger] cs[j]).url
        }),
{
    let e = Seq::<(Seq<char>, crate::lifecycle::CandidateView)>::empty();
    lemma_project_candidates(e, c.projects, c.projects.len() as int);
    let m = crate::lifecycle::add_project_candidates(e, c.projects, c.projects.len() as int);
    let cs = crate::lifecycle::spec_discovery_candidates(c);
    assert forall|i: int, j: int| 0 <= i < j < cs.len() implies (#[trigger] cs[i]).url != (
    #[trigger] cs[j]).url by {
        assert(cs[i] == m[i].1);
        assert(cs[j] == m[j].1);
        assert(crate::text::seq_lt(m[i].0, m[j].0));
        crate::text::lemma_seq_lt_irreflexive(m[i].0);
    }
}


// ---------------------------------------------------------------------------
// Verification checks, sessions, health probes and escapes
// ---------------------------------------------------------------------------

/// A Blueprint graph payload that carries a `summary` member is a valid graph answer,
/// whether or not it says `ok`: a call that succeeded with such an object, and with no
/// `ok` member, passes its check.
pub proof fn law_graph_summary_is_accepted(
    m: Seq<(Seq<char>, crate::json::JsonView)>,
    o: crate::ue_client::ToolCallOutputView,
)
    requires
        exists|i: int| 0 <= i < m.len() && #[trigger] m[i].0 == "summary"@,
    ensures
        crate::verify::spec_rule_holds(
            crate::verify::PayloadRule::GraphSummary,
            crate::json::JsonView::Object(m),
        ),
        o.success && crate::verify::judged_payload(o) == crate::json::JsonView::Object(m) && (forall|
            i: int,
        | 0 <= i < m.len() ==> #[trigger] m[i].0 != "ok"@) ==> crate::verify::spec_tool_passed(
            o,
            crate::verify::PayloadRule::GraphSummary,
        ),
{
    let i = choose|i: int| 0 <= i < m.len() && #[trigger] m[i].0 == "summary"@;
    assert(crate::json::key_pred("summary"@)(m[i]));
    crate::smap::lemma_first_match_complete(m, crate::json::key_pred("summary"@), i);
    if forall|i: int| 0 <= i < m.len() ==> #[trigger] m[i].0 != "ok"@ {
        assert forall|j: int| 0 <= j < m.len() implies !crate::json::key_pred("ok"@)(
            #[trigger] m[j],
        ) by {}
        lemma_first_match_none(m, crate::json::key_pred("ok"@));
    }
}

/// A session shows the latest calls: as many as the limit allows (at least one) or all
/// there are when fewer, and exactly the last ones of the history, in order.
pub proof fn law_session_shows_the_latest_calls(h: Seq<ToolCallRecordView>, limit: nat)
    ensures
        ({
            let r = recent_calls(h, limit);
            let keep: nat = if limit >= 1 {
                limit
            } else {
                1
            };
            &&& r.len() == (if h.len() <= keep {
                h.len()
            } else {
                keep
            })
            &&& r.len() <= keep
            &&& forall|k: int| 0 <= k < r.len() ==> #[trigger] r[k] == h[h.len() - r.len() + k]
        }),
{
}

/// A probe that gets no answer from the target of an editor whose process is alive (or
/// that has no process to look at) changes nothing: the report shows the status and pid
/// the instance had, and the state is left as it was.
pub proof fn law_unanswered_probe_of_a_live_editor_changes_nothing(
    sv: StateView,
    i: InstanceView,
    process_alive: Option<bool>,
    now: nat,
)
    requires
        process_alive == Some(true) || (process_alive is None && i.pid is None),
    ensures
        ({
            let status = crate::lifecycle::probed_status(i, process_alive, false);
            let pid = crate::lifecycle::probed_pid(i, process_alive);
            &&& status == i.status
            &&& pid == i.pid
            &&& (if status != i.status || pid != i.pid {
                spec_modify(sv, i.key, with_status(status, pid, now))
            } else {
                sv
            }) == sv
        }),
{
}

/// In a quoted relaxed string, each simple backslash escape stands for its character:
/// `\n` a newline, `\t` a tab, `\r` a carriage return, `\b` a backspace, `\f` a form feed,
/// and `\"`, `\'`, `\\`, `\/` the character after the backslash; the rest of the string is
/// read on after it.
pub proof fn law_quoted_escapes_decode(s: Seq<char>, q: char, j: int, acc: Seq<char>, c: char)
    requires
        0 <= j,
        j + 1 < s.len(),
        q != '\\',
        s[j] == '\\',
        (s[j + 1] == 'n' && c == '\n') || (s[j + 1] == 't' && c == '\t') || (s[j + 1] == 'r'
            && c == '\r') || (s[j + 1] == 'b' && c == '\x08') || (s[j + 1] == 'f' && c == '\x0C')
            || (s[j + 1] == '"' && c == '"') || (s[j + 1] == '\'' && c == '\'') || (s[j + 1]
            == '\\' && c == '\\') || (s[j + 1] == '/' && c == '/'),
    ensures
        crate::json_args::qstr(s, q, j, acc) == crate::json_args::qstr(s, q, j + 2, acc.push(c)),
{
}

/// In a bare relaxed value, the same escapes stand for the same characters.
pub proof fn law_bare_escapes_decode(t: Seq<char>, i: int, acc: Seq<char>, c: char)
    requires
        0 <= i,
        i + 1 < t.len(),
        t[i] == '\\',
        (t[i + 1] == 'n' && c == '\n') || (t[i + 1] == 't' && c == '\t') || (t[i + 1] == 'r'
            && c == '\r') || (t[i + 1] == 'b' && c == '\x08') || (t[i + 1] == 'f' && c == '\x0C')
            || (t[i + 1] == '"' && c == '"') || (t[i + 1] == '\'' && c == '\'') || (t[i + 1]
            == '\\' && c == '\\') || (t[i + 1] == '/' && c == '/'),
    ensures
        crate::json_args::dec(t, i, acc) == crate::json_args::dec(t, i + 2, acc.push(c)),
{
}

} // verus!
