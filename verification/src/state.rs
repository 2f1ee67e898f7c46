//! The persisted instance/session state: known Unreal instances keyed by instance key,
//! the active instance, and per-instance notes and call history.
use vstd::prelude::*;

use crate::smap::{
    first_match, has_key, lemma_first_match_at, lemma_first_match_none, lemma_lookup_index,
    lemma_lookup_none, lookup, sorted_insert, sorted_keys, SortedMap,
};
use crate::text::{
    chars_of, decimal, decimal_string, lower, lower_chars, owned, parse_u16, parse_unsigned,
    parse_u64, push_all, push_decimal, slice_eq, str_eq, string_from_chars, trim, trim_chars,
};

verus! {

broadcast use vstd::string::group_string_axioms;

// ---------------------------------------------------------------------------
// Records
// ---------------------------------------------------------------------------

/// A note attached to an instance's session.
pub struct Note {
    pub timestamp: String,
    pub content: String,
}

pub struct NoteView {
    pub timestamp: Seq<char>,
    pub content: Seq<char>,
}

impl View for Note {
    type V = NoteView;

    open spec fn view(&self) -> NoteView {
        NoteView { timestamp: self.timestamp@, content: self.content@ }
    }
}

impl Clone for Note {
    fn clone(&self) -> (r: Self)
        ensures
            r@ == self@,
    {
        Note { timestamp: self.timestamp.clone(), content: self.content.clone() }
    }
}

/// One tool call made through an instance.
pub struct ToolCallRecord {
    pub timestamp: String,
    pub tool_name: String,
    pub success: bool,
    pub duration_ms: u128,
}

pub struct ToolCallRecordView {
    pub timestamp: Seq<char>,
    pub tool_name: Seq<char>,
    pub success: bool,
    pub duration_ms: u128,
}

impl View for ToolCallRecord {
    type V = ToolCallRecordView;

    open spec fn view(&self) -> ToolCallRecordView {
        ToolCallRecordView {
            timestamp: self.timestamp@,
            tool_name: self.tool_name@,
            success: self.success,
            duration_ms: self.duration_ms,
        }
    }
}

impl Clone for ToolCallRecord {
    fn clone(&self) -> (r: Self)
        ensures
            r@ == self@,
    {
        ToolCallRecord {
            timestamp: self.timestamp.clone(),
            tool_name: self.tool_name.clone(),
            success: self.success,
            duration_ms: self.duration_ms,
        }
    }
}

/// A known Unreal Editor instance serving one project MCP target.
pub struct InstanceState {
    pub key: String,
    pub project_name: String,
    pub endpoint_id: String,
    pub project_path: String,
    pub engine_root: String,
    pub host: String,
    pub port: u16,
    pub url: String,
    pub pid: Option<u32>,
    pub status: String,
    pub last_seen: String,
    pub crash_count: u32,
    pub notes: Vec<Note>,
    pub call_history: Vec<ToolCallRecord>,
}

pub struct InstanceView {
    pub key: Seq<char>,
    pub project_name: Seq<char>,
    pub endpoint_id: Seq<char>,
    pub project_path: Seq<char>,
    pub engine_root: Seq<char>,
    pub host: Seq<char>,
    pub port: u16,
    pub url: Seq<char>,
    pub pid: Option<u32>,
    pub status: Seq<char>,
    pub last_seen: Seq<char>,
    pub crash_count: u32,
    pub notes: Seq<NoteView>,
    pub call_history: Seq<ToolCallRecordView>,
}

impl View for InstanceState {
    type V = InstanceView;

    open spec fn view(&self) -> InstanceView {
        InstanceView {
            key: self.key@,
            project_name: self.project_name@,
            endpoint_id: self.endpoint_id@,
            project_path: self.project_path@,
            engine_root: self.engine_root@,
            host: self.host@,
            port: self.port,
            url: self.url@,
            pid: self.pid,
            status: self.status@,
            last_seen: self.last_seen@,
            crash_count: self.crash_count,
            notes: notes_view(self.notes@),
            call_history: records_view(self.call_history@),
        }
    }
}

pub open spec fn notes_view(v: Seq<Note>) -> Seq<NoteView> {
    v.map_values(|n: Note| n@)
}

pub open spec fn records_view(v: Seq<ToolCallRecord>) -> Seq<ToolCallRecordView> {
    v.map_values(|c: ToolCallRecord| c@)
}

pub fn clone_notes(v: &Vec<Note>) -> (r: Vec<Note>)
    ensures
        notes_view(r@) == notes_view(v@),
{
    let mut r: Vec<Note> = Vec::new();
    let mut i: usize = 0;
    while i < v.len()
        invariant
            0 <= i <= v@.len(),
            r@.len() == i,
            forall|j: int| 0 <= j < i ==> (#[trigger] r@[j])@ == v@[j]@,
        decreases v@.len() - i,
    {
        let c = v[i].clone();
        r.push(c);
        i = i + 1;
    }
    assert(notes_view(r@) =~= notes_view(v@));
    r
}

pub fn clone_records(v: &Vec<ToolCallRecord>) -> (r: Vec<ToolCallRecord>)
    ensures
        records_view(r@) == records_view(v@),
{
    let mut r: Vec<ToolCallRecord> = Vec::new();
    let mut i: usize = 0;
    while i < v.len()
        invariant
            0 <= i <= v@.len(),
            r@.len() == i,
            forall|j: int| 0 <= j < i ==> (#[trigger] r@[j])@ == v@[j]@,
        decreases v@.len() - i,
    {
        let c = v[i].clone();
        r.push(c);
        i = i + 1;
    }
    assert(records_view(r@) =~= records_view(v@));
    r
}

impl Clone for InstanceState {
    fn clone(&self) -> (r: Self)
        ensures
            r@ == self@,
    {
        InstanceState {
            key: self.key.clone(),
            project_name: self.project_name.clone(),
            endpoint_id: self.endpoint_id.clone(),
            project_path: self.project_path.clone(),
            engine_root: self.engine_root.clone(),
            host: self.host.clone(),
            port: self.port,
            url: self.url.clone(),
            pid: self.pid,
            status: self.status.clone(),
            last_seen: self.last_seen.clone(),
            crash_count: self.crash_count,
            notes: clone_notes(&self.notes),
            call_history: clone_records(&self.call_history),
        }
    }
}

/// The persisted state: instances in ascending key order and the active instance key.
pub struct AppState {
    pub instances: SortedMap<InstanceState>,
    pub active_instance: String,
}

pub struct StateView {
    pub instances: Seq<(Seq<char>, InstanceView)>,
    pub active: Seq<char>,
}

// ---------------------------------------------------------------------------
// The model
// ---------------------------------------------------------------------------

pub open spec fn is_online(i: InstanceView) -> bool {
    i.status == "online"@
}

pub open spec fn entry_online(e: (Seq<char>, InstanceView)) -> bool {
    is_online(e.1)
}

pub open spec fn online_pred() -> spec_fn((Seq<char>, InstanceView)) -> bool {
    |e: (Seq<char>, InstanceView)| entry_online(e)
}

pub open spec fn port_pred(p: nat) -> spec_fn((Seq<char>, InstanceView)) -> bool {
    |e: (Seq<char>, InstanceView)| e.1.port == p
}

pub open spec fn name_pred(id: Seq<char>) -> spec_fn((Seq<char>, InstanceView)) -> bool {
    |e: (Seq<char>, InstanceView)| lower(e.1.project_name) == lower(id)
}

/// `make_instance_key`: `<project>:<mcp-id>:<port>`, with the trimmed project name or
/// `unknown`; without the `<mcp-id>:` part when the trimmed MCP id is empty.
pub open spec fn spec_instance_key(project_name: Seq<char>, endpoint_id: Seq<char>, port: u16) -> Seq<
    char,
> {
    let n = trim(project_name);
    let name = if n.len() == 0 {
        "unknown"@
    } else {
        n
    };
    let id = trim(endpoint_id);
    if id.len() == 0 {
        name + seq![':'] + decimal(port as nat)
    } else {
        name + seq![':'] + id + seq![':'] + decimal(port as nat)
    }
}

/// The key that an identifier (a key, a port, or a project name in any ASCII case) names.
pub open spec fn spec_resolve(sv: StateView, id: Seq<char>) -> Option<Seq<char>> {
    if id.len() == 0 {
        None
    } else if has_key(sv.instances, id) {
        Some(id)
    } else {
        let by_port = match parse_unsigned(id, 65535) {
            Some(p) => first_match(sv.instances, port_pred(p)),
            None => None,
        };
        match by_port {
            Some(i) => Some(sv.instances[i].0),
            None => match first_match(sv.instances, name_pred(id)) {
                Some(i) => Some(sv.instances[i].0),
                None => None,
            },
        }
    }
}

/// The instance that an identifier names.
pub open spec fn spec_get_instance(sv: StateView, id: Seq<char>) -> Option<InstanceView> {
    match spec_resolve(sv, id) {
        Some(k) => lookup(sv.instances, k),
        None => None,
    }
}

/// The active instance: the recorded one when it is online, else the first online
/// instance in key order, else the recorded one whatever its status.
pub open spec fn spec_active_instance(sv: StateView) -> Option<InstanceView> {
    let recorded = lookup(sv.instances, sv.active);
    if recorded is Some && is_online(recorded->0) {
        recorded
    } else {
        match first_match(sv.instances, online_pred()) {
            Some(i) => Some(sv.instances[i].1),
            None => recorded,
        }
    }
}

/// The timestamp text written for time `now` (seconds since the Unix epoch).
pub open spec fn stamp(now: nat) -> Seq<char> {
    decimal(now)
}

/// `merge_instance`: the incoming record, completed from the existing one.
pub open spec fn spec_merge(
    existing: InstanceView,
    incoming: InstanceView,
    key: Seq<char>,
    now: nat,
) -> InstanceView {
    InstanceView {
        key: key,
        project_name: if incoming.project_name.len() == 0 {
            existing.project_name
        } else {
            incoming.project_name
        },
        project_path: if incoming.project_path.len() == 0 {
            existing.project_path
        } else {
            incoming.project_path
        },
        engine_root: if incoming.engine_root.len() == 0 {
            existing.engine_root
        } else {
            incoming.engine_root
        },
        host: if incoming.host.len() == 0 {
            existing.host
        } else {
            incoming.host
        },
        url: if incoming.url.len() == 0 {
            existing.url
        } else {
            incoming.url
        },
        pid: if incoming.pid is None {
            existing.pid
        } else {
            incoming.pid
        },
        last_seen: if incoming.last_seen.len() == 0 {
            stamp(now)
        } else {
            incoming.last_seen
        },
        notes: if incoming.notes.len() == 0 {
            existing.notes
        } else {
            incoming.notes
        },
        call_history: if incoming.call_history.len() == 0 {
            existing.call_history
        } else {
            incoming.call_history
        },
        crash_count: if incoming.crash_count >= existing.crash_count {
            incoming.crash_count
        } else {
            existing.crash_count
        },
        ..incoming
    }
}

/// The key under which `upsert_instance` stores a record.
pub open spec fn spec_upsert_key(incoming: InstanceView) -> Seq<char> {
    if incoming.key.len() == 0 {
        spec_instance_key(incoming.project_name, incoming.endpoint_id, incoming.port)
    } else {
        incoming.key
    }
}

/// `upsert_instance` at time `now`.
pub open spec fn spec_upsert(sv: StateView, incoming: InstanceView, now: nat) -> StateView {
    let key = spec_upsert_key(incoming);
    let merged = match lookup(sv.instances, key) {
        Some(existing) => spec_merge(existing, incoming, key, now),
        None => InstanceView {
            key: key,
            last_seen: if incoming.last_seen.len() == 0 {
                stamp(now)
            } else {
                incoming.last_seen
            },
            ..incoming
        },
    };
    let recorded = lookup(sv.instances, sv.active);
    let activate = sv.active.len() == 0 || recorded is None || !is_online(recorded->0);
    StateView {
        instances: sorted_insert(sv.instances, key, merged),
        active: if activate {
            key
        } else {
            sv.active
        },
    }
}

/// The entries with the value under key `k` replaced by `f` of it.
pub open spec fn update_value(
    p: Seq<(Seq<char>, InstanceView)>,
    k: Seq<char>,
    f: spec_fn(InstanceView) -> InstanceView,
) -> Seq<(Seq<char>, InstanceView)> {
    p.map_values(
        |e: (Seq<char>, InstanceView)|
            if e.0 == k {
                (e.0, f(e.1))
            } else {
                e
            },
    )
}

/// The state after applying `f` to the instance that `id` names, if any.
pub open spec fn spec_modify(
    sv: StateView,
    id: Seq<char>,
    f: spec_fn(InstanceView) -> InstanceView,
) -> StateView {
    match spec_resolve(sv, id) {
        Some(k) => StateView { instances: update_value(sv.instances, k, f), ..sv },
        None => sv,
    }
}

pub open spec fn with_note(note: NoteView, now: nat) -> spec_fn(InstanceView) -> InstanceView {
    |i: InstanceView| InstanceView { notes: i.notes.push(note), last_seen: stamp(now), ..i }
}

pub open spec fn with_call(record: ToolCallRecordView, now: nat) -> spec_fn(InstanceView) -> InstanceView {
    |i: InstanceView|
        InstanceView { call_history: i.call_history.push(record), last_seen: stamp(now), ..i }
}

pub open spec fn with_status(status: Seq<char>, pid: Option<u32>, now: nat) -> spec_fn(
    InstanceView,
) -> InstanceView {
    |i: InstanceView|
        InstanceView {
            status: status,
            last_seen: stamp(now),
            pid: if pid is Some {
                pid
            } else {
                i.pid
            },
            ..i
        }
}

pub open spec fn crashed(now: nat) -> spec_fn(InstanceView) -> InstanceView {
    |i: InstanceView|
        InstanceView {
            status: "crashed"@,
            crash_count: if i.crash_count == u32::MAX {
                u32::MAX
            } else {
                (i.crash_count + 1) as u32
            },
            last_seen: stamp(now),
            ..i
        }
}

/// The last `max(limit, 1)` records of an instance's call history.
pub open spec fn recent_calls(h: Seq<ToolCallRecordView>, limit: nat) -> Seq<ToolCallRecordView> {
    let keep = if limit == 0 {
        1
    } else {
        limit
    };
    if h.len() > keep {
        h.skip(h.len() - keep)
    } else {
        h
    }
}

/// Whether `cleanup` keeps an instance: it is online or starting, its last-seen stamp is
/// no number, or it was seen at most `max_age` seconds before `now`.
pub open spec fn kept_by_cleanup(i: InstanceView, max_age: nat, now: nat) -> bool {
    i.status == "online"@ || i.status == "starting"@ || parse_unsigned(
        i.last_seen,
        u64::MAX as nat,
    ) is None || ({
        let seen = parse_unsigned(i.last_seen, u64::MAX as nat)->0;
        (if now >= seen {
            now - seen
        } else {
            0
        }) <= max_age
    })
}

/// The elements of `s` for which `f` holds, in order.
pub open spec fn retain<T>(s: Seq<T>, f: spec_fn(T) -> bool) -> Seq<T>
    decreases s.len(),
{
    if s.len() == 0 {
        s
    } else {
        let r = retain(s.drop_last(), f);
        if f(s.last()) {
            r.push(s.last())
        } else {
            r
        }
    }
}

pub open spec fn cleanup_keep(max_age: nat, now: nat) -> spec_fn((Seq<char>, InstanceView)) -> bool {
    |e: (Seq<char>, InstanceView)| kept_by_cleanup(e.1, max_age, now)
}

pub open spec fn cleanup_drop(max_age: nat, now: nat) -> spec_fn((Seq<char>, InstanceView)) -> bool {
    |e: (Seq<char>, InstanceView)| !kept_by_cleanup(e.1, max_age, now)
}

/// The keys that `cleanup` removes, in key order.
pub open spec fn spec_cleanup_removed(sv: StateView, max_age: nat, now: nat) -> Seq<Seq<char>> {
    retain(sv.instances, cleanup_drop(max_age, now)).map_values(
        |e: (Seq<char>, InstanceView)| e.0,
    )
}

/// `cleanup`: drops stale instances; when the active one goes, the first online instance
/// (else the first instance, else none) becomes active.
pub open spec fn spec_cleanup(sv: StateView, max_age: nat, now: nat) -> StateView {
    let rest = retain(sv.instances, cleanup_keep(max_age, now));
    let removed = spec_cleanup_removed(sv, max_age, now);
    StateView {
        instances: rest,
        active: if removed.contains(sv.active) {
            match first_match(rest, online_pred()) {
                Some(i) => rest[i].0,
                None => if rest.len() > 0 {
                    rest[0].0
                } else {
                    Seq::empty()
                },
            }
        } else {
            sv.active
        },
    }
}

pub proof fn lemma_update_value_at(
    p: Seq<(Seq<char>, InstanceView)>,
    i: int,
    f: spec_fn(InstanceView) -> InstanceView,
)
    requires
        sorted_keys(p),
        0 <= i < p.len(),
    ensures
        p.update(i, (p[i].0, f(p[i].1))) == update_value(p, p[i].0, f),
{
    let q = update_value(p, p[i].0, f);
    assert forall|j: int| 0 <= j < p.len() && j != i implies p[j].0 != p[i].0 by {
        if j < i {
            assert(crate::text::seq_lt(p[j].0, p[i].0));
        } else {
            assert(crate::text::seq_lt(p[i].0, p[j].0));
        }
        crate::text::lemma_seq_lt_irreflexive(p[i].0);
    }
    assert(p.update(i, (p[i].0, f(p[i].1))) =~= q);
}

proof fn lemma_retain_take<T>(s: Seq<T>, f: spec_fn(T) -> bool, j: int)
    requires
        0 <= j < s.len(),
    ensures
        retain(s.take(j + 1), f) == (if f(s[j]) {
            retain(s.take(j), f).push(s[j])
        } else {
            retain(s.take(j), f)
        }),
{
    assert(s.take(j + 1).drop_last() =~= s.take(j));
}

proof fn lemma_retain_sorted(s: Seq<(Seq<char>, InstanceView)>, f: spec_fn(
    (Seq<char>, InstanceView),
) -> bool)
    requires
        sorted_keys(s),
    ensures
        sorted_keys(retain(s, f)),
        forall|e| #[trigger] retain(s, f).contains(e) ==> s.contains(e),
    decreases s.len(),
{
    if s.len() > 0 {
        let d = s.drop_last();
        assert(sorted_keys(d)) by {
            assert forall|a: int, b: int| 0 <= a < b < d.len() implies crate::text::seq_lt(
                #[trigger] d[a].0,
                #[trigger] d[b].0,
            ) by {
                assert(d[a] == s[a]);
                assert(d[b] == s[b]);
            }
        }
        lemma_retain_sorted(d, f);
        let r = retain(d, f);
        assert forall|e| #[trigger] retain(s, f).contains(e) implies s.contains(e) by {
            let i = choose|i: int| 0 <= i < retain(s, f).len() && retain(s, f)[i] == e;
            if f(s.last()) && i == r.len() {
                assert(s[s.len() - 1] == e);
            } else {
                assert(r[i] == e);
                assert(r.contains(e));
                let m = choose|m: int| 0 <= m < d.len() && d[m] == e;
                assert(s[m] == e);
            }
        }
        if f(s.last()) {
            let q = r.push(s.last());
            assert forall|a: int, b: int| 0 <= a < b < q.len() implies crate::text::seq_lt(
                #[trigger] q[a].0,
                #[trigger] q[b].0,
            ) by {
                if b == r.len() {
                    assert(r.contains(r[a]));
                    let m = choose|m: int| 0 <= m < d.len() && d[m] == r[a];
                    assert(s[m] == q[a]);
                    assert(q[b] == s[s.len() - 1]);
                } else {
                    assert(q[a] == r[a]);
                    assert(q[b] == r[b]);
                }
            }
        }
    }
}

// ---------------------------------------------------------------------------
// Keys
// ---------------------------------------------------------------------------

/// The instance key for a project MCP target: `<project>:<mcp-id>:<port>`.
pub fn make_instance_key(project_name: &str, endpoint_id: &str, port: u16) -> (key: String)
    ensures
        key@ == spec_instance_key(project_name@, endpoint_id@, port),
{
    let pn = chars_of(project_name);
    let n = trim_chars(&pn);
    let mut out: Vec<char> = if n.len() == 0 {
        chars_of("unknown")
    } else {
        n
    };
    out.push(':');
    let ei = chars_of(endpoint_id);
    let id = trim_chars(&ei);
    if id.len() > 0 {
        push_all(&mut out, &id);
        out.push(':');
    }
    push_decimal(&mut out, port as u64);
    let ghost n2 = if trim(project_name@).len() == 0 {
        "unknown"@
    } else {
        trim(project_name@)
    };
    assert(out@ =~= spec_instance_key(project_name@, endpoint_id@, port)) by {
        if id@.len() == 0 {
            assert(out@ =~= n2 + seq![':'] + decimal(port as nat));
        } else {
            assert(out@ =~= n2 + seq![':'] + id@ + seq![':'] + decimal(port as nat));
        }
    }
    string_from_chars(&out)
}

/// The current time in seconds since the Unix epoch (`SystemTime::now`).
#[verifier::external_body]
pub(crate) fn current_epoch_secs() -> u64 {
    std::time::SystemTime::now().duration_since(std::time::UNIX_EPOCH).unwrap_or_default().as_secs()
}

/// A timestamp for the current time: the decimal seconds since the Unix epoch.
pub fn now_timestamp() -> (s: String)
    ensures
        exists|now: u64| s@ == stamp(now as nat),
{
    let now = current_epoch_secs();
    let s = decimal_string(now);
    assert(s@ == stamp(now as nat));
    s
}

// ---------------------------------------------------------------------------
// The store
// ---------------------------------------------------------------------------

/// The state together with the file it is kept in; `needs_save` tells whether a change
/// was made that the file does not hold yet.
pub struct StateStore {
    path: String,
    data: AppState,
    unsaved: bool,
}

impl StateStore {
    pub closed spec fn view(&self) -> StateView {
        StateView { instances: self.data.instances.pairs(), active: self.data.active_instance@ }
    }

    pub closed spec fn wf(&self) -> bool {
        self.data.instances.wf()
    }

    pub closed spec fn spec_unsaved(&self) -> bool {
        self.unsaved
    }

    pub closed spec fn spec_path(&self) -> Seq<char> {
        self.path@
    }

    /// A well-formed store keeps its instances in ascending key order.
    pub proof fn lemma_wf_sorted(&self)
        requires
            self.wf(),
        ensures
            sorted_keys(self.view().instances),
    {
    }

    /// A store over state read from `path`.
    pub fn from_data(path: String, data: AppState) -> (s: Self)
        requires
            data.instances.wf(),
        ensures
            s.wf(),
            s.view() == (StateView {
                instances: data.instances.pairs(),
                active: data.active_instance@,
            }),
            s.spec_path() == path@,
            !s.spec_unsaved(),
    {
        StateStore { path, data, unsaved: false }
    }

    /// The file the state is kept in.
    pub fn path(&self) -> (p: &String)
        ensures
            p@ == self.spec_path(),
    {
        &self.path
    }

    /// The state.
    pub fn data(&self) -> (d: &AppState)
        ensures
            d.instances.pairs() == self.view().instances,
            d.active_instance@ == self.view().active,
    {
        &self.data
    }

    /// Whether a change was made since the state was read or last saved.
    pub fn needs_save(&self) -> (r: bool)
        ensures
            r == self.spec_unsaved(),
    {
        self.unsaved
    }

    /// Records that the state was written to its file.
    pub fn mark_saved(&mut self)
        ensures
            final(self).view() == old(self).view(),
            final(self).wf() == old(self).wf(),
            final(self).spec_path() == old(self).spec_path(),
            !final(self).spec_unsaved(),
    {
        self.unsaved = false;
    }

    /// The known instances, in key order.
    pub fn list_instances(&self) -> (r: Vec<&InstanceState>)
        ensures
            r@.len() == self.view().instances.len(),
            forall|i: int| 0 <= i < r@.len() ==> (#[trigger] r@[i])@ == self.view().instances[i].1,
    {
        let mut r: Vec<&InstanceState> = Vec::new();
        let mut i: usize = 0;
        while i < self.data.instances.len()
            invariant
                0 <= i <= self.view().instances.len(),
                r@.len() == i,
                forall|j: int| 0 <= j < i ==> (#[trigger] r@[j])@ == self.view().instances[j].1,
            decreases self.view().instances.len() - i,
        {
            r.push(self.data.instances.value_at(i));
            i = i + 1;
        }
        r
    }

    /// The position of the first instance serving `port`.
    fn find_port(&self, port: u16) -> (r: Option<usize>)
        ensures
            match r {
                Some(i) => i < self.view().instances.len() && first_match(
                    self.view().instances,
                    port_pred(port as nat),
                ) == Some(i as int),
                None => first_match(self.view().instances, port_pred(port as nat)) is None,
            },
    {
        let n = self.data.instances.len();
        let mut i: usize = 0;
        while i < n
            invariant
                n == self.view().instances.len(),
                0 <= i <= n,
                forall|j: int| 0 <= j < i ==> !port_pred(port as nat)(#[trigger] self.view().instances[j]),
            decreases n - i,
        {
            if self.data.instances.value_at(i).port == port {
                proof {
                    lemma_first_match_at(self.view().instances, port_pred(port as nat), i as int);
                }
                return Some(i);
            }
            i = i + 1;
        }
        proof {
            lemma_first_match_none(self.view().instances, port_pred(port as nat));
        }
        None
    }

    /// The position of the first instance whose project name is `id` in any ASCII case.
    fn find_project_name(&self, id: &str) -> (r: Option<usize>)
        ensures
            match r {
                Some(i) => i < self.view().instances.len() && first_match(
                    self.view().instances,
                    name_pred(id@),
                ) == Some(i as int),
                None => first_match(self.view().instances, name_pred(id@)) is None,
            },
    {
        let idc = chars_of(id);
        let lowered = lower_chars(&idc);
        let n = self.data.instances.len();
        let mut i: usize = 0;
        while i < n
            invariant
                n == self.view().instances.len(),
                lowered@ == lower(id@),
                0 <= i <= n,
                forall|j: int| 0 <= j < i ==> !name_pred(id@)(#[trigger] self.view().instances[j]),
            decreases n - i,
        {
            let pn = chars_of(&self.data.instances.value_at(i).project_name);
            let pl = lower_chars(&pn);
            if slice_eq(&pl, &lowered) {
                proof {
                    lemma_first_match_at(self.view().instances, name_pred(id@), i as int);
                }
                return Some(i);
            }
            i = i + 1;
        }
        proof {
            lemma_first_match_none(self.view().instances, name_pred(id@));
        }
        None
    }

    /// The position of the first online instance.
    fn first_online(&self) -> (r: Option<usize>)
        ensures
            match r {
                Some(i) => i < self.view().instances.len() && first_match(
                    self.view().instances,
                    online_pred(),
                ) == Some(i as int),
                None => first_match(self.view().instances, online_pred()) is None,
            },
    {
        let n = self.data.instances.len();
        let mut i: usize = 0;
        while i < n
            invariant
                n == self.view().instances.len(),
                0 <= i <= n,
                forall|j: int| 0 <= j < i ==> !online_pred()(#[trigger] self.view().instances[j]),
            decreases n - i,
        {
            if str_eq(&self.data.instances.value_at(i).status, "online") {
                proof {
                    lemma_first_match_at(self.view().instances, online_pred(), i as int);
                }
                return Some(i);
            }
            i = i + 1;
        }
        proof {
            lemma_first_match_none(self.view().instances, online_pred());
        }
        None
    }

    /// The key that `identifier` names: an instance key, a port, or a project name
    /// compared without ASCII case.
    pub fn resolve_instance_key(&self, identifier: &str) -> (r: Option<String>)
        requires
            self.wf(),
        ensures
            match r {
                Some(k) => spec_resolve(self.view(), identifier@) == Some(k@),
                None => spec_resolve(self.view(), identifier@) is None,
            },
    {
        if identifier.is_empty() {
            return None;
        }
        if self.data.instances.contains_key(identifier) {
            return Some(owned(identifier));
        }
        match parse_u16(identifier) {
            Some(port) => {
                match self.find_port(port) {
                    Some(i) => {
                        return Some(self.data.instances.key_at(i).clone());
                    },
                    None => {},
                }
            },
            None => {},
        }
        match self.find_project_name(identifier) {
            Some(i) => Some(self.data.instances.key_at(i).clone()),
            None => None,
        }
    }

    /// The position of the instance that `identifier` names.
    fn resolve_index(&self, identifier: &str) -> (r: Option<usize>)
        requires
            self.wf(),
        ensures
            match r {
                Some(i) => {
                    &&& i < self.view().instances.len()
                    &&& spec_resolve(self.view(), identifier@) == Some(
                        self.view().instances[i as int].0,
                    )
                    &&& spec_get_instance(self.view(), identifier@) == Some(
                        self.view().instances[i as int].1,
                    )
                },
                None => spec_get_instance(self.view(), identifier@) is None,
            },
    {
        match self.resolve_instance_key(identifier) {
            Some(k) => {
                let r = self.data.instances.index_of(&k);
                proof {
                    if r.is_none() {
                        lemma_lookup_none(self.view().instances, k@);
                    }
                }
                r
            },
            None => None,
        }
    }

    /// The instance that `identifier` names.
    pub fn get_instance(&self, identifier: &str) -> (r: Option<&InstanceState>)
        requires
            self.wf(),
        ensures
            match r {
                Some(i) => spec_get_instance(self.view(), identifier@) == Some(i@),
                None => spec_get_instance(self.view(), identifier@) is None,
            },
    {
        match self.resolve_index(identifier) {
            Some(i) => Some(self.data.instances.value_at(i)),
            None => None,
        }
    }

    /// The active instance: the recorded one when online, else the first online one,
    /// else the recorded one.
    pub fn get_active_instance(&self) -> (r: Option<&InstanceState>)
        requires
            self.wf(),
        ensures
            match r {
                Some(i) => spec_active_instance(self.view()) == Some(i@),
                None => spec_active_instance(self.view()) is None,
            },
    {
        let ghost sv = self.view();
        let recorded = self.data.instances.get(&self.data.active_instance);
        match recorded {
            Some(a) => {
                if str_eq(&a.status, "online") {
                    return Some(a);
                }
            },
            None => {},
        }
        match self.first_online() {
            Some(i) => {
                return Some(self.data.instances.value_at(i));
            },
            None => {},
        }
        recorded
    }

    /// Records an instance at time `now`: merged into an existing record with the same key,
    /// and made active when no online instance is active.
    pub fn upsert_instance_at(&mut self, instance: InstanceState, now: u64)
        requires
            old(self).wf(),
        ensures
            final(self).wf(),
            final(self).view() == spec_upsert(old(self).view(), instance@, now as nat),
            final(self).spec_unsaved(),
            final(self).spec_path() == old(self).spec_path(),
    {
        let ghost sv = self.view();
        let key = if instance.key.as_str().is_empty() {
            make_instance_key(&instance.project_name, &instance.endpoint_id, instance.port)
        } else {
            instance.key.clone()
        };
        let ghost inc = instance@;
        let merged = match self.data.instances.get(&key) {
            Some(existing) => merge_instance(existing.clone(), instance, &key, now),
            None => {
                let mut created = instance;
                created.key = key.clone();
                if created.last_seen.as_str().is_empty() {
                    created.last_seen = decimal_string(now);
                }
                assert(created@ == (InstanceView {
                    key: key@,
                    last_seen: if inc.last_seen.len() == 0 {
                        stamp(now as nat)
                    } else {
                        inc.last_seen
                    },
                    ..inc
                }));
                created
            },
        };
        let should_activate = self.data.active_instance.as_str().is_empty() || match self.data.instances.get(
            &self.data.active_instance,
        ) {
            Some(active) => !str_eq(&active.status, "online"),
            None => true,
        };
        let ghost kv = key@;
        if should_activate {
            self.data.active_instance = key.clone();
        }
        self.data.instances.insert(key, merged);
        self.unsaved = true;
        proof {
            crate::smap::lemma_sorted_insert(sv.instances, kv, merged@);
        }
    }

    /// Records an instance, stamped with the current time when it carries no timestamp.
    pub fn upsert_instance(&mut self, instance: InstanceState)
        requires
            old(self).wf(),
        ensures
            final(self).wf(),
            exists|now: u64| final(self).view() == spec_upsert(old(self).view(), instance@, now as nat),
            final(self).spec_unsaved(),
            final(self).spec_path() == old(self).spec_path(),
    {
        let now = current_epoch_secs();
        self.upsert_instance_at(instance, now);
    }

    /// Makes the instance that `key` names active; false when it names none.
    pub fn set_active_instance(&mut self, key: &str) -> (r: bool)
        requires
            old(self).wf(),
        ensures
            final(self).wf(),
            r == spec_resolve(old(self).view(), key@) is Some,
            r ==> final(self).view() == (StateView {
                active: spec_resolve(old(self).view(), key@)->0,
                ..old(self).view()
            }),
            !r ==> final(self).view() == old(self).view(),
            final(self).spec_unsaved() == (old(self).spec_unsaved() || r),
            final(self).spec_path() == old(self).spec_path(),
    {
        match self.resolve_instance_key(key) {
            Some(resolved) => {
                self.data.active_instance = resolved;
                self.unsaved = true;
                true
            },
            None => false,
        }
    }

    /// Replaces the instance at position `i`, whose key `identifier` resolves to.
    fn replace_at(&mut self, i: usize, v: InstanceState, Ghost(id): Ghost<Seq<char>>, Ghost(f): Ghost<spec_fn(InstanceView) -> InstanceView>)
        requires
            old(self).wf(),
            i < old(self).view().instances.len(),
            spec_resolve(old(self).view(), id) == Some(old(self).view().instances[i as int].0),
            v@ == f(old(self).view().instances[i as int].1),
        ensures
            final(self).wf(),
            final(self).view() == spec_modify(old(self).view(), id, f),
            final(self).spec_unsaved(),
            final(self).spec_path() == old(self).spec_path(),
    {
        let ghost p = self.view().instances;
        self.data.instances.set_value_at(i, v);
        self.unsaved = true;
        proof {
            lemma_update_value_at(p, i as int, f);
        }
    }

    /// Appends a note to the instance that `key` names, at time `now`.
    pub fn record_note_at(&mut self, key: &str, note: Note, now: u64)
        requires
            old(self).wf(),
        ensures
            final(self).wf(),
            final(self).view() == spec_modify(old(self).view(), key@, with_note(note@, now as nat)),
            final(self).spec_unsaved() == (old(self).spec_unsaved() || spec_resolve(
                old(self).view(),
                key@,
            ) is Some),
            final(self).spec_path() == old(self).spec_path(),
    {
        match self.resolve_index(key) {
            Some(i) => {
                let mut inst = self.data.instances.value_at(i).clone();
                let ghost before = inst@;
                inst.notes.push(note);
                inst.last_seen = decimal_string(now);
                assert(inst@.notes =~= before.notes.push(note@));
                self.replace_at(i, inst, Ghost(key@), Ghost(with_note(note@, now as nat)));
            },
            None => {
                proof {
                    lemma_resolve_found(self.view(), key@);
                }
            },
        }
    }

    /// Appends a note to the instance that `key` names, stamped with the current time.
    pub fn record_note(&mut self, key: &str, note: Note)
        requires
            old(self).wf(),
        ensures
            final(self).wf(),
            exists|now: u64|
                final(self).view() == spec_modify(
                    old(self).view(),
                    key@,
                    with_note(note@, now as nat),
                ),
            final(self).spec_unsaved() == (old(self).spec_unsaved() || spec_resolve(
                old(self).view(),
                key@,
            ) is Some),
            final(self).spec_path() == old(self).spec_path(),
    {
        let now = current_epoch_secs();
        self.record_note_at(key, note, now);
    }

    /// Appends a tool call to the history of the instance that `key` names, at time `now`.
    pub fn record_call_at(&mut self, key: &str, record: ToolCallRecord, now: u64)
        requires
            old(self).wf(),
        ensures
            final(self).wf(),
            final(self).view() == spec_modify(
                old(self).view(),
                key@,
                with_call(record@, now as nat),
            ),
            final(self).spec_unsaved() == (old(self).spec_unsaved() || spec_resolve(
                old(self).view(),
                key@,
            ) is Some),
            final(self).spec_path() == old(self).spec_path(),
    {
        match self.resolve_index(key) {
            Some(i) => {
                let mut inst = self.data.instances.value_at(i).clone();
                let ghost before = inst@;
                inst.call_history.push(record);
                inst.last_seen = decimal_string(now);
                assert(inst@.call_history =~= before.call_history.push(record@));
                self.replace_at(i, inst, Ghost(key@), Ghost(with_call(record@, now as nat)));
            },
            None => {
                proof {
                    lemma_resolve_found(self.view(), key@);
                }
            },
        }
    }

    /// Appends a tool call to the history of the instance that `key` names.
    pub fn record_call(&mut self, key: &str, record: ToolCallRecord)
        requires
            old(self).wf(),
        ensures
            final(self).wf(),
            exists|now: u64|
                final(self).view() == spec_modify(
                    old(self).view(),
                    key@,
                    with_call(record@, now as nat),
                ),
            final(self).spec_unsaved() == (old(self).spec_unsaved() || spec_resolve(
                old(self).view(),
                key@,
            ) is Some),
            final(self).spec_path() == old(self).spec_path(),
    {
        let now = current_epoch_secs();
        self.record_call_at(key, record, now);
    }

    /// The last `max(limit, 1)` tool calls of the instance that `key` names.
    pub fn get_call_history(&self, key: &str, limit: usize) -> (r: Vec<ToolCallRecord>)
        requires
            self.wf(),
        ensures
            r@.map_values(|c: ToolCallRecord| c@) == match spec_get_instance(self.view(), key@) {
                Some(i) => recent_calls(i.call_history, limit as nat),
                None => Seq::empty(),
            },
    {
        match self.get_instance(key) {
            Some(instance) => {
                let keep: usize = if limit == 0 {
                    1
                } else {
                    limit
                };
                let len = instance.call_history.len();
                let start: usize = if len > keep {
                    len - keep
                } else {
                    0
                };
                let mut r: Vec<ToolCallRecord> = Vec::new();
                let mut i = start;
                while i < len
                    invariant
                        start <= i <= len,
                        len == instance.call_history@.len(),
                        r@.len() == i - start,
                        forall|j: int|
                            0 <= j < i - start ==> (#[trigger] r@[j])@
                                == instance.call_history@[start + j]@,
                    decreases len - i,
                {
                    r.push(instance.call_history[i].clone());
                    i = i + 1;
                }
                assert(r@.map_values(|c: ToolCallRecord| c@) =~= instance@.call_history.subrange(
                    start as int,
                    len as int,
                ));
                assert(instance@.call_history.subrange(start as int, len as int)
                    =~= recent_calls(instance@.call_history, limit as nat));
                r
            },
            None => {
                let r: Vec<ToolCallRecord> = Vec::new();
                assert(r@.map_values(|c: ToolCallRecord| c@) =~= Seq::<ToolCallRecordView>::empty());
                r
            },
        }
    }

    /// Sets the status of the instance that `identifier` names, at time `now`; its pid too
    /// when `pid` is given.
    pub fn update_instance_status_at(
        &mut self,
        identifier: &str,
        status: &str,
        pid: Option<u32>,
        now: u64,
    )
        requires
            old(self).wf(),
        ensures
            final(self).wf(),
            final(self).view() == spec_modify(
                old(self).view(),
                identifier@,
                with_status(status@, pid, now as nat),
            ),
            final(self).spec_unsaved() == (old(self).spec_unsaved() || spec_resolve(
                old(self).view(),
                identifier@,
            ) is Some),
            final(self).spec_path() == old(self).spec_path(),
    {
        match self.resolve_index(identifier) {
            Some(i) => {
                let mut inst = self.data.instances.value_at(i).clone();
                inst.status = owned(status);
                inst.last_seen = decimal_string(now);
                if pid.is_some() {
                    inst.pid = pid;
                }
                self.replace_at(
                    i,
                    inst,
                    Ghost(identifier@),
                    Ghost(with_status(status@, pid, now as nat)),
                );
            },
            None => {
                proof {
                    lemma_resolve_found(self.view(), identifier@);
                }
            },
        }
    }

    /// Sets the status of the instance that `identifier` names.
    pub fn update_instance_status(&mut self, identifier: &str, status: &str, pid: Option<u32>)
        requires
            old(self).wf(),
        ensures
            final(self).wf(),
            exists|now: u64|
                final(self).view() == spec_modify(
                    old(self).view(),
                    identifier@,
                    with_status(status@, pid, now as nat),
                ),
            final(self).spec_unsaved() == (old(self).spec_unsaved() || spec_resolve(
                old(self).view(),
                identifier@,
            ) is Some),
            final(self).spec_path() == old(self).spec_path(),
    {
        let now = current_epoch_secs();
        self.update_instance_status_at(identifier, status, pid, now);
    }

    /// Marks the instance that `identifier` names as crashed, at time `now`, counting the crash.
    pub fn mark_crashed_at(&mut self, identifier: &str, now: u64)
        requires
            old(self).wf(),
        ensures
            final(self).wf(),
            final(self).view() == spec_modify(old(self).view(), identifier@, crashed(now as nat)),
            final(self).spec_unsaved() == (old(self).spec_unsaved() || spec_resolve(
                old(self).view(),
                identifier@,
            ) is Some),
            final(self).spec_path() == old(self).spec_path(),
    {
        match self.resolve_index(identifier) {
            Some(i) => {
                let mut inst = self.data.instances.value_at(i).clone();
                inst.status = owned("crashed");
                inst.crash_count = inst.crash_count.saturating_add(1);
                inst.last_seen = decimal_string(now);
                self.replace_at(i, inst, Ghost(identifier@), Ghost(crashed(now as nat)));
            },
            None => {
                proof {
                    lemma_resolve_found(self.view(), identifier@);
                }
            },
        }
    }

    /// Marks the instance that `identifier` names as crashed.
    pub fn mark_crashed(&mut self, identifier: &str)
        requires
            old(self).wf(),
        ensures
            final(self).wf(),
            exists|now: u64|
                final(self).view() == spec_modify(old(self).view(), identifier@, crashed(now as nat)),
            final(self).spec_unsaved() == (old(self).spec_unsaved() || spec_resolve(
                old(self).view(),
                identifier@,
            ) is Some),
            final(self).spec_path() == old(self).spec_path(),
    {
        let now = current_epoch_secs();
        self.mark_crashed_at(identifier, now);
    }

    /// Drops instances that are neither online nor starting and were last seen more than
    /// `max_age_secs` seconds before `now`; hands back their keys in key order.
    pub fn cleanup_at(&mut self, max_age_secs: u64, now: u64) -> (removed: Vec<String>)
        requires
            old(self).wf(),
        ensures
            final(self).wf(),
            removed@.map_values(|k: String| k@) == spec_cleanup_removed(
                old(self).view(),
                max_age_secs as nat,
                now as nat,
            ),
            final(self).view() == spec_cleanup(old(self).view(), max_age_secs as nat, now as nat),
            final(self).spec_unsaved() == (old(self).spec_unsaved() || removed@.len() > 0),
            final(self).spec_path() == old(self).spec_path(),
    {
        let ghost sv = self.view();
        let ghost p = sv.instances;
        let ghost keep = cleanup_keep(max_age_secs as nat, now as nat);
        let ghost drop = cleanup_drop(max_age_secs as nat, now as nat);
        let mut removed: Vec<String> = Vec::new();
        let mut i: usize = 0;
        let mut j: usize = 0;
        let n = self.data.instances.len();
        assert(p.take(0) =~= Seq::<(Seq<char>, InstanceView)>::empty());
        assert(retain(p.take(0), keep) + p.skip(0) =~= p);
        while j < n
            invariant
                n == p.len(),
                0 <= j <= n,
                self.wf(),
                keep == cleanup_keep(max_age_secs as nat, now as nat),
                drop == cleanup_drop(max_age_secs as nat, now as nat),
                self.data.active_instance@ == sv.active,
                self.view().instances == retain(p.take(j as int), keep) + p.skip(j as int),
                i == retain(p.take(j as int), keep).len(),
                removed@.map_values(|k: String| k@) == retain(p.take(j as int), drop).map_values(
                    |e: (Seq<char>, InstanceView)| e.0,
                ),
                self.path@ == old(self).path@,
                self.unsaved == old(self).unsaved,
            decreases n - j,
        {
            let cur = self.data.instances.len();
            proof {
                lemma_retain_take(p, keep, j as int);
                lemma_retain_take(p, drop, j as int);
                assert(self.view().instances[i as int] == p[j as int]);
                assert(i < cur);
            }
            let keep_it = cleanup_keeps(self.data.instances.value_at(i), max_age_secs, now);
            if keep_it {
                i = i + 1;
                proof {
                    assert(self.view().instances =~= retain(p.take(j + 1), keep) + p.skip(j + 1));
                    assert(removed@.map_values(|k: String| k@) =~= retain(p.take(j + 1), drop).map_values(
                        |e: (Seq<char>, InstanceView)| e.0,
                    ));
                }
            } else {
                let ghost before = removed@.map_values(|k: String| k@);
                let (k, _v) = self.data.instances.remove_at(i);
                removed.push(k);
                proof {
                    assert(self.view().instances =~= retain(p.take(j + 1), keep) + p.skip(j + 1));
                    assert(removed@.map_values(|k: String| k@) =~= before.push(p[j as int].0));
                    assert(retain(p.take(j + 1), drop).map_values(
                        |e: (Seq<char>, InstanceView)| e.0,
                    ) =~= retain(p.take(j as int), drop).map_values(
                        |e: (Seq<char>, InstanceView)| e.0,
                    ).push(p[j as int].0));
                }
            }
            j = j + 1;
        }
        assert(p.take(n as int) =~= p);
        assert(self.view().instances =~= retain(p, keep));
        let ghost rest = self.view().instances;
        let mut removed_active = false;
        let mut m: usize = 0;
        while m < removed.len()
            invariant
                0 <= m <= removed@.len(),
                removed_active == exists|q: int| 0 <= q < m && #[trigger] removed@[q]@ == sv.active,
                self.data.active_instance@ == sv.active,
            decreases removed@.len() - m,
        {
            if str_eq(&removed[m], &self.data.active_instance) {
                removed_active = true;
            }
            m = m + 1;
        }
        let ghost rk = removed@.map_values(|k: String| k@);
        assert(removed_active == rk.contains(sv.active)) by {
            if removed_active {
                let q = choose|q: int| 0 <= q < m && #[trigger] removed@[q]@ == sv.active;
                assert(rk[q] == sv.active);
            }
            if rk.contains(sv.active) {
                let q = choose|q: int| 0 <= q < rk.len() && rk[q] == sv.active;
                assert(removed@[q]@ == sv.active);
            }
        }
        if removed_active {
            let cnt = self.data.instances.len();
            let next = match self.first_online() {
                Some(q) => self.data.instances.key_at(q).clone(),
                None => {
                    if cnt > 0 {
                        self.data.instances.key_at(0).clone()
                    } else {
                        String::new()
                    }
                },
            };
            self.data.active_instance = next;
        }
        if removed.len() > 0 {
            self.unsaved = true;
        }
        proof {
            lemma_retain_sorted(p, keep);
        }
        removed
    }

    /// Drops stale instances, measured against the current time.
    pub fn cleanup(&mut self, max_age_secs: u64) -> (removed: Vec<String>)
        requires
            old(self).wf(),
        ensures
            final(self).wf(),
            exists|now: u64|
                removed@.map_values(|k: String| k@) == spec_cleanup_removed(
                    old(self).view(),
                    max_age_secs as nat,
                    now as nat,
                ) && final(self).view() == spec_cleanup(
                    old(self).view(),
                    max_age_secs as nat,
                    now as nat,
                ),
            final(self).spec_unsaved() == (old(self).spec_unsaved() || removed@.len() > 0),
            final(self).spec_path() == old(self).spec_path(),
    {
        let now = current_epoch_secs();
        self.cleanup_at(max_age_secs, now)
    }
}

/// A resolved key names an instance of the map.
pub proof fn lemma_resolve_in_map(sv: StateView, id: Seq<char>)
    requires
        spec_resolve(sv, id) is Some,
    ensures
        has_key(sv.instances, spec_resolve(sv, id)->0),
{
    if id.len() > 0 && !has_key(sv.instances, id) {
        let by_port = match parse_unsigned(id, 65535) {
            Some(p) => first_match(sv.instances, port_pred(p)),
            None => None,
        };
        if by_port is Some {
            let p = parse_unsigned(id, 65535)->0;
            crate::smap::lemma_first_match_some(sv.instances, port_pred(p));
            let i = by_port->0;
            assert(sv.instances[i].0 == spec_resolve(sv, id)->0);
        } else {
            let g = name_pred(id);
            crate::smap::lemma_first_match_some(sv.instances, g);
            let i = first_match(sv.instances, g)->0;
            assert(sv.instances[i].0 == spec_resolve(sv, id)->0);
        }
    }
}

/// A key that an identifier resolves to names a stored instance.
pub proof fn lemma_resolve_found(sv: StateView, id: Seq<char>)
    requires
        sorted_keys(sv.instances),
    ensures
        spec_resolve(sv, id) is Some <==> spec_get_instance(sv, id) is Some,
{
    if spec_resolve(sv, id) is Some {
        let k = spec_resolve(sv, id)->0;
        lemma_resolve_in_map(sv, id);
        let i = choose|i: int| 0 <= i < sv.instances.len() && #[trigger] sv.instances[i].0 == k;
        lemma_lookup_index(sv.instances, k, i);
    }
}

/// Whether `cleanup` keeps `instance`.
fn cleanup_keeps(instance: &InstanceState, max_age_secs: u64, now: u64) -> (r: bool)
    ensures
        r == kept_by_cleanup(instance@, max_age_secs as nat, now as nat),
{
    if str_eq(&instance.status, "online") || str_eq(&instance.status, "starting") {
        return true;
    }
    match parse_u64(&instance.last_seen) {
        None => true,
        Some(seen) => {
            let age = if now >= seen {
                now - seen
            } else {
                0
            };
            age <= max_age_secs
        },
    }
}

/// `merge_instance`: the incoming record under `key`, completed from the existing one.
fn merge_instance(existing: InstanceState, incoming: InstanceState, key: &str, now: u64) -> (r:
    InstanceState)
    ensures
        r@ == spec_merge(existing@, incoming@, key@, now as nat),
{
    let mut incoming = incoming;
    let ghost inc = incoming@;
    incoming.key = owned(key);
    if incoming.project_name.as_str().is_empty() {
        incoming.project_name = existing.project_name;
    }
    if incoming.project_path.as_str().is_empty() {
        incoming.project_path = existing.project_path;
    }
    if incoming.engine_root.as_str().is_empty() {
        incoming.engine_root = existing.engine_root;
    }
    if incoming.host.as_str().is_empty() {
        incoming.host = existing.host;
    }
    if incoming.url.as_str().is_empty() {
        incoming.url = existing.url;
    }
    if incoming.pid.is_none() {
        incoming.pid = existing.pid;
    }
    if incoming.last_seen.as_str().is_empty() {
        incoming.last_seen = decimal_string(now);
    }
    if incoming.notes.len() == 0 {
        incoming.notes = existing.notes;
    }
    if incoming.call_history.len() == 0 {
        incoming.call_history = existing.call_history;
    }
    if existing.crash_count > incoming.crash_count {
        incoming.crash_count = existing.crash_count;
    }
    incoming
}


/// The state file in the hub's directory `base`.
pub fn state_path_in(base: &str) -> (r: String)
    ensures
        r@ == crate::paths::path_join(base@, "state.json"@),
{
    crate::paths::join(base, "state.json")
}

/// The state file: `state.json` in the hub's directory.
pub fn state_path() -> (r: String)
    ensures
        exists|h: Seq<char>|
            r@ == crate::paths::path_join(
                crate::paths::path_join(h, ".unreal-mcphub"@),
                "state.json"@,
            ),
{
    let b = crate::config::base_dir();
    state_path_in(b.as_str())
}

} // verus!
