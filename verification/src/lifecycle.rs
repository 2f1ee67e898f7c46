//! The decisions of the editor's lifecycle: which project and target a launch serves, what
//! a launch, a probe, a discovery round or a stop records, and the notes they report.
use vstd::prelude::*;

use crate::config::{
    opt_view, spec_active_endpoint, strings_view, ConfigStore, ConfigView, EndpointView,
    ProjectEntry, ProjectMcpEndpoint, ProjectView,
};
use crate::orchestrator::{
    project_endpoint_url, spec_endpoint_url, spec_instance_for_endpoint, spec_set_active,
    preferred_active_instance_for_endpoint, HubError,
};
use crate::paths::{
    file_name, join, path_file_name, path_join, resolve_project_paths, PathsError,
    UnrealProjectPaths,
};
use crate::smap::{lookup, sorted_insert, SortedMap};
use crate::state::{
    current_epoch_secs, make_instance_key, spec_active_instance, spec_get_instance,
    spec_instance_key, spec_modify, spec_upsert, stamp, with_status, InstanceState, InstanceView,
    StateStore, StateView,
};
use crate::text::{
    chars_of, decimal, decimal_string, owned, push_decimal, push_str, str_eq, string_from_chars,
    trim, trim_str,
};
use crate::ue_client::EndpointHealth;

verus! {

broadcast use vstd::string::group_string_axioms;

// ---------------------------------------------------------------------------
// The active project and target
// ---------------------------------------------------------------------------

/// The active project's entry.
pub fn active_project_entry(config: &ConfigStore) -> (r: Result<ProjectEntry, HubError>)
    requires
        config.wf(),
    ensures
        match r {
            Ok(p) => lookup(config.view().projects, config.view().active_project) == Some(p@),
            Err(e) => lookup(config.view().projects, config.view().active_project) is None && e
                == HubError::NoActiveProject,
        },
{
    match config.get_active_project() {
        Some(p) => Ok(p.clone()),
        None => Err(HubError::NoActiveProject),
    }
}

/// A project's active MCP target.
pub fn active_project_endpoint(project: &ProjectEntry) -> (r: Result<ProjectMcpEndpoint, HubError>)
    ensures
        match r {
            Ok(e) => spec_active_endpoint(project@) == Some(e@),
            Err(e) => spec_active_endpoint(project@) is None && e == HubError::NoActiveEndpoint,
        },
{
    match project.get_active_endpoint() {
        Some(e) => Ok(e.clone()),
        None => Err(HubError::NoActiveEndpoint),
    }
}

/// The paths of the active project, with the engine root it was saved with;
/// `engine_association` is what its `.uproject` file names.
pub fn active_project_paths(config: &ConfigStore, engine_association: String) -> (r: Result<
    UnrealProjectPaths,
    HubError,
>)
    requires
        config.wf(),
    ensures
        ({
            let c = config.view();
            match lookup(c.projects, c.active_project) {
                None => r == Err::<UnrealProjectPaths, HubError>(HubError::NoActiveProject),
                Some(p) => match r {
                    Ok(paths) => {
                        &&& crate::paths::path_parent(p.uproject_path) == Some(paths.project_dir@)
                        &&& crate::paths::path_file_stem(p.uproject_path) == Some(
                            paths.project_name@,
                        )
                        &&& paths.uproject_path@ == p.uproject_path
                        &&& paths.engine_association@ == engine_association@
                        &&& paths.engine_root@ == p.engine_root
                        &&& paths.editor_exe@ == crate::paths::join_all(
                            p.engine_root,
                            crate::paths::editor_exe_parts(),
                        )
                        &&& paths.build_bat@ == crate::paths::join_all(
                            p.engine_root,
                            crate::paths::build_bat_parts(),
                        )
                    },
                    Err(e) => match e {
                        HubError::Paths(pe) => {
                            ||| crate::paths::path_parent(p.uproject_path) is None && pe
                                == PathsError::NoParentDirectory
                            ||| crate::paths::path_parent(p.uproject_path) is Some
                                && crate::paths::path_file_stem(p.uproject_path) is None && pe
                                == PathsError::InvalidFileName
                        },
                        _ => false,
                    },
                },
            }
        }),
{
    let project = match active_project_entry(config) {
        Ok(p) => p,
        Err(e) => {
            return Err(e);
        },
    };
    match resolve_project_paths(
        project.uproject_path.as_str(),
        engine_association,
        Some(project.engine_root.clone()),
    ) {
        Ok(paths) => Ok(paths),
        Err(e) => Err(HubError::Paths(e)),
    }
}

// ---------------------------------------------------------------------------
// Notes
// ---------------------------------------------------------------------------

pub open spec fn manual_start_tail() -> Seq<char> {
    "' is configured with auto_start=false. UnrealMCPHub can launch the editor, but the embedded endpoint may stay offline until the Unreal plugin starts it. Enable UnrealCopilot auto-start in project settings or start the MCP server manually inside the editor."@
}

/// The note for a target that its plugin does not start by itself.
pub open spec fn spec_manual_start_note(project: Seq<char>, e: EndpointView) -> Option<Seq<char>> {
    if e.auto_start {
        None
    } else {
        Some("Active MCP '"@ + e.endpoint_id + "' for project '"@ + project + manual_start_tail())
    }
}

pub open spec fn timeout_tail() -> Seq<char> {
    ". If the editor is running but the endpoint is still offline, confirm the plugin is enabled and the MCP server is started for this project."@
}

/// The note for a target that stayed unhealthy for the whole wait.
pub open spec fn spec_timeout_note(e: EndpointView, wait: u64) -> Seq<char> {
    "Timed out waiting up to "@ + decimal(wait as nat) + "s for '"@ + e.endpoint_id + "' at "@
        + spec_endpoint_url(e) + timeout_tail()
}

/// The notes of a launch: the manual-start note, then the timeout note when the wait was
/// positive and the target did not become healthy.
pub open spec fn spec_launch_notes(project: Seq<char>, e: EndpointView, wait: u64, healthy: bool) -> Seq<
    Seq<char>,
> {
    (match spec_manual_start_note(project, e) {
        Some(n) => seq![n],
        None => Seq::empty(),
    }) + (if wait > 0 && !healthy {
        seq![spec_timeout_note(e, wait)]
    } else {
        Seq::empty()
    })
}

/// The note telling that the target's plugin does not start its MCP server by itself.
pub fn endpoint_manual_start_note(project_name: &str, endpoint: &ProjectMcpEndpoint) -> (r: Option<
    String,
>)
    ensures
        opt_view(r) == spec_manual_start_note(project_name@, endpoint@),
{
    if endpoint.auto_start {
        None
    } else {
        let mut v = chars_of("Active MCP '");
        push_str(&mut v, endpoint.endpoint_id.as_str());
        push_str(&mut v, "' for project '");
        push_str(&mut v, project_name);
        push_str(
            &mut v,
            "' is configured with auto_start=false. UnrealMCPHub can launch the editor, but the embedded endpoint may stay offline until the Unreal plugin starts it. Enable UnrealCopilot auto-start in project settings or start the MCP server manually inside the editor.",
        );
        Some(string_from_chars(&v))
    }
}

/// The notes a launch reports about its target.
pub fn launch_endpoint_notes(
    project_name: &str,
    endpoint: &ProjectMcpEndpoint,
    wait_seconds: u64,
    endpoint_became_healthy: bool,
) -> (r: Vec<String>)
    ensures
        strings_view(r@) == spec_launch_notes(
            project_name@,
            endpoint@,
            wait_seconds,
            endpoint_became_healthy,
        ),
{
    let mut notes: Vec<String> = Vec::new();
    match endpoint_manual_start_note(project_name, endpoint) {
        Some(n) => notes.push(n),
        None => {},
    }
    let ghost first = strings_view(notes@);
    if wait_seconds > 0 && !endpoint_became_healthy {
        let mut v = chars_of("Timed out waiting up to ");
        push_decimal(&mut v, wait_seconds);
        push_str(&mut v, "s for '");
        push_str(&mut v, endpoint.endpoint_id.as_str());
        push_str(&mut v, "' at ");
        let url = project_endpoint_url(endpoint);
        push_str(&mut v, url.as_str());
        push_str(
            &mut v,
            ". If the editor is running but the endpoint is still offline, confirm the plugin is enabled and the MCP server is started for this project.",
        );
        notes.push(string_from_chars(&v));
        assert(strings_view(notes@) =~= first.push(spec_timeout_note(endpoint@, wait_seconds)));
    }
    assert(strings_view(notes@) =~= spec_launch_notes(
        project_name@,
        endpoint@,
        wait_seconds,
        endpoint_became_healthy,
    ));
    notes
}

// ---------------------------------------------------------------------------
// Launching
// ---------------------------------------------------------------------------

/// The outcome of a launch.
pub struct LaunchResult {
    pub project_name: String,
    pub pid: u32,
    pub reused_existing: bool,
    pub endpoint_url: String,
    pub stdout_log: String,
    pub stderr_log: String,
    pub health: Option<EndpointHealth>,
    pub notes: Vec<String>,
}

/// The directory for the editor's logs and the two log files of a launch at `stamp`.
pub fn launch_log_paths(project_dir: &str, stamp: u64) -> (r: (String, String, String))
    ensures
        r.0@ == path_join(path_join(project_dir@, "Saved"@), "Logs"@),
        r.1@ == path_join(r.0@, "orchestrator-stdout-"@ + decimal(stamp as nat) + ".log"@),
        r.2@ == path_join(r.0@, "orchestrator-stderr-"@ + decimal(stamp as nat) + ".log"@),
{
    let saved = join(project_dir, "Saved");
    let logs = join(saved.as_str(), "Logs");
    let mut a = chars_of("orchestrator-stdout-");
    push_decimal(&mut a, stamp);
    push_str(&mut a, ".log");
    let an = string_from_chars(&a);
    let mut b = chars_of("orchestrator-stderr-");
    push_decimal(&mut b, stamp);
    push_str(&mut b, ".log");
    let bn = string_from_chars(&b);
    let out = join(logs.as_str(), an.as_str());
    let err = join(logs.as_str(), bn.as_str());
    (logs, out, err)
}

/// The arguments the editor is started with.
pub fn editor_launch_args(uproject_path: &str) -> (r: Vec<String>)
    ensures
        strings_view(r@) == seq![
            uproject_path@,
            "-stdout"@,
            "-FullStdOutLogOutput"@,
            "-NoSplash"@,
        ],
{
    let mut r: Vec<String> = Vec::new();
    r.push(owned(uproject_path));
    r.push(owned("-stdout"));
    r.push(owned("-FullStdOutLogOutput"));
    r.push(owned("-NoSplash"));
    assert(strings_view(r@) =~= seq![
        uproject_path@,
        "-stdout"@,
        "-FullStdOutLogOutput"@,
        "-NoSplash"@,
    ]);
    r
}

/// `online` when the target answered, else `starting`.
pub open spec fn launch_status(healthy: bool) -> Seq<char> {
    if healthy {
        "online"@
    } else {
        "starting"@
    }
}

/// The record of an editor launched (or reused) with pid `pid` for a project's target.
pub open spec fn spec_launched_instance(
    project_name: Seq<char>,
    uproject_path: Seq<char>,
    engine_root: Seq<char>,
    e: EndpointView,
    pid: u32,
    healthy: bool,
    now: nat,
) -> InstanceView {
    InstanceView {
        key: spec_instance_key(project_name, e.endpoint_id, e.port),
        project_name: project_name,
        endpoint_id: e.endpoint_id,
        project_path: uproject_path,
        engine_root: engine_root,
        host: e.host,
        port: e.port,
        url: spec_endpoint_url(e),
        pid: Some(pid),
        status: launch_status(healthy),
        last_seen: stamp(now),
        crash_count: 0,
        notes: Seq::empty(),
        call_history: Seq::empty(),
    }
}

/// The state after a launch: the record is stored, a reused editor's status and pid are set
/// again, and the record becomes active.
pub open spec fn spec_after_launch(
    sv: StateView,
    inst: InstanceView,
    reused: bool,
    now: nat,
) -> StateView {
    let s1 = spec_upsert(sv, inst, now);
    let s2 = if reused {
        spec_modify(s1, inst.key, with_status(inst.status, inst.pid, now))
    } else {
        s1
    };
    spec_set_active(s2, inst.key)
}

pub open spec fn reused_note(project: Seq<char>, pid: u32) -> Seq<char> {
    "Reused existing Unreal Editor process for '"@ + project + "' (pid "@ + decimal(pid as nat)
        + ")."@
}

/// Records, at time `now`, an editor with pid `pid` serving the project's target (started
/// now, or `reused` when it was already running), and reports the launch. `health` is what
/// the wait for the target gave.
pub fn complete_launch_at(
    state: &mut StateStore,
    paths: &UnrealProjectPaths,
    endpoint: &ProjectMcpEndpoint,
    pid: u32,
    reused: bool,
    wait_seconds: u64,
    health: Option<EndpointHealth>,
    stdout_log: String,
    stderr_log: String,
    now: u64,
) -> (r: LaunchResult)
    requires
        old(state).wf(),
    ensures
        old(state).spec_unsaved() ==> final(state).spec_unsaved(),
        final(state).view() != old(state).view() ==> final(state).spec_unsaved(),
        final(state).wf(),
        final(state).spec_path() == old(state).spec_path(),
        final(state).view() == spec_after_launch(
            old(state).view(),
            spec_launched_instance(
                paths.project_name@,
                paths.uproject_path@,
                paths.engine_root@,
                endpoint@,
                pid,
                health is Some,
                now as nat,
            ),
            reused,
            now as nat,
        ),
        r.project_name@ == paths.project_name@,
        r.pid == pid,
        r.reused_existing == reused,
        r.endpoint_url@ == spec_endpoint_url(endpoint@),
        r.stdout_log@ == (if reused {
            Seq::empty()
        } else {
            stdout_log@
        }),
        r.stderr_log@ == (if reused {
            Seq::empty()
        } else {
            stderr_log@
        }),
        r.health == health,
        strings_view(r.notes@) == (if reused {
            seq![reused_note(paths.project_name@, pid)]
        } else {
            Seq::empty()
        }) + spec_launch_notes(paths.project_name@, endpoint@, wait_seconds, health is Some),
{
    let healthy = health.is_some();
    let url = project_endpoint_url(endpoint);
    let key = make_instance_key(
        paths.project_name.as_str(),
        endpoint.endpoint_id.as_str(),
        endpoint.port,
    );
    let status = if healthy {
        owned("online")
    } else {
        owned("starting")
    };
    let inst = InstanceState {
        key: key.clone(),
        project_name: paths.project_name.clone(),
        endpoint_id: endpoint.endpoint_id.clone(),
        project_path: paths.uproject_path.clone(),
        engine_root: paths.engine_root.clone(),
        host: endpoint.host.clone(),
        port: endpoint.port,
        url: url.clone(),
        pid: Some(pid),
        status: status.clone(),
        last_seen: decimal_string(now),
        crash_count: 0,
        notes: Vec::new(),
        call_history: Vec::new(),
    };
    let ghost iv = inst@;
    assert(iv.notes =~= Seq::empty());
    assert(iv.call_history =~= Seq::empty());
    assert(iv == spec_launched_instance(
        paths.project_name@,
        paths.uproject_path@,
        paths.engine_root@,
        endpoint@,
        pid,
        healthy,
        now as nat,
    ));
    state.upsert_instance_at(inst, now);
    if reused {
        state.update_instance_status_at(key.as_str(), status.as_str(), Some(pid), now);
    }
    let _ = state.set_active_instance(key.as_str());
    let launch_notes = launch_endpoint_notes(
        paths.project_name.as_str(),
        endpoint,
        wait_seconds,
        healthy,
    );
    let mut notes: Vec<String> = Vec::new();
    if reused {
        let mut v = chars_of("Reused existing Unreal Editor process for '");
        push_str(&mut v, paths.project_name.as_str());
        push_str(&mut v, "' (pid ");
        push_decimal(&mut v, pid as u64);
        push_str(&mut v, ").");
        notes.push(string_from_chars(&v));
    }
    let ghost head = strings_view(notes@);
    let mut i: usize = 0;
    while i < launch_notes.len()
        invariant
            0 <= i <= launch_notes@.len(),
            strings_view(notes@) == head + strings_view(launch_notes@).take(i as int),
        decreases launch_notes@.len() - i,
    {
        let c = launch_notes[i].clone();
        let ghost before = strings_view(notes@);
        notes.push(c);
        assert(strings_view(notes@) =~= before.push(launch_notes@[i as int]@));
        assert(strings_view(launch_notes@).take(i + 1) =~= strings_view(launch_notes@).take(
            i as int,
        ).push(launch_notes@[i as int]@));
        i = i + 1;
    }
    assert(strings_view(launch_notes@).take(launch_notes@.len() as int) =~= strings_view(
        launch_notes@,
    ));
    assert(head =~= (if reused {
        seq![reused_note(paths.project_name@, pid)]
    } else {
        Seq::empty()
    }));
    LaunchResult {
        project_name: paths.project_name.clone(),
        pid,
        reused_existing: reused,
        endpoint_url: url,
        stdout_log: if reused {
            String::new()
        } else {
            stdout_log
        },
        stderr_log: if reused {
            String::new()
        } else {
            stderr_log
        },
        health,
        notes,
    }
}

/// `complete_launch_at` at the current time.
pub fn complete_launch(
    state: &mut StateStore,
    paths: &UnrealProjectPaths,
    endpoint: &ProjectMcpEndpoint,
    pid: u32,
    reused: bool,
    wait_seconds: u64,
    health: Option<EndpointHealth>,
    stdout_log: String,
    stderr_log: String,
) -> (r: LaunchResult)
    requires
        old(state).wf(),
    ensures
        old(state).spec_unsaved() ==> final(state).spec_unsaved(),
        final(state).view() != old(state).view() ==> final(state).spec_unsaved(),
        final(state).wf(),
        final(state).spec_path() == old(state).spec_path(),
        exists|now: u64|
            final(state).view() == #[trigger] spec_after_launch(
                old(state).view(),
                spec_launched_instance(
                    paths.project_name@,
                    paths.uproject_path@,
                    paths.engine_root@,
                    endpoint@,
                    pid,
                    health is Some,
                    now as nat,
                ),
                reused,
                now as nat,
            ),
        r.project_name@ == paths.project_name@,
        r.pid == pid,
        r.reused_existing == reused,
        r.endpoint_url@ == spec_endpoint_url(endpoint@),
        r.stdout_log@ == (if reused {
            Seq::<char>::empty()
        } else {
            stdout_log@
        }),
        r.stderr_log@ == (if reused {
            Seq::<char>::empty()
        } else {
            stderr_log@
        }),
        r.health == health,
        strings_view(r.notes@) == (if reused {
            seq![reused_note(paths.project_name@, pid)]
        } else {
            Seq::empty()
        }) + spec_launch_notes(paths.project_name@, endpoint@, wait_seconds, health is Some),
{
    let now = current_epoch_secs();
    complete_launch_at(
        state,
        paths,
        endpoint,
        pid,
        reused,
        wait_seconds,
        health,
        stdout_log,
        stderr_log,
        now,
    )
}

/// The recorded instance of the project's target that a launch may reuse: the first one
/// of that target, when it has the target's port and host.
pub open spec fn spec_reuse_candidate(sv: StateView, project: Seq<char>, e: EndpointView) -> Option<
    InstanceView,
> {
    match spec_instance_for_endpoint(sv, project, e.endpoint_id) {
        Some(i) => if i.port == e.port && i.host == e.host {
            Some(i)
        } else {
            None
        },
        None => None,
    }
}

pub fn reuse_candidate(state: &StateStore, project_name: &str, endpoint: &ProjectMcpEndpoint) -> (r:
    Option<InstanceState>)
    ensures
        match r {
            Some(i) => spec_reuse_candidate(state.view(), project_name@, endpoint@) == Some(i@),
            None => spec_reuse_candidate(state.view(), project_name@, endpoint@) is None,
        },
{
    match preferred_active_instance_for_endpoint(state, project_name, endpoint.endpoint_id.as_str()) {
        Some(i) => {
            if i.port == endpoint.port && str_eq(i.host.as_str(), endpoint.host.as_str()) {
                Some(i.clone())
            } else {
                None
            }
        },
        None => None,
    }
}

pub open spec fn spec_default_editor_process(windows: bool) -> Seq<char> {
    if windows {
        "UnrealEditor.exe"@
    } else {
        "UnrealEditor"@
    }
}

/// The editor's process name on Windows (`windows`) or elsewhere.
pub fn default_editor_process_name(windows: bool) -> (r: &'static str)
    ensures
        r@ == spec_default_editor_process(windows),
{
    if windows {
        "UnrealEditor.exe"
    } else {
        "UnrealEditor"
    }
}

/// The process name an editor at `editor_exe` runs under: its file name unless blank,
/// else the default name.
pub open spec fn spec_editor_process_name(editor_exe: Seq<char>, windows: bool) -> Seq<char> {
    match path_file_name(editor_exe) {
        Some(n) => if trim(n).len() > 0 {
            n
        } else {
            spec_default_editor_process(windows)
        },
        None => spec_default_editor_process(windows),
    }
}

/// What identifies the editor process of a project: its process name and the fragment of
/// its command line (the project file).
pub fn editor_process_query(editor_exe: &str, uproject_path: &str, windows: bool) -> (r: (
    String,
    String,
))
    ensures
        r.0@ == spec_editor_process_name(editor_exe@, windows),
        r.1@ == uproject_path@,
{
    let name = match file_name(editor_exe) {
        Some(n) => {
            let t = trim_str(n.as_str());
            if t.as_str().is_empty() {
                owned(default_editor_process_name(windows))
            } else {
                n
            }
        },
        None => owned(default_editor_process_name(windows)),
    };
    (name, owned(uproject_path))
}


// ---------------------------------------------------------------------------
// Discovery
// ---------------------------------------------------------------------------

/// One configured MCP target that a discovery round probes.
pub struct DiscoveryCandidate {
    pub instance_key: String,
    pub project_name: String,
    pub endpoint_id: String,
    pub project_path: String,
    pub engine_root: String,
    pub host: String,
    pub port: u16,
    pub url: String,
}

pub struct CandidateView {
    pub instance_key: Seq<char>,
    pub project_name: Seq<char>,
    pub endpoint_id: Seq<char>,
    pub project_path: Seq<char>,
    pub engine_root: Seq<char>,
    pub host: Seq<char>,
    pub port: u16,
    pub url: Seq<char>,
}

impl View for DiscoveryCandidate {
    type V = CandidateView;

    open spec fn view(&self) -> CandidateView {
        CandidateView {
            instance_key: self.instance_key@,
            project_name: self.project_name@,
            endpoint_id: self.endpoint_id@,
            project_path: self.project_path@,
            engine_root: self.engine_root@,
            host: self.host@,
            port: self.port,
            url: self.url@,
        }
    }
}

impl Clone for DiscoveryCandidate {
    fn clone(&self) -> (r: Self)
        ensures
            r@ == self@,
    {
        DiscoveryCandidate {
            instance_key: self.instance_key.clone(),
            project_name: self.project_name.clone(),
            endpoint_id: self.endpoint_id.clone(),
            project_path: self.project_path.clone(),
            engine_root: self.engine_root.clone(),
            host: self.host.clone(),
            port: self.port,
            url: self.url.clone(),
        }
    }
}

/// The candidate for target `e` of project `name`.
pub open spec fn spec_candidate(name: Seq<char>, p: ProjectView, e: EndpointView) -> CandidateView {
    CandidateView {
        instance_key: spec_instance_key(name, e.endpoint_id, e.port),
        project_name: name,
        endpoint_id: e.endpoint_id,
        project_path: p.uproject_path,
        engine_root: p.engine_root,
        host: e.host,
        port: e.port,
        url: spec_endpoint_url(e),
    }
}

/// Candidates keyed by URL after adding `c`: one URL is probed once, and a candidate of a
/// named project replaces one of an unnamed project.
pub open spec fn add_candidate(m: Seq<(Seq<char>, CandidateView)>, c: CandidateView) -> Seq<
    (Seq<char>, CandidateView),
> {
    match lookup(m, c.url) {
        Some(ex) => if ex.project_name.len() > 0 || c.project_name.len() == 0 {
            m
        } else {
            sorted_insert(m, c.url, c)
        },
        None => sorted_insert(m, c.url, c),
    }
}

/// The candidates after adding the first `n` targets of project `name`.
pub open spec fn add_endpoint_candidates(
    m: Seq<(Seq<char>, CandidateView)>,
    name: Seq<char>,
    p: ProjectView,
    n: int,
) -> Seq<(Seq<char>, CandidateView)>
    decreases n,
{
    if n <= 0 {
        m
    } else {
        add_candidate(
            add_endpoint_candidates(m, name, p, n - 1),
            spec_candidate(name, p, p.endpoints[n - 1]),
        )
    }
}

/// The candidates after adding all targets of the first `n` projects of `ps`.
pub open spec fn add_project_candidates(
    m: Seq<(Seq<char>, CandidateView)>,
    ps: Seq<(Seq<char>, ProjectView)>,
    n: int,
) -> Seq<(Seq<char>, CandidateView)>
    decreases n,
{
    if n <= 0 {
        m
    } else {
        let pm = add_project_candidates(m, ps, n - 1);
        add_endpoint_candidates(pm, ps[n - 1].0, ps[n - 1].1, ps[n - 1].1.endpoints.len() as int)
    }
}

/// The candidates of a discovery round, in URL order.
pub open spec fn spec_discovery_candidates(c: ConfigView) -> Seq<CandidateView> {
    add_project_candidates(Seq::empty(), c.projects, c.projects.len() as int).map_values(
        |e: (Seq<char>, CandidateView)| e.1,
    )
}

fn add_discovery_candidate(candidates: &mut SortedMap<DiscoveryCandidate>, candidate: DiscoveryCandidate)
    requires
        old(candidates).wf(),
    ensures
        final(candidates).wf(),
        final(candidates).pairs() == add_candidate(old(candidates).pairs(), candidate@),
{
    let keep = match candidates.get(candidate.url.as_str()) {
        Some(existing) => !existing.project_name.as_str().is_empty()
            || candidate.project_name.as_str().is_empty(),
        None => false,
    };
    if !keep {
        let url = candidate.url.clone();
        candidates.insert(url, candidate);
    }
}

/// The targets of all configured projects, one per URL, in URL order.
pub fn build_discovery_candidates(config: &ConfigStore) -> (r: Vec<DiscoveryCandidate>)
    requires
        config.wf(),
    ensures
        r@.map_values(|c: DiscoveryCandidate| c@) == spec_discovery_candidates(config.view()),
{
    let projects = config.list_projects();
    let ghost ps = config.view().projects;
    let mut m: SortedMap<DiscoveryCandidate> = SortedMap::new();
    let mut i: usize = 0;
    while i < projects.len()
        invariant
            projects.pairs() == ps,
            ps == config.view().projects,
            0 <= i <= ps.len(),
            m.wf(),
            m.pairs() == add_project_candidates(Seq::empty(), ps, i as int),
        decreases ps.len() - i,
    {
        let name = projects.key_at(i);
        let entry = projects.value_at(i);
        let ghost pm = m.pairs();
        let mut j: usize = 0;
        while j < entry.endpoints.len()
            invariant
                0 <= j <= entry@.endpoints.len(),
                name@ == ps[i as int].0,
                entry@ == ps[i as int].1,
                m.wf(),
                m.pairs() == add_endpoint_candidates(pm, name@, entry@, j as int),
            decreases entry@.endpoints.len() - j,
        {
            let e = &entry.endpoints[j];
            let c = DiscoveryCandidate {
                instance_key: make_instance_key(name.as_str(), e.endpoint_id.as_str(), e.port),
                project_name: name.clone(),
                endpoint_id: e.endpoint_id.clone(),
                project_path: entry.uproject_path.clone(),
                engine_root: entry.engine_root.clone(),
                host: e.host.clone(),
                port: e.port,
                url: project_endpoint_url(e),
            };
            assert(c@ == spec_candidate(name@, entry@, entry@.endpoints[j as int]));
            add_discovery_candidate(&mut m, c);
            j = j + 1;
        }
        i = i + 1;
    }
    let mut r: Vec<DiscoveryCandidate> = Vec::new();
    let ghost all = m.pairs();
    let mut k: usize = 0;
    while k < m.len()
        invariant
            all == m.pairs(),
            0 <= k <= all.len(),
            r@.map_values(|c: DiscoveryCandidate| c@) == all.take(k as int).map_values(
                |e: (Seq<char>, CandidateView)| e.1,
            ),
        decreases all.len() - k,
    {
        let c = m.value_at(k).clone();
        let ghost before = r@.map_values(|c: DiscoveryCandidate| c@);
        r.push(c);
        assert(r@.map_values(|c: DiscoveryCandidate| c@) =~= before.push(all[k as int].1));
        assert(all.take(k + 1).map_values(|e: (Seq<char>, CandidateView)| e.1) =~= all.take(
            k as int,
        ).map_values(|e: (Seq<char>, CandidateView)| e.1).push(all[k as int].1));
        k = k + 1;
    }
    assert(all.take(all.len() as int) =~= all);
    r
}

/// The pid a discovered instance is recorded with: the recorded pid while that process is
/// alive, else the pid found by command line.
pub fn choose_discovered_pid(existing: Option<u32>, existing_alive: bool, found: Option<u32>) -> (r:
    Option<u32>)
    ensures
        r == (if existing is Some && existing_alive {
            existing
        } else {
            found
        }),
{
    match existing {
        Some(p) => if existing_alive {
            Some(p)
        } else {
            found
        },
        None => found,
    }
}

/// The record of a reachable candidate with pid `pid`, keeping the crash count
/// `crash_count` already recorded.
pub open spec fn spec_discovered_instance(
    c: CandidateView,
    pid: Option<u32>,
    crash_count: u32,
    now: nat,
) -> InstanceView {
    InstanceView {
        key: c.instance_key,
        project_name: c.project_name,
        endpoint_id: c.endpoint_id,
        project_path: c.project_path,
        engine_root: c.engine_root,
        host: c.host,
        port: c.port,
        url: c.url,
        pid: pid,
        status: "online"@,
        last_seen: stamp(now),
        crash_count: crash_count,
        notes: Seq::empty(),
        call_history: Seq::empty(),
    }
}

pub open spec fn known_crash_count(sv: StateView, key: Seq<char>) -> u32 {
    match spec_get_instance(sv, key) {
        Some(i) => i.crash_count,
        None => 0,
    }
}

/// Records, at time `now`, a candidate that answered as online with pid `pid`, and hands
/// back the stored record.
pub fn record_discovered_at(
    state: &mut StateStore,
    candidate: &DiscoveryCandidate,
    pid: Option<u32>,
    now: u64,
) -> (r: Option<InstanceState>)
    requires
        old(state).wf(),
    ensures
        old(state).spec_unsaved() ==> final(state).spec_unsaved(),
        final(state).view() != old(state).view() ==> final(state).spec_unsaved(),
        final(state).wf(),
        final(state).spec_path() == old(state).spec_path(),
        final(state).view() == spec_upsert(
            old(state).view(),
            spec_discovered_instance(
                candidate@,
                pid,
                known_crash_count(old(state).view(), candidate@.instance_key),
                now as nat,
            ),
            now as nat,
        ),
        match r {
            Some(i) => spec_get_instance(final(state).view(), candidate@.instance_key) == Some(i@),
            None => spec_get_instance(final(state).view(), candidate@.instance_key) is None,
        },
{
    let crash_count = match state.get_instance(candidate.instance_key.as_str()) {
        Some(i) => i.crash_count,
        None => 0,
    };
    let inst = InstanceState {
        key: candidate.instance_key.clone(),
        project_name: candidate.project_name.clone(),
        endpoint_id: candidate.endpoint_id.clone(),
        project_path: candidate.project_path.clone(),
        engine_root: candidate.engine_root.clone(),
        host: candidate.host.clone(),
        port: candidate.port,
        url: candidate.url.clone(),
        pid,
        status: owned("online"),
        last_seen: decimal_string(now),
        crash_count,
        notes: Vec::new(),
        call_history: Vec::new(),
    };
    assert(inst@.notes =~= Seq::empty());
    assert(inst@.call_history =~= Seq::empty());
    state.upsert_instance_at(inst, now);
    match state.get_instance(candidate.instance_key.as_str()) {
        Some(i) => Some(i.clone()),
        None => None,
    }
}

/// The status and pid set on a recorded instance whose target did not answer: only an
/// instance that was online or starting changes; it keeps its pid while that process is
/// alive (`pid_alive`), and stays starting only then.
pub open spec fn spec_unreachable_update(ex: InstanceView, pid_alive: bool) -> Option<
    (Seq<char>, Option<u32>),
> {
    if ex.status == "online"@ || ex.status == "starting"@ {
        let pid = if ex.pid is Some && pid_alive {
            ex.pid
        } else {
            None
        };
        Some(
            (
                if pid is Some && ex.status == "starting"@ {
                    "starting"@
                } else {
                    "offline"@
                },
                pid,
            ),
        )
    } else {
        None
    }
}

/// Records, at time `now`, that the candidate keyed `key` did not answer; `pid_alive` tells
/// whether its recorded process is alive.
pub fn mark_unreachable_at(state: &mut StateStore, key: &str, pid_alive: bool, now: u64)
    requires
        old(state).wf(),
    ensures
        old(state).spec_unsaved() ==> final(state).spec_unsaved(),
        final(state).view() != old(state).view() ==> final(state).spec_unsaved(),
        final(state).wf(),
        final(state).spec_path() == old(state).spec_path(),
        final(state).view() == match spec_get_instance(old(state).view(), key@) {
            Some(ex) => match spec_unreachable_update(ex, pid_alive) {
                Some(u) => spec_modify(old(state).view(), ex.key, with_status(u.0, u.1, now as nat)),
                None => old(state).view(),
            },
            None => old(state).view(),
        },
{
    let existing = match state.get_instance(key) {
        Some(i) => i.clone(),
        None => {
            return;
        },
    };
    let online = str_eq(existing.status.as_str(), "online");
    let starting = str_eq(existing.status.as_str(), "starting");
    if online || starting {
        let pid = match existing.pid {
            Some(p) => if pid_alive {
                Some(p)
            } else {
                None
            },
            None => None,
        };
        let status = if pid.is_some() && starting {
            "starting"
        } else {
            "offline"
        };
        state.update_instance_status_at(existing.key.as_str(), status, pid, now);
    }
}

/// The outcome of a discovery round.
pub struct DiscoveryResult {
    pub active_instance_key: Option<String>,
    pub instances: Vec<InstanceState>,
}

/// The outcome of a discovery round that found `instances`: with the key of the active
/// instance.
pub fn discovery_result(state: &StateStore, instances: Vec<InstanceState>) -> (r: DiscoveryResult)
    requires
        state.wf(),
    ensures
        opt_view(r.active_instance_key) == match spec_active_instance(state.view()) {
            Some(i) => Some(i.key),
            None => None,
        },
        r.instances@ == instances@,
{
    let active = match state.get_active_instance() {
        Some(i) => Some(i.key.clone()),
        None => None,
    };
    DiscoveryResult { active_instance_key: active, instances }
}

// ---------------------------------------------------------------------------
// Instance health
// ---------------------------------------------------------------------------

/// Whether an instance has an MCP target to probe.
pub open spec fn has_mcp_target(i: InstanceView) -> bool {
    i.url.len() > 0 && i.port != 0
}

/// The process and MCP health of one instance.
pub struct InstanceHealthReport {
    pub instance: InstanceState,
    pub process_alive: Option<bool>,
    pub endpoint_health: Option<EndpointHealth>,
    pub endpoint_error: Option<String>,
}

/// An instance as a report shows it: without notes and call history.
pub open spec fn bare(i: InstanceView) -> InstanceView {
    InstanceView { notes: Seq::empty(), call_history: Seq::empty(), ..i }
}

/// The status an instance is given after a probe: online when the target answered, offline
/// when its process is gone, else unchanged.
pub open spec fn probed_status(i: InstanceView, process_alive: Option<bool>, answered: bool) -> Seq<
    char,
> {
    if answered {
        "online"@
    } else if process_alive == Some(false) {
        "offline"@
    } else {
        i.status
    }
}

/// The pid an instance keeps after a probe: its own while the process is known alive.
pub open spec fn probed_pid(i: InstanceView, process_alive: Option<bool>) -> Option<u32> {
    if process_alive == Some(true) {
        i.pid
    } else {
        None
    }
}

/// Whether an instance has an MCP target.
pub fn instance_has_target(instance: &InstanceState) -> (r: bool)
    ensures
        r == has_mcp_target(instance@),
{
    !instance.url.as_str().is_empty() && instance.port != 0
}

fn bare_instance(instance: &InstanceState) -> (r: InstanceState)
    ensures
        r@ == bare(instance@),
{
    let mut r = instance.clone();
    r.notes = Vec::new();
    r.call_history = Vec::new();
    assert(r@.notes =~= Seq::empty());
    assert(r@.call_history =~= Seq::empty());
    r
}

/// Reports, at time `now`, the health of `instance`: `process_alive` is whether its
/// recorded process is alive (`None` when it has no pid) and `probe` what probing its
/// target gave (not looked at when it has none). The state records the new status.
pub fn instance_health_at(
    state: &mut StateStore,
    instance: &InstanceState,
    process_alive: Option<bool>,
    probe: Result<EndpointHealth, String>,
    now: u64,
) -> (r: InstanceHealthReport)
    requires
        old(state).wf(),
    ensures
        old(state).spec_unsaved() ==> final(state).spec_unsaved(),
        final(state).view() != old(state).view() ==> final(state).spec_unsaved(),
        final(state).wf(),
        final(state).spec_path() == old(state).spec_path(),
        r.process_alive == process_alive,
        ({
            let i = instance@;
            let sv = old(state).view();
            if !has_mcp_target(i) {
                let lost = i.pid is Some && process_alive == Some(false);
                &&& final(state).view() == (if lost {
                    spec_modify(sv, i.key, with_status("offline"@, None, now as nat))
                } else {
                    sv
                })
                &&& r.instance@ == (if lost {
                    InstanceView { pid: None, status: "offline"@, ..bare(i) }
                } else {
                    bare(i)
                })
                &&& r.endpoint_health is None
                &&& opt_view(r.endpoint_error) == Some("instance has no reachable MCP target"@)
            } else {
                let status = probed_status(i, process_alive, probe is Ok);
                let pid = probed_pid(i, process_alive);
                &&& final(state).view() == (if status != i.status || pid != i.pid {
                    spec_modify(sv, i.key, with_status(status, pid, now as nat))
                } else {
                    sv
                })
                &&& r.instance@ == InstanceView { pid: pid, status: status, ..bare(i) }
                &&& match probe {
                    Ok(h) => r.endpoint_health == Some(h) && r.endpoint_error is None,
                    Err(m) => r.endpoint_health is None && opt_view(r.endpoint_error) == Some(m@),
                }
            }
        }),
{
    let mut shown = bare_instance(instance);
    if !instance_has_target(instance) {
        if instance.pid.is_some() && process_alive == Some(false) {
            state.update_instance_status_at(instance.key.as_str(), "offline", None, now);
            shown.pid = None;
            shown.status = owned("offline");
        }
        return InstanceHealthReport {
            instance: shown,
            process_alive,
            endpoint_health: None,
            endpoint_error: Some(owned("instance has no reachable MCP target")),
        };
    }
    let (endpoint_health, endpoint_error) = match probe {
        Ok(h) => (Some(h), None),
        Err(m) => (None, Some(m)),
    };
    let refreshed_pid = match process_alive {
        Some(true) => instance.pid,
        _ => None,
    };
    let refreshed_status = if endpoint_health.is_some() {
        owned("online")
    } else if process_alive == Some(false) {
        owned("offline")
    } else {
        instance.status.clone()
    };
    if !str_eq(refreshed_status.as_str(), instance.status.as_str()) || refreshed_pid != instance.pid {
        state.update_instance_status_at(
            instance.key.as_str(),
            refreshed_status.as_str(),
            refreshed_pid,
            now,
        );
    }
    shown.status = refreshed_status;
    shown.pid = refreshed_pid;
    InstanceHealthReport { instance: shown, process_alive, endpoint_health, endpoint_error }
}

/// Whether a health report shows a reachable target and no dead process.
pub fn instance_health_is_healthy(report: &InstanceHealthReport) -> (r: bool)
    ensures
        r == (report.endpoint_error is None && report.endpoint_health is Some && match report.process_alive {
            Some(a) => a,
            None => true,
        }),
{
    report.endpoint_error.is_none() && report.endpoint_health.is_some() && match report.process_alive {
        Some(a) => a,
        None => true,
    }
}

// ---------------------------------------------------------------------------
// Stopping
// ---------------------------------------------------------------------------

/// The outcome of stopping an editor.
pub struct StopEditorResult {
    pub instance_key: String,
    pub pid: Option<u32>,
    pub was_running: bool,
    pub stopped: bool,
    pub force: bool,
}

/// How a stop ends without sending a signal: with no pid it is stopped (with the force
/// asked for), with a process that is not running it is stopped without force; `None` when
/// a signal has to be sent.
pub fn stop_without_signal(pid: Option<u32>, was_running: bool, force: bool) -> (r: Option<
    (bool, bool),
>)
    ensures
        r == (if pid is None {
            Some((true, force))
        } else if !was_running {
            Some((true, false))
        } else {
            None
        }),
{
    match pid {
        None => Some((true, force)),
        Some(_) => if !was_running {
            Some((true, false))
        } else {
            None
        },
    }
}

/// Whether a stop retries with force: the process outlived a signal sent without force.
pub fn stop_needs_forced_retry(stopped: bool, force_used: bool) -> (r: bool)
    ensures
        r == (!stopped && !force_used),
{
    !stopped && !force_used
}

/// Records, at time `now`, how stopping the editor of instance `instance_key` ended:
/// offline without pid when it stopped, else stopping with its pid.
pub fn complete_stop_at(
    state: &mut StateStore,
    instance_key: &str,
    pid: Option<u32>,
    was_running: bool,
    stopped: bool,
    force_used: bool,
    now: u64,
) -> (r: StopEditorResult)
    requires
        old(state).wf(),
    ensures
        old(state).spec_unsaved() ==> final(state).spec_unsaved(),
        final(state).view() != old(state).view() ==> final(state).spec_unsaved(),
        final(state).wf(),
        final(state).spec_path() == old(state).spec_path(),
        final(state).view() == spec_modify(
            old(state).view(),
            instance_key@,
            with_status(
                if stopped {
                    "offline"@
                } else {
                    "stopping"@
                },
                if stopped {
                    None
                } else {
                    pid
                },
                now as nat,
            ),
        ),
        r.instance_key@ == instance_key@,
        r.pid == pid,
        r.was_running == was_running,
        r.stopped == stopped,
        r.force == force_used,
{
    let status = if stopped {
        "offline"
    } else {
        "stopping"
    };
    let final_pid = if stopped {
        None
    } else {
        pid
    };
    state.update_instance_status_at(instance_key, status, final_pid, now);
    StopEditorResult {
        instance_key: owned(instance_key),
        pid,
        was_running,
        stopped,
        force: force_used,
    }
}


/// The outcome of a restart: the stop of the active editor (when there was one), the crash
/// report found before launching again, and the launch.
pub struct RestartResult {
    pub stop: Option<StopEditorResult>,
    pub prior_crash_report: Option<crate::workspace::CrashReport>,
    pub launch: LaunchResult,
}

} // verus!
