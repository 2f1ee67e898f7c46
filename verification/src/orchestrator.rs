//! The hub's decisions over configuration and state: which project, MCP target and
//! instance a request means, what switching them changes, and the summaries it reports.
use vstd::prelude::*;

use crate::config::{
    has_endpoint, id_pred, spec_active_endpoint, spec_endpoint_switches, spec_set_active_endpoint, spec_with_endpoint, ConfigStore, ConfigView,
    EndpointView, ProjectEntry, ProjectMcpEndpoint, ProjectView,
};
use crate::paths::{spec_paths_message, PathsError};
use crate::smap::{
    first_match, has_key, lemma_first_match_at, lemma_first_match_none, lookup, sorted_insert,
    SortedMap,
};
use crate::state::{
    clone_notes, notes_view, records_view, recent_calls, spec_active_instance,
    spec_get_instance, spec_modify, spec_resolve, stamp, with_note, InstanceState, InstanceView,
    Note, NoteView, StateStore, StateView, ToolCallRecord, ToolCallRecordView,
};
use crate::ue_client::ToolCallOutput;
use crate::text::{
    chars_of, concat2, concat3, decimal, decimal_string, has_prefix, lower, owned, push_all,
    push_decimal, str_eq, str_starts_with, string_from_chars, to_ascii_lowercase, trim, trim_str,
};

verus! {

broadcast use vstd::string::group_string_axioms;

// ---------------------------------------------------------------------------
// Errors
// ---------------------------------------------------------------------------

/// Why a hub request was refused.
pub enum HubError {
    NoActiveProject,
    NoActiveEndpoint,
    NoTargetProject,
    NoProjectSelected,
    NoMcpSelected,
    ProjectNotFound(String),
    InstanceNotFound(String),
    NoActiveInstance,
    SavedSummaryMissing,
    NoMcpsDiscovered,
    Paths(PathsError),
    NoProjectDirectory,
    PluginSourceInvalid(String),
    PluginSourceNotFound,
    CppSymbolUnknown(String),
}

impl HubError {
    /// The message the hub reports for this refusal.
    pub fn message(&self) -> (m: String)
        ensures
            m@ == spec_error_message(*self),
    {
        match self {
            HubError::NoActiveProject => owned("no active project configured"),
            HubError::NoActiveEndpoint => owned("no active MCP configured for project"),
            HubError::NoTargetProject => owned("no target project configured"),
            HubError::NoProjectSelected => owned(
                "no project selected and no active project configured",
            ),
            HubError::NoMcpSelected => owned("no mcp selected and no active mcp configured"),
            HubError::ProjectNotFound(name) => concat3("project '", name, "' not found"),
            HubError::InstanceNotFound(id) => concat3("instance '", id, "' was not found"),
            HubError::NoActiveInstance => owned("no active UE instance"),
            HubError::SavedSummaryMissing => owned("failed to load saved project summary"),
            HubError::NoMcpsDiscovered => owned("no MCPs discovered"),
            HubError::Paths(e) => e.message(),
            HubError::NoProjectDirectory => owned("project path has no parent directory"),
            HubError::PluginSourceInvalid(p) => concat2(
                "configured plugin source does not contain UnrealCopilot.uplugin: ",
                p,
            ),
            HubError::PluginSourceNotFound => owned(
                "could not locate UnrealCopilot plugin source relative to the current executable",
            ),
            HubError::CppSymbolUnknown(p) => concat2("could not infer a C++ symbol from ", p),
        }
    }
}

pub open spec fn spec_error_message(e: HubError) -> Seq<char> {
    match e {
        HubError::NoActiveProject => "no active project configured"@,
        HubError::NoActiveEndpoint => "no active MCP configured for project"@,
        HubError::NoTargetProject => "no target project configured"@,
        HubError::NoProjectSelected => "no project selected and no active project configured"@,
        HubError::NoMcpSelected => "no mcp selected and no active mcp configured"@,
        HubError::ProjectNotFound(name) => "project '"@ + name@ + "' not found"@,
        HubError::InstanceNotFound(id) => "instance '"@ + id@ + "' was not found"@,
        HubError::NoActiveInstance => "no active UE instance"@,
        HubError::SavedSummaryMissing => "failed to load saved project summary"@,
        HubError::NoMcpsDiscovered => "no MCPs discovered"@,
        HubError::Paths(e) => spec_paths_message(e),
        HubError::NoProjectDirectory => "project path has no parent directory"@,
        HubError::PluginSourceInvalid(p) => "configured plugin source does not contain UnrealCopilot.uplugin: "@
            + p@,
        HubError::PluginSourceNotFound => "could not locate UnrealCopilot plugin source relative to the current executable"@,
        HubError::CppSymbolUnknown(p) => "could not infer a C++ symbol from "@ + p@,
    }
}

// ---------------------------------------------------------------------------
// Summaries
// ---------------------------------------------------------------------------

/// One MCP target as reported.
pub struct ProjectEndpointSummary {
    pub name: String,
    pub endpoint_id: String,
    pub endpoint_url: String,
    pub transport: String,
    pub auto_start: bool,
}

pub struct EndpointSummaryView {
    pub name: Seq<char>,
    pub endpoint_id: Seq<char>,
    pub endpoint_url: Seq<char>,
    pub transport: Seq<char>,
    pub auto_start: bool,
}

impl View for ProjectEndpointSummary {
    type V = EndpointSummaryView;

    open spec fn view(&self) -> EndpointSummaryView {
        EndpointSummaryView {
            name: self.name@,
            endpoint_id: self.endpoint_id@,
            endpoint_url: self.endpoint_url@,
            transport: self.transport@,
            auto_start: self.auto_start,
        }
    }
}

/// One project as reported.
pub struct ProjectSummary {
    pub name: String,
    pub uproject_path: String,
    pub engine_root: String,
    pub active_endpoint: String,
    pub endpoints: Vec<ProjectEndpointSummary>,
}

pub struct ProjectSummaryView {
    pub name: Seq<char>,
    pub uproject_path: Seq<char>,
    pub engine_root: Seq<char>,
    pub active_endpoint: Seq<char>,
    pub endpoints: Seq<EndpointSummaryView>,
}

impl View for ProjectSummary {
    type V = ProjectSummaryView;

    open spec fn view(&self) -> ProjectSummaryView {
        ProjectSummaryView {
            name: self.name@,
            uproject_path: self.uproject_path@,
            engine_root: self.engine_root@,
            active_endpoint: self.active_endpoint@,
            endpoints: self.endpoints@.map_values(|e: ProjectEndpointSummary| e@),
        }
    }
}

/// `http://<host>:<port><path>`.
pub open spec fn spec_endpoint_url(e: EndpointView) -> Seq<char> {
    "http://"@ + e.host + seq![':'] + decimal(e.port as nat) + e.path
}

pub open spec fn spec_endpoint_summary(e: EndpointView) -> EndpointSummaryView {
    EndpointSummaryView {
        name: e.name,
        endpoint_id: e.endpoint_id,
        endpoint_url: spec_endpoint_url(e),
        transport: e.transport,
        auto_start: e.auto_start,
    }
}

pub open spec fn spec_project_summary(name: Seq<char>, p: ProjectView) -> ProjectSummaryView {
    ProjectSummaryView {
        name: name,
        uproject_path: p.uproject_path,
        engine_root: p.engine_root,
        active_endpoint: p.active_endpoint,
        endpoints: p.endpoints.map_values(|e: EndpointView| spec_endpoint_summary(e)),
    }
}

/// The URL of an MCP target.
pub fn project_endpoint_url(endpoint: &ProjectMcpEndpoint) -> (url: String)
    ensures
        url@ == spec_endpoint_url(endpoint@),
{
    let mut v = chars_of("http://");
    let h = chars_of(&endpoint.host);
    push_all(&mut v, &h);
    v.push(':');
    push_decimal(&mut v, endpoint.port as u64);
    let p = chars_of(&endpoint.path);
    push_all(&mut v, &p);
    assert(v@ =~= spec_endpoint_url(endpoint@));
    string_from_chars(&v)
}

/// The summary of one configured project.
pub fn build_project_summary(name: &str, entry: &ProjectEntry) -> (s: ProjectSummary)
    ensures
        s@ == spec_project_summary(name@, entry@),
{
    let mut endpoints: Vec<ProjectEndpointSummary> = Vec::new();
    let mut i: usize = 0;
    while i < entry.endpoints.len()
        invariant
            0 <= i <= entry.endpoints@.len(),
            endpoints@.len() == i,
            forall|j: int|
                0 <= j < i ==> (#[trigger] endpoints@[j])@ == spec_endpoint_summary(
                    entry.endpoints@[j]@,
                ),
        decreases entry.endpoints@.len() - i,
    {
        let e = &entry.endpoints[i];
        endpoints.push(
            ProjectEndpointSummary {
                name: e.name.clone(),
                endpoint_id: e.endpoint_id.clone(),
                endpoint_url: project_endpoint_url(e),
                transport: e.transport.clone(),
                auto_start: e.auto_start,
            },
        );
        i = i + 1;
    }
    let s = ProjectSummary {
        name: owned(name),
        uproject_path: entry.uproject_path.clone(),
        engine_root: entry.engine_root.clone(),
        active_endpoint: entry.active_endpoint.clone(),
        endpoints,
    };
    assert(s@.endpoints =~= entry@.endpoints.map_values(
        |e: EndpointView| spec_endpoint_summary(e),
    ));
    s
}

/// The summaries of all configured projects, in name order.
pub fn get_project_config(config: &ConfigStore) -> (r: Vec<ProjectSummary>)
    ensures
        r@.len() == config.view().projects.len(),
        forall|i: int|
            0 <= i < r@.len() ==> (#[trigger] r@[i])@ == spec_project_summary(
                config.view().projects[i].0,
                config.view().projects[i].1,
            ),
{
    let projects = config.list_projects();
    let mut r: Vec<ProjectSummary> = Vec::new();
    let mut i: usize = 0;
    while i < projects.len()
        invariant
            projects.pairs() == config.view().projects,
            0 <= i <= projects.pairs().len(),
            r@.len() == i,
            forall|j: int|
                0 <= j < i ==> (#[trigger] r@[j])@ == spec_project_summary(
                    config.view().projects[j].0,
                    config.view().projects[j].1,
                ),
        decreases projects.pairs().len() - i,
    {
        r.push(build_project_summary(projects.key_at(i), projects.value_at(i)));
        i = i + 1;
    }
    r
}

/// The summary of the project saved under `project_name`.
pub fn configured_project_summary(config: &ConfigStore, project_name: &str) -> (r: Result<
    ProjectSummary,
    HubError,
>)
    requires
        config.wf(),
    ensures
        match r {
            Ok(s) => lookup(config.view().projects, project_name@) is Some && s@
                == spec_project_summary(
                project_name@,
                lookup(config.view().projects, project_name@)->0,
            ),
            Err(e) => lookup(config.view().projects, project_name@) is None
                && e == HubError::SavedSummaryMissing,
        },
{
    match config.list_projects().get(project_name) {
        Some(entry) => Ok(build_project_summary(project_name, entry)),
        None => Err(HubError::SavedSummaryMissing),
    }
}

// ---------------------------------------------------------------------------
// Choosing the project, the MCP target and the instance
// ---------------------------------------------------------------------------

pub open spec fn target_pred(project: Seq<char>, endpoint_id: Seq<char>) -> spec_fn(
    (Seq<char>, InstanceView),
) -> bool {
    |e: (Seq<char>, InstanceView)| e.1.project_name == project && e.1.endpoint_id == endpoint_id
}

/// The first instance (in key order) of a project's MCP target.
pub open spec fn spec_instance_for_endpoint(
    sv: StateView,
    project: Seq<char>,
    endpoint_id: Seq<char>,
) -> Option<InstanceView> {
    match first_match(sv.instances, target_pred(project, endpoint_id)) {
        Some(i) => Some(sv.instances[i].1),
        None => None,
    }
}

/// The instance the hub treats as current: that of the active project's active MCP
/// target, else the state's active instance.
pub open spec fn spec_preferred_active(c: ConfigView, sv: StateView) -> Option<InstanceView> {
    let pref = match lookup(c.projects, c.active_project) {
        Some(p) => match spec_active_endpoint(p) {
            Some(e) => spec_instance_for_endpoint(sv, c.active_project, e.endpoint_id),
            None => None,
        },
        None => None,
    };
    if pref is Some {
        pref
    } else {
        spec_active_instance(sv)
    }
}

/// The first instance (in key order) of `project_name`'s target `endpoint_id`.
pub fn preferred_active_instance_for_endpoint<'a>(
    state: &'a StateStore,
    project_name: &str,
    endpoint_id: &str,
) -> (r: Option<&'a InstanceState>)
    ensures
        match r {
            Some(i) => spec_instance_for_endpoint(state.view(), project_name@, endpoint_id@)
                == Some(i@),
            None => spec_instance_for_endpoint(state.view(), project_name@, endpoint_id@) is None,
        },
{
    let list = state.list_instances();
    let ghost p = target_pred(project_name@, endpoint_id@);
    let mut i: usize = 0;
    while i < list.len()
        invariant
            list@.len() == state.view().instances.len(),
            forall|j: int| 0 <= j < list@.len() ==> (#[trigger] list@[j])@ == state.view().instances[j].1,
            p == target_pred(project_name@, endpoint_id@),
            0 <= i <= list@.len(),
            forall|j: int| 0 <= j < i ==> !p(#[trigger] state.view().instances[j]),
        decreases list@.len() - i,
    {
        let inst = list[i];
        if str_eq(&inst.project_name, project_name) && str_eq(&inst.endpoint_id, endpoint_id) {
            proof {
                lemma_first_match_at(state.view().instances, p, i as int);
            }
            return Some(inst);
        }
        i = i + 1;
    }
    proof {
        lemma_first_match_none(state.view().instances, p);
    }
    None
}

/// The instance of the active project's active MCP target, else the active instance.
pub fn preferred_active_instance<'a>(config: &ConfigStore, state: &'a StateStore) -> (r: Option<
    &'a InstanceState,
>)
    requires
        config.wf(),
        state.wf(),
    ensures
        match r {
            Some(i) => spec_preferred_active(config.view(), state.view()) == Some(i@),
            None => spec_preferred_active(config.view(), state.view()) is None,
        },
{
    let preferred = match config.get_active_project() {
        Some(project) => match project.get_active_endpoint() {
            Some(endpoint) => preferred_active_instance_for_endpoint(
                state,
                config.active_project_name(),
                &endpoint.endpoint_id,
            ),
            None => None,
        },
        None => None,
    };
    match preferred {
        Some(i) => Some(i),
        None => state.get_active_instance(),
    }
}

/// The state after `set_active_instance(key)`.
pub open spec fn spec_set_active(sv: StateView, key: Seq<char>) -> StateView {
    match spec_resolve(sv, key) {
        Some(k) => StateView { active: k, ..sv },
        None => sv,
    }
}

/// The state after switching to the instance of a project's target, when one exists.
pub open spec fn spec_follow_target(sv: StateView, project: Seq<char>, endpoint_id: Seq<char>) -> StateView {
    match spec_instance_for_endpoint(sv, project, endpoint_id) {
        Some(i) => spec_set_active(sv, i.key),
        None => sv,
    }
}

/// Switches the active project, and the active instance to that of its active MCP target
/// when one is known; false when no project has that name.
pub fn use_project(config: &mut ConfigStore, state: &mut StateStore, name: &str) -> (switched: bool)
    requires
        old(config).wf(),
        old(state).wf(),
    ensures
        old(config).spec_unsaved() ==> final(config).spec_unsaved(),
        final(config).view() != old(config).view() ==> final(config).spec_unsaved(),
        old(state).spec_unsaved() ==> final(state).spec_unsaved(),
        final(state).view() != old(state).view() ==> final(state).spec_unsaved(),
        final(config).wf(),
        final(state).wf(),
        switched == has_key(old(config).view().projects, name@),
        final(config).view() == (if switched {
            ConfigView { active_project: name@, ..old(config).view() }
        } else {
            old(config).view()
        }),
        final(state).view() == (if switched {
            match spec_active_endpoint(lookup(old(config).view().projects, name@)->0) {
                Some(e) => spec_follow_target(old(state).view(), name@, e.endpoint_id),
                None => old(state).view(),
            }
        } else {
            old(state).view()
        }),
        final(config).spec_path() == old(config).spec_path(),
        final(state).spec_path() == old(state).spec_path(),
{
    proof {
        config.lemma_wf_sorted();
        crate::smap::lemma_has_key_lookup(config.view().projects, name@);
    }
    let switched = config.set_active_project(name);
    if !switched {
        return false;
    }
    let endpoint_id = match config.get_active_project() {
        Some(project) => match project.get_active_endpoint() {
            Some(endpoint) => Some(endpoint.endpoint_id.clone()),
            None => None,
        },
        None => None,
    };
    match endpoint_id {
        Some(endpoint_id) => {
            let key = match preferred_active_instance_for_endpoint(state, name, &endpoint_id) {
                Some(instance) => Some(instance.key.clone()),
                None => None,
            };
            match key {
                Some(k) => {
                    let _ = state.set_active_instance(&k);
                },
                None => {},
            }
        },
        None => {},
    }
    true
}

/// The project that `use_mcp` and `add_project_mcp` act on when none is named: the active
/// one, else the only one.
pub open spec fn spec_default_project(c: ConfigView) -> Option<Seq<char>> {
    if c.active_project.len() > 0 {
        Some(c.active_project)
    } else if c.projects.len() == 1 {
        Some(c.projects[0].0)
    } else {
        None
    }
}

fn default_project(config: &ConfigStore) -> (r: Option<String>)
    ensures
        match r {
            Some(n) => spec_default_project(config.view()) == Some(n@),
            None => spec_default_project(config.view()) is None,
        },
{
    if !config.active_project_name().is_empty() {
        Some(owned(config.active_project_name()))
    } else if config.list_projects().len() == 1 {
        Some(config.list_projects().key_at(0).clone())
    } else {
        None
    }
}

/// Switches the active MCP target of the active (or only) project, and the active instance
/// to that target's when one is known; false when there is no such project or target.
pub fn use_mcp(config: &mut ConfigStore, state: &mut StateStore, mcp_id: &str) -> (switched: bool)
    requires
        old(config).wf(),
        old(state).wf(),
    ensures
        final(config).wf(),
        final(state).wf(),
        ({
            let c = old(config).view();
            let project = spec_default_project(c);
            &&& switched == (project is Some && project->0.len() > 0 && lookup(
                c.projects,
                project->0,
            ) is Some && has_endpoint(lookup(c.projects, project->0)->0, mcp_id@))
            &&& !switched ==> final(config).view() == c && final(state).view() == old(
                state,
            ).view()
            &&& switched ==> final(state).view() == spec_follow_target(
                old(state).view(),
                project->0,
                mcp_id@,
            )
            &&& switched ==> final(config).view() == spec_set_active_endpoint(
                c,
                project->0,
                mcp_id@,
            )
            &&& final(config).spec_unsaved() == (old(config).spec_unsaved() || (switched
                && spec_endpoint_switches(c, project->0, mcp_id@)))
            &&& switched && mcp_id@.len() > 0 ==> (spec_active_endpoint(
                lookup(final(config).view().projects, project->0)->0,
            ) matches Some(e) && e.endpoint_id == mcp_id@)
        }),
        old(state).spec_unsaved() ==> final(state).spec_unsaved(),
        final(state).view() != old(state).view() ==> final(state).spec_unsaved(),
        final(config).spec_path() == old(config).spec_path(),
        final(state).spec_path() == old(state).spec_path(),
{
    let project_name = match default_project(config) {
        Some(n) => n,
        None => {
            return false;
        },
    };
    if project_name.as_str().is_empty() {
        return false;
    }
    let ghost c0 = config.view();
    proof {
        config.lemma_wf_sorted();
    }
    let switched = config.set_active_endpoint(&project_name, mcp_id);
    if !switched {
        return false;
    }
    proof {
        if mcp_id@.len() > 0 {
            crate::laws::lemma_activated_endpoint(c0, project_name@, mcp_id@);
        }
    }
    let key = match preferred_active_instance_for_endpoint(state, &project_name, mcp_id) {
        Some(instance) => Some(instance.key.clone()),
        None => None,
    };
    match key {
        Some(k) => {
            let _ = state.set_active_instance(&k);
        },
        None => {},
    }
    true
}

/// `path` with a leading `/` added when it has none.
pub open spec fn spec_slash_path(path: Seq<char>) -> Seq<char> {
    if has_prefix(path, seq!['/']) {
        path
    } else {
        seq!['/'] + path
    }
}

/// The project `add_project_mcp` targets: the named one unless blank, else the default.
pub open spec fn spec_add_target(c: ConfigView, project: Option<Seq<char>>) -> Option<Seq<char>> {
    if project is Some && trim(project->0).len() > 0 {
        project
    } else {
        spec_default_project(c)
    }
}

/// The MCP target that `add_project_mcp` stores.
pub open spec fn spec_added_endpoint(
    mcp_id: Seq<char>,
    mcp_name: Option<Seq<char>>,
    host: Seq<char>,
    port: u16,
    path: Seq<char>,
    transport: Seq<char>,
    auto_start: bool,
) -> EndpointView {
    EndpointView {
        name: if mcp_name is Some && trim(mcp_name->0).len() > 0 {
            mcp_name->0
        } else {
            mcp_id
        },
        endpoint_id: mcp_id,
        host: host,
        port: port,
        path: spec_slash_path(path),
        transport: lower(transport),
        auto_start: auto_start,
    }
}

pub open spec fn str_opt(o: Option<&str>) -> Option<Seq<char>> {
    match o {
        Some(s) => Some(s@),
        None => None,
    }
}

/// Adds or updates one MCP target of a project (the named one, else the active or only
/// one) and reports the project.
pub fn add_project_mcp(
    config: &mut ConfigStore,
    project_name: Option<&str>,
    mcp_id: &str,
    mcp_name: Option<&str>,
    host: &str,
    port: u16,
    path: &str,
    transport: &str,
    auto_start: bool,
    activate: bool,
) -> (r: Result<ProjectSummary, HubError>)
    requires
        old(config).wf(),
    ensures
        old(config).spec_unsaved() ==> final(config).spec_unsaved(),
        final(config).view() != old(config).view() ==> final(config).spec_unsaved(),
        final(config).wf(),
        final(config).spec_path() == old(config).spec_path(),
        ({
            let c = old(config).view();
            let target = spec_add_target(c, str_opt(project_name));
            let endpoint = spec_added_endpoint(
                mcp_id@,
                str_opt(mcp_name),
                host@,
                port,
                path@,
                transport@,
                auto_start,
            );
            match r {
                Ok(s) => {
                    &&& target is Some
                    &&& lookup(c.projects, target->0) is Some
                    &&& final(config).view() == ConfigView {
                        projects: sorted_insert(
                            c.projects,
                            target->0,
                            spec_with_endpoint(lookup(c.projects, target->0)->0, endpoint, activate),
                        ),
                        ..c
                    }
                    &&& s@ == spec_project_summary(
                        target->0,
                        spec_with_endpoint(lookup(c.projects, target->0)->0, endpoint, activate),
                    )
                },
                Err(e) => {
                    &&& final(config).view() == c
                    &&& match target {
                        None => e == HubError::NoTargetProject,
                        Some(t) => lookup(c.projects, t) is None && e == HubError::ProjectNotFound(
                            e->ProjectNotFound_0,
                        ) && e->ProjectNotFound_0@ == t,
                    }
                },
            }
        }),
{
    proof {
        config.lemma_wf_sorted();
    }
    let target = match project_name {
        Some(n) => {
            let t = trim_str(n);
            if t.as_str().is_empty() {
                default_project(config)
            } else {
                Some(owned(n))
            }
        },
        None => default_project(config),
    };
    let target = match target {
        Some(t) => t,
        None => {
            return Err(HubError::NoTargetProject);
        },
    };
    let name = match mcp_name {
        Some(n) => {
            let t = trim_str(n);
            if t.as_str().is_empty() {
                owned(mcp_id)
            } else {
                owned(n)
            }
        },
        None => owned(mcp_id),
    };
    let endpoint = ProjectMcpEndpoint {
        name,
        endpoint_id: owned(mcp_id),
        host: owned(host),
        port,
        path: if str_starts_with(path, "/") {
            owned(path)
        } else {
            concat2("/", path)
        },
        transport: to_ascii_lowercase(transport),
        auto_start,
    };
    proof {
        reveal_strlit("/");
        assert("/"@ =~= seq!['/']);
    }
    if !config.save_project_endpoint(&target, endpoint, activate) {
        return Err(HubError::ProjectNotFound(target));
    }
    proof {
        crate::smap::lemma_sorted_insert(
            old(config).view().projects,
            target@,
            spec_with_endpoint(
                lookup(old(config).view().projects, target@)->0,
                spec_added_endpoint(
                    mcp_id@,
                    str_opt(mcp_name),
                    host@,
                    port,
                    path@,
                    transport@,
                    auto_start,
                ),
                activate,
            ),
        );
    }
    match configured_project_summary(config, &target) {
        Ok(s) => Ok(s),
        Err(e) => Err(e),
    }
}

/// Switches the active instance to the one `instance_key` names; false when it names none.
pub fn use_editor(state: &mut StateStore, instance_key: &str) -> (switched: bool)
    requires
        old(state).wf(),
    ensures
        old(state).spec_unsaved() ==> final(state).spec_unsaved(),
        final(state).view() != old(state).view() ==> final(state).spec_unsaved(),
        final(state).wf(),
        switched == spec_resolve(old(state).view(), instance_key@) is Some,
        final(state).view() == spec_set_active(old(state).view(), instance_key@),
        final(state).spec_path() == old(state).spec_path(),
{
    state.set_active_instance(instance_key)
}

/// Attaches a note with time `now` to the active instance.
pub fn add_note_at(state: &mut StateStore, content: &str, now: u64) -> (r: Result<(), HubError>)
    requires
        old(state).wf(),
    ensures
        old(state).spec_unsaved() ==> final(state).spec_unsaved(),
        final(state).view() != old(state).view() ==> final(state).spec_unsaved(),
        final(state).wf(),
        final(state).spec_path() == old(state).spec_path(),
        match spec_active_instance(old(state).view()) {
            Some(active) => r is Ok && final(state).view() == spec_modify(
                old(state).view(),
                active.key,
                with_note(NoteView { timestamp: stamp(now as nat), content: content@ }, now as nat),
            ),
            None => r == Err::<(), HubError>(HubError::NoActiveInstance) && final(state).view()
                == old(state).view(),
        },
{
    let active = match state.get_active_instance() {
        Some(instance) => instance.key.clone(),
        None => {
            return Err(HubError::NoActiveInstance);
        },
    };
    state.record_note_at(&active, Note { timestamp: decimal_string(now), content: owned(content) }, now);
    Ok(())
}

/// Attaches a note, stamped with the current time, to the active instance.
pub fn add_note(state: &mut StateStore, content: &str) -> (r: Result<(), HubError>)
    requires
        old(state).wf(),
    ensures
        old(state).spec_unsaved() ==> final(state).spec_unsaved(),
        final(state).view() != old(state).view() ==> final(state).spec_unsaved(),
        final(state).wf(),
        final(state).spec_path() == old(state).spec_path(),
        match spec_active_instance(old(state).view()) {
            Some(active) => r is Ok && exists|now: u64|
                final(state).view() == spec_modify(
                    old(state).view(),
                    active.key,
                    with_note(
                        NoteView { timestamp: stamp(now as nat), content: content@ },
                        now as nat,
                    ),
                ),
            None => r == Err::<(), HubError>(HubError::NoActiveInstance) && final(state).view()
                == old(state).view(),
        },
{
    let now = crate::state::current_epoch_secs();
    add_note_at(state, content, now)
}

/// The instance a request names, or else the one the hub treats as current.
pub open spec fn spec_instance_or_active(c: ConfigView, sv: StateView, id: Option<Seq<char>>) -> Option<
    InstanceView,
> {
    match id {
        Some(i) => spec_get_instance(sv, i),
        None => spec_preferred_active(c, sv),
    }
}

/// The instance that `identifier` names, or the current one when none is given.
pub fn resolve_instance_or_active(
    config: &ConfigStore,
    state: &StateStore,
    identifier: Option<&str>,
) -> (r: Result<InstanceState, HubError>)
    requires
        config.wf(),
        state.wf(),
    ensures
        match r {
            Ok(i) => spec_instance_or_active(config.view(), state.view(), str_opt(identifier))
                == Some(i@),
            Err(e) => spec_instance_or_active(config.view(), state.view(), str_opt(identifier))
                is None && match identifier {
                Some(id) => e is InstanceNotFound && e->InstanceNotFound_0@ == id@,
                None => e == HubError::NoActiveInstance,
            },
        },
{
    match identifier {
        Some(id) => match state.get_instance(id) {
            Some(i) => Ok(i.clone()),
            None => Err(HubError::InstanceNotFound(owned(id))),
        },
        None => match preferred_active_instance(config, state) {
            Some(i) => Ok(i.clone()),
            None => Err(HubError::NoActiveInstance),
        },
    }
}

/// Notes and call history of one instance.
pub struct SessionReport {
    pub scope: String,
    pub instance: InstanceState,
    pub notes: Vec<Note>,
    pub call_history: Vec<ToolCallRecord>,
}

/// `get_session`: the scope in lower case (default `full`), the instance without its notes
/// and history, its notes unless the scope is `history`, and its last `max(limit, 1)`
/// calls unless the scope is `notes` or `limit` is 0.
pub open spec fn session_ok(
    s: SessionReport,
    sv: StateView,
    inst: InstanceView,
    scope: Option<Seq<char>>,
    limit: nat,
) -> bool {
    let sc = lower(
        match scope {
            Some(x) => x,
            None => "full"@,
        },
    );
    &&& s.scope@ == sc
    &&& s.instance@ == InstanceView { notes: Seq::empty(), call_history: Seq::empty(), ..inst }
    &&& notes_view(s.notes@) == (if sc == "history"@ {
        Seq::empty()
    } else {
        inst.notes
    })
    &&& records_view(s.call_history@) == (if sc == "notes"@ || limit == 0 {
        Seq::empty()
    } else {
        match spec_get_instance(sv, inst.key) {
            Some(i) => recent_calls(i.call_history, limit),
            None => Seq::empty(),
        }
    })
}

/// The session of an instance (or the current one).
pub fn get_session(
    config: &ConfigStore,
    state: &StateStore,
    instance: Option<&str>,
    scope: Option<&str>,
    limit: usize,
) -> (r: Result<SessionReport, HubError>)
    requires
        config.wf(),
        state.wf(),
    ensures
        match r {
            Ok(s) => (spec_instance_or_active(config.view(), state.view(), str_opt(instance)) matches Some(
                inst,
            ) && session_ok(s, state.view(), inst, str_opt(scope), limit as nat)),
            Err(e) => spec_instance_or_active(config.view(), state.view(), str_opt(instance))
                is None,
        },
{
    let instance = match resolve_instance_or_active(config, state, instance) {
        Ok(i) => i,
        Err(e) => {
            return Err(e);
        },
    };
    let scope = match scope {
        Some(s) => to_ascii_lowercase(s),
        None => to_ascii_lowercase("full"),
    };
    let mut session_instance = instance.clone();
    session_instance.notes = Vec::new();
    session_instance.call_history = Vec::new();
    assert(notes_view(session_instance.notes@) =~= Seq::<NoteView>::empty());
    assert(records_view(session_instance.call_history@) =~= Seq::<ToolCallRecordView>::empty());
    let notes = if str_eq(&scope, "history") {
        let n: Vec<Note> = Vec::new();
        assert(notes_view(n@) =~= Seq::<NoteView>::empty());
        n
    } else {
        clone_notes(&instance.notes)
    };
    let call_history = if str_eq(&scope, "notes") || limit == 0 {
        let h: Vec<ToolCallRecord> = Vec::new();
        assert(records_view(h@) =~= Seq::<ToolCallRecordView>::empty());
        h
    } else {
        state.get_call_history(&instance.key, limit)
    };
    Ok(SessionReport { scope, instance: session_instance, notes, call_history })
}

/// Sets the plugin source parts that are given and reports both.
pub fn set_plugin_source(config: &mut ConfigStore, local_path: Option<&str>, repo_url: Option<&str>) -> (r:
    String)
    requires
        old(config).wf(),
    ensures
        old(config).spec_unsaved() ==> final(config).spec_unsaved(),
        final(config).view() != old(config).view() ==> final(config).spec_unsaved(),
        final(config).wf(),
        final(config).spec_path() == old(config).spec_path(),
        final(config).view() == (ConfigView {
            plugin_source_local: match local_path {
                Some(p) => p@,
                None => old(config).view().plugin_source_local,
            },
            plugin_source_repo: match repo_url {
                Some(u) => u@,
                None => old(config).view().plugin_source_repo,
            },
            ..old(config).view()
        }),
        r@ == "plugin_source_local="@ + final(config).view().plugin_source_local
            + "\nplugin_source_repo="@ + final(config).view().plugin_source_repo,
{
    match local_path {
        Some(p) => config.set_plugin_source_local(p),
        None => {},
    }
    match repo_url {
        Some(u) => config.set_plugin_source_repo(u),
        None => {},
    }
    let a = concat2("plugin_source_local=", config.plugin_source_local());
    let b = concat2("\nplugin_source_repo=", config.plugin_source_repo());
    concat2(&a, &b)
}


// ---------------------------------------------------------------------------
// Status, notes and tool calls
// ---------------------------------------------------------------------------

/// The hub's status.
pub struct HubStatus {
    pub configured_projects: Vec<ProjectSummary>,
    pub active_project: String,
    pub active_instance: Option<InstanceState>,
    pub known_instances: Vec<InstanceState>,
    pub plugin_source_local: String,
    pub plugin_source_repo: String,
    pub mcphub_submodule_path: String,
}

/// The hub's status over `config` and `state`; `mcphub_submodule_path` is where the bundled
/// MCPHub is.
pub fn hub_status(config: &ConfigStore, state: &StateStore, mcphub_submodule_path: String) -> (r:
    HubStatus)
    requires
        config.wf(),
        state.wf(),
    ensures
        r.configured_projects@.len() == config.view().projects.len(),
        forall|i: int|
            0 <= i < r.configured_projects@.len() ==> (#[trigger] r.configured_projects@[i])@
                == spec_project_summary(config.view().projects[i].0, config.view().projects[i].1),
        r.active_project@ == config.view().active_project,
        match r.active_instance {
            Some(i) => spec_preferred_active(config.view(), state.view()) == Some(i@),
            None => spec_preferred_active(config.view(), state.view()) is None,
        },
        r.known_instances@.len() == state.view().instances.len(),
        forall|i: int|
            0 <= i < r.known_instances@.len() ==> (#[trigger] r.known_instances@[i])@
                == state.view().instances[i].1,
        r.plugin_source_local@ == config.view().plugin_source_local,
        r.plugin_source_repo@ == config.view().plugin_source_repo,
        r.mcphub_submodule_path == mcphub_submodule_path,
{
    let list = state.list_instances();
    let mut known: Vec<InstanceState> = Vec::new();
    let mut i: usize = 0;
    while i < list.len()
        invariant
            list@.len() == state.view().instances.len(),
            forall|j: int| 0 <= j < list@.len() ==> (#[trigger] list@[j])@ == state.view().instances[j].1,
            0 <= i <= list@.len(),
            known@.len() == i,
            forall|j: int| 0 <= j < i ==> (#[trigger] known@[j])@ == state.view().instances[j].1,
        decreases list@.len() - i,
    {
        known.push(list[i].clone());
        i = i + 1;
    }
    HubStatus {
        configured_projects: get_project_config(config),
        active_project: owned(config.active_project_name()),
        active_instance: match preferred_active_instance(config, state) {
            Some(i) => Some(i.clone()),
            None => None,
        },
        known_instances: known,
        plugin_source_local: owned(config.plugin_source_local()),
        plugin_source_repo: owned(config.plugin_source_repo()),
        mcphub_submodule_path,
    }
}

/// The notes of the active instance.
pub fn get_notes(state: &StateStore) -> (r: Result<Vec<Note>, HubError>)
    requires
        state.wf(),
    ensures
        match spec_active_instance(state.view()) {
            Some(active) => r matches Ok(n) && notes_view(n@) == active.notes,
            None => r == Err::<Vec<Note>, HubError>(HubError::NoActiveInstance),
        },
{
    match state.get_active_instance() {
        Some(i) => Ok(clone_notes(&i.notes)),
        None => Err(HubError::NoActiveInstance),
    }
}

/// What MCPHub is told to register: a target's id, URL and display name.
pub struct McphubRegistration {
    pub endpoint_id: String,
    pub endpoint_url: String,
    pub endpoint_name: String,
}

/// The registration that mirrors the target a request addresses into MCPHub.
pub fn sync_mcphub(config: &ConfigStore, project_name: Option<&str>, mcp_id: Option<&str>) -> (r:
    Result<McphubRegistration, HubError>)
    requires
        config.wf(),
    ensures
        ({
            let c = config.view();
            match crate::projects::spec_request_project(c, str_opt(project_name)) {
                None => r == Err::<McphubRegistration, HubError>(HubError::NoProjectSelected),
                Some(name) => match lookup(c.projects, name) {
                    None => r matches Err(HubError::ProjectNotFound(n)) && n@ == name,
                    Some(p) => match crate::projects::spec_request_endpoint(p, str_opt(mcp_id)) {
                        None => r == Err::<McphubRegistration, HubError>(HubError::NoMcpSelected),
                        Some(e) => r matches Ok(g) && g.endpoint_id@ == e.endpoint_id
                            && g.endpoint_url@ == spec_endpoint_url(e) && g.endpoint_name@
                            == crate::projects::spec_display_name(name, p, e),
                    },
                },
            }
        }),
{
    match crate::projects::resolve_project_and_endpoint(config, project_name, mcp_id) {
        Ok((name, project, endpoint)) => Ok(
            McphubRegistration {
                endpoint_id: endpoint.endpoint_id.clone(),
                endpoint_url: project_endpoint_url(&endpoint),
                endpoint_name: crate::projects::endpoint_display_name(
                    name.as_str(),
                    &project,
                    &endpoint,
                ),
            },
        ),
        Err(e) => Err(e),
    }
}

/// A tool call's outcome, with the target and instance it went to.
pub struct EndpointToolEnvelope {
    pub project_name: String,
    pub endpoint_id: String,
    pub instance_key: String,
    pub endpoint_url: String,
    pub output: ToolCallOutput,
}

/// The instance a call to a project's target is recorded on: the target's first recorded
/// instance, else the key an instance of it would have.
pub open spec fn spec_call_instance_key(sv: StateView, project: Seq<char>, e: EndpointView) -> Seq<
    char,
> {
    match spec_instance_for_endpoint(sv, project, e.endpoint_id) {
        Some(i) => i.key,
        None => crate::state::spec_instance_key(project, e.endpoint_id, e.port),
    }
}

/// Records, at time `now`, a call of tool `tool_name` on a project's target that gave
/// `output` (on the target's instance, when one is recorded), and wraps the outcome.
pub fn record_tool_call_at(
    state: &mut StateStore,
    project_name: String,
    endpoint: &ProjectMcpEndpoint,
    tool_name: &str,
    output: ToolCallOutput,
    now: u64,
) -> (r: EndpointToolEnvelope)
    requires
        old(state).wf(),
    ensures
        old(state).spec_unsaved() ==> final(state).spec_unsaved(),
        final(state).view() != old(state).view() ==> final(state).spec_unsaved(),
        final(state).wf(),
        final(state).spec_path() == old(state).spec_path(),
        ({
            let sv = old(state).view();
            let key = spec_call_instance_key(sv, project_name@, endpoint@);
            let rec = ToolCallRecordView {
                timestamp: stamp(now as nat),
                tool_name: tool_name@,
                success: output.success,
                duration_ms: output.duration_ms,
            };
            &&& final(state).view() == (if spec_get_instance(sv, key) is Some {
                spec_modify(sv, key, crate::state::with_call(rec, now as nat))
            } else {
                sv
            })
            &&& r.instance_key@ == key
        }),
        r.project_name@ == project_name@,
        r.endpoint_id@ == endpoint@.endpoint_id,
        r.endpoint_url@ == spec_endpoint_url(endpoint@),
        r.output == output,
{
    let key = match preferred_active_instance_for_endpoint(
        state,
        project_name.as_str(),
        endpoint.endpoint_id.as_str(),
    ) {
        Some(i) => i.key.clone(),
        None => crate::state::make_instance_key(
            project_name.as_str(),
            endpoint.endpoint_id.as_str(),
            endpoint.port,
        ),
    };
    if state.get_instance(key.as_str()).is_some() {
        state.record_call_at(
            key.as_str(),
            ToolCallRecord {
                timestamp: decimal_string(now),
                tool_name: owned(tool_name),
                success: output.success,
                duration_ms: output.duration_ms,
            },
            now,
        );
    }
    EndpointToolEnvelope {
        project_name,
        endpoint_id: endpoint.endpoint_id.clone(),
        instance_key: key,
        endpoint_url: project_endpoint_url(endpoint),
        output,
    }
}

} // verus!
