//! Binding Unreal projects: the MCP targets a project is saved with, when a saved binding
//! is refreshed, and which project and target a request addresses.
use vstd::prelude::*;

use crate::config::{
    id_pred, spec_active_endpoint, spec_save_project, spec_with_endpoint, strategies_view,
    ConfigStore, ConfigView, EndpointDiscoveryStrategy, EndpointView, ProjectEntry,
    ProjectMcpEndpoint, ProjectView,
};
use crate::orchestrator::{
    configured_project_summary, spec_default_project, spec_project_summary, str_opt, HubError,
    ProjectSummary,
};
use crate::paths::{
    endpoints_from, file_stem, nested_strings_view, normalize_endpoint_id, path_file_stem,
    read_project_mcp_endpoints, spec_endpoint_id, spec_strategies, UnrealProjectPaths,
};
use crate::smap::{
    first_match, lemma_first_match_at, lemma_first_match_none, lookup, sorted_insert,
};
use crate::state::current_epoch_secs;
use crate::text::{
    chars_of, concat2, concat3, decimal, decimal_string, owned, push_str, str_eq,
    string_from_chars, trim, trim_str,
};

verus! {

broadcast use vstd::string::group_string_axioms;

// ---------------------------------------------------------------------------
// The targets a project is saved with
// ---------------------------------------------------------------------------

/// The target a project gets when no strategy finds one.
pub open spec fn spec_default_endpoint(project: Seq<char>, normalized: Seq<char>) -> EndpointView {
    EndpointView {
        name: project + " default"@,
        endpoint_id: spec_endpoint_id(normalized),
        host: "127.0.0.1"@,
        port: 19840,
        path: "/mcp"@,
        transport: "http"@,
        auto_start: false,
    }
}

/// The targets found by the discovery strategies, else the default target.
pub open spec fn spec_discovered_or_default(
    project: Seq<char>,
    normalized: Seq<char>,
    c: ConfigView,
    files: Seq<Seq<Seq<char>>>,
) -> Seq<EndpointView> {
    let d = endpoints_from(project, c.strategies, files, 0, false);
    if d.len() == 0 {
        seq![spec_default_endpoint(project, normalized)]
    } else {
        d
    }
}

/// The MCP targets of project `project_name` (whose file is named `normalized_project_name`)
/// found by the configured discovery strategies in the INI texts `strategy_files`, else the
/// default target.
pub fn discover_or_default_project_endpoints(
    project_name: &str,
    normalized_project_name: &str,
    config: &ConfigStore,
    strategy_files: &Vec<Vec<String>>,
) -> (r: Vec<ProjectMcpEndpoint>)
    ensures
        r@.map_values(|e: ProjectMcpEndpoint| e@) == spec_discovered_or_default(
            project_name@,
            normalized_project_name@,
            config.view(),
            nested_strings_view(strategy_files@),
        ),
{
    let strategies = config.discovery_strategies();
    let mut found = read_project_mcp_endpoints(project_name, strategies, strategy_files);
    assert(spec_strategies(strategies@) == config.view().strategies);
    if found.len() == 0 {
        let e = ProjectMcpEndpoint {
            name: concat2(project_name, " default"),
            endpoint_id: normalize_endpoint_id(normalized_project_name),
            host: owned("127.0.0.1"),
            port: 19840,
            path: owned("/mcp"),
            transport: owned("http"),
            auto_start: false,
        };
        let ghost ev = e@;
        found.push(e);
        assert(found@.map_values(|e: ProjectMcpEndpoint| e@) =~= seq![ev]);
    }
    found
}

/// The configuration after adding the targets `es`, without activating them, to the saved
/// project `name`.
pub open spec fn spec_add_endpoints(c: ConfigView, name: Seq<char>, es: Seq<EndpointView>) -> ConfigView
    decreases es.len(),
{
    if es.len() == 0 {
        c
    } else {
        let c1 = spec_add_endpoints(c, name, es.drop_last());
        ConfigView {
            projects: sorted_insert(
                c1.projects,
                name,
                spec_with_endpoint(lookup(c1.projects, name)->0, es.last(), false),
            ),
            ..c1
        }
    }
}

/// The configuration after saving project `name` at `paths` with the targets `es` (the first
/// one as the project's target, the others added to it), at time `now`, and making it the
/// active project.
pub open spec fn spec_configured(
    c: ConfigView,
    name: Seq<char>,
    paths: UnrealProjectPaths,
    es: Seq<EndpointView>,
    now: nat,
) -> ConfigView {
    ConfigView { active_project: name, ..spec_saved_with_endpoints(c, name, paths, es, now) }
}

/// The configuration after saving project `name` at `paths` with the targets `es` (the first
/// one as the project's target, the others added to it), at time `now`.
pub open spec fn spec_saved_with_endpoints(
    c: ConfigView,
    name: Seq<char>,
    paths: UnrealProjectPaths,
    es: Seq<EndpointView>,
    now: nat,
) -> ConfigView {
    spec_add_endpoints(
        spec_save_project(
            c,
            name,
            paths.uproject_path@,
            paths.engine_root@,
            paths.engine_association@,
            es[0],
            decimal(now),
        ),
        name,
        es.drop_first(),
    )
}

/// Saves project `project_name` at `paths` with the targets `endpoints` at time `now`, makes
/// it the active project, and reports it; refused when there is no target.
pub fn configure_project_from_uproject_at(
    config: &mut ConfigStore,
    project_name: &str,
    paths: &UnrealProjectPaths,
    endpoints: Vec<ProjectMcpEndpoint>,
    now: u64,
) -> (r: Result<ProjectSummary, HubError>)
    requires
        old(config).wf(),
    ensures
        old(config).spec_unsaved() ==> final(config).spec_unsaved(),
        final(config).view() != old(config).view() ==> final(config).spec_unsaved(),
        final(config).wf(),
        final(config).spec_path() == old(config).spec_path(),
        ({
            let es = endpoints@.map_values(|e: ProjectMcpEndpoint| e@);
            if es.len() == 0 {
                r == Err::<ProjectSummary, HubError>(HubError::NoMcpsDiscovered)
                    && final(config).view() == old(config).view()
            } else {
                let c = spec_configured(old(config).view(), project_name@, *paths, es, now as nat);
                &&& final(config).view() == c
                &&& lookup(c.projects, project_name@) is Some
                &&& r matches Ok(s) && s@ == spec_project_summary(
                    project_name@,
                    lookup(c.projects, project_name@)->0,
                )
            }
        }),
{
    let ghost es = endpoints@.map_values(|e: ProjectMcpEndpoint| e@);
    if endpoints.len() == 0 {
        return Err(HubError::NoMcpsDiscovered);
    }
    let mut rest = endpoints;
    let first = rest.remove(0);
    assert(rest@.map_values(|e: ProjectMcpEndpoint| e@) =~= es.drop_first());
    let ghost tail = es.drop_first();
    proof {
        config.lemma_wf_sorted();
    }
    config.save_project(
        owned(project_name),
        paths.uproject_path.clone(),
        paths.engine_root.clone(),
        paths.engine_association.clone(),
        first,
        decimal_string(now),
    );
    let ghost c0 = config.view();
    proof {
        config.lemma_wf_sorted();
        crate::smap::law_get_after_insert(
            old(config).view().projects,
            project_name@,
            crate::config::spec_saved_project(
                lookup(old(config).view().projects, project_name@),
                paths.uproject_path@,
                paths.engine_root@,
                paths.engine_association@,
                es[0],
                decimal(now as nat),
            ),
            project_name@,
        );
    }
    let mut i: usize = 0;
    while i < rest.len()
        invariant
            0 <= i <= rest@.len(),
            tail == rest@.map_values(|e: ProjectMcpEndpoint| e@),
            config.wf(),
            config.spec_path() == old(config).spec_path(),
            config.spec_unsaved(),
            config.view() == spec_add_endpoints(c0, project_name@, tail.take(i as int)),
            lookup(config.view().projects, project_name@) is Some,
        decreases rest@.len() - i,
    {
        assert(tail.take(i + 1).drop_last() =~= tail.take(i as int));
        let e = rest[i].clone();
        proof {
            config.lemma_wf_sorted();
        }
        let _ = config.save_project_endpoint(project_name, e, false);
        proof {
            crate::smap::law_get_after_insert(
                spec_add_endpoints(c0, project_name@, tail.take(i as int)).projects,
                project_name@,
                spec_with_endpoint(
                    lookup(
                        spec_add_endpoints(c0, project_name@, tail.take(i as int)).projects,
                        project_name@,
                    )->0,
                    tail[i as int],
                    false,
                ),
                project_name@,
            );
        }
        i = i + 1;
    }
    assert(tail.take(tail.len() as int) =~= tail);
    proof {
        config.lemma_wf_sorted();
        crate::smap::lemma_lookup_some(config.view().projects, project_name@);
    }
    let _ = config.set_active_project(project_name);
    configured_project_summary(config, project_name)
}

/// `configure_project_from_uproject_at` at the current time.
pub fn configure_project_from_uproject(
    config: &mut ConfigStore,
    project_name: &str,
    paths: &UnrealProjectPaths,
    endpoints: Vec<ProjectMcpEndpoint>,
) -> (r: Result<ProjectSummary, HubError>)
    requires
        old(config).wf(),
    ensures
        old(config).spec_unsaved() ==> final(config).spec_unsaved(),
        final(config).view() != old(config).view() ==> final(config).spec_unsaved(),
        final(config).wf(),
        final(config).spec_path() == old(config).spec_path(),
        ({
            let es = endpoints@.map_values(|e: ProjectMcpEndpoint| e@);
            if es.len() == 0 {
                r == Err::<ProjectSummary, HubError>(HubError::NoMcpsDiscovered)
                    && final(config).view() == old(config).view()
            } else {
                exists|now: u64|
                    final(config).view() == #[trigger] spec_configured(
                        old(config).view(),
                        project_name@,
                        *paths,
                        es,
                        now as nat,
                    )
            }
        }),
{
    let now = current_epoch_secs();
    configure_project_from_uproject_at(config, project_name, paths, endpoints, now)
}

pub open spec fn endpoints_of(v: Seq<ProjectMcpEndpoint>) -> Seq<EndpointView> {
    v.map_values(|e: ProjectMcpEndpoint| e@)
}

fn same_endpoint(a: &ProjectMcpEndpoint, b: &ProjectMcpEndpoint) -> (r: bool)
    ensures
        r == (a@ == b@),
{
    str_eq(a.name.as_str(), b.name.as_str()) && str_eq(a.endpoint_id.as_str(), b.endpoint_id.as_str())
        && str_eq(a.host.as_str(), b.host.as_str()) && a.port == b.port && str_eq(
        a.path.as_str(),
        b.path.as_str(),
    ) && str_eq(a.transport.as_str(), b.transport.as_str()) && a.auto_start == b.auto_start
}

/// Whether a saved project has to be saved again: its project file or engine root is no
/// longer the same path (`same_uproject`, `same_engine_root`), or the targets found now
/// (`discovered`) differ from the saved ones.
pub fn project_entry_needs_refresh(
    entry: &ProjectEntry,
    same_uproject: bool,
    same_engine_root: bool,
    discovered: &Vec<ProjectMcpEndpoint>,
) -> (r: bool)
    ensures
        r == (!same_uproject || !same_engine_root || entry@.endpoints != endpoints_of(
            discovered@,
        )),
{
    if !same_uproject || !same_engine_root {
        return true;
    }
    if entry.endpoints.len() != discovered.len() {
        assert(entry@.endpoints.len() != endpoints_of(discovered@).len());
        return true;
    }
    let mut i: usize = 0;
    while i < discovered.len()
        invariant
            0 <= i <= discovered@.len(),
            entry@.endpoints.len() == discovered@.len(),
            forall|j: int| 0 <= j < i ==> entry@.endpoints[j] == (#[trigger] discovered@[j])@,
        decreases discovered@.len() - i,
    {
        if !same_endpoint(&entry.endpoints[i], &discovered[i]) {
            assert(entry@.endpoints[i as int] != endpoints_of(discovered@)[i as int]);
            return true;
        }
        i = i + 1;
    }
    assert(entry@.endpoints =~= endpoints_of(discovered@));
    false
}

// ---------------------------------------------------------------------------
// The project and target a request addresses
// ---------------------------------------------------------------------------

/// The project a request names (trimmed), else the active or only project.
pub open spec fn spec_request_project(c: ConfigView, project: Option<Seq<char>>) -> Option<Seq<char>> {
    if project is Some && trim(project->0).len() > 0 {
        Some(trim(project->0))
    } else {
        spec_default_project(c)
    }
}

/// The target a request names (trimmed) when the project has it, else the project's active
/// target.
pub open spec fn spec_request_endpoint(p: ProjectView, id: Option<Seq<char>>) -> Option<EndpointView> {
    let named = if id is Some && trim(id->0).len() > 0 {
        match first_match(p.endpoints, id_pred(trim(id->0))) {
            Some(k) => Some(p.endpoints[k]),
            None => None,
        }
    } else {
        None
    };
    if named is Some {
        named
    } else {
        spec_active_endpoint(p)
    }
}

fn find_endpoint_by_id(project: &ProjectEntry, id: &str) -> (r: Option<ProjectMcpEndpoint>)
    ensures
        match r {
            Some(e) => first_match(project@.endpoints, id_pred(id@)) matches Some(k)
                && project@.endpoints[k] == e@,
            None => first_match(project@.endpoints, id_pred(id@)) is None,
        },
{
    let ghost f = id_pred(id@);
    let mut i: usize = 0;
    while i < project.endpoints.len()
        invariant
            0 <= i <= project@.endpoints.len(),
            f == id_pred(id@),
            forall|j: int| 0 <= j < i ==> !f(#[trigger] project@.endpoints[j]),
        decreases project@.endpoints.len() - i,
    {
        if str_eq(project.endpoints[i].endpoint_id.as_str(), id) {
            proof {
                lemma_first_match_at(project@.endpoints, f, i as int);
            }
            return Some(project.endpoints[i].clone());
        }
        i = i + 1;
    }
    proof {
        lemma_first_match_none(project@.endpoints, f);
    }
    None
}

/// The project (its name and entry) and the MCP target a request addresses.
pub fn resolve_project_and_endpoint(
    config: &ConfigStore,
    project_name: Option<&str>,
    endpoint_id: Option<&str>,
) -> (r: Result<(String, ProjectEntry, ProjectMcpEndpoint), HubError>)
    requires
        config.wf(),
    ensures
        ({
            let c = config.view();
            match spec_request_project(c, str_opt(project_name)) {
                None => r == Err::<(String, ProjectEntry, ProjectMcpEndpoint), HubError>(
                    HubError::NoProjectSelected,
                ),
                Some(name) => match lookup(c.projects, name) {
                    None => r matches Err(HubError::ProjectNotFound(n)) && n@ == name,
                    Some(p) => match spec_request_endpoint(p, str_opt(endpoint_id)) {
                        None => r == Err::<(String, ProjectEntry, ProjectMcpEndpoint), HubError>(
                            HubError::NoMcpSelected,
                        ),
                        Some(e) => r matches Ok(t) && t.0@ == name && t.1@ == p && t.2@ == e,
                    },
                },
            }
        }),
{
    let name = match project_name {
        Some(n) => {
            let t = trim_str(n);
            if t.as_str().is_empty() {
                None
            } else {
                Some(t)
            }
        },
        None => None,
    };
    let name = match name {
        Some(n) => n,
        None => {
            if !config.active_project_name().is_empty() {
                owned(config.active_project_name())
            } else if config.list_projects().len() == 1 {
                config.list_projects().key_at(0).clone()
            } else {
                return Err(HubError::NoProjectSelected);
            }
        },
    };
    let project = match config.list_projects().get(name.as_str()) {
        Some(p) => p.clone(),
        None => {
            return Err(HubError::ProjectNotFound(name));
        },
    };
    let named = match endpoint_id {
        Some(id) => {
            let t = trim_str(id);
            if t.as_str().is_empty() {
                None
            } else {
                find_endpoint_by_id(&project, t.as_str())
            }
        },
        None => None,
    };
    let endpoint = match named {
        Some(e) => e,
        None => match project.get_active_endpoint() {
            Some(e) => e.clone(),
            None => {
                return Err(HubError::NoMcpSelected);
            },
        },
    };
    Ok((name, project, endpoint))
}

/// How a target is named to MCPHub: the project file's stem (else the project name), a
/// space, and the target's name (its id when the name is blank).
pub open spec fn spec_display_name(project_name: Seq<char>, p: ProjectView, e: EndpointView) -> Seq<
    char,
> {
    let label = match path_file_stem(p.uproject_path) {
        Some(s) => s,
        None => project_name,
    };
    label + " "@ + (if trim(e.name).len() == 0 {
        e.endpoint_id
    } else {
        e.name
    })
}

pub fn endpoint_display_name(project_name: &str, project: &ProjectEntry, endpoint: &ProjectMcpEndpoint) -> (r:
    String)
    ensures
        r@ == spec_display_name(project_name@, project@, endpoint@),
{
    let label = match file_stem(project.uproject_path.as_str()) {
        Some(s) => s,
        None => owned(project_name),
    };
    let t = trim_str(endpoint.name.as_str());
    if t.as_str().is_empty() {
        concat3(label.as_str(), " ", endpoint.endpoint_id.as_str())
    } else {
        concat3(label.as_str(), " ", endpoint.name.as_str())
    }
}


/// The name a project is set up under: the one given, else its project file's stem, else
/// `Unreal`.
pub fn default_project_name(name: Option<String>, uproject_path: &str) -> (r: String)
    ensures
        r@ == match name {
            Some(n) => n@,
            None => match path_file_stem(uproject_path@) {
                Some(s) => s,
                None => "Unreal"@,
            },
        },
{
    match name {
        Some(n) => n,
        None => match file_stem(uproject_path) {
            Some(s) => s,
            None => owned("Unreal"),
        },
    }
}

/// The first configured project (in name order) whose project file is the one found in the
/// current directory; `same_file[i]` tells whether project `i`'s file is that path.
pub fn configured_project_for(config: &ConfigStore, same_file: &Vec<bool>) -> (r: Option<String>)
    ensures
        match r {
            Some(n) => exists|i: int|
                0 <= i < config.view().projects.len() && i < same_file@.len() && same_file@[i]
                    && config.view().projects[i].0 == n@ && forall|j: int|
                    0 <= j < i && j < same_file@.len() ==> !#[trigger] same_file@[j],
            None => forall|i: int|
                0 <= i < config.view().projects.len() && i < same_file@.len() ==> !#[trigger] same_file@[i],
        },
{
    let projects = config.list_projects();
    let mut i: usize = 0;
    while i < projects.len() && i < same_file.len()
        invariant
            projects.pairs() == config.view().projects,
            0 <= i <= projects.pairs().len(),
            i <= same_file@.len(),
            forall|j: int| 0 <= j < i ==> !#[trigger] same_file@[j],
        decreases projects.pairs().len() - i,
    {
        if same_file[i] {
            return Some(projects.key_at(i).clone());
        }
        i = i + 1;
    }
    None
}


/// What binding the project file found in the current directory does.
pub enum BindAction {
    /// A configured project has that file: make it active, refreshing its saved binding
    /// first when `bind_needs_refresh` says so.
    Existing(String),
    /// No configured project has that file: set one up under the name of its file.
    New(String),
}

/// The binding of project file `uproject_path` found in the current directory;
/// `same_file[i]` tells whether configured project `i`'s file is that path.
pub fn bind_action(config: &ConfigStore, same_file: &Vec<bool>, uproject_path: &str) -> (r: BindAction)
    ensures
        match r {
            BindAction::Existing(n) => exists|i: int|
                0 <= i < config.view().projects.len() && i < same_file@.len() && same_file@[i]
                    && config.view().projects[i].0 == n@ && forall|j: int|
                    0 <= j < i && j < same_file@.len() ==> !#[trigger] same_file@[j],
            BindAction::New(n) => (forall|i: int|
                0 <= i < config.view().projects.len() && i < same_file@.len() ==> !#[trigger] same_file@[i])
                && n@ == match path_file_stem(uproject_path@) {
                Some(s) => s,
                None => "Unreal"@,
            },
        },
{
    match configured_project_for(config, same_file) {
        Some(n) => BindAction::Existing(n),
        None => BindAction::New(default_project_name(None, uproject_path)),
    }
}

/// Whether binding configured project `name` saves it again first: when its entry is gone,
/// or `project_entry_needs_refresh` holds of it.
pub fn bind_needs_refresh(
    config: &ConfigStore,
    name: &str,
    same_uproject: bool,
    same_engine_root: bool,
    discovered: &Vec<ProjectMcpEndpoint>,
) -> (r: bool)
    requires
        config.wf(),
    ensures
        r == match lookup(config.view().projects, name@) {
            Some(e) => !same_uproject || !same_engine_root || e.endpoints != endpoints_of(
                discovered@,
            ),
            None => true,
        },
{
    match config.list_projects().get(name) {
        Some(entry) => project_entry_needs_refresh(entry, same_uproject, same_engine_root, discovered),
        None => true,
    }
}

} // verus!
