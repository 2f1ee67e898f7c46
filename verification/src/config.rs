//! The persisted project configuration: configured projects with their MCP targets,
//! the active project, discovery strategies and the plugin source.
use vstd::prelude::*;

use crate::smap::{
    first_match, has_key, lemma_first_match_at, lemma_first_match_none, lookup, sorted_insert,
    SortedMap,
};
use crate::text::{owned, str_eq};

verus! {

broadcast use vstd::string::group_string_axioms;

// ---------------------------------------------------------------------------
// Records
// ---------------------------------------------------------------------------

/// One MCP target of a project.
pub struct ProjectMcpEndpoint {
    pub name: String,
    pub endpoint_id: String,
    pub host: String,
    pub port: u16,
    pub path: String,
    pub transport: String,
    pub auto_start: bool,
}

pub struct EndpointView {
    pub name: Seq<char>,
    pub endpoint_id: Seq<char>,
    pub host: Seq<char>,
    pub port: u16,
    pub path: Seq<char>,
    pub transport: Seq<char>,
    pub auto_start: bool,
}

impl View for ProjectMcpEndpoint {
    type V = EndpointView;

    open spec fn view(&self) -> EndpointView {
        EndpointView {
            name: self.name@,
            endpoint_id: self.endpoint_id@,
            host: self.host@,
            port: self.port,
            path: self.path@,
            transport: self.transport@,
            auto_start: self.auto_start,
        }
    }
}

impl Clone for ProjectMcpEndpoint {
    fn clone(&self) -> (r: Self)
        ensures
            r@ == self@,
    {
        ProjectMcpEndpoint {
            name: self.name.clone(),
            endpoint_id: self.endpoint_id.clone(),
            host: self.host.clone(),
            port: self.port,
            path: self.path.clone(),
            transport: self.transport.clone(),
            auto_start: self.auto_start,
        }
    }
}

/// Where and how a plugin's MCP settings are read from a project's INI files.
pub struct EndpointDiscoveryStrategy {
    pub name: String,
    pub config_files: Vec<String>,
    pub section: String,
    pub enable_key: Option<String>,
    pub host_key: Option<String>,
    pub port_key: Option<String>,
    pub path_key: Option<String>,
    pub transport_key: Option<String>,
    pub auto_start_key: Option<String>,
    pub default_port: u16,
}

pub struct StrategyView {
    pub name: Seq<char>,
    pub config_files: Seq<Seq<char>>,
    pub section: Seq<char>,
    pub enable_key: Option<Seq<char>>,
    pub host_key: Option<Seq<char>>,
    pub port_key: Option<Seq<char>>,
    pub path_key: Option<Seq<char>>,
    pub transport_key: Option<Seq<char>>,
    pub auto_start_key: Option<Seq<char>>,
    pub default_port: u16,
}

pub open spec fn opt_view(o: Option<String>) -> Option<Seq<char>> {
    match o {
        Some(s) => Some(s@),
        None => None,
    }
}

pub open spec fn strings_view(v: Seq<String>) -> Seq<Seq<char>> {
    v.map_values(|s: String| s@)
}

impl View for EndpointDiscoveryStrategy {
    type V = StrategyView;

    open spec fn view(&self) -> StrategyView {
        StrategyView {
            name: self.name@,
            config_files: strings_view(self.config_files@),
            section: self.section@,
            enable_key: opt_view(self.enable_key),
            host_key: opt_view(self.host_key),
            port_key: opt_view(self.port_key),
            path_key: opt_view(self.path_key),
            transport_key: opt_view(self.transport_key),
            auto_start_key: opt_view(self.auto_start_key),
            default_port: self.default_port,
        }
    }
}

/// A configured Unreal project.
pub struct ProjectEntry {
    pub uproject_path: String,
    pub engine_root: String,
    pub engine_association: String,
    pub endpoints: Vec<ProjectMcpEndpoint>,
    pub active_endpoint: String,
    pub configured_at: String,
}

pub struct ProjectView {
    pub uproject_path: Seq<char>,
    pub engine_root: Seq<char>,
    pub engine_association: Seq<char>,
    pub endpoints: Seq<EndpointView>,
    pub active_endpoint: Seq<char>,
    pub configured_at: Seq<char>,
}

pub open spec fn endpoints_view(v: Seq<ProjectMcpEndpoint>) -> Seq<EndpointView> {
    v.map_values(|e: ProjectMcpEndpoint| e@)
}

impl View for ProjectEntry {
    type V = ProjectView;

    open spec fn view(&self) -> ProjectView {
        ProjectView {
            uproject_path: self.uproject_path@,
            engine_root: self.engine_root@,
            engine_association: self.engine_association@,
            endpoints: endpoints_view(self.endpoints@),
            active_endpoint: self.active_endpoint@,
            configured_at: self.configured_at@,
        }
    }
}

pub fn clone_endpoints(v: &Vec<ProjectMcpEndpoint>) -> (r: Vec<ProjectMcpEndpoint>)
    ensures
        endpoints_view(r@) == endpoints_view(v@),
{
    let mut r: Vec<ProjectMcpEndpoint> = Vec::new();
    let mut i: usize = 0;
    while i < v.len()
        invariant
            0 <= i <= v@.len(),
            r@.len() == i,
            forall|j: int| 0 <= j < i ==> (#[trigger] r@[j])@ == v@[j]@,
        decreases v@.len() - i,
    {
        r.push(v[i].clone());
        i = i + 1;
    }
    assert(endpoints_view(r@) =~= endpoints_view(v@));
    r
}

impl Clone for ProjectEntry {
    fn clone(&self) -> (r: Self)
        ensures
            r@ == self@,
    {
        ProjectEntry {
            uproject_path: self.uproject_path.clone(),
            engine_root: self.engine_root.clone(),
            engine_association: self.engine_association.clone(),
            endpoints: clone_endpoints(&self.endpoints),
            active_endpoint: self.active_endpoint.clone(),
            configured_at: self.configured_at.clone(),
        }
    }
}

impl Default for ProjectEntry {
    fn default() -> (r: Self)
        ensures
            r@ == empty_project(),
    {
        let r = ProjectEntry {
            uproject_path: String::new(),
            engine_root: String::new(),
            engine_association: String::new(),
            endpoints: Vec::new(),
            active_endpoint: String::new(),
            configured_at: String::new(),
        };
        assert(r@.endpoints =~= Seq::<EndpointView>::empty());
        r
    }
}

/// The whole configuration.
pub struct AppConfig {
    pub projects: SortedMap<ProjectEntry>,
    pub active_project: String,
    pub discovery_strategies: Vec<EndpointDiscoveryStrategy>,
    pub plugin_source_local: String,
    pub plugin_source_repo: String,
}

pub struct ConfigView {
    pub projects: Seq<(Seq<char>, ProjectView)>,
    pub active_project: Seq<char>,
    pub strategies: Seq<StrategyView>,
    pub plugin_source_local: Seq<char>,
    pub plugin_source_repo: Seq<char>,
}

pub open spec fn strategies_view(v: Seq<EndpointDiscoveryStrategy>) -> Seq<StrategyView> {
    v.map_values(|s: EndpointDiscoveryStrategy| s@)
}

pub open spec fn config_view(c: AppConfig) -> ConfigView {
    ConfigView {
        projects: c.projects.pairs(),
        active_project: c.active_project@,
        strategies: strategies_view(c.discovery_strategies@),
        plugin_source_local: c.plugin_source_local@,
        plugin_source_repo: c.plugin_source_repo@,
    }
}

impl Default for AppConfig {
    /// No projects, no active project, the built-in discovery strategies, no plugin source.
    fn default() -> (r: Self)
        ensures
            config_view(r) == (ConfigView {
                projects: Seq::empty(),
                active_project: Seq::empty(),
                strategies: builtin_strategies(),
                plugin_source_local: Seq::empty(),
                plugin_source_repo: Seq::empty(),
            }),
            r.projects.wf(),
    {
        AppConfig {
            projects: SortedMap::new(),
            active_project: String::new(),
            discovery_strategies: builtin_discovery_strategies(),
            plugin_source_local: String::new(),
            plugin_source_repo: String::new(),
        }
    }
}

// ---------------------------------------------------------------------------
// The model
// ---------------------------------------------------------------------------

pub open spec fn empty_project() -> ProjectView {
    ProjectView {
        uproject_path: Seq::empty(),
        engine_root: Seq::empty(),
        engine_association: Seq::empty(),
        endpoints: Seq::empty(),
        active_endpoint: Seq::empty(),
        configured_at: Seq::empty(),
    }
}

pub open spec fn id_pred(id: Seq<char>) -> spec_fn(EndpointView) -> bool {
    |e: EndpointView| e.endpoint_id == id
}

/// The active MCP target of a project: the one whose id is recorded as active, else the
/// first one.
pub open spec fn spec_active_endpoint(p: ProjectView) -> Option<EndpointView> {
    let first = if p.endpoints.len() > 0 {
        Some(p.endpoints[0])
    } else {
        None
    };
    if p.active_endpoint.len() == 0 {
        first
    } else {
        match first_match(p.endpoints, id_pred(p.active_endpoint)) {
            Some(i) => Some(p.endpoints[i]),
            None => first,
        }
    }
}

/// `normalize`: the recorded active id becomes that of the active target, or empty.
pub open spec fn spec_normalize(p: ProjectView) -> ProjectView {
    ProjectView {
        active_endpoint: match spec_active_endpoint(p) {
            Some(e) => e.endpoint_id,
            None => Seq::empty(),
        },
        ..p
    }
}

/// The targets with `e` stored: it replaces the first target with its id, or is appended.
pub open spec fn upsert_endpoint(eps: Seq<EndpointView>, e: EndpointView) -> Seq<EndpointView> {
    match first_match(eps, id_pred(e.endpoint_id)) {
        Some(i) => eps.update(i, e),
        None => eps.push(e),
    }
}

/// The project record that `save_project` stores.
pub open spec fn spec_saved_project(
    existing: Option<ProjectView>,
    uproject_path: Seq<char>,
    engine_root: Seq<char>,
    engine_association: Seq<char>,
    endpoint: EndpointView,
    configured_at: Seq<char>,
) -> ProjectView {
    let base = match existing {
        Some(p) => p,
        None => empty_project(),
    };
    let updated = ProjectView {
        uproject_path: uproject_path,
        engine_root: engine_root,
        engine_association: engine_association,
        configured_at: configured_at,
        endpoints: upsert_endpoint(base.endpoints, endpoint),
        active_endpoint: if base.active_endpoint.len() == 0 {
            endpoint.endpoint_id
        } else {
            base.active_endpoint
        },
    };
    spec_normalize(updated)
}

/// `save_project`.
pub open spec fn spec_save_project(
    c: ConfigView,
    name: Seq<char>,
    uproject_path: Seq<char>,
    engine_root: Seq<char>,
    engine_association: Seq<char>,
    endpoint: EndpointView,
    configured_at: Seq<char>,
) -> ConfigView {
    ConfigView {
        projects: sorted_insert(
            c.projects,
            name,
            spec_saved_project(
                lookup(c.projects, name),
                uproject_path,
                engine_root,
                engine_association,
                endpoint,
                configured_at,
            ),
        ),
        active_project: if c.active_project.len() == 0 {
            name
        } else {
            c.active_project
        },
        ..c
    }
}

/// The project record after `save_project_endpoint`.
pub open spec fn spec_with_endpoint(p: ProjectView, endpoint: EndpointView, activate: bool) -> ProjectView {
    spec_normalize(
        ProjectView {
            endpoints: upsert_endpoint(p.endpoints, endpoint),
            active_endpoint: if activate || p.active_endpoint.len() == 0 {
                endpoint.endpoint_id
            } else {
                p.active_endpoint
            },
            ..p
        },
    )
}

/// Whether some target of `p` has id `id`.
pub open spec fn has_endpoint(p: ProjectView, id: Seq<char>) -> bool {
    exists|i: int| 0 <= i < p.endpoints.len() && #[trigger] p.endpoints[i].endpoint_id == id
}

// ---------------------------------------------------------------------------
// Built-in discovery strategies
// ---------------------------------------------------------------------------

pub open spec fn builtin_config_files() -> Seq<Seq<char>> {
    seq![
        "Config/DefaultEditorPerProjectUserSettings.ini"@,
        "Saved/Config/WindowsEditor/EditorPerProjectUserSettings.ini"@,
    ]
}

pub open spec fn unrealcopilot_strategy() -> StrategyView {
    StrategyView {
        name: "unrealcopilot"@,
        config_files: builtin_config_files(),
        section: "/Script/UnrealCopilot.UnrealCopilotSettings"@,
        enable_key: None,
        host_key: Some("McpHost"@),
        port_key: Some("McpPort"@),
        path_key: Some("McpPath"@),
        transport_key: Some("Transport"@),
        auto_start_key: Some("bAutoStartMcpServer"@),
        default_port: 19840,
    }
}

pub open spec fn remote_mcp_strategy() -> StrategyView {
    StrategyView {
        name: "remote-mcp"@,
        config_files: builtin_config_files(),
        section: "/Script/RemoteMCP.MCPSetting"@,
        enable_key: Some("bEnable"@),
        host_key: None,
        port_key: Some("Port"@),
        path_key: None,
        transport_key: None,
        auto_start_key: Some("bAutoStart"@),
        default_port: 8422,
    }
}

pub open spec fn builtin_strategies() -> Seq<StrategyView> {
    seq![unrealcopilot_strategy(), remote_mcp_strategy()]
}

fn builtin_config_file_list() -> (r: Vec<String>)
    ensures
        strings_view(r@) == builtin_config_files(),
{
    let mut r: Vec<String> = Vec::new();
    r.push(owned("Config/DefaultEditorPerProjectUserSettings.ini"));
    r.push(owned("Saved/Config/WindowsEditor/EditorPerProjectUserSettings.ini"));
    assert(strings_view(r@) =~= builtin_config_files());
    r
}

/// The strategy for the UnrealCopilot plugin.
pub fn default_unrealcopilot_strategy() -> (s: EndpointDiscoveryStrategy)
    ensures
        s@ == unrealcopilot_strategy(),
{
    EndpointDiscoveryStrategy {
        name: owned("unrealcopilot"),
        config_files: builtin_config_file_list(),
        section: owned("/Script/UnrealCopilot.UnrealCopilotSettings"),
        enable_key: None,
        host_key: Some(owned("McpHost")),
        port_key: Some(owned("McpPort")),
        path_key: Some(owned("McpPath")),
        transport_key: Some(owned("Transport")),
        auto_start_key: Some(owned("bAutoStartMcpServer")),
        default_port: 19840,
    }
}

/// The strategy for the RemoteMCP plugin.
pub fn default_remote_mcp_strategy() -> (s: EndpointDiscoveryStrategy)
    ensures
        s@ == remote_mcp_strategy(),
{
    EndpointDiscoveryStrategy {
        name: owned("remote-mcp"),
        config_files: builtin_config_file_list(),
        section: owned("/Script/RemoteMCP.MCPSetting"),
        enable_key: Some(owned("bEnable")),
        host_key: None,
        port_key: Some(owned("Port")),
        path_key: None,
        transport_key: None,
        auto_start_key: Some(owned("bAutoStart")),
        default_port: 8422,
    }
}

/// The built-in strategies, UnrealCopilot first.
pub fn builtin_discovery_strategies() -> (v: Vec<EndpointDiscoveryStrategy>)
    ensures
        strategies_view(v@) == builtin_strategies(),
{
    let mut v: Vec<EndpointDiscoveryStrategy> = Vec::new();
    v.push(default_unrealcopilot_strategy());
    v.push(default_remote_mcp_strategy());
    assert(strategies_view(v@) =~= builtin_strategies());
    v
}

pub open spec fn has_strategy_named(s: Seq<StrategyView>, name: Seq<char>) -> bool {
    exists|i: int| 0 <= i < s.len() && #[trigger] s[i].name == name
}

/// The strategies with each built-in one whose name is missing appended.
pub open spec fn spec_merge_builtins(s: Seq<StrategyView>) -> Seq<StrategyView> {
    let s1 = if has_strategy_named(s, unrealcopilot_strategy().name) {
        s
    } else {
        s.push(unrealcopilot_strategy())
    };
    if has_strategy_named(s1, remote_mcp_strategy().name) {
        s1
    } else {
        s1.push(remote_mcp_strategy())
    }
}

fn has_strategy(strategies: &Vec<EndpointDiscoveryStrategy>, name: &String) -> (r: bool)
    ensures
        r == has_strategy_named(strategies_view(strategies@), name@),
{
    let mut i: usize = 0;
    while i < strategies.len()
        invariant
            0 <= i <= strategies@.len(),
            forall|j: int| 0 <= j < i ==> (#[trigger] strategies@[j]).name@ != name@,
        decreases strategies@.len() - i,
    {
        if strategies[i].name == *name {
            assert(strategies_view(strategies@)[i as int].name == name@);
            return true;
        }
        i = i + 1;
    }
    assert forall|j: int| 0 <= j < strategies_view(strategies@).len() implies #[trigger] strategies_view(
        strategies@,
    )[j].name != name@ by {
        assert(strategies_view(strategies@)[j] == strategies@[j]@);
    }
    false
}

/// Appends each built-in strategy whose name no strategy has; true when any was appended.
pub fn merge_builtin_discovery_strategies(strategies: &mut Vec<EndpointDiscoveryStrategy>) -> (changed: bool)
    ensures
        strategies_view(final(strategies)@) == spec_merge_builtins(strategies_view(old(strategies)@)),
        changed == (strategies_view(final(strategies)@) != strategies_view(old(strategies)@)),
{
    let ghost s0 = strategies_view(strategies@);
    let mut changed = false;
    let a = default_unrealcopilot_strategy();
    if !has_strategy(strategies, &a.name) {
        strategies.push(a);
        changed = true;
        assert(strategies_view(strategies@) =~= s0.push(unrealcopilot_strategy()));
    }
    let ghost s1 = strategies_view(strategies@);
    let b = default_remote_mcp_strategy();
    if !has_strategy(strategies, &b.name) {
        strategies.push(b);
        changed = true;
        assert(strategies_view(strategies@) =~= s1.push(remote_mcp_strategy()));
    }
    proof {
        if changed {
            assert(strategies_view(strategies@).len() > s0.len());
        }
    }
    changed
}

// ---------------------------------------------------------------------------
// Project entries
// ---------------------------------------------------------------------------

impl ProjectEntry {
    /// The position of the first target with id `id`.
    fn find_endpoint(&self, id: &String) -> (r: Option<usize>)
        ensures
            match r {
                Some(i) => i < self@.endpoints.len() && first_match(self@.endpoints, id_pred(id@))
                    == Some(i as int),
                None => first_match(self@.endpoints, id_pred(id@)) is None && !has_endpoint(
                    self@,
                    id@,
                ),
            },
    {
        let mut i: usize = 0;
        while i < self.endpoints.len()
            invariant
                0 <= i <= self.endpoints@.len(),
                forall|j: int| 0 <= j < i ==> !id_pred(id@)(#[trigger] self@.endpoints[j]),
            decreases self.endpoints@.len() - i,
        {
            if self.endpoints[i].endpoint_id == *id {
                proof {
                    lemma_first_match_at(self@.endpoints, id_pred(id@), i as int);
                }
                return Some(i);
            }
            i = i + 1;
        }
        proof {
            lemma_first_match_none(self@.endpoints, id_pred(id@));
        }
        None
    }

    /// The active MCP target: the one whose id is recorded as active, else the first one.
    pub fn get_active_endpoint(&self) -> (r: Option<&ProjectMcpEndpoint>)
        ensures
            match r {
                Some(e) => spec_active_endpoint(self@) == Some(e@),
                None => spec_active_endpoint(self@) is None,
            },
    {
        let first = if self.endpoints.len() > 0 {
            Some(&self.endpoints[0])
        } else {
            None
        };
        if self.active_endpoint.as_str().is_empty() {
            return first;
        }
        match self.find_endpoint(&self.active_endpoint) {
            Some(i) => Some(&self.endpoints[i]),
            None => first,
        }
    }

    /// Records the active target's id as active, or clears it when there is no target.
    pub fn normalize(&mut self)
        ensures
            final(self)@ == spec_normalize(old(self)@),
    {
        let active = match self.get_active_endpoint() {
            Some(e) => Some(e.endpoint_id.clone()),
            None => None,
        };
        match active {
            Some(id) => {
                self.active_endpoint = id;
            },
            None => {
                self.active_endpoint = String::new();
            },
        }
    }

    /// Stores `endpoint`: it replaces the first target with its id, or is appended.
    fn upsert_endpoint(&mut self, endpoint: ProjectMcpEndpoint)
        ensures
            final(self)@ == (ProjectView {
                endpoints: upsert_endpoint(old(self)@.endpoints, endpoint@),
                ..old(self)@
            }),
    {
        match self.find_endpoint(&endpoint.endpoint_id) {
            Some(i) => {
                let ghost e = endpoint@;
                let _old = self.endpoints.remove(i);
                self.endpoints.insert(i, endpoint);
                assert(self@.endpoints =~= upsert_endpoint(old(self)@.endpoints, e));
            },
            None => {
                let ghost e = endpoint@;
                self.endpoints.push(endpoint);
                assert(self@.endpoints =~= upsert_endpoint(old(self)@.endpoints, e));
            },
        }
    }
}

// ---------------------------------------------------------------------------
// The store
// ---------------------------------------------------------------------------

/// The configuration together with the file it is kept in; `needs_save` tells whether a
/// change was made that the file does not hold yet.
pub struct ConfigStore {
    path: String,
    data: AppConfig,
    unsaved: bool,
}

/// Whether making `endpoint_id` the active target of saved project `name` changes it.
pub open spec fn spec_endpoint_switches(c: ConfigView, name: Seq<char>, endpoint_id: Seq<char>) -> bool {
    lookup(c.projects, name)->0.active_endpoint != endpoint_id
}

/// The configuration after making `endpoint_id` the active target of saved project `name`:
/// the project's active-target field set to it (and the project normalized) when it was
/// another, the rest as it was.
pub open spec fn spec_set_active_endpoint(c: ConfigView, name: Seq<char>, endpoint_id: Seq<char>) -> ConfigView {
    if spec_endpoint_switches(c, name, endpoint_id) {
        ConfigView {
            projects: sorted_insert(
                c.projects,
                name,
                spec_normalize(ProjectView { active_endpoint: endpoint_id, ..lookup(c.projects, name)->0 }),
            ),
            ..c
        }
    } else {
        c
    }
}

impl ConfigStore {
    pub closed spec fn view(&self) -> ConfigView {
        config_view(self.data)
    }

    pub closed spec fn wf(&self) -> bool {
        self.data.projects.wf()
    }

    pub closed spec fn spec_unsaved(&self) -> bool {
        self.unsaved
    }

    pub closed spec fn spec_path(&self) -> Seq<char> {
        self.path@
    }

    /// A well-formed store keeps its projects in ascending name order.
    pub proof fn lemma_wf_sorted(&self)
        requires
            self.wf(),
        ensures
            crate::smap::sorted_keys(self.view().projects),
    {
    }

    /// The store for the file at `path`, given whether that file existed and what was read
    /// from it (`None` where it held no valid configuration): a missing file starts from
    /// the default configuration, the built-in discovery strategies are merged in, every
    /// project is normalized, and the store needs saving when the file was missing or the
    /// merge added a strategy.
    pub fn from_loaded(path: String, existed: bool, parsed: Option<AppConfig>) -> (s: Self)
        requires
            parsed matches Some(c) ==> c.projects.wf(),
        ensures
            s.wf(),
            s.spec_path() == path@,
            ({
                let base = if existed && parsed is Some {
                    config_view(parsed->0)
                } else {
                    ConfigView {
                        projects: Seq::empty(),
                        active_project: Seq::empty(),
                        strategies: builtin_strategies(),
                        plugin_source_local: Seq::empty(),
                        plugin_source_repo: Seq::empty(),
                    }
                };
                &&& s.view() == ConfigView {
                    strategies: spec_merge_builtins(base.strategies),
                    projects: base.projects.map_values(
                        |e: (Seq<char>, ProjectView)| (e.0, spec_normalize(e.1)),
                    ),
                    ..base
                }
                &&& s.spec_unsaved() == (!existed || spec_merge_builtins(base.strategies)
                    != base.strategies)
            }),
    {
        let mut data = if existed {
            match parsed {
                Some(c) => c,
                None => AppConfig::default(),
            }
        } else {
            AppConfig::default()
        };
        let ghost base = config_view(data);
        let merged = merge_builtin_discovery_strategies(&mut data.discovery_strategies);
        let n = data.projects.len();
        let mut i: usize = 0;
        while i < n
            invariant
                n == base.projects.len(),
                0 <= i <= n,
                data.projects.wf(),
                data.projects.pairs().len() == n,
                forall|j: int|
                    0 <= j < n ==> (#[trigger] data.projects.pairs()[j]) == (if j < i {
                        (base.projects[j].0, spec_normalize(base.projects[j].1))
                    } else {
                        base.projects[j]
                    }),
                data.active_project@ == base.active_project,
                data.plugin_source_local@ == base.plugin_source_local,
                data.plugin_source_repo@ == base.plugin_source_repo,
                strategies_view(data.discovery_strategies@) == spec_merge_builtins(base.strategies),
            decreases n - i,
        {
            let mut entry = data.projects.value_at(i).clone();
            entry.normalize();
            data.projects.set_value_at(i, entry);
            i = i + 1;
        }
        let s = ConfigStore { path, data, unsaved: !existed || merged };
        assert(s.view().projects =~= base.projects.map_values(
            |e: (Seq<char>, ProjectView)| (e.0, spec_normalize(e.1)),
        ));
        s
    }

    /// The file the configuration is kept in.
    pub fn path(&self) -> (p: &String)
        ensures
            p@ == self.spec_path(),
    {
        &self.path
    }

    /// The configuration.
    pub fn data(&self) -> (d: &AppConfig)
        ensures
            config_view(*d) == self.view(),
    {
        &self.data
    }

    /// Whether a change was made since the configuration was read or last saved.
    pub fn needs_save(&self) -> (r: bool)
        ensures
            r == self.spec_unsaved(),
    {
        self.unsaved
    }

    /// Records that the configuration was written to its file.
    pub fn mark_saved(&mut self)
        ensures
            final(self).view() == old(self).view(),
            final(self).wf() == old(self).wf(),
            final(self).spec_path() == old(self).spec_path(),
            !final(self).spec_unsaved(),
    {
        self.unsaved = false;
    }

    /// The configured projects, in name order.
    pub fn list_projects(&self) -> (m: &SortedMap<ProjectEntry>)
        ensures
            m.pairs() == self.view().projects,
            m.wf() == self.wf(),
    {
        &self.data.projects
    }

    /// The name of the active project (empty when none is).
    pub fn active_project_name(&self) -> (n: &str)
        ensures
            n@ == self.view().active_project,
    {
        self.data.active_project.as_str()
    }

    /// The active project.
    pub fn get_active_project(&self) -> (r: Option<&ProjectEntry>)
        requires
            self.wf(),
        ensures
            match r {
                Some(p) => lookup(self.view().projects, self.view().active_project) == Some(p@),
                None => lookup(self.view().projects, self.view().active_project) is None,
            },
    {
        self.data.projects.get(self.data.active_project.as_str())
    }

    /// Saves a project with one MCP target, making it active when no project is.
    pub fn save_project(
        &mut self,
        name: String,
        uproject_path: String,
        engine_root: String,
        engine_association: String,
        endpoint: ProjectMcpEndpoint,
        configured_at: String,
    )
        requires
            old(self).wf(),
        ensures
            final(self).wf(),
            final(self).view() == spec_save_project(
                old(self).view(),
                name@,
                uproject_path@,
                engine_root@,
                engine_association@,
                endpoint@,
                configured_at@,
            ),
            final(self).spec_unsaved(),
            final(self).spec_path() == old(self).spec_path(),
    {
        let ghost existing = lookup(self.view().projects, name@);
        let mut entry = match self.data.projects.get(name.as_str()) {
            Some(e) => e.clone(),
            None => ProjectEntry::default(),
        };
        assert(entry@ == match existing {
            Some(p) => p,
            None => empty_project(),
        });
        entry.uproject_path = uproject_path;
        entry.engine_root = engine_root;
        entry.engine_association = engine_association;
        entry.configured_at = configured_at;
        let id = endpoint.endpoint_id.clone();
        entry.upsert_endpoint(endpoint);
        if entry.active_endpoint.as_str().is_empty() {
            entry.active_endpoint = id;
        }
        entry.normalize();
        if self.data.active_project.as_str().is_empty() {
            self.data.active_project = name.clone();
        }
        self.data.projects.insert(name, entry);
        self.unsaved = true;
    }

    /// Makes `name` the active project; false when no project has that name.
    pub fn set_active_project(&mut self, name: &str) -> (r: bool)
        requires
            old(self).wf(),
        ensures
            final(self).wf(),
            r == has_key(old(self).view().projects, name@),
            final(self).view() == (if r {
                ConfigView { active_project: name@, ..old(self).view() }
            } else {
                old(self).view()
            }),
            final(self).spec_unsaved() == (old(self).spec_unsaved() || (r
                && old(self).view().active_project != name@)),
            final(self).spec_path() == old(self).spec_path(),
    {
        if !self.data.projects.contains_key(name) {
            return false;
        }
        if str_eq(&self.data.active_project, name) {
            return true;
        }
        self.data.active_project = owned(name);
        self.unsaved = true;
        true
    }

    /// Makes `endpoint_id` the active MCP target of `project_name`; false when the project
    /// or the target does not exist.
    pub fn set_active_endpoint(&mut self, project_name: &str, endpoint_id: &str) -> (r: bool)
        requires
            old(self).wf(),
        ensures
            final(self).wf(),
            r == (lookup(old(self).view().projects, project_name@) is Some && has_endpoint(
                lookup(old(self).view().projects, project_name@)->0,
                endpoint_id@,
            )),
            final(self).view() == (if r {
                spec_set_active_endpoint(old(self).view(), project_name@, endpoint_id@)
            } else {
                old(self).view()
            }),
            final(self).spec_unsaved() == (old(self).spec_unsaved() || (r
                && spec_endpoint_switches(old(self).view(), project_name@, endpoint_id@))),
            final(self).spec_path() == old(self).spec_path(),
    {
        let mut project = match self.data.projects.get(project_name) {
            Some(p) => p.clone(),
            None => {
                return false;
            },
        };
        let id = owned(endpoint_id);
        if project.find_endpoint(&id).is_none() {
            return false;
        }
        proof {
            let k = first_match(project@.endpoints, id_pred(id@))->0;
            crate::smap::lemma_first_match_some(project@.endpoints, id_pred(id@));
        }
        if project.active_endpoint == id {
            return true;
        }
        project.active_endpoint = id;
        project.normalize();
        self.data.projects.insert(owned(project_name), project);
        self.unsaved = true;
        true
    }

    /// Adds or replaces one MCP target of `project_name`, making it active when asked or
    /// when the project has no active target; false when the project does not exist.
    pub fn save_project_endpoint(
        &mut self,
        project_name: &str,
        endpoint: ProjectMcpEndpoint,
        activate: bool,
    ) -> (r: bool)
        requires
            old(self).wf(),
        ensures
            final(self).wf(),
            r == lookup(old(self).view().projects, project_name@) is Some,
            final(self).view() == (if r {
                ConfigView {
                    projects: sorted_insert(
                        old(self).view().projects,
                        project_name@,
                        spec_with_endpoint(
                            lookup(old(self).view().projects, project_name@)->0,
                            endpoint@,
                            activate,
                        ),
                    ),
                    ..old(self).view()
                }
            } else {
                old(self).view()
            }),
            final(self).spec_unsaved() == (old(self).spec_unsaved() || r),
            final(self).spec_path() == old(self).spec_path(),
    {
        let mut project = match self.data.projects.get(project_name) {
            Some(p) => p.clone(),
            None => {
                return false;
            },
        };
        let id = endpoint.endpoint_id.clone();
        project.upsert_endpoint(endpoint);
        if activate || project.active_endpoint.as_str().is_empty() {
            project.active_endpoint = id;
        }
        project.normalize();
        self.data.projects.insert(owned(project_name), project);
        self.unsaved = true;
        true
    }

    /// The configured local plugin source path.
    pub fn plugin_source_local(&self) -> (s: &str)
        ensures
            s@ == self.view().plugin_source_local,
    {
        self.data.plugin_source_local.as_str()
    }

    /// The configured plugin repository URL.
    pub fn plugin_source_repo(&self) -> (s: &str)
        ensures
            s@ == self.view().plugin_source_repo,
    {
        self.data.plugin_source_repo.as_str()
    }

    pub fn set_plugin_source_local(&mut self, path: &str)
        requires
            old(self).wf(),
        ensures
            final(self).wf(),
            final(self).view() == (ConfigView { plugin_source_local: path@, ..old(self).view() }),
            final(self).spec_unsaved(),
            final(self).spec_path() == old(self).spec_path(),
    {
        self.data.plugin_source_local = owned(path);
        self.unsaved = true;
    }

    pub fn set_plugin_source_repo(&mut self, url: &str)
        requires
            old(self).wf(),
        ensures
            final(self).wf(),
            final(self).view() == (ConfigView { plugin_source_repo: url@, ..old(self).view() }),
            final(self).spec_unsaved(),
            final(self).spec_path() == old(self).spec_path(),
    {
        self.data.plugin_source_repo = owned(url);
        self.unsaved = true;
    }

    /// The discovery strategies, in order.
    pub fn discovery_strategies(&self) -> (s: &[EndpointDiscoveryStrategy])
        ensures
            strategies_view(s@) == self.view().strategies,
    {
        self.data.discovery_strategies.as_slice()
    }
}


// ---------------------------------------------------------------------------
// Where the hub keeps its files
// ---------------------------------------------------------------------------

/// `dirs::home_dir`, as text. Which directory it names depends on the environment, so
/// nothing is stated of it.
#[verifier::external_body]
fn home_dir() -> Option<String> {
    dirs::home_dir().map(|p| p.to_string_lossy().into_owned())
}

/// The hub's directory under home directory `home` (or `.` when there is none).
pub fn base_dir_in(home: Option<String>) -> (r: String)
    ensures
        r@ == crate::paths::path_join(
            match home {
                Some(h) => h@,
                None => "."@,
            },
            ".unreal-mcphub"@,
        ),
{
    let h = match home {
        Some(h) => h,
        None => owned("."),
    };
    crate::paths::join(h.as_str(), ".unreal-mcphub")
}

/// The hub's directory: `.unreal-mcphub` under the user's home directory.
pub fn base_dir() -> (r: String)
    ensures
        exists|h: Seq<char>| r@ == crate::paths::path_join(h, ".unreal-mcphub"@),
{
    let home = home_dir();
    let ghost hv = match home {
        Some(ref h) => h@,
        None => "."@,
    };
    let r = base_dir_in(home);
    assert(r@ == crate::paths::path_join(hv, ".unreal-mcphub"@));
    r
}

/// The configuration file in the hub's directory `base`.
pub fn config_path_in(base: &str) -> (r: String)
    ensures
        r@ == crate::paths::path_join(base@, "config.json"@),
{
    crate::paths::join(base, "config.json")
}

/// The configuration file: `config.json` in the hub's directory.
pub fn config_path() -> (r: String)
    ensures
        exists|h: Seq<char>|
            r@ == crate::paths::path_join(
                crate::paths::path_join(h, ".unreal-mcphub"@),
                "config.json"@,
            ),
{
    let b = base_dir();
    config_path_in(b.as_str())
}

} // verus!
