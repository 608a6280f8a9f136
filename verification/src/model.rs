//! The data model of machines, containers, services and developer targets, with the
//! mathematical view of each type.
use vstd::prelude::*;

verus! {

// ---------------------------------------------------------------------------
// Enumerations
// ---------------------------------------------------------------------------
/// How a browser surface is served.
#[derive(Debug, Clone, Copy, PartialEq, Eq, Structural)]
pub enum BrowserServiceType {
    Http,
    Vite,
}

/// What a developer service is.
#[derive(Debug, Clone, Copy, PartialEq, Eq, Structural)]
pub enum DeveloperServiceKind {
    Web,
    Endpoint,
    Command,
}

/// How an endpoint service is probed.
#[derive(Debug, Clone, Copy, PartialEq, Eq, Structural)]
pub enum EndpointProbeType {
    Http,
    Tcp,
}

/// How a machine is reached.
#[derive(Debug, Clone, Copy, PartialEq, Eq, Structural)]
pub enum MachineTransport {
    Local,
    Ssh,
}

/// Whether a workspace is the machine host itself or a managed container.
#[derive(Debug, Clone, Copy, PartialEq, Eq, Structural)]
pub enum ManagedContainerKind {
    Host,
    Managed,
}

/// The container manager of a machine.
#[derive(Debug, Clone, Copy, PartialEq, Eq, Structural)]
pub enum ContainerManagerType {
    Unspecified,
    Lxd,
    Docker,
    Orbstack,
}

/// How the containers of a machine are found.
#[derive(Debug, Clone, Copy, PartialEq, Eq, Structural)]
pub enum ContainerDiscoveryMode {
    HostOnly,
    Auto,
    Manual,
}

// ---------------------------------------------------------------------------
// Records
// ---------------------------------------------------------------------------
/// A browser-facing surface of a workspace, reached through a tunnel.
#[derive(Debug, Clone)]
pub struct BrowserSurface {
    pub id: String,
    pub label: String,
    pub service_type: BrowserServiceType,
    pub background_prerender: bool,
    pub tunnel_command: String,
    pub local_url: String,
    pub remote_url: String,
    pub vite_hmr_tunnel_command: String,
}

/// View of a [`BrowserSurface`].
pub struct SurfaceV {
    pub id: Seq<char>,
    pub label: Seq<char>,
    pub service_type: BrowserServiceType,
    pub background_prerender: bool,
    pub tunnel_command: Seq<char>,
    pub local_url: Seq<char>,
    pub remote_url: Seq<char>,
    pub vite_hmr_tunnel_command: Seq<char>,
}

impl View for BrowserSurface {
    type V = SurfaceV;

    open spec fn view(&self) -> SurfaceV {
        SurfaceV {
            id: self.id@,
            label: self.label@,
            service_type: self.service_type,
            background_prerender: self.background_prerender,
            tunnel_command: self.tunnel_command@,
            local_url: self.local_url@,
            remote_url: self.remote_url@,
            vite_hmr_tunnel_command: self.vite_hmr_tunnel_command@,
        }
    }
}

impl DeepView for BrowserSurface {
    type V = SurfaceV;

    open spec fn deep_view(&self) -> SurfaceV {
        self@
    }
}

/// A restartable command service.
#[derive(Debug, Clone)]
pub struct CommandService {
    pub restart: String,
}

/// A network endpoint service.
#[derive(Debug, Clone)]
pub struct EndpointService {
    pub probe_type: EndpointProbeType,
    pub host: String,
    pub port: u16,
    pub path: String,
    pub url: String,
}

/// View of an [`EndpointService`].
pub struct EndpointV {
    pub probe_type: EndpointProbeType,
    pub host: Seq<char>,
    pub port: u16,
    pub path: Seq<char>,
    pub url: Seq<char>,
}

impl View for EndpointService {
    type V = EndpointV;

    open spec fn view(&self) -> EndpointV {
        EndpointV {
            probe_type: self.probe_type,
            host: self.host@,
            port: self.port,
            path: self.path@,
            url: self.url@,
        }
    }
}

/// A service of a workspace.
#[derive(Debug, Clone)]
pub struct DeveloperService {
    pub id: String,
    pub label: String,
    pub kind: DeveloperServiceKind,
    pub description: String,
    pub web: Option<BrowserSurface>,
    pub endpoint: Option<EndpointService>,
    pub command: Option<CommandService>,
}

/// View of a [`DeveloperService`].
pub struct ServiceV {
    pub id: Seq<char>,
    pub label: Seq<char>,
    pub kind: DeveloperServiceKind,
    pub description: Seq<char>,
    pub web: Option<SurfaceV>,
    pub endpoint: Option<EndpointV>,
    pub command: Option<Seq<char>>,
}

impl View for DeveloperService {
    type V = ServiceV;

    open spec fn view(&self) -> ServiceV {
        ServiceV {
            id: self.id@,
            label: self.label@,
            kind: self.kind,
            description: self.description@,
            web: match self.web {
                Some(w) => Some(w@),
                None => None,
            },
            endpoint: match self.endpoint {
                Some(e) => Some(e@),
                None => None,
            },
            command: match self.command {
                Some(c) => Some(c.restart@),
                None => None,
            },
        }
    }
}

impl DeepView for DeveloperService {
    type V = ServiceV;

    open spec fn deep_view(&self) -> ServiceV {
        self@
    }
}

/// Workspace preferences of a target.
#[derive(Debug, Clone)]
pub struct ContainerWorkspace {
    pub profile: String,
    pub default_tool: String,
    pub project_path: String,
    pub files_root: String,
    pub primary_web_service_id: String,
    pub tmux_command_service_id: String,
}

/// View of a [`ContainerWorkspace`].
pub struct WorkspaceV {
    pub profile: Seq<char>,
    pub default_tool: Seq<char>,
    pub project_path: Seq<char>,
    pub files_root: Seq<char>,
    pub primary_web_service_id: Seq<char>,
    pub tmux_command_service_id: Seq<char>,
}

impl View for ContainerWorkspace {
    type V = WorkspaceV;

    open spec fn view(&self) -> WorkspaceV {
        WorkspaceV {
            profile: self.profile@,
            default_tool: self.default_tool@,
            project_path: self.project_path@,
            files_root: self.files_root@,
            primary_web_service_id: self.primary_web_service_id@,
            tmux_command_service_id: self.tmux_command_service_id@,
        }
    }
}

/// A workspace the developer can open: a machine host or a container.
#[derive(Debug, Clone)]
pub struct DeveloperTarget {
    pub id: String,
    pub machine_id: String,
    pub container_id: String,
    pub transport: MachineTransport,
    pub container_kind: ManagedContainerKind,
    pub label: String,
    pub host: String,
    pub description: String,
    pub terminal_command: String,
    pub terminal_startup_command: String,
    pub notes: Vec<String>,
    pub workspace: ContainerWorkspace,
    pub services: Vec<DeveloperService>,
    pub surfaces: Vec<BrowserSurface>,
}

/// The application's own settings.
#[derive(Debug, Clone)]
pub struct AppSettings {
    /// `system`, `light` or `dark`.
    pub theme_mode: String,
    pub dashboard_refresh_seconds: u64,
}

impl Default for AppSettings {
    /// The settings of a fresh installation: the system's theme, and the dashboard
    /// refreshed every thirty seconds.
    fn default() -> (r: AppSettings)
        ensures
            r.theme_mode@ == "system"@,
            r.dashboard_refresh_seconds == 30,
    {
        AppSettings { theme_mode: String::from_str("system"), dashboard_refresh_seconds: 30 }
    }
}

/// The resolved list of targets.
#[derive(Debug, Clone)]
pub struct TargetsFile {
    pub selected_target_id: Option<String>,
    pub default_profile: Option<String>,
    pub targets: Vec<DeveloperTarget>,
}

/// A container as shown in the machine inventory.
#[derive(Debug, Clone)]
pub struct ManagedContainer {
    pub server_id: String,
    pub server_label: String,
    pub container_id: String,
    pub kind: ManagedContainerKind,
    pub transport: MachineTransport,
    pub target_id: String,
    pub name: String,
    pub label: String,
    pub status: String,
    pub ipv4: String,
    pub ssh_user: String,
    pub ssh_destination: String,
    pub ssh_command: String,
    pub ssh_state: String,
    pub ssh_message: String,
    pub ssh_reachable: bool,
}

/// A machine as shown in the machine inventory.
#[derive(Debug, Clone)]
pub struct ManagedServer {
    pub id: String,
    pub host_target_id: String,
    pub label: String,
    pub transport: MachineTransport,
    pub host: String,
    pub description: String,
    pub os: String,
    pub state: String,
    pub message: String,
    pub containers: Vec<ManagedContainer>,
}

/// A container entry of a machine configuration.
#[derive(Debug, Clone)]
pub struct MachineContainerConfig {
    pub id: String,
    pub name: String,
    pub kind: ManagedContainerKind,
    pub enabled: bool,
    pub source: String,
    pub ssh_user: String,
    pub ssh_user_candidates: Vec<String>,
    pub label: String,
    pub description: String,
    pub ipv4: String,
    pub status: String,
    pub workspace: ContainerWorkspace,
    pub services: Vec<DeveloperService>,
    pub surfaces: Vec<BrowserSurface>,
}

/// One hop of an SSH jump chain.
#[derive(Debug, Clone)]
pub struct SshJumpConfig {
    pub host: String,
    pub port: u16,
    pub user: String,
    pub identity_files: Vec<String>,
    pub ssh_credential_id: String,
}

/// The configuration of one machine.
#[derive(Debug, Clone)]
pub struct RemoteContainerServer {
    pub id: String,
    pub label: String,
    pub transport: MachineTransport,
    pub host: String,
    pub port: u16,
    pub description: String,
    pub os: String,
    pub manager_type: ContainerManagerType,
    pub discovery_mode: ContainerDiscoveryMode,
    pub discovery_command: String,
    pub ssh_user: String,
    pub container_ssh_user: String,
    pub identity_files: Vec<String>,
    pub ssh_credential_id: String,
    pub jump_chain: Vec<SshJumpConfig>,
    pub known_hosts_path: String,
    pub strict_host_key_checking: bool,
    pub container_name_suffix: String,
    pub include_stopped: bool,
    pub target_label_template: String,
    pub target_host_template: String,
    pub target_description_template: String,
    pub host_terminal_startup_command: String,
    pub terminal_command_template: String,
    pub notes: Vec<String>,
    pub workspace: ContainerWorkspace,
    pub services: Vec<DeveloperService>,
    pub surfaces: Vec<BrowserSurface>,
    pub containers: Vec<MachineContainerConfig>,
}

/// The stored machine configuration document.
#[derive(Debug, Clone)]
pub struct RawTargetsFile {
    pub selected_target_id: Option<String>,
    pub default_profile: Option<String>,
    /// Names of the container profiles the document defines.
    pub profile_names: Vec<String>,
    pub machines: Vec<RemoteContainerServer>,
}

/// A container found on a machine.
#[derive(Debug, Clone)]
pub struct DiscoveredContainer {
    pub id: String,
    pub kind: ManagedContainerKind,
    pub name: String,
    pub source: String,
    pub ssh_user: String,
    pub ssh_user_candidates: Vec<String>,
    pub status: String,
    pub ipv4: String,
    pub label: Option<String>,
    pub description: Option<String>,
    pub workspace: Option<ContainerWorkspace>,
    pub services: Vec<DeveloperService>,
    pub surfaces: Vec<BrowserSurface>,
}

/// View of a [`DiscoveredContainer`].
pub struct DiscoveredV {
    pub id: Seq<char>,
    pub kind: ManagedContainerKind,
    pub name: Seq<char>,
    pub source: Seq<char>,
    pub ssh_user: Seq<char>,
    pub ssh_user_candidates: Seq<Seq<char>>,
    pub status: Seq<char>,
    pub ipv4: Seq<char>,
    pub label: Option<Seq<char>>,
    pub description: Option<Seq<char>>,
    pub workspace: Option<WorkspaceV>,
    pub services: Seq<ServiceV>,
    pub surfaces: Seq<SurfaceV>,
}

/// View of an optional string.
pub open spec fn opt_v(o: Option<String>) -> Option<Seq<char>> {
    match o {
        Some(s) => Some(s@),
        None => None,
    }
}

/// View of an optional workspace.
pub open spec fn opt_ws(o: Option<ContainerWorkspace>) -> Option<WorkspaceV> {
    match o {
        Some(w) => Some(w@),
        None => None,
    }
}

impl View for DiscoveredContainer {
    type V = DiscoveredV;

    open spec fn view(&self) -> DiscoveredV {
        DiscoveredV {
            id: self.id@,
            kind: self.kind,
            name: self.name@,
            source: self.source@,
            ssh_user: self.ssh_user@,
            ssh_user_candidates: strs(self.ssh_user_candidates@),
            status: self.status@,
            ipv4: self.ipv4@,
            label: opt_v(self.label),
            description: opt_v(self.description),
            workspace: opt_ws(self.workspace),
            services: services_v(self.services@),
            surfaces: surfaces_v(self.surfaces@),
        }
    }
}

/// Views of a list of discovered containers.
pub open spec fn discovered_v(v: Seq<DiscoveredContainer>) -> Seq<DiscoveredV> {
    v.map_values(|c: DiscoveredContainer| c@)
}

/// The values that placeholders of a machine's templates are replaced by.
pub struct RemoteContainerContext<'a> {
    pub container_ip: &'a str,
    pub container_label: &'a str,
    pub container_name: &'a str,
    pub ssh_user: &'a str,
    pub server: &'a RemoteContainerServer,
}

/// A machine's inventory entry together with the targets it offers.
#[derive(Debug, Clone)]
pub struct DiscoveredServerInventory {
    pub server: ManagedServer,
    pub available_targets: Vec<DeveloperTarget>,
}

/// View of a developer target.
pub ghost struct TargetV {
    pub id: Seq<char>,
    pub machine_id: Seq<char>,
    pub container_id: Seq<char>,
    pub transport: MachineTransport,
    pub container_kind: ManagedContainerKind,
    pub label: Seq<char>,
    pub host: Seq<char>,
    pub description: Seq<char>,
    pub terminal_command: Seq<char>,
    pub terminal_startup_command: Seq<char>,
    pub notes: Seq<Seq<char>>,
    pub workspace: WorkspaceV,
    pub services: Seq<ServiceV>,
    pub surfaces: Seq<SurfaceV>,
}

impl View for DeveloperTarget {
    type V = TargetV;

    open spec fn view(&self) -> TargetV {
        TargetV {
            id: self.id@,
            machine_id: self.machine_id@,
            container_id: self.container_id@,
            transport: self.transport,
            container_kind: self.container_kind,
            label: self.label@,
            host: self.host@,
            description: self.description@,
            terminal_command: self.terminal_command@,
            terminal_startup_command: self.terminal_startup_command@,
            notes: strs(self.notes@),
            workspace: self.workspace@,
            services: services_v(self.services@),
            surfaces: surfaces_v(self.surfaces@),
        }
    }
}

/// View of a managed container entry.
pub ghost struct ManagedV {
    pub server_id: Seq<char>,
    pub server_label: Seq<char>,
    pub container_id: Seq<char>,
    pub kind: ManagedContainerKind,
    pub transport: MachineTransport,
    pub target_id: Seq<char>,
    pub name: Seq<char>,
    pub label: Seq<char>,
    pub status: Seq<char>,
    pub ipv4: Seq<char>,
    pub ssh_user: Seq<char>,
    pub ssh_destination: Seq<char>,
    pub ssh_command: Seq<char>,
    pub ssh_state: Seq<char>,
    pub ssh_message: Seq<char>,
    pub ssh_reachable: bool,
}

impl View for ManagedContainer {
    type V = ManagedV;

    open spec fn view(&self) -> ManagedV {
        ManagedV {
            server_id: self.server_id@,
            server_label: self.server_label@,
            container_id: self.container_id@,
            kind: self.kind,
            transport: self.transport,
            target_id: self.target_id@,
            name: self.name@,
            label: self.label@,
            status: self.status@,
            ipv4: self.ipv4@,
            ssh_user: self.ssh_user@,
            ssh_destination: self.ssh_destination@,
            ssh_command: self.ssh_command@,
            ssh_state: self.ssh_state@,
            ssh_message: self.ssh_message@,
            ssh_reachable: self.ssh_reachable,
        }
    }
}

/// View of a machine's inventory entry.
pub ghost struct ServerV {
    pub id: Seq<char>,
    pub host_target_id: Seq<char>,
    pub label: Seq<char>,
    pub transport: MachineTransport,
    pub host: Seq<char>,
    pub description: Seq<char>,
    pub os: Seq<char>,
    pub state: Seq<char>,
    pub message: Seq<char>,
    pub containers: Seq<ManagedV>,
}

impl View for ManagedServer {
    type V = ServerV;

    open spec fn view(&self) -> ServerV {
        ServerV {
            id: self.id@,
            host_target_id: self.host_target_id@,
            label: self.label@,
            transport: self.transport,
            host: self.host@,
            description: self.description@,
            os: self.os@,
            state: self.state@,
            message: self.message@,
            containers: managed_v(self.containers@),
        }
    }
}

/// View of a machine's inventory together with its targets.
pub ghost struct InventoryV {
    pub server: ServerV,
    pub available_targets: Seq<TargetV>,
}

impl View for DiscoveredServerInventory {
    type V = InventoryV;

    open spec fn view(&self) -> InventoryV {
        InventoryV { server: self.server@, available_targets: targets_v(self.available_targets@) }
    }
}

/// View of a container's configuration entry.
pub ghost struct ConfigV {
    pub id: Seq<char>,
    pub name: Seq<char>,
    pub kind: ManagedContainerKind,
    pub enabled: bool,
    pub source: Seq<char>,
    pub ssh_user: Seq<char>,
    pub ssh_user_candidates: Seq<Seq<char>>,
    pub label: Seq<char>,
    pub description: Seq<char>,
    pub ipv4: Seq<char>,
    pub status: Seq<char>,
    pub workspace: WorkspaceV,
    pub services: Seq<ServiceV>,
    pub surfaces: Seq<SurfaceV>,
}

impl View for MachineContainerConfig {
    type V = ConfigV;

    open spec fn view(&self) -> ConfigV {
        ConfigV {
            id: self.id@,
            name: self.name@,
            kind: self.kind,
            enabled: self.enabled,
            source: self.source@,
            ssh_user: self.ssh_user@,
            ssh_user_candidates: strs(self.ssh_user_candidates@),
            label: self.label@,
            description: self.description@,
            ipv4: self.ipv4@,
            status: self.status@,
            workspace: self.workspace@,
            services: services_v(self.services@),
            surfaces: surfaces_v(self.surfaces@),
        }
    }
}

/// Views of a list of container configuration entries.
pub open spec fn configs_v(v: Seq<MachineContainerConfig>) -> Seq<ConfigV> {
    v.map_values(|c: MachineContainerConfig| c@)
}

/// Views of a list of managed containers.
pub open spec fn managed_v(v: Seq<ManagedContainer>) -> Seq<ManagedV> {
    v.map_values(|c: ManagedContainer| c@)
}

/// Views of a list of targets.
pub open spec fn targets_v(v: Seq<DeveloperTarget>) -> Seq<TargetV> {
    v.map_values(|t: DeveloperTarget| t@)
}

// ---------------------------------------------------------------------------
// Views of lists
// ---------------------------------------------------------------------------
/// Views of a list of strings.
pub open spec fn strs(v: Seq<String>) -> Seq<Seq<char>> {
    v.map_values(|s: String| s@)
}

/// Views of a list of surfaces.
pub open spec fn surfaces_v(v: Seq<BrowserSurface>) -> Seq<SurfaceV> {
    v.map_values(|s: BrowserSurface| s@)
}

/// Views of a list of services.
pub open spec fn services_v(v: Seq<DeveloperService>) -> Seq<ServiceV> {
    v.map_values(|s: DeveloperService| s@)
}

// ---------------------------------------------------------------------------
// Copies with a stated result
// ---------------------------------------------------------------------------
/// A copy of a string.
pub fn copy_string(s: &String) -> (r: String)
    ensures
        r@ == s@,
{
    s.clone()
}

/// A copy of an optional string.
pub fn copy_opt_string(s: &Option<String>) -> (r: Option<String>)
    ensures
        match (r, *s) {
            (Some(a), Some(b)) => a@ == b@,
            (None, None) => true,
            _ => false,
        },
{
    match s {
        Some(v) => Some(v.clone()),
        None => None,
    }
}

/// A copy of a list of strings.
pub fn copy_strings(v: &Vec<String>) -> (r: Vec<String>)
    ensures
        strs(r@) == strs(v@),
{
    let mut r: Vec<String> = Vec::new();
    let mut i: usize = 0;
    while i < v.len()
        invariant
            i <= v@.len(),
            strs(r@) == strs(v@.take(i as int)),
        decreases v@.len() - i,
    {
        let ghost prev = r@;
        r.push(v[i].clone());
        proof {
            assert(v@.take(i + 1) =~= v@.take(i as int).push(v@[i as int]));
            assert(strs(r@) =~= strs(prev).push(v@[i as int]@));
            assert(strs(v@.take(i + 1)) =~= strs(v@.take(i as int)).push(v@[i as int]@));
        }
        i = i + 1;
    }
    assert(v@.take(v@.len() as int) =~= v@);
    r
}

impl BrowserSurface {
    /// A copy of this surface.
    pub fn duplicate(&self) -> (r: BrowserSurface)
        ensures
            r@ == self@,
    {
        BrowserSurface {
            id: self.id.clone(),
            label: self.label.clone(),
            service_type: self.service_type,
            background_prerender: self.background_prerender,
            tunnel_command: self.tunnel_command.clone(),
            local_url: self.local_url.clone(),
            remote_url: self.remote_url.clone(),
            vite_hmr_tunnel_command: self.vite_hmr_tunnel_command.clone(),
        }
    }
}

impl EndpointService {
    /// A copy of this endpoint.
    pub fn duplicate(&self) -> (r: EndpointService)
        ensures
            r@ == self@,
    {
        EndpointService {
            probe_type: self.probe_type,
            host: self.host.clone(),
            port: self.port,
            path: self.path.clone(),
            url: self.url.clone(),
        }
    }
}

impl DeveloperService {
    /// A copy of this service.
    pub fn duplicate(&self) -> (r: DeveloperService)
        ensures
            r@ == self@,
    {
        DeveloperService {
            id: self.id.clone(),
            label: self.label.clone(),
            kind: self.kind,
            description: self.description.clone(),
            web: match &self.web {
                Some(w) => Some(w.duplicate()),
                None => None,
            },
            endpoint: match &self.endpoint {
                Some(e) => Some(e.duplicate()),
                None => None,
            },
            command: match &self.command {
                Some(c) => Some(CommandService { restart: c.restart.clone() }),
                None => None,
            },
        }
    }
}

impl ContainerWorkspace {
    /// A copy of this workspace.
    pub fn duplicate(&self) -> (r: ContainerWorkspace)
        ensures
            r@ == self@,
    {
        ContainerWorkspace {
            profile: self.profile.clone(),
            default_tool: self.default_tool.clone(),
            project_path: self.project_path.clone(),
            files_root: self.files_root.clone(),
            primary_web_service_id: self.primary_web_service_id.clone(),
            tmux_command_service_id: self.tmux_command_service_id.clone(),
        }
    }

    /// The workspace with every field empty.
    pub fn empty() -> (r: ContainerWorkspace)
        ensures
            r@.profile.len() == 0,
            r@.default_tool.len() == 0,
            r@.project_path.len() == 0,
            r@.files_root.len() == 0,
            r@.primary_web_service_id.len() == 0,
            r@.tmux_command_service_id.len() == 0,
    {
        ContainerWorkspace {
            profile: String::new(),
            default_tool: String::new(),
            project_path: String::new(),
            files_root: String::new(),
            primary_web_service_id: String::new(),
            tmux_command_service_id: String::new(),
        }
    }
}

impl DiscoveredContainer {
    /// A copy of this container.
    pub fn duplicate(&self) -> (r: DiscoveredContainer)
        ensures
            r@ == self@,
    {
        DiscoveredContainer {
            id: self.id.clone(),
            kind: self.kind,
            name: self.name.clone(),
            source: self.source.clone(),
            ssh_user: self.ssh_user.clone(),
            ssh_user_candidates: copy_strings(&self.ssh_user_candidates),
            status: self.status.clone(),
            ipv4: self.ipv4.clone(),
            label: copy_opt_string(&self.label),
            description: copy_opt_string(&self.description),
            workspace: match &self.workspace {
                Some(w) => Some(w.duplicate()),
                None => None,
            },
            services: copy_services(&self.services),
            surfaces: copy_surfaces(&self.surfaces),
        }
    }
}

/// A copy of a list of surfaces.
pub fn copy_surfaces(v: &Vec<BrowserSurface>) -> (r: Vec<BrowserSurface>)
    ensures
        surfaces_v(r@) == surfaces_v(v@),
{
    let mut r: Vec<BrowserSurface> = Vec::new();
    let mut i: usize = 0;
    while i < v.len()
        invariant
            i <= v@.len(),
            surfaces_v(r@) == surfaces_v(v@.take(i as int)),
        decreases v@.len() - i,
    {
        let ghost prev = r@;
        r.push(v[i].duplicate());
        proof {
            assert(v@.take(i + 1) =~= v@.take(i as int).push(v@[i as int]));
            assert(surfaces_v(r@) =~= surfaces_v(prev).push(v@[i as int]@));
            assert(surfaces_v(v@.take(i + 1)) =~= surfaces_v(v@.take(i as int)).push(v@[i as int]@));
        }
        i = i + 1;
    }
    assert(v@.take(v@.len() as int) =~= v@);
    r
}

/// A copy of a list of services.
pub fn copy_services(v: &Vec<DeveloperService>) -> (r: Vec<DeveloperService>)
    ensures
        services_v(r@) == services_v(v@),
{
    let mut r: Vec<DeveloperService> = Vec::new();
    let mut i: usize = 0;
    while i < v.len()
        invariant
            i <= v@.len(),
            services_v(r@) == services_v(v@.take(i as int)),
        decreases v@.len() - i,
    {
        let ghost prev = r@;
        r.push(v[i].duplicate());
        proof {
            assert(v@.take(i + 1) =~= v@.take(i as int).push(v@[i as int]));
            assert(services_v(r@) =~= services_v(prev).push(v@[i as int]@));
            assert(services_v(v@.take(i + 1)) =~= services_v(v@.take(i as int)).push(v@[i as int]@));
        }
        i = i + 1;
    }
    assert(v@.take(v@.len() as int) =~= v@);
    r
}

impl DeveloperTarget {
    /// A copy of this target.
    pub fn duplicate(&self) -> (r: DeveloperTarget)
        ensures
            r@ == self@,
    {
        DeveloperTarget {
            id: self.id.clone(),
            machine_id: self.machine_id.clone(),
            container_id: self.container_id.clone(),
            transport: self.transport,
            container_kind: self.container_kind,
            label: self.label.clone(),
            host: self.host.clone(),
            description: self.description.clone(),
            terminal_command: self.terminal_command.clone(),
            terminal_startup_command: self.terminal_startup_command.clone(),
            notes: copy_strings(&self.notes),
            workspace: self.workspace.duplicate(),
            services: copy_services(&self.services),
            surfaces: copy_surfaces(&self.surfaces),
        }
    }
}

impl ManagedContainer {
    /// A copy of this container entry.
    pub fn duplicate(&self) -> (r: ManagedContainer)
        ensures
            r@ == self@,
    {
        ManagedContainer {
            server_id: self.server_id.clone(),
            server_label: self.server_label.clone(),
            container_id: self.container_id.clone(),
            kind: self.kind,
            transport: self.transport,
            target_id: self.target_id.clone(),
            name: self.name.clone(),
            label: self.label.clone(),
            status: self.status.clone(),
            ipv4: self.ipv4.clone(),
            ssh_user: self.ssh_user.clone(),
            ssh_destination: self.ssh_destination.clone(),
            ssh_command: self.ssh_command.clone(),
            ssh_state: self.ssh_state.clone(),
            ssh_message: self.ssh_message.clone(),
            ssh_reachable: self.ssh_reachable,
        }
    }
}

/// A copy of a list of container entries.
pub fn copy_managed(v: &Vec<ManagedContainer>) -> (r: Vec<ManagedContainer>)
    ensures
        managed_v(r@) == managed_v(v@),
{
    let mut r: Vec<ManagedContainer> = Vec::new();
    let mut i: usize = 0;
    while i < v.len()
        invariant
            i <= v@.len(),
            managed_v(r@) == managed_v(v@.take(i as int)),
        decreases v@.len() - i,
    {
        let ghost prev = r@;
        r.push(v[i].duplicate());
        proof {
            assert(v@.take(i + 1) =~= v@.take(i as int).push(v@[i as int]));
            assert(managed_v(r@) =~= managed_v(prev).push(v@[i as int]@));
            assert(managed_v(v@.take(i + 1)) =~= managed_v(v@.take(i as int)).push(v@[i as int]@));
        }
        i = i + 1;
    }
    assert(v@.take(v@.len() as int) =~= v@);
    r
}

impl ManagedServer {
    /// A copy of this machine entry.
    pub fn duplicate(&self) -> (r: ManagedServer)
        ensures
            r@ == self@,
    {
        ManagedServer {
            id: self.id.clone(),
            host_target_id: self.host_target_id.clone(),
            label: self.label.clone(),
            transport: self.transport,
            host: self.host.clone(),
            description: self.description.clone(),
            os: self.os.clone(),
            state: self.state.clone(),
            message: self.message.clone(),
            containers: copy_managed(&self.containers),
        }
    }
}

/// A copy of a list of targets.
pub fn copy_targets(v: &Vec<DeveloperTarget>) -> (r: Vec<DeveloperTarget>)
    ensures
        targets_v(r@) == targets_v(v@),
{
    let mut r: Vec<DeveloperTarget> = Vec::new();
    let mut i: usize = 0;
    while i < v.len()
        invariant
            i <= v@.len(),
            targets_v(r@) == targets_v(v@.take(i as int)),
        decreases v@.len() - i,
    {
        let ghost prev = r@;
        r.push(v[i].duplicate());
        proof {
            assert(v@.take(i + 1) =~= v@.take(i as int).push(v@[i as int]));
            assert(targets_v(r@) =~= targets_v(prev).push(v@[i as int]@));
            assert(targets_v(v@.take(i + 1)) =~= targets_v(v@.take(i as int)).push(v@[i as int]@));
        }
        i = i + 1;
    }
    assert(v@.take(v@.len() as int) =~= v@);
    r
}

// ---------------------------------------------------------------------------
// Configuration defaults
// ---------------------------------------------------------------------------
/// Default SSH port.
pub fn default_ssh_port() -> (r: u16)
    ensures
        r == 22,
{
    22
}

/// Default SSH user of a machine.
pub fn default_ssh_user() -> (r: String)
    ensures
        r@ == "ubuntu"@,
{
    owned_lit("ubuntu")
}

/// Default SSH user of a machine's containers (empty: use the machine's).
pub fn default_container_ssh_user() -> (r: String)
    ensures
        r@.len() == 0,
{
    String::new()
}

/// Default suffix of development container names.
pub fn default_container_name_suffix() -> (r: String)
    ensures
        r@ == "-dev"@,
{
    owned_lit("-dev")
}

/// Default known-hosts file of a machine.
pub fn default_known_hosts_path() -> (r: String)
    ensures
        r@ == "~/.univers/known_hosts"@,
{
    owned_lit("~/.univers/known_hosts")
}

/// Host keys are checked strictly unless configured otherwise.
pub fn default_strict_host_key_checking() -> (r: bool)
    ensures
        r,
{
    true
}

/// Status of a manually configured container.
pub fn default_manual_container_status() -> (r: String)
    ensures
        r@ == "RUNNING"@,
{
    owned_lit("RUNNING")
}

/// Configured containers are enabled unless configured otherwise.
pub fn default_container_enabled() -> (r: bool)
    ensures
        r,
{
    true
}

/// Source of a configured container of unknown origin.
pub fn default_container_source() -> (r: String)
    ensures
        r@ == "unknown"@,
{
    owned_lit("unknown")
}

/// An owned copy of a literal.
pub fn owned_lit(s: &str) -> (r: String)
    ensures
        r@ == s@,
{
    s.to_owned()
}

/// The container managers to try, in order: the configured one, or every supported
/// manager when none is configured.
pub open spec fn manager_priority_spec(t: ContainerManagerType) -> Seq<ContainerManagerType> {
    match t {
        ContainerManagerType::Unspecified => seq![
            ContainerManagerType::Orbstack,
            ContainerManagerType::Docker,
            ContainerManagerType::Lxd,
        ],
        other => seq![other],
    }
}

/// The container managers to try on a machine.
pub fn manager_priority(server: &RemoteContainerServer) -> (r: Vec<ContainerManagerType>)
    ensures
        r@ == manager_priority_spec(server.manager_type),
{
    let mut r = Vec::new();
    match server.manager_type {
        ContainerManagerType::Unspecified => {
            r.push(ContainerManagerType::Orbstack);
            r.push(ContainerManagerType::Docker);
            r.push(ContainerManagerType::Lxd);
        },
        other => {
            r.push(other);
        },
    }
    assert(r@ =~= manager_priority_spec(server.manager_type));
    r
}

/// File name of the targets document (`debug` selects the development name).
pub fn targets_file_name(debug: bool) -> (r: &'static str)
    ensures
        r@ == (if debug {
            "univers-ark-developer.dev.json"@
        } else {
            "univers-ark-developer.json"@
        }),
{
    if debug {
        "univers-ark-developer.dev.json"
    } else {
        "univers-ark-developer.json"
    }
}

} // verus!
