//! Developer targets and inventory entries projected from a machine and the
//! containers discovered on it.
use vstd::prelude::*;
use crate::discovery::{
    default_container_label, default_label_spec, place_of, render_service,
    render_service_spec, render_spec, render_surface, render_surface_spec, render_template,
    render_workspace, render_workspace_spec, replace_remote_placeholders, web_service,
    web_service_spec, PlaceV,
};
use crate::model::{
    services_v, strs, surfaces_v, BrowserSurface, ContainerWorkspace, DeveloperService,
    DeveloperTarget, DiscoveredContainer, DiscoveredV, MachineTransport, ManagedContainerKind,
    RemoteContainerContext, RemoteContainerServer, ServiceV, SurfaceV, TargetV, WorkspaceV,
};
use crate::ssh::{
    build_host_ssh_command, build_ssh_command, host_ssh_command_spec, host_startup_spec,
    host_terminal_startup_command, profile_startup_spec, profile_terminal_startup_command,
    shell_single_quote, single_quote_spec, ssh_command_spec, UserHome,
};
use crate::ssh_users::{resolve_container_ssh_user, resolve_user_spec};
use crate::model::{
    discovered_v, managed_v, targets_v, DiscoveredServerInventory, InventoryV, ManagedContainer,
    ManagedServer, ManagedV, ServerV,
};
use crate::sources::{cached_server_containers, manual_spec};
use crate::ssh::{destination_spec, ssh_destination};
use crate::text::{blank, concat2, concat3, dec, dec_string, is_blank, owned, str_eq, trim, trim_seq};

verus! {

// ---------------------------------------------------------------------------
// Specifications
// ---------------------------------------------------------------------------
/// A template rendered in a place, or the fallback when the template is blank.
pub open spec fn or_render(t: Seq<char>, p: PlaceV, home: UserHome, fallback: Seq<char>) -> Seq<
    char,
> {
    if blank(t) {
        fallback
    } else {
        render_spec(t, p, home)
    }
}

/// The services of a target: the configured services rendered in a place, or, when
/// there are none, one web service per rendered surface.
pub open spec fn services_from(
    services: Seq<ServiceV>,
    surfaces: Seq<SurfaceV>,
    p: PlaceV,
    home: UserHome,
) -> Seq<ServiceV> {
    if services.len() == 0 {
        surfaces.map_values(|s: SurfaceV| web_service_spec(render_surface_spec(s, p, home)))
    } else {
        services.map_values(|s: ServiceV| render_service_spec(s, p, home))
    }
}

/// The browser surfaces of a list of services, in order.
pub open spec fn web_surfaces_spec(services: Seq<ServiceV>) -> Seq<SurfaceV>
    decreases services.len(),
{
    if services.len() == 0 {
        seq![]
    } else {
        let r = web_surfaces_spec(services.drop_last());
        match services.last().web {
            Some(w) => r.push(w),
            None => r,
        }
    }
}

/// The notes of a machine rendered in a place.
pub open spec fn notes_spec(notes: Seq<Seq<char>>, p: PlaceV, home: UserHome) -> Seq<Seq<char>> {
    notes.map_values(|n: Seq<char>| render_spec(n, p, home))
}

/// The place of a machine's host target.
pub open spec fn host_place(server: RemoteContainerServer) -> PlaceV {
    PlaceV {
        server,
        ip: if server.transport == MachineTransport::Local {
            "127.0.0.1"@
        } else {
            server.host@
        },
        label: "Host"@,
        name: "host"@,
        user: server.ssh_user@,
    }
}

/// The terminal command reaching a machine host: the startup command itself on the
/// local machine, else an interactive `ssh` to the host running it.
pub open spec fn host_terminal_spec(server: RemoteContainerServer, home: UserHome) -> Seq<char> {
    if server.transport == MachineTransport::Local {
        host_startup_spec(server)
    } else {
        host_ssh_command_spec(
            server,
            home,
            seq!["-tt"@],
            Some(single_quote_spec(host_startup_spec(server))),
        )
    }
}

/// The identifier of a machine's host target.
pub open spec fn host_target_id_spec(server: RemoteContainerServer) -> Seq<char> {
    server.id@ + "::host"@
}

/// The target of a machine's host.
#[verifier::opaque]
pub open spec fn host_target_spec(server: RemoteContainerServer, home: UserHome) -> TargetV {
    let p = host_place(server);
    let services = services_from(
        services_v(server.services@),
        surfaces_v(server.surfaces@),
        p,
        home,
    );
    TargetV {
        id: host_target_id_spec(server),
        machine_id: server.id@,
        container_id: "host"@,
        transport: server.transport,
        container_kind: ManagedContainerKind::Host,
        label: or_render(server.target_label_template@, p, home, "Host"@),
        host: if server.transport == MachineTransport::Local {
            "localhost"@
        } else {
            or_render(server.target_host_template@, p, home, server.host@)
        },
        description: or_render(
            server.target_description_template@,
            p,
            home,
            "Host workspace on "@ + server.label@ + "."@,
        ),
        terminal_command: host_terminal_spec(server, home),
        terminal_startup_command: host_startup_spec(server),
        notes: notes_spec(strs(server.notes@), p, home),
        workspace: render_workspace_spec(server.workspace@, p, home),
        services,
        surfaces: web_surfaces_spec(services),
    }
}

/// The terminal command of a container: the machine's terminal template rendered
/// in the container's place, or an interactive `ssh` to the container running the
/// startup command.
pub open spec fn container_terminal_spec(p: PlaceV, home: UserHome, startup: Seq<char>) -> Seq<
    char,
> {
    if blank(p.server.terminal_command_template@) {
        ssh_command_spec(
            p.server,
            home,
            p.ip,
            p.name,
            p.user,
            seq!["-tt"@],
            Some(single_quote_spec(startup)),
        )
    } else {
        render_spec(p.server.terminal_command_template@, p, home)
    }
}

/// The label of a container: its own, or one made from its name.
pub open spec fn container_label_spec(server: RemoteContainerServer, c: DiscoveredV) -> Seq<char> {
    match c.label {
        Some(l) => l,
        None => default_label_spec(c.name, server.container_name_suffix@),
    }
}

/// The place of a container's target.
pub open spec fn container_place(server: RemoteContainerServer, c: DiscoveredV) -> PlaceV {
    PlaceV {
        server,
        ip: c.ipv4,
        label: container_label_spec(server, c),
        name: c.name,
        user: resolve_user_spec(server, c),
    }
}

/// The identifier of a container's target.
pub open spec fn container_target_id_spec(server: RemoteContainerServer, c: DiscoveredV) -> Seq<
    char,
> {
    server.id@ + "::"@ + c.id
}

/// The description of a container when the machine has no description template.
pub open spec fn container_description_fallback(
    server: RemoteContainerServer,
    c: DiscoveredV,
) -> Seq<char> {
    match c.description {
        Some(d) => d,
        None => container_label_spec(server, c) + " development container on "@ + server.label@
            + " ("@ + c.status + ")"@,
    }
}

/// The workspace of a container's target, before rendering: its own, else the
/// machine's.
pub open spec fn container_workspace_source(server: RemoteContainerServer, c: DiscoveredV) -> WorkspaceV {
    match c.workspace {
        Some(w) => w,
        None => server.workspace@,
    }
}

/// The startup command of a container terminal: the profile's for a managed
/// container, the host's otherwise.
pub open spec fn container_startup_spec(
    server: RemoteContainerServer,
    c: DiscoveredV,
    workspace: WorkspaceV,
) -> Seq<char> {
    if c.kind == ManagedContainerKind::Managed {
        profile_startup_spec(workspace.profile)
    } else {
        host_startup_spec(server)
    }
}

/// The target of a discovered container.
#[verifier::opaque]
pub open spec fn container_target_spec(
    server: RemoteContainerServer,
    c: DiscoveredV,
    home: UserHome,
) -> TargetV {
    let p = container_place(server, c);
    let workspace = render_workspace_spec(container_workspace_source(server, c), p, home);
    let startup = container_startup_spec(server, c, workspace);
    let services = services_from(
        if c.services.len() > 0 {
            c.services
        } else {
            services_v(server.services@)
        },
        if c.surfaces.len() > 0 {
            c.surfaces
        } else {
            surfaces_v(server.surfaces@)
        },
        p,
        home,
    );
    TargetV {
        id: container_target_id_spec(server, c),
        machine_id: server.id@,
        container_id: c.id,
        transport: server.transport,
        container_kind: c.kind,
        label: or_render(server.target_label_template@, p, home, container_label_spec(server, c)),
        host: if server.transport == MachineTransport::Local {
            "localhost"@
        } else {
            or_render(server.target_host_template@, p, home, server.host@)
        },
        description: or_render(
            server.target_description_template@,
            p,
            home,
            container_description_fallback(server, c),
        ),
        terminal_command: if server.transport == MachineTransport::Local {
            startup
        } else if c.kind == ManagedContainerKind::Host {
            host_ssh_command_spec(server, home, seq!["-tt"@], Some(single_quote_spec(startup)))
        } else {
            container_terminal_spec(p, home, startup)
        },
        terminal_startup_command: startup,
        notes: notes_spec(strs(server.notes@), p, home),
        workspace,
        services,
        surfaces: web_surfaces_spec(services),
    }
}

// ---------------------------------------------------------------------------
// Targets
// ---------------------------------------------------------------------------
/// The identifier of a machine's host target: `<machine>::host`.
pub fn machine_host_target_id(server: &RemoteContainerServer) -> (r: String)
    ensures
        r@ == host_target_id_spec(*server),
{
    concat2(server.id.as_str(), "::host")
}

/// The identifier of a container's target: `<machine>::<container>`.
pub fn container_target_id(server: &RemoteContainerServer, container: &DiscoveredContainer) -> (r:
    String)
    ensures
        r@ == container_target_id_spec(*server, container@),
{
    concat3(server.id.as_str(), "::", container.id.as_str())
}

/// The terminal command of a container: the machine's terminal template rendered
/// in the context, or an interactive `ssh` running the startup command.
pub fn terminal_command_for_server(
    server: &RemoteContainerServer,
    context: &RemoteContainerContext,
    home: &UserHome,
    startup_command: &str,
) -> (r: String)
    requires
        *context.server == *server,
    ensures
        r@ == container_terminal_spec(place_of(*context), *home, startup_command@),
{
    if is_blank(server.terminal_command_template.as_str()) {
        let quoted = shell_single_quote(startup_command);
        let extra: [&str; 1] = ["-tt"];
        proof {
            reveal_strlit("-tt");
            assert(crate::ssh::str_views(extra@) =~= seq!["-tt"@]);
        }
        build_ssh_command(
            server,
            home,
            context.container_ip,
            context.container_name,
            context.ssh_user,
            &extra,
            Some(quoted.as_str()),
        )
    } else {
        replace_remote_placeholders(server.terminal_command_template.as_str(), context, home)
    }
}

/// An interactive `ssh` to a machine host running a startup command.
fn host_ssh_terminal(server: &RemoteContainerServer, home: &UserHome, startup: &str) -> (r: String)
    ensures
        r@ == host_ssh_command_spec(*server, *home, seq!["-tt"@], Some(single_quote_spec(startup@))),
{
    let quoted = shell_single_quote(startup);
    let extra: [&str; 1] = ["-tt"];
    proof {
        reveal_strlit("-tt");
        assert(crate::ssh::str_views(extra@) =~= seq!["-tt"@]);
    }
    build_host_ssh_command(server, home, &extra, Some(quoted.as_str()))
}

/// The notes of a machine rendered in a context.
fn render_notes(notes: &Vec<String>, context: &RemoteContainerContext, home: &UserHome) -> (r: Vec<
    String,
>)
    ensures
        strs(r@) == notes_spec(strs(notes@), place_of(*context), *home),
{
    let ghost p = place_of(*context);
    let mut out: Vec<String> = Vec::new();
    let mut i: usize = 0;
    while i < notes.len()
        invariant
            i <= notes@.len(),
            p == place_of(*context),
            strs(out@) == notes_spec(strs(notes@.take(i as int)), p, *home),
        decreases notes@.len() - i,
    {
        let n = replace_remote_placeholders(notes[i].as_str(), context, home);
        let ghost prev = out@;
        out.push(n);
        proof {
            assert(strs(notes@.take(i + 1)) =~= strs(notes@.take(i as int)).push(notes@[i as int]@));
            assert(strs(out@) =~= strs(prev).push(n@));
        }
        i = i + 1;
    }
    proof {
        assert(notes@.take(notes@.len() as int) =~= notes@);
    }
    out
}

/// The services of a target rendered in a context: the configured services, or one
/// web service per surface when there are none.
fn render_services(
    services: &Vec<DeveloperService>,
    surfaces: &Vec<BrowserSurface>,
    context: &RemoteContainerContext,
    home: &UserHome,
) -> (r: Vec<DeveloperService>)
    ensures
        services_v(r@) == services_from(
            services_v(services@),
            surfaces_v(surfaces@),
            place_of(*context),
            *home,
        ),
{
    let ghost p = place_of(*context);
    let mut out: Vec<DeveloperService> = Vec::new();
    if services.len() == 0 {
        let mut i: usize = 0;
        while i < surfaces.len()
            invariant
                i <= surfaces@.len(),
                p == place_of(*context),
                services_v(out@) == surfaces_v(surfaces@.take(i as int)).map_values(
                    |s: SurfaceV| web_service_spec(render_surface_spec(s, p, *home)),
                ),
            decreases surfaces@.len() - i,
        {
            let rendered = render_surface(&surfaces[i], context, home);
            let svc = web_service(&rendered);
            let ghost prev = out@;
            out.push(svc);
            proof {
                assert(surfaces_v(surfaces@.take(i + 1)) =~= surfaces_v(surfaces@.take(i as int)).push(
                    surfaces@[i as int]@,
                ));
                assert(services_v(out@) =~= services_v(prev).push(svc@));
            }
            i = i + 1;
        }
        proof {
            assert(surfaces@.take(surfaces@.len() as int) =~= surfaces@);
        }
    } else {
        let mut i: usize = 0;
        while i < services.len()
            invariant
                i <= services@.len(),
                services@.len() > 0,
                p == place_of(*context),
                services_v(out@) == services_v(services@.take(i as int)).map_values(
                    |s: ServiceV| render_service_spec(s, p, *home),
                ),
            decreases services@.len() - i,
        {
            let svc = render_service(&services[i], context, home);
            let ghost prev = out@;
            out.push(svc);
            proof {
                assert(services_v(services@.take(i + 1)) =~= services_v(services@.take(i as int)).push(
                    services@[i as int]@,
                ));
                assert(services_v(out@) =~= services_v(prev).push(svc@));
            }
            i = i + 1;
        }
        proof {
            assert(services@.take(services@.len() as int) =~= services@);
        }
    }
    out
}

/// The browser surfaces of a list of services, in order.
pub fn web_surfaces(services: &Vec<DeveloperService>) -> (r: Vec<BrowserSurface>)
    ensures
        surfaces_v(r@) == web_surfaces_spec(services_v(services@)),
{
    let mut out: Vec<BrowserSurface> = Vec::new();
    let mut i: usize = 0;
    while i < services.len()
        invariant
            i <= services@.len(),
            surfaces_v(out@) == web_surfaces_spec(services_v(services@.take(i as int))),
        decreases services@.len() - i,
    {
        proof {
            assert(services_v(services@.take(i + 1)).drop_last() =~= services_v(
                services@.take(i as int),
            ));
            assert(services_v(services@.take(i + 1)).last() == services@[i as int]@);
        }
        match &services[i].web {
            Some(w) => {
                let ghost prev = out@;
                let copy = w.duplicate();
                out.push(copy);
                proof {
                    assert(surfaces_v(out@) =~= surfaces_v(prev).push(copy@));
                }
            },
            None => {},
        }
        i = i + 1;
    }
    proof {
        assert(services@.take(services@.len() as int) =~= services@);
    }
    out
}

/// The target of a machine's host: its label, host name, description, terminal,
/// notes, workspace and services rendered with the host's placeholders.
pub fn build_machine_host_target(server: &RemoteContainerServer, home: &UserHome) -> (r:
    DeveloperTarget)
    ensures
        r@ == host_target_spec(*server, *home),
{
    reveal(host_target_spec);
    let local = server.transport == MachineTransport::Local;
    let ip: &str = if local {
        "127.0.0.1"
    } else {
        server.host.as_str()
    };
    let context = RemoteContainerContext {
        container_ip: ip,
        container_label: "Host",
        container_name: "host",
        ssh_user: server.ssh_user.as_str(),
        server,
    };
    proof {
        reveal_strlit("127.0.0.1");
        reveal_strlit("Host");
        reveal_strlit("host");
        assert(place_of(context) == host_place(*server));
    }
    let label = render_template(
        server.target_label_template.as_str(),
        &context,
        home,
        owned("Host"),
    );
    let host = if local {
        owned("localhost")
    } else {
        render_template(server.target_host_template.as_str(), &context, home, server.host.clone())
    };
    let fallback = concat3("Host workspace on ", server.label.as_str(), ".");
    let description = render_template(
        server.target_description_template.as_str(),
        &context,
        home,
        fallback,
    );
    let terminal_startup_command = host_terminal_startup_command(server);
    let terminal_command = if local {
        terminal_startup_command.clone()
    } else {
        host_ssh_terminal(server, home, terminal_startup_command.as_str())
    };
    let notes = render_notes(&server.notes, &context, home);
    let workspace = render_workspace(&server.workspace, &context, home);
    let services = render_services(&server.services, &server.surfaces, &context, home);
    let surfaces = web_surfaces(&services);
    DeveloperTarget {
        id: machine_host_target_id(server),
        machine_id: server.id.clone(),
        container_id: owned("host"),
        transport: server.transport,
        container_kind: ManagedContainerKind::Host,
        label,
        host,
        description,
        terminal_command,
        terminal_startup_command,
        notes,
        workspace,
        services,
        surfaces,
    }
}

/// The target of a discovered container: its label, host name, description,
/// workspace, terminal, notes and services rendered with the container's
/// placeholders, the container's own workspace, services and surfaces taking the
/// place of the machine's.
pub fn build_target_from_container(
    server: &RemoteContainerServer,
    container: &DiscoveredContainer,
    home: &UserHome,
) -> (r: DeveloperTarget)
    ensures
        r@ == container_target_spec(*server, container@, *home),
{
    reveal(container_target_spec);
    let container_label = match &container.label {
        Some(l) => l.clone(),
        None => default_container_label(
            container.name.as_str(),
            server.container_name_suffix.as_str(),
        ),
    };
    let ssh_user = resolve_container_ssh_user(server, container);
    let context = RemoteContainerContext {
        container_ip: container.ipv4.as_str(),
        container_label: container_label.as_str(),
        container_name: container.name.as_str(),
        ssh_user: ssh_user.as_str(),
        server,
    };
    let ghost p = container_place(*server, container@);
    assert(place_of(context) == p);
    let local = server.transport == MachineTransport::Local;
    let label = render_template(
        server.target_label_template.as_str(),
        &context,
        home,
        container_label.clone(),
    );
    let host = if local {
        owned("localhost")
    } else {
        render_template(server.target_host_template.as_str(), &context, home, server.host.clone())
    };
    let fallback = match &container.description {
        Some(d) => d.clone(),
        None => {
            let mut f = container_label.clone();
            f.append(" development container on ");
            f.append(server.label.as_str());
            f.append(" (");
            f.append(container.status.as_str());
            f.append(")");
            f
        },
    };
    let description = render_template(
        server.target_description_template.as_str(),
        &context,
        home,
        fallback,
    );
    let workspace = match &container.workspace {
        Some(w) => render_workspace(w, &context, home),
        None => render_workspace(&server.workspace, &context, home),
    };
    let terminal_startup_command = if container.kind == ManagedContainerKind::Managed {
        profile_terminal_startup_command(workspace.profile.as_str())
    } else {
        host_terminal_startup_command(server)
    };
    let terminal_command = if local {
        terminal_startup_command.clone()
    } else if container.kind == ManagedContainerKind::Host {
        host_ssh_terminal(server, home, terminal_startup_command.as_str())
    } else {
        terminal_command_for_server(server, &context, home, terminal_startup_command.as_str())
    };
    let notes = render_notes(&server.notes, &context, home);
    let services_source = if container.services.len() > 0 {
        &container.services
    } else {
        &server.services
    };
    let surfaces_source = if container.surfaces.len() > 0 {
        &container.surfaces
    } else {
        &server.surfaces
    };
    let services = render_services(services_source, surfaces_source, &context, home);
    let surfaces = web_surfaces(&services);
    DeveloperTarget {
        id: container_target_id(server, container),
        machine_id: server.id.clone(),
        container_id: container.id.clone(),
        transport: server.transport,
        container_kind: container.kind,
        label,
        host,
        description,
        terminal_command,
        terminal_startup_command,
        notes,
        workspace,
        services,
        surfaces,
    }
}

// ---------------------------------------------------------------------------
// SSH reachability
// ---------------------------------------------------------------------------
/// Whether a target answered over SSH, with its state (`ready`, `checking` or
/// `error`) and a message.
pub struct SshProbe {
    pub reachable: bool,
    pub state: String,
    pub message: String,
}

/// View of an SSH probe.
pub ghost struct ProbeV {
    pub reachable: bool,
    pub state: Seq<char>,
    pub message: Seq<char>,
}

impl View for SshProbe {
    type V = ProbeV;

    open spec fn view(&self) -> ProbeV {
        ProbeV { reachable: self.reachable, state: self.state@, message: self.message@ }
    }
}

/// What a command run on a target over the embedded SSH client gave back.
pub struct RemoteOutput {
    pub exit_status: u32,
    pub stdout: String,
    pub stderr: String,
}

/// The probe a run of `true` over SSH amounts to: ready on exit status 0; else an
/// error carrying the trimmed standard error, else the trimmed standard output,
/// else the exit status; an error carrying the message when the command could not
/// run.
pub open spec fn probe_outcome_spec(host: Seq<char>, outcome: Result<(u32, Seq<char>, Seq<char>), Seq<char>>) -> ProbeV {
    match outcome {
        Ok((status, stdout, stderr)) => if status == 0 {
            ProbeV { reachable: true, state: "ready"@, message: "SSH ready via "@ + host + "."@ }
        } else {
            ProbeV {
                reachable: false,
                state: "error"@,
                message: if !blank(stderr) {
                    trim_seq(stderr)
                } else if !blank(stdout) {
                    trim_seq(stdout)
                } else {
                    "SSH probe exited with "@ + dec(status as nat)
                },
            }
        },
        Err(e) => ProbeV { reachable: false, state: "error"@, message: e },
    }
}

/// The view of a probe's raw outcome.
pub open spec fn outcome_v(outcome: Result<RemoteOutput, String>) -> Result<(u32, Seq<char>, Seq<char>), Seq<char>> {
    match outcome {
        Ok(o) => Ok((o.exit_status, o.stdout@, o.stderr@)),
        Err(e) => Err(e@),
    }
}

/// The probe of a target reached through `host`, from the outcome of running `true`
/// on it.
pub fn ssh_probe_outcome(host: &str, outcome: Result<RemoteOutput, String>) -> (r: SshProbe)
    ensures
        r@ == probe_outcome_spec(host@, outcome_v(outcome)),
{
    match outcome {
        Ok(output) => {
            if output.exit_status == 0 {
                SshProbe {
                    reachable: true,
                    state: owned("ready"),
                    message: concat3("SSH ready via ", host, "."),
                }
            } else {
                let stderr = trim(output.stderr.as_str());
                let stdout = trim(output.stdout.as_str());
                let detail = if !is_blank(output.stderr.as_str()) {
                    stderr
                } else if !is_blank(output.stdout.as_str()) {
                    stdout
                } else {
                    let mut m = owned("SSH probe exited with ");
                    let n = dec_string(output.exit_status as u64);
                    m.append(n.as_str());
                    m
                };
                SshProbe { reachable: false, state: owned("error"), message: detail }
            }
        },
        Err(error) => SshProbe { reachable: false, state: owned("error"), message: error },
    }
}

/// The probe that stands for one not run.
pub open spec fn waiting_probe() -> ProbeV {
    ProbeV {
        reachable: false,
        state: "checking"@,
        message: "Waiting for background SSH probe."@,
    }
}

/// The view of an optional probe.
pub open spec fn opt_probe(p: Option<SshProbe>) -> Option<ProbeV> {
    match p {
        Some(v) => Some(v@),
        None => None,
    }
}

/// The state of a machine host: ready on the local machine, else the probe's
/// outcome, else waiting for a probe.
pub open spec fn host_state_spec(server: RemoteContainerServer, probe: Option<ProbeV>) -> ProbeV {
    if server.transport == MachineTransport::Local {
        ProbeV { reachable: true, state: "ready"@, message: "Local machine is ready."@ }
    } else {
        match probe {
            Some(p) => p,
            None => waiting_probe(),
        }
    }
}

fn copy_probe(p: &SshProbe) -> (r: SshProbe)
    ensures
        r@ == p@,
{
    SshProbe { reachable: p.reachable, state: p.state.clone(), message: p.message.clone() }
}

fn waiting() -> (r: SshProbe)
    ensures
        r@ == waiting_probe(),
{
    SshProbe {
        reachable: false,
        state: owned("checking"),
        message: owned("Waiting for background SSH probe."),
    }
}

/// The state of a machine host, given the probe of it when one was run.
pub fn machine_host_state(server: &RemoteContainerServer, probe: Option<SshProbe>) -> (r: SshProbe)
    ensures
        r@ == host_state_spec(*server, opt_probe(probe)),
{
    if server.transport == MachineTransport::Local {
        return SshProbe {
            reachable: true,
            state: owned("ready"),
            message: owned("Local machine is ready."),
        };
    }
    match probe {
        Some(p) => p,
        None => waiting(),
    }
}

// ---------------------------------------------------------------------------
// Inventory entries
// ---------------------------------------------------------------------------
/// The inventory entry of a discovered container, given the probe of its target
/// when one was run.
#[verifier::opaque]
pub open spec fn managed_spec(
    server: RemoteContainerServer,
    c: DiscoveredV,
    home: UserHome,
    probe: Option<ProbeV>,
) -> ManagedV {
    let target = container_target_spec(server, c, home);
    let local = server.transport == MachineTransport::Local;
    let state = if local {
        ProbeV { reachable: true, state: "ready"@, message: "Local workspace is ready."@ }
    } else {
        match probe {
            Some(p) => p,
            None => waiting_probe(),
        }
    };
    ManagedV {
        server_id: server.id@,
        server_label: server.label@,
        container_id: target.container_id,
        kind: c.kind,
        transport: server.transport,
        target_id: target.id,
        name: c.name,
        label: target.label,
        status: c.status,
        ipv4: c.ipv4,
        ssh_user: resolve_user_spec(server, c),
        ssh_destination: if local {
            "local"@
        } else {
            destination_spec(c.ipv4, resolve_user_spec(server, c))
        },
        ssh_command: target.terminal_command,
        ssh_state: state.state,
        ssh_message: state.message,
        ssh_reachable: state.reachable,
    }
}

/// The inventory entry and the target of a discovered container, given the probe
/// of its target when one was run.
pub fn build_managed_container(
    server: &RemoteContainerServer,
    container: &DiscoveredContainer,
    home: &UserHome,
    probe: Option<SshProbe>,
) -> (r: (ManagedContainer, Option<DeveloperTarget>))
    ensures
        r.0@ == managed_spec(*server, container@, *home, opt_probe(probe)),
        r.1 matches Some(t) && t@ == container_target_spec(*server, container@, *home),
{
    reveal(managed_spec);
    let target = build_target_from_container(server, container, home);
    let local = server.transport == MachineTransport::Local;
    let ssh_user = resolve_container_ssh_user(server, container);
    let ssh_dest = if local {
        owned("local")
    } else {
        ssh_destination(container.ipv4.as_str(), ssh_user.as_str())
    };
    let state = if local {
        SshProbe {
            reachable: true,
            state: owned("ready"),
            message: owned("Local workspace is ready."),
        }
    } else {
        match probe {
            Some(p) => p,
            None => waiting(),
        }
    };
    let managed = ManagedContainer {
        server_id: server.id.clone(),
        server_label: server.label.clone(),
        container_id: target.container_id.clone(),
        kind: container.kind,
        transport: server.transport,
        target_id: target.id.clone(),
        name: container.name.clone(),
        label: target.label.clone(),
        status: container.status.clone(),
        ipv4: container.ipv4.clone(),
        ssh_user,
        ssh_destination: ssh_dest,
        ssh_command: target.terminal_command.clone(),
        ssh_state: state.state,
        ssh_message: state.message,
        ssh_reachable: state.reachable,
    };
    (managed, Some(target))
}

/// How many entries are reachable over SSH.
pub open spec fn reachable_count(cs: Seq<ManagedV>) -> nat
    decreases cs.len(),
{
    if cs.len() == 0 {
        0
    } else {
        reachable_count(cs.drop_last()) + if cs.last().ssh_reachable {
            1nat
        } else {
            0nat
        }
    }
}

proof fn lemma_reachable_count_bound(cs: Seq<ManagedV>)
    ensures
        reachable_count(cs) <= cs.len(),
    decreases cs.len(),
{
    if cs.len() > 0 {
        lemma_reachable_count_bound(cs.drop_last());
    }
}

fn count_reachable(containers: &[ManagedContainer]) -> (n: usize)
    ensures
        n == reachable_count(managed_v(containers@)),
        n <= containers@.len(),
{
    let mut n: usize = 0;
    let mut i: usize = 0;
    let len = containers.len();
    while i < len
        invariant
            len == containers@.len(),
            i <= len,
            n <= i,
            n == reachable_count(managed_v(containers@.take(i as int))),
        decreases len - i,
    {
        proof {
            assert(managed_v(containers@.take(i + 1)).drop_last() =~= managed_v(
                containers@.take(i as int),
            ));
            assert(managed_v(containers@.take(i + 1)).last() == containers@[i as int]@);
        }
        if containers[i].ssh_reachable {
            n = n + 1;
        }
        i = i + 1;
    }
    proof {
        assert(containers@.take(len as int) =~= containers@);
    }
    n
}

/// The state and message of a machine judged by its containers alone.
pub open spec fn containers_state_spec(cs: Seq<ManagedV>) -> (Seq<char>, Seq<char>) {
    let n = reachable_count(cs);
    if cs.len() == 0 {
        ("error"@, "No matching development containers were detected."@)
    } else if n == cs.len() {
        ("ready"@, dec(n) + " development container(s) are SSH reachable."@)
    } else if n > 0 {
        ("error"@, dec(n) + " of "@ + dec(cs.len()) + " development container(s) are SSH reachable."@)
    } else {
        (
            "error"@,
            "Detected "@ + dec(cs.len()) + " development container(s), but none are SSH reachable."@,
        )
    }
}

/// The state and message of a machine judged by its containers alone: ready when
/// all of them are reachable over SSH, an error otherwise.
pub fn server_state_for_containers(containers: &[ManagedContainer]) -> (r: (String, String))
    ensures
        (r.0@, r.1@) == containers_state_spec(managed_v(containers@)),
{
    let total = containers.len();
    if total == 0 {
        return (owned("error"), owned("No matching development containers were detected."));
    }
    let reachable = count_reachable(containers);
    if reachable == total {
        let mut m = dec_string(reachable as u64);
        m.append(" development container(s) are SSH reachable.");
        return (owned("ready"), m);
    }
    if reachable > 0 {
        let mut m = dec_string(reachable as u64);
        m.append(" of ");
        let t = dec_string(total as u64);
        m.append(t.as_str());
        m.append(" development container(s) are SSH reachable.");
        return (owned("error"), m);
    }
    let mut m = owned("Detected ");
    let t = dec_string(total as u64);
    m.append(t.as_str());
    m.append(" development container(s), but none are SSH reachable.");
    (owned("error"), m)
}

/// The state and message of a machine judged by its host and its containers.
pub open spec fn machine_state_spec(host_reachable: bool, host_message: Seq<char>, cs: Seq<ManagedV>) -> (
    Seq<char>,
    Seq<char>,
) {
    let n = reachable_count(cs);
    let total = cs.len();
    let waiting = host_message == "Waiting for background SSH probe."@;
    if total == 0 {
        if host_reachable {
            ("ready"@, "Machine host is ready. No managed containers detected."@)
        } else if waiting {
            ("checking"@, "Checking machine host. No managed containers detected."@)
        } else {
            ("error"@, "Machine host is unreachable: "@ + host_message)
        }
    } else if host_reachable && n == total {
        ("ready"@, "Machine host is ready. "@ + dec(total) + " managed container(s) are SSH reachable."@)
    } else if waiting || (n > 0 && !host_reachable) {
        ("checking"@, "Checking machine host and "@ + dec(total) + " managed container(s)."@)
    } else if host_reachable {
        (
            "error"@,
            "Machine host is ready, but only "@ + dec(n) + " of "@ + dec(total)
                + " managed container(s) are SSH reachable."@,
        )
    } else {
        (
            "error"@,
            "Machine host is unreachable: "@ + host_message + " Detected "@ + dec(total)
                + " managed container(s), but none are SSH reachable."@,
        )
    }
}

/// The state and message of a machine judged by its host and its containers:
/// ready when all answer over SSH, checking while probes are pending, an error
/// otherwise.
pub fn server_state_for_machine(
    host_reachable: bool,
    host_message: &str,
    containers: &[ManagedContainer],
) -> (r: (String, String))
    ensures
        (r.0@, r.1@) == machine_state_spec(host_reachable, host_message@, managed_v(containers@)),
{
    let total = containers.len();
    let waiting = str_eq(host_message, "Waiting for background SSH probe.");
    if total == 0 {
        if host_reachable {
            return (owned("ready"), owned("Machine host is ready. No managed containers detected."));
        }
        if waiting {
            return (
                owned("checking"),
                owned("Checking machine host. No managed containers detected."),
            );
        }
        return (owned("error"), concat2("Machine host is unreachable: ", host_message));
    }
    let reachable = count_reachable(containers);
    let t = dec_string(total as u64);
    if host_reachable && reachable == total {
        return (owned("ready"), concat3("Machine host is ready. ", t.as_str(), " managed container(s) are SSH reachable."));
    }
    if waiting || (reachable > 0 && !host_reachable) {
        return (owned("checking"), concat3("Checking machine host and ", t.as_str(), " managed container(s)."));
    }
    if host_reachable {
        let mut m = owned("Machine host is ready, but only ");
        let n = dec_string(reachable as u64);
        m.append(n.as_str());
        m.append(" of ");
        m.append(t.as_str());
        m.append(" managed container(s) are SSH reachable.");
        return (owned("error"), m);
    }
    let mut m = owned("Machine host is unreachable: ");
    m.append(host_message);
    m.append(" Detected ");
    m.append(t.as_str());
    m.append(" managed container(s), but none are SSH reachable.");
    (owned("error"), m)
}

/// The probes of a machine host and of each of its containers' targets, in the
/// order of the containers.
pub struct InventoryProbes {
    pub host: SshProbe,
    pub containers: Vec<SshProbe>,
}

/// View of the probes of an inventory.
pub ghost struct ProbesV {
    pub host: ProbeV,
    pub containers: Seq<ProbeV>,
}

/// The view of an inventory's optional probes.
pub open spec fn probes_v(p: Option<InventoryProbes>) -> Option<ProbesV> {
    match p {
        Some(v) => Some(
            ProbesV { host: v.host@, containers: v.containers@.map_values(|q: SshProbe| q@) },
        ),
        None => None,
    }
}

/// The probe of the container at index `i`, when probes were run.
pub open spec fn probe_at(p: Option<ProbesV>, i: int) -> Option<ProbeV> {
    match p {
        Some(v) => Some(v.containers[i]),
        None => None,
    }
}

/// The inventory entries of discovered containers.
pub open spec fn managed_list(
    server: RemoteContainerServer,
    cs: Seq<DiscoveredV>,
    home: UserHome,
    probes: Option<ProbesV>,
) -> Seq<ManagedV> {
    Seq::new(cs.len(), |i: int| managed_spec(server, cs[i], home, probe_at(probes, i)))
}

/// A machine's inventory: its host target followed by one target per container,
/// and its entry, whose state comes from the probes when they were run and is
/// `checking` otherwise.
pub open spec fn inventory_spec(
    server: RemoteContainerServer,
    cs: Seq<DiscoveredV>,
    home: UserHome,
    probes: Option<ProbesV>,
) -> InventoryV {
    let host = host_target_spec(server, home);
    let managed = managed_list(server, cs, home, probes);
    let state = match probes {
        Some(p) => {
            let h = host_state_spec(server, Some(p.host));
            machine_state_spec(h.reachable, h.message, managed)
        },
        None => (
            "checking"@,
            if cs.len() == 0 {
                "Checking machine host. No managed containers detected."@
            } else {
                "Checking machine host and "@ + dec(cs.len()) + " managed container(s)."@
            },
        ),
    };
    InventoryV {
        server: ServerV {
            id: server.id@,
            host_target_id: host.id,
            label: server.label@,
            transport: server.transport,
            host: server.host@,
            description: server.description@,
            os: server.os@,
            state: state.0,
            message: state.1,
            containers: managed,
        },
        available_targets: seq![host] + cs.map_values(
            |c: DiscoveredV| container_target_spec(server, c, home),
        ),
    }
}

/// A machine's inventory from its discovered containers, with the probes of its
/// host and of each container's target when they were run.
pub fn inventory_from_discovered_containers(
    server: &RemoteContainerServer,
    containers: Vec<DiscoveredContainer>,
    home: &UserHome,
    probes: Option<InventoryProbes>,
) -> (r: DiscoveredServerInventory)
    requires
        probes matches Some(p) ==> p.containers@.len() == containers@.len(),
    ensures
        r@ == inventory_spec(*server, discovered_v(containers@), *home, probes_v(probes)),
{
    let ghost cs = discovered_v(containers@);
    let ghost pv = probes_v(probes);
    let host_target = build_machine_host_target(server, home);
    let host_target_id = host_target.id.clone();
    let (host_probe, container_probes) = match probes {
        Some(p) => (Some(p.host), Some(p.containers)),
        None => (None, None),
    };
    let mut managed_containers: Vec<ManagedContainer> = Vec::new();
    let mut available_targets: Vec<DeveloperTarget> = Vec::new();
    available_targets.push(host_target);
    let len = containers.len();
    let mut i: usize = 0;
    while i < len
        invariant
            len == containers@.len(),
            cs == discovered_v(containers@),
            i <= len,
            match pv {
                Some(v) => container_probes matches Some(q) && q@.len() == len
                    && q@.map_values(|x: SshProbe| x@) == v.containers,
                None => container_probes is None,
            },
            managed_v(managed_containers@) == managed_list(*server, cs, *home, pv).take(i as int),
            targets_v(available_targets@) == seq![host_target_spec(*server, *home)] + cs.take(
                i as int,
            ).map_values(|c: DiscoveredV| container_target_spec(*server, c, *home)),
        decreases len - i,
    {
        let probe = match &container_probes {
            Some(q) => Some(copy_probe(&q[i])),
            None => None,
        };
        proof {
            assert(opt_probe(probe) == probe_at(pv, i as int));
            assert(containers@[i as int]@ == cs[i as int]);
        }
        let (managed, target) = build_managed_container(server, &containers[i], home, probe);
        let ghost prev_m = managed_containers@;
        let ghost prev_t = available_targets@;
        managed_containers.push(managed);
        match target {
            Some(t) => available_targets.push(t),
            None => {},
        }
        proof {
            assert(managed_v(managed_containers@) =~= managed_v(prev_m).push(managed@));
            assert(managed_list(*server, cs, *home, pv).take(i + 1) =~= managed_list(
                *server,
                cs,
                *home,
                pv,
            ).take(i as int).push(managed@));
            assert(cs.take(i + 1) =~= cs.take(i as int).push(cs[i as int]));
            assert(cs.take(i + 1).map_values(|c: DiscoveredV| container_target_spec(*server, c, *home))
                =~= cs.take(i as int).map_values(
                |c: DiscoveredV| container_target_spec(*server, c, *home),
            ).push(container_target_spec(*server, cs[i as int], *home)));
            assert(targets_v(available_targets@) =~= targets_v(prev_t).push(
                container_target_spec(*server, cs[i as int], *home),
            ));
        }
        i = i + 1;
    }
    proof {
        assert(cs.take(len as int) =~= cs);
        assert(managed_list(*server, cs, *home, pv).take(len as int) =~= managed_list(
            *server,
            cs,
            *home,
            pv,
        ));
    }
    let (state, message) = match host_probe {
        Some(hp) => {
            let h = machine_host_state(server, Some(hp));
            server_state_for_machine(h.reachable, h.message.as_str(), managed_containers.as_slice())
        },
        None => {
            let m = if len == 0 {
                owned("Checking machine host. No managed containers detected.")
            } else {
                let t = dec_string(len as u64);
                concat3("Checking machine host and ", t.as_str(), " managed container(s).")
            };
            (owned("checking"), m)
        },
    };
    DiscoveredServerInventory {
        server: ManagedServer {
            id: server.id.clone(),
            host_target_id,
            label: server.label.clone(),
            transport: server.transport,
            host: server.host.clone(),
            description: server.description.clone(),
            os: server.os.clone(),
            state,
            message,
            containers: managed_containers,
        },
        available_targets,
    }
}

/// The inventory of a machine whose containers could not be discovered: its host
/// target alone, and an error naming the failure and, when the host does not
/// answer, the host's state.
pub open spec fn scan_error_spec(
    server: RemoteContainerServer,
    error: Seq<char>,
    home: UserHome,
    host_probe: Option<ProbeV>,
) -> InventoryV {
    let host = host_target_spec(server, home);
    let h = host_state_spec(server, host_probe);
    InventoryV {
        server: ServerV {
            id: server.id@,
            host_target_id: host.id,
            label: server.label@,
            transport: server.transport,
            host: server.host@,
            description: server.description@,
            os: server.os@,
            state: "error"@,
            message: if h.reachable {
                "Machine host is ready, but container discovery failed: "@ + error
            } else {
                "Machine host is unreachable: "@ + h.message + " Container discovery failed: "@
                    + error
            },
            containers: seq![],
        },
        available_targets: seq![host],
    }
}

/// The inventory of a machine whose containers could not be discovered, given the
/// probe of its host (not needed for the local machine).
pub fn inventory_from_scan_error(
    server: &RemoteContainerServer,
    error: String,
    home: &UserHome,
    host_probe: Option<SshProbe>,
) -> (r: DiscoveredServerInventory)
    ensures
        r@ == scan_error_spec(*server, error@, *home, opt_probe(host_probe)),
{
    let host_target = build_machine_host_target(server, home);
    let h = machine_host_state(server, host_probe);
    let message = if h.reachable {
        concat2("Machine host is ready, but container discovery failed: ", error.as_str())
    } else {
        let mut m = concat2("Machine host is unreachable: ", h.message.as_str());
        m.append(" Container discovery failed: ");
        m.append(error.as_str());
        m
    };
    let host_target_id = host_target.id.clone();
    let mut available_targets: Vec<DeveloperTarget> = Vec::new();
    available_targets.push(host_target);
    let r = DiscoveredServerInventory {
        server: ManagedServer {
            id: server.id.clone(),
            host_target_id,
            label: server.label.clone(),
            transport: server.transport,
            host: server.host.clone(),
            description: server.description.clone(),
            os: server.os.clone(),
            state: owned("error"),
            message,
            containers: Vec::new(),
        },
        available_targets,
    };
    proof {
        assert(managed_v(r.server.containers@) =~= seq![]);
        assert(targets_v(r.available_targets@) =~= seq![host_target_spec(*server, *home)]);
    }
    r
}

/// The inventory of a machine from the containers known without scanning, with no
/// probe run yet.
pub fn cached_remote_server_inventory(server: &RemoteContainerServer, home: &UserHome) -> (r:
    DiscoveredServerInventory)
    ensures
        r@ == inventory_spec(*server, manual_spec(server.containers@), *home, None),
{
    let containers = cached_server_containers(server);
    inventory_from_discovered_containers(server, containers, home, None)
}


proof fn lemma_reachable_count(cs: Seq<ManagedV>)
    ensures
        reachable_count(cs) <= cs.len(),
        reachable_count(cs) == cs.len() <==> forall|i: int| 0 <= i < cs.len() ==> (#[trigger] cs[i]).ssh_reachable,
    decreases cs.len(),
{
    if cs.len() > 0 {
        let d = cs.drop_last();
        lemma_reachable_count(d);
        if forall|i: int| 0 <= i < cs.len() ==> (#[trigger] cs[i]).ssh_reachable {
            assert forall|i: int| 0 <= i < d.len() implies (#[trigger] d[i]).ssh_reachable by {
                assert(d[i] == cs[i]);
            }
            assert(cs[cs.len() - 1].ssh_reachable);
        }
        if reachable_count(cs) == cs.len() {
            assert forall|i: int| 0 <= i < cs.len() implies (#[trigger] cs[i]).ssh_reachable by {
                if i < d.len() {
                    assert(d[i] == cs[i]);
                }
            }
        }
    }
}

/// A machine judged by its containers is ready exactly when it has containers and
/// every one of them is reachable over SSH; in every other case it is an error.
pub proof fn law_ready_only_when_every_container_answers(cs: Seq<ManagedV>)
    ensures
        containers_state_spec(cs).0 == "ready"@ <==> (cs.len() > 0 && forall|i: int|
            0 <= i < cs.len() ==> (#[trigger] cs[i]).ssh_reachable),
        containers_state_spec(cs).0 != "ready"@ ==> containers_state_spec(cs).0 == "error"@,
        (exists|i: int| 0 <= i < cs.len() && !(#[trigger] cs[i]).ssh_reachable) ==> containers_state_spec(cs).0
            == "error"@,
{
    reveal_strlit("ready");
    reveal_strlit("error");
    assert("ready"@ != "error"@) by {
        assert("ready"@[0] != "error"@[0]);
    }
    lemma_reachable_count(cs);
}

proof fn lemma_reachable_count_filter(cs: Seq<ManagedV>)
    ensures
        reachable_count(cs) == cs.filter(|c: ManagedV| c.ssh_reachable).len(),
    decreases cs.len(),
{
    reveal_with_fuel(Seq::filter, 1);
    if cs.len() > 0 {
        lemma_reachable_count_filter(cs.drop_last());
    }
}

/// The message of a machine judged by its containers counts them: with none, that
/// none were detected; with all reachable, how many; with some reachable, how many
/// of how many; with none reachable, how many were detected.
pub proof fn law_state_message_counts_containers(cs: Seq<ManagedV>)
    ensures
        ({
            let n = cs.filter(|c: ManagedV| c.ssh_reachable).len();
            containers_state_spec(cs).1 == if cs.len() == 0 {
                "No matching development containers were detected."@
            } else if n == cs.len() {
                dec(n) + " development container(s) are SSH reachable."@
            } else if n > 0 {
                dec(n) + " of "@ + dec(cs.len()) + " development container(s) are SSH reachable."@
            } else {
                "Detected "@ + dec(cs.len()) + " development container(s), but none are SSH reachable."@
            }
        }),
{
    lemma_reachable_count_filter(cs);
}
} // verus!
