//! The configuration entry of the local machine: built from a template or from the
//! user's entry, and kept in the configuration while the machine answers.
use vstd::prelude::*;
use crate::inventory::{lemma_server_index_from_bounds, or_empty, server_index_from, server_position};
use crate::model::{
    default_known_hosts_path, opt_v, strs, ContainerDiscoveryMode, ContainerManagerType,
    ContainerWorkspace, MachineTransport, RawTargetsFile, RemoteContainerServer,
};
use crate::text::{blank, is_blank, owned, str_eq};
use crate::chain::{accept_new_host_keys, plans_v, EndpointPlan, PlanV};
use crate::model::copy_strings;
use crate::projection::RemoteOutput;
use crate::ssh::{known_hosts_spec, machine_alias_spec, machine_host_key_alias, resolved_known_hosts_path, UserHome};

verus! {

/// The identifier of the local machine.
pub open spec fn local_id() -> Seq<char> {
    "local"@
}

/// The target of the local machine's host.
pub open spec fn local_host_target() -> Seq<char> {
    "local::host"@
}

/// The profile of the local machine's workspace: `ark-workbench` when the
/// configuration defines it, else the configuration's default profile, else none.
pub open spec fn preferred_profile_spec(raw: RawTargetsFile) -> Seq<char> {
    if strs(raw.profile_names@).contains("ark-workbench"@) {
        "ark-workbench"@
    } else {
        or_empty(opt_v(raw.default_profile))
    }
}

fn has_profile(names: &Vec<String>, name: &str) -> (r: bool)
    ensures
        r == strs(names@).contains(name@),
{
    let mut i: usize = 0;
    while i < names.len()
        invariant
            i <= names@.len(),
            forall|j: int| 0 <= j < i ==> names@[j]@ != name@,
        decreases names@.len() - i,
    {
        if str_eq(names[i].as_str(), name) {
            assert(strs(names@)[i as int] == name@);
            return true;
        }
        i = i + 1;
    }
    proof {
        if strs(names@).contains(name@) {
            let k = choose|k: int| 0 <= k < strs(names@).len() && strs(names@)[k] == name@;
            assert(names@[k]@ == name@);
        }
    }
    false
}

/// The profile of the local machine's workspace: `ark-workbench` when the
/// configuration defines it, else the configuration's default profile.
pub fn preferred_local_profile(raw_targets_file: &RawTargetsFile) -> (r: String)
    ensures
        r@ == preferred_profile_spec(*raw_targets_file),
{
    proof {
        reveal_strlit("ark-workbench");
    }
    if has_profile(&raw_targets_file.profile_names, "ark-workbench") {
        return owned("ark-workbench");
    }
    match &raw_targets_file.default_profile {
        Some(p) => p.clone(),
        None => String::new(),
    }
}

/// The settings of a fresh local machine entry, for the given user and operating
/// system.
pub open spec fn local_template_spec(
    r: RemoteContainerServer,
    raw: RawTargetsFile,
    ssh_user: Seq<char>,
    os: Seq<char>,
) -> bool {
    &&& r.id@ == local_id()
    &&& r.label@ == "Local"@
    &&& r.transport == MachineTransport::Ssh
    &&& r.host@ == "127.0.0.1"@
    &&& r.port == 22
    &&& r.description@ == "Local machine."@
    &&& r.os@ == os
    &&& r.manager_type == ContainerManagerType::Unspecified
    &&& r.discovery_mode == ContainerDiscoveryMode::Auto
    &&& r.discovery_command@ == Seq::<char>::empty()
    &&& r.ssh_user@ == ssh_user
    &&& r.container_ssh_user@ == ssh_user
    &&& r.identity_files@.len() == 0
    &&& r.ssh_credential_id@ == Seq::<char>::empty()
    &&& r.jump_chain@.len() == 0
    &&& r.known_hosts_path@ == "~/.univers/known_hosts"@
    &&& !r.strict_host_key_checking
    &&& r.container_name_suffix@ == Seq::<char>::empty()
    &&& !r.include_stopped
    &&& r.target_label_template@ == Seq::<char>::empty()
    &&& r.target_host_template@ == "{machineHost}"@
    &&& r.target_description_template@ == Seq::<char>::empty()
    &&& r.host_terminal_startup_command@ == Seq::<char>::empty()
    &&& r.terminal_command_template@ == Seq::<char>::empty()
    &&& r.notes@.len() == 0
    &&& r.workspace.profile@ == preferred_profile_spec(raw)
    &&& r.workspace.default_tool@ == "dashboard"@
    &&& r.workspace.project_path@ == Seq::<char>::empty()
    &&& r.workspace.files_root@ == Seq::<char>::empty()
    &&& r.workspace.primary_web_service_id@ == Seq::<char>::empty()
    &&& r.workspace.tmux_command_service_id@ == Seq::<char>::empty()
    &&& r.services@.len() == 0
    &&& r.surfaces@.len() == 0
    &&& r.containers@.len() == 0
}

/// A fresh configuration entry for the local machine, reached over SSH on
/// `127.0.0.1` as the given user.
pub fn local_machine_template(
    raw_targets_file: &RawTargetsFile,
    ssh_user: &str,
    local_os: String,
) -> (r: RemoteContainerServer)
    ensures
        local_template_spec(r, *raw_targets_file, ssh_user@, local_os@),
{
    RemoteContainerServer {
        id: owned("local"),
        label: owned("Local"),
        transport: MachineTransport::Ssh,
        host: owned("127.0.0.1"),
        port: 22,
        description: owned("Local machine."),
        os: local_os,
        manager_type: ContainerManagerType::Unspecified,
        discovery_mode: ContainerDiscoveryMode::Auto,
        discovery_command: String::new(),
        ssh_user: owned(ssh_user),
        container_ssh_user: owned(ssh_user),
        identity_files: Vec::new(),
        ssh_credential_id: String::new(),
        jump_chain: Vec::new(),
        known_hosts_path: default_known_hosts_path(),
        strict_host_key_checking: false,
        container_name_suffix: String::new(),
        include_stopped: false,
        target_label_template: String::new(),
        target_host_template: owned("{machineHost}"),
        target_description_template: String::new(),
        host_terminal_startup_command: String::new(),
        terminal_command_template: String::new(),
        notes: Vec::new(),
        workspace: ContainerWorkspace {
            profile: preferred_local_profile(raw_targets_file),
            default_tool: owned("dashboard"),
            project_path: String::new(),
            files_root: String::new(),
            primary_web_service_id: String::new(),
            tmux_command_service_id: String::new(),
        },
        services: Vec::new(),
        surfaces: Vec::new(),
        containers: Vec::new(),
    }
}

/// The local machine's entry made from `base`: its identity, transport, address and
/// operating system set, its blank label, description, users, known-hosts file,
/// profile and tool (and a zero port) given defaults, and every other setting kept.
pub open spec fn normalized_local_spec(
    r: RemoteContainerServer,
    base: RemoteContainerServer,
    raw: RawTargetsFile,
    ssh_user: Seq<char>,
    os: Seq<char>,
) -> bool {
    &&& r == RemoteContainerServer {
        id: r.id,
        label: r.label,
        transport: MachineTransport::Ssh,
        host: r.host,
        port: if base.port == 0 {
            22
        } else {
            base.port
        },
        description: r.description,
        os: r.os,
        ssh_user: r.ssh_user,
        container_ssh_user: r.container_ssh_user,
        known_hosts_path: r.known_hosts_path,
        workspace: ContainerWorkspace {
            profile: r.workspace.profile,
            default_tool: r.workspace.default_tool,
            ..base.workspace
        },
        ..base
    }
    &&& r.id@ == local_id()
    &&& r.host@ == "127.0.0.1"@
    &&& r.os@ == os
    &&& r.label@ == if blank(base.label@) {
        "Local"@
    } else {
        base.label@
    }
    &&& r.description@ == if blank(base.description@) {
        "Local machine."@
    } else {
        base.description@
    }
    &&& r.ssh_user@ == if blank(base.ssh_user@) {
        ssh_user
    } else {
        base.ssh_user@
    }
    &&& r.container_ssh_user@ == if blank(base.container_ssh_user@) {
        r.ssh_user@
    } else {
        base.container_ssh_user@
    }
    &&& r.known_hosts_path@ == if blank(base.known_hosts_path@) {
        "~/.univers/known_hosts"@
    } else {
        base.known_hosts_path@
    }
    &&& r.workspace.profile@ == if blank(base.workspace.profile@) {
        preferred_profile_spec(raw)
    } else {
        base.workspace.profile@
    }
    &&& r.workspace.default_tool@ == if blank(base.workspace.default_tool@) {
        "dashboard"@
    } else {
        base.workspace.default_tool@
    }
}

/// The local machine's entry: the user's entry when there is one, with its identity,
/// transport, address and operating system set and its blank fields given
/// defaults; else a fresh one for `default_ssh_user`. What the user configured by
/// hand is kept.
pub fn build_local_machine_config(
    raw_targets_file: &RawTargetsFile,
    existing_machine: Option<RemoteContainerServer>,
    default_ssh_user: &str,
    local_os: String,
) -> (r: RemoteContainerServer)
    ensures
        match existing_machine {
            Some(e) => normalized_local_spec(
                r,
                e,
                *raw_targets_file,
                default_ssh_user@,
                local_os@,
            ),
            None => local_template_spec(r, *raw_targets_file, default_ssh_user@, local_os@),
        },
{
    let from_template = existing_machine.is_none();
    let mut next = match existing_machine {
        Some(e) => e,
        None => local_machine_template(raw_targets_file, default_ssh_user, local_os.clone()),
    };
    let ghost base = next;
    next.id = owned("local");
    next.transport = MachineTransport::Ssh;
    next.host = owned("127.0.0.1");
    next.os = local_os;
    if is_blank(next.label.as_str()) {
        next.label = owned("Local");
    }
    if is_blank(next.description.as_str()) {
        next.description = owned("Local machine.");
    }
    if next.port == 0 {
        next.port = 22;
    }
    if is_blank(next.ssh_user.as_str()) {
        next.ssh_user = owned(default_ssh_user);
    }
    if is_blank(next.container_ssh_user.as_str()) {
        next.container_ssh_user = next.ssh_user.clone();
    }
    if is_blank(next.known_hosts_path.as_str()) {
        next.known_hosts_path = default_known_hosts_path();
    }
    if is_blank(next.workspace.profile.as_str()) {
        next.workspace.profile = preferred_local_profile(raw_targets_file);
    }
    if is_blank(next.workspace.default_tool.as_str()) {
        next.workspace.default_tool = owned("dashboard");
    }
    proof {
        reveal_strlit("Local");
        reveal_strlit("Local machine.");
        reveal_strlit("dashboard");
        reveal_strlit("~/.univers/known_hosts");
        reveal_strlit("127.0.0.1");
        reveal_strlit("local");
        if from_template {
            assert(!blank("Local"@));
            assert(!blank("Local machine."@));
            assert(!blank("dashboard"@));
            assert(!blank("~/.univers/known_hosts"@));
        }
    }
    next
}

/// Whether the local machine's entry can be probed at all: it names a user, a host
/// and a port.
pub open spec fn local_machine_probe_allowed_spec(server: RemoteContainerServer) -> bool {
    !blank(server.ssh_user@) && !blank(server.host@) && server.port != 0
}

/// Whether the local machine's entry can be probed at all.
pub fn local_machine_probe_allowed(server: &RemoteContainerServer) -> (r: bool)
    ensures
        r == local_machine_probe_allowed_spec(*server),
{
    !is_blank(server.ssh_user.as_str()) && !is_blank(server.host.as_str()) && server.port != 0
}

/// The single hop that probes the local machine: its entry's host, user, port and
/// identity files as written, its known-hosts file and host-key alias, and no stored
/// credential.
pub open spec fn local_probe_plan_spec(server: RemoteContainerServer, home: UserHome) -> PlanV {
    PlanV {
        alias: local_id(),
        host: server.host@,
        user: server.ssh_user@,
        port: server.port,
        identity_files: strs(server.identity_files@),
        credential_id: None,
        known_hosts_path: known_hosts_spec(server, home),
        host_key_alias: machine_alias_spec(server.id@),
        accept_new_host_keys: server.strict_host_key_checking,
    }
}

/// The hops that probe the local machine (see `local_probe_plan_spec`).
pub fn local_machine_probe_chain(server: &RemoteContainerServer, home: &UserHome) -> (r: Vec<EndpointPlan>)
    ensures
        plans_v(r@) == seq![local_probe_plan_spec(*server, *home)],
{
    let hop = EndpointPlan {
        alias: owned("local"),
        host: server.host.clone(),
        user: server.ssh_user.clone(),
        port: server.port,
        identity_files: copy_strings(&server.identity_files),
        credential_id: None,
        known_hosts_path: resolved_known_hosts_path(server, home),
        host_key_alias: machine_host_key_alias(server),
        accept_new_host_keys: accept_new_host_keys(server),
    };
    proof {
        reveal_strlit("local");
    }
    let mut r: Vec<EndpointPlan> = Vec::new();
    r.push(hop);
    assert(plans_v(r@) =~= seq![local_probe_plan_spec(*server, *home)]);
    r
}

/// The command whose success shows that the local machine answers over SSH.
pub open spec fn local_probe_command() -> Seq<char> {
    "printf univers-ark-local-ready"@
}

/// Whether the local machine is available: its entry can be probed, and a run of
/// `printf univers-ark-local-ready` over the hops of `local_machine_probe_chain`
/// through `run_chain` exits with status 0. Before the probe, `deploy_key` is
/// handed the entry's user so that the user's public key can be authorized.
pub fn local_machine_available<
    D: Fn(&str),
    R: Fn(&Vec<EndpointPlan>, &str) -> Result<RemoteOutput, String>,
>(server: &RemoteContainerServer, home: &UserHome, deploy_key: &D, run_chain: &R) -> (r: bool)
    requires
        forall|u: &str| deploy_key.requires((u,)),
        forall|p: &Vec<EndpointPlan>, c: &str| run_chain.requires((p, c)),
    ensures
        r ==> local_machine_probe_allowed_spec(*server),
        local_machine_probe_allowed_spec(*server) ==> exists|p: &Vec<EndpointPlan>, c: &str, o: Result<RemoteOutput, String>|
            plans_v(p@) == seq![local_probe_plan_spec(*server, *home)] && c@ == local_probe_command()
                && #[trigger] run_chain.ensures((p, c), o) && r == (o is Ok && o->Ok_0.exit_status == 0),
{
    if !local_machine_probe_allowed(server) {
        return false;
    }
    deploy_key(server.ssh_user.as_str());
    let chain = local_machine_probe_chain(server, home);
    let c: &str = "printf univers-ark-local-ready";
    proof {
        reveal_strlit("printf univers-ark-local-ready");
    }
    let outcome = run_chain(&chain, c);
    let ghost o = outcome;
    assert(run_chain.ensures((&chain, c), o));
    match outcome {
        Ok(output) => output.exit_status == 0,
        Err(_) => false,
    }
}

/// Whether an optional text is blank or absent.
pub open spec fn blank_or_absent(o: Option<Seq<char>>) -> bool {
    match o {
        Some(t) => blank(t),
        None => true,
    }
}

/// The configuration after the local machine was probed: an available machine's
/// entry is put first when missing (and selected when nothing is) or replaced when it
/// changed; an unavailable machine's entry is removed (and unselected).
pub open spec fn local_sync_spec(
    old_file: RawTargetsFile,
    new_file: RawTargetsFile,
    local_machine: RemoteContainerServer,
    local_available: bool,
    unchanged: bool,
    changed: bool,
) -> bool {
    let idx = server_index_from(old_file.machines@, local_id(), 0);
    &&& new_file.default_profile == old_file.default_profile
    &&& new_file.profile_names == old_file.profile_names
    &&& if local_available {
        match idx {
            Some(i) => if unchanged {
                !changed && new_file == old_file
            } else {
                &&& changed
                &&& new_file.machines@ == old_file.machines@.update(i, local_machine)
                &&& new_file.selected_target_id == old_file.selected_target_id
            },
            None => {
                &&& changed
                &&& new_file.machines@ == seq![local_machine] + old_file.machines@
                &&& if blank_or_absent(opt_v(old_file.selected_target_id)) {
                    opt_v(new_file.selected_target_id) == Some(local_host_target())
                } else {
                    new_file.selected_target_id == old_file.selected_target_id
                }
            },
        }
    } else {
        match idx {
            Some(i) => {
                &&& changed
                &&& new_file.machines@ == old_file.machines@.remove(i)
                &&& if opt_v(old_file.selected_target_id) == Some(local_host_target()) {
                    new_file.selected_target_id is None
                } else {
                    new_file.selected_target_id == old_file.selected_target_id
                }
            },
            None => !changed && new_file == old_file,
        }
    }
}

/// Brings the configuration in line with the probe of the local machine (see
/// `local_sync_spec`); `unchanged` tells whether the stored entry already equals
/// `local_machine`. Returns whether the configuration changed and must be saved.
pub fn sync_local_machine_config(
    raw_targets_file: &mut RawTargetsFile,
    local_machine: RemoteContainerServer,
    local_available: bool,
    unchanged: bool,
) -> (changed: bool)
    ensures
        local_sync_spec(
            *old(raw_targets_file),
            *final(raw_targets_file),
            local_machine,
            local_available,
            unchanged,
            changed,
        ),
{
    proof {
        reveal_strlit("local");
        reveal_strlit("local::host");
    }
    let local_index = server_position(raw_targets_file.machines.as_slice(), "local");
    if local_available {
        match local_index {
            Some(i) => {
                if unchanged {
                    return false;
                }
                raw_targets_file.machines.set(i, local_machine);
                true
            },
            None => {
                raw_targets_file.machines.insert(0, local_machine);
                let selected_blank = match &raw_targets_file.selected_target_id {
                    Some(t) => is_blank(t.as_str()),
                    None => true,
                };
                if selected_blank {
                    raw_targets_file.selected_target_id = Some(owned("local::host"));
                }
                proof {
                    assert(raw_targets_file.machines@ =~= seq![local_machine] + old(
                        raw_targets_file,
                    ).machines@);
                }
                true
            },
        }
    } else {
        match local_index {
            Some(i) => {
                raw_targets_file.machines.remove(i);
                let is_local_selected = match &raw_targets_file.selected_target_id {
                    Some(t) => str_eq(t.as_str(), "local::host"),
                    None => false,
                };
                if is_local_selected {
                    raw_targets_file.selected_target_id = None;
                }
                true
            },
            None => false,
        }
    }
}


/// Whether an entry keeps what the user set in `existing`: every setting other than
/// the identity, transport, address and operating system, and each of the label,
/// description, users, known-hosts file, profile, tool and port that was not left
/// blank.
pub open spec fn keeps_user_settings(e: RemoteContainerServer, existing: RemoteContainerServer) -> bool {
    &&& e.manager_type == existing.manager_type
    &&& e.discovery_mode == existing.discovery_mode
    &&& e.discovery_command == existing.discovery_command
    &&& e.identity_files == existing.identity_files
    &&& e.ssh_credential_id == existing.ssh_credential_id
    &&& e.jump_chain == existing.jump_chain
    &&& e.strict_host_key_checking == existing.strict_host_key_checking
    &&& e.container_name_suffix == existing.container_name_suffix
    &&& e.include_stopped == existing.include_stopped
    &&& e.target_label_template == existing.target_label_template
    &&& e.target_host_template == existing.target_host_template
    &&& e.target_description_template == existing.target_description_template
    &&& e.host_terminal_startup_command == existing.host_terminal_startup_command
    &&& e.terminal_command_template == existing.terminal_command_template
    &&& e.notes == existing.notes
    &&& e.services == existing.services
    &&& e.surfaces == existing.surfaces
    &&& e.containers == existing.containers
    &&& e.workspace.project_path == existing.workspace.project_path
    &&& e.workspace.files_root == existing.workspace.files_root
    &&& e.workspace.primary_web_service_id == existing.workspace.primary_web_service_id
    &&& e.workspace.tmux_command_service_id == existing.workspace.tmux_command_service_id
    &&& !blank(existing.label@) ==> e.label@ == existing.label@
    &&& !blank(existing.description@) ==> e.description@ == existing.description@
    &&& !blank(existing.ssh_user@) ==> e.ssh_user@ == existing.ssh_user@
    &&& !blank(existing.container_ssh_user@) ==> e.container_ssh_user@ == existing.container_ssh_user@
    &&& !blank(existing.known_hosts_path@) ==> e.known_hosts_path@ == existing.known_hosts_path@
    &&& !blank(existing.workspace.profile@) ==> e.workspace.profile@ == existing.workspace.profile@
    &&& !blank(existing.workspace.default_tool@) ==> e.workspace.default_tool@ == existing.workspace.default_tool@
    &&& existing.port != 0 ==> e.port == existing.port
}

/// Syncing an available local machine whose entry was built from the stored one
/// keeps that entry in its place, with everything the user set in it.
pub proof fn law_local_sync_keeps_user_settings(
    old_file: RawTargetsFile,
    new_file: RawTargetsFile,
    built: RemoteContainerServer,
    ssh_user: Seq<char>,
    os: Seq<char>,
    unchanged: bool,
    changed: bool,
)
    requires
        server_index_from(old_file.machines@, local_id(), 0) is Some,
        normalized_local_spec(
            built,
            old_file.machines@[server_index_from(old_file.machines@, local_id(), 0)->Some_0],
            old_file,
            ssh_user,
            os,
        ),
        local_sync_spec(old_file, new_file, built, true, unchanged, changed),
    ensures
        new_file.machines@.len() == old_file.machines@.len(),
        keeps_user_settings(
            new_file.machines@[server_index_from(old_file.machines@, local_id(), 0)->Some_0],
            old_file.machines@[server_index_from(old_file.machines@, local_id(), 0)->Some_0],
        ),
{
    lemma_server_index_from_bounds(old_file.machines@, local_id(), 0);
}

} // verus!
