//! The SSH hops that reach a machine or one of its containers: each jump host, then
//! the machine, then the container.
use vstd::prelude::*;
use crate::inventory::{server_index_from, server_position, target_index_from, target_position, ResolvedInventory};
use crate::model::{
    managed_v, strs, targets_v, DeveloperTarget, MachineTransport, ManagedContainer,
    ManagedContainerKind, ManagedServer, ManagedV, RemoteContainerServer, SshJumpConfig, TargetV,
};
use crate::ssh::{
    container_alias_spec, container_host_key_alias, expand_home_path, expand_home_spec,
    known_hosts_spec, machine_alias_spec, machine_host_key_alias, resolved_known_hosts_path,
    UserHome, build_host_ssh_command, build_ssh_command, host_ssh_command_spec, shell_single_quote,
    single_quote_spec, ssh_command_spec,
};
use crate::text::{blank, concat2, concat3, dec, dec_string, is_blank, owned, str_eq};

verus! {

/// One SSH hop: who to log in as where, with which keys, and how its host key is
/// checked. A stored credential, when named, is loaded as an extra key under the
/// name `<alias>::credential`.
pub struct EndpointPlan {
    pub alias: String,
    pub host: String,
    pub user: String,
    pub port: u16,
    pub identity_files: Vec<String>,
    pub credential_id: Option<String>,
    pub known_hosts_path: String,
    pub host_key_alias: String,
    pub accept_new_host_keys: bool,
}

/// View of an SSH hop.
pub ghost struct PlanV {
    pub alias: Seq<char>,
    pub host: Seq<char>,
    pub user: Seq<char>,
    pub port: u16,
    pub identity_files: Seq<Seq<char>>,
    pub credential_id: Option<Seq<char>>,
    pub known_hosts_path: Seq<char>,
    pub host_key_alias: Seq<char>,
    pub accept_new_host_keys: bool,
}

impl View for EndpointPlan {
    type V = PlanV;

    open spec fn view(&self) -> PlanV {
        PlanV {
            alias: self.alias@,
            host: self.host@,
            user: self.user@,
            port: self.port,
            identity_files: strs(self.identity_files@),
            credential_id: crate::model::opt_v(self.credential_id),
            known_hosts_path: self.known_hosts_path@,
            host_key_alias: self.host_key_alias@,
            accept_new_host_keys: self.accept_new_host_keys,
        }
    }
}

/// Views of a list of hops.
pub open spec fn plans_v(v: Seq<EndpointPlan>) -> Seq<PlanV> {
    v.map_values(|p: EndpointPlan| p@)
}

/// Identity files with a leading `~` expanded to the home directory.
pub open spec fn identity_paths_spec(home: UserHome, paths: Seq<Seq<char>>) -> Seq<Seq<char>> {
    paths.map_values(|p: Seq<char>| expand_home_spec(home, p))
}

/// Identity files with a leading `~` expanded to the home directory.
pub fn identity_paths(home: &UserHome, paths: &[String]) -> (r: Vec<String>)
    ensures
        strs(r@) == identity_paths_spec(*home, strs(paths@)),
{
    let mut out: Vec<String> = Vec::new();
    let len = paths.len();
    let mut i: usize = 0;
    while i < len
        invariant
            len == paths@.len(),
            i <= len,
            strs(out@) == identity_paths_spec(*home, strs(paths@.take(i as int))),
        decreases len - i,
    {
        let p = expand_home_path(home, paths[i].as_str());
        let ghost prev = out@;
        out.push(p);
        proof {
            assert(strs(paths@.take(i + 1)) =~= strs(paths@.take(i as int)).push(paths@[i as int]@));
            assert(strs(out@) =~= strs(prev).push(p@));
        }
        i = i + 1;
    }
    proof {
        assert(paths@.take(len as int) =~= paths@);
    }
    out
}

/// Whether new host keys are accepted when reaching a machine: the machine's
/// `strict_host_key_checking` setting.
pub fn accept_new_host_keys(server: &RemoteContainerServer) -> (r: bool)
    ensures
        r == server.strict_host_key_checking,
{
    server.strict_host_key_checking
}

/// The credential a hop loads, when one is named.
pub open spec fn credential_spec(id: Seq<char>) -> Option<Seq<char>> {
    if blank(id) {
        None
    } else {
        Some(id)
    }
}

/// The hop through the jump host at `index` (counted from zero) of a machine.
pub open spec fn jump_plan_spec(server: RemoteContainerServer, home: UserHome, index: int) -> PlanV {
    let jump = server.jump_chain@[index];
    PlanV {
        alias: server.id@ + "::jump-"@ + dec((index + 1) as nat),
        host: jump.host@,
        user: jump.user@,
        port: jump.port,
        identity_files: identity_paths_spec(home, strs(jump.identity_files@)),
        credential_id: credential_spec(jump.ssh_credential_id@),
        known_hosts_path: known_hosts_spec(server, home),
        host_key_alias: jump.host@,
        accept_new_host_keys: server.strict_host_key_checking,
    }
}

/// The hop to a machine itself.
pub open spec fn machine_plan_spec(server: RemoteContainerServer, home: UserHome) -> PlanV {
    PlanV {
        alias: server.id@,
        host: server.host@,
        user: server.ssh_user@,
        port: server.port,
        identity_files: identity_paths_spec(home, strs(server.identity_files@)),
        credential_id: credential_spec(server.ssh_credential_id@),
        known_hosts_path: known_hosts_spec(server, home),
        host_key_alias: machine_alias_spec(server.id@),
        accept_new_host_keys: server.strict_host_key_checking,
    }
}

/// The hops reaching a machine: each of its jump hosts in order, then the machine.
pub open spec fn machine_chain_spec(server: RemoteContainerServer, home: UserHome) -> Seq<PlanV> {
    Seq::new(server.jump_chain@.len(), |i: int| jump_plan_spec(server, home, i)).push(
        machine_plan_spec(server, home),
    )
}

fn credential_of(id: &String) -> (r: Option<String>)
    ensures
        crate::model::opt_v(r) == credential_spec(id@),
{
    if is_blank(id.as_str()) {
        None
    } else {
        Some(id.clone())
    }
}

/// The hops reaching a machine over SSH: each jump host, then the machine; an
/// error for a local machine.
pub fn resolved_machine_chain(server: &RemoteContainerServer, home: &UserHome) -> (r: Result<
    Vec<EndpointPlan>,
    String,
>)
    ensures
        match r {
            Ok(hops) => server.transport != MachineTransport::Local && plans_v(hops@)
                == machine_chain_spec(*server, *home),
            Err(e) => server.transport == MachineTransport::Local && e@ == "Machine "@
                + server.id@ + " uses local transport"@,
        },
{
    if server.transport == MachineTransport::Local {
        return Err(concat3("Machine ", server.id.as_str(), " uses local transport"));
    }
    let known_hosts_path = resolved_known_hosts_path(server, home);
    let mut hops: Vec<EndpointPlan> = Vec::new();
    let len = server.jump_chain.len();
    let mut i: usize = 0;
    while i < len
        invariant
            len == server.jump_chain@.len(),
            i <= len,
            known_hosts_path@ == known_hosts_spec(*server, *home),
            plans_v(hops@) == Seq::new(i as nat, |j: int| jump_plan_spec(*server, *home, j)),
        decreases len - i,
    {
        let jump: &SshJumpConfig = &server.jump_chain[i];
        let n = dec_string((i as u64) + 1);
        let alias = concat3(server.id.as_str(), "::jump-", n.as_str());
        let plan = EndpointPlan {
            alias,
            host: jump.host.clone(),
            user: jump.user.clone(),
            port: jump.port,
            identity_files: identity_paths(home, jump.identity_files.as_slice()),
            credential_id: credential_of(&jump.ssh_credential_id),
            known_hosts_path: known_hosts_path.clone(),
            host_key_alias: jump.host.clone(),
            accept_new_host_keys: accept_new_host_keys(server),
        };
        let ghost prev = hops@;
        hops.push(plan);
        proof {
            assert(plan@ == jump_plan_spec(*server, *home, i as int));
            assert(plans_v(hops@) =~= plans_v(prev).push(plan@));
            assert(plans_v(hops@) =~= Seq::new(
                (i + 1) as nat,
                |j: int| jump_plan_spec(*server, *home, j),
            ));
        }
        i = i + 1;
    }
    let last = EndpointPlan {
        alias: server.id.clone(),
        host: server.host.clone(),
        user: server.ssh_user.clone(),
        port: server.port,
        identity_files: identity_paths(home, server.identity_files.as_slice()),
        credential_id: credential_of(&server.ssh_credential_id),
        known_hosts_path,
        host_key_alias: machine_host_key_alias(server),
        accept_new_host_keys: accept_new_host_keys(server),
    };
    let ghost prev = hops@;
    hops.push(last);
    proof {
        assert(plans_v(hops@) =~= plans_v(prev).push(last@));
    }
    Ok(hops)
}

/// Every container entry of a list of machine entries, machine by machine.
pub open spec fn all_containers(servers: Seq<ManagedServer>) -> Seq<ManagedV>
    decreases servers.len(),
{
    if servers.len() == 0 {
        seq![]
    } else {
        all_containers(servers.drop_last()) + managed_v(servers.last().containers@)
    }
}

/// The index of the first container entry at or after `i` whose target is `id`.
pub open spec fn entry_index_from(cs: Seq<ManagedV>, id: Seq<char>, i: int) -> Option<int>
    decreases cs.len() - i,
{
    if i < 0 || i >= cs.len() {
        None
    } else if cs[i].target_id == id {
        Some(i)
    } else {
        entry_index_from(cs, id, i + 1)
    }
}

/// The hop from a machine into one of its containers.
pub open spec fn container_plan_spec(server: RemoteContainerServer, c: ManagedV, home: UserHome) -> PlanV {
    PlanV {
        alias: server.id@ + "::"@ + c.name,
        host: c.ipv4,
        user: c.ssh_user,
        port: 22,
        identity_files: seq![],
        credential_id: None,
        known_hosts_path: known_hosts_spec(server, home),
        host_key_alias: container_alias_spec(server.id@, c.name),
        accept_new_host_keys: server.strict_host_key_checking,
    }
}

/// The hops reaching a machine, or the error for a local one.
pub open spec fn machine_chain_result(server: RemoteContainerServer, home: UserHome) -> Result<
    Seq<PlanV>,
    Seq<char>,
> {
    if server.transport == MachineTransport::Local {
        Err("Machine "@ + server.id@ + " uses local transport"@)
    } else {
        Ok(machine_chain_spec(server, home))
    }
}

/// The hops reaching a target: those of its machine, followed, for a container,
/// by the hop into the container as the inventory records it; or the error that
/// stops the resolution.
pub open spec fn target_chain_spec(
    target_id: Seq<char>,
    targets: Seq<TargetV>,
    servers: Seq<ManagedServer>,
    machines: Seq<RemoteContainerServer>,
    home: UserHome,
) -> Result<Seq<PlanV>, Seq<char>> {
    match target_index_from(targets, target_id, 0) {
        None => Err("Unknown target: "@ + target_id),
        Some(k) => {
            let t = targets[k];
            if t.transport == MachineTransport::Local {
                Err("Target "@ + target_id + " uses local transport"@)
            } else {
                match server_index_from(machines, t.machine_id, 0) {
                    None => Err("Unknown machine for "@ + target_id),
                    Some(m) => {
                        let server = machines[m];
                        if t.container_kind == ManagedContainerKind::Host {
                            machine_chain_result(server, home)
                        } else {
                            let cs = all_containers(servers);
                            match entry_index_from(cs, target_id, 0) {
                                None => Err("Unknown machine inventory for "@ + target_id),
                                Some(c) => match machine_chain_result(server, home) {
                                    Ok(hops) => Ok(hops.push(container_plan_spec(server, cs[c], home))),
                                    Err(e) => Err(e),
                                },
                            }
                        }
                    },
                }
            }
        },
    }
}

/// The view of a chain result.
pub open spec fn chain_result_v(r: Result<Vec<EndpointPlan>, String>) -> Result<Seq<PlanV>, Seq<char>> {
    match r {
        Ok(v) => Ok(plans_v(v@)),
        Err(e) => Err(e@),
    }
}

fn find_container_entry<'a>(servers: &'a Vec<ManagedServer>, target_id: &str) -> (r: Option<
    &'a ManagedContainer,
>)
    ensures
        match entry_index_from(all_containers(servers@), target_id@, 0) {
            Some(k) => r matches Some(c) && c@ == all_containers(servers@)[k],
            None => r is None,
        },
{
    let ghost all = all_containers(servers@);
    let mut i: usize = 0;
    let len = servers.len();
    while i < len
        invariant
            len == servers@.len(),
            i <= len,
            all == all_containers(servers@),
            all_containers(servers@.take(i as int)).len() <= all.len(),
            all.take(all_containers(servers@.take(i as int)).len() as int) == all_containers(
                servers@.take(i as int),
            ),
            entry_index_from(all, target_id@, 0) == entry_index_from(
                all,
                target_id@,
                all_containers(servers@.take(i as int)).len() as int,
            ),
        decreases len - i,
    {
        let ghost base = all_containers(servers@.take(i as int)).len() as int;
        let cs = &servers[i].containers;
        let clen = cs.len();
        proof {
            lemma_all_containers_prefix(servers@, i as int);
            let next = all_containers(servers@.take(i + 1));
            assert(next.len() == base + clen);
            assert forall|q: int| 0 <= q < clen implies #[trigger] all[base + q] == cs@[q]@ by {
                assert(all.take(next.len() as int)[base + q] == next[base + q]);
                assert(next[base + q] == managed_v(cs@)[q]);
            }
        }
        let mut j: usize = 0;
        while j < clen
            invariant
                clen == cs@.len(),
                j <= clen,
                all == all_containers(servers@),
                0 <= base,
                base + clen <= all.len(),
                forall|q: int| 0 <= q < clen ==> #[trigger] all[base + q] == cs@[q]@,
                entry_index_from(all, target_id@, 0) == entry_index_from(all, target_id@, base + j),
            decreases clen - j,
        {
            proof {
                assert(all[base + j] == cs@[j as int]@);
            }
            if str_eq(cs[j].target_id.as_str(), target_id) {
                assert(entry_index_from(all, target_id@, base + j) == Some(base + j));
                return Some(&cs[j]);
            }
            j = j + 1;
        }
        proof {
            assert(servers@.take(i + 1).drop_last() =~= servers@.take(i as int));
            assert(all_containers(servers@.take(i + 1)) =~= all_containers(servers@.take(i as int))
                + managed_v(servers@[i as int].containers@));
            assert(all.take(base + clen) =~= all_containers(servers@.take(i + 1)));
        }
        i = i + 1;
    }
    proof {
        assert(servers@.take(len as int) =~= servers@);
        lemma_entry_index_end(all, target_id@);
    }
    None
}

proof fn lemma_entry_index_end(cs: Seq<ManagedV>, id: Seq<char>)
    ensures
        entry_index_from(cs, id, cs.len() as int) is None,
{
}

/// The containers of the first `i` machines are a prefix of all containers, and
/// those of machine `i` follow them.
proof fn lemma_all_containers_prefix(servers: Seq<ManagedServer>, i: int)
    requires
        0 <= i < servers.len(),
    ensures
        all_containers(servers.take(i + 1)) == all_containers(servers.take(i)) + managed_v(
            servers[i].containers@,
        ),
        all_containers(servers.take(i + 1)).len() <= all_containers(servers).len(),
        all_containers(servers).take(all_containers(servers.take(i + 1)).len() as int)
            == all_containers(servers.take(i + 1)),
{
    assert(servers.take(i + 1).drop_last() =~= servers.take(i));
    lemma_all_containers_take(servers, i + 1);
}

proof fn lemma_all_containers_take(servers: Seq<ManagedServer>, n: int)
    requires
        0 <= n <= servers.len(),
    ensures
        all_containers(servers.take(n)).len() <= all_containers(servers).len(),
        all_containers(servers).take(all_containers(servers.take(n)).len() as int)
            == all_containers(servers.take(n)),
    decreases servers.len() - n,
{
    if n == servers.len() {
        assert(servers.take(n) =~= servers);
        assert(all_containers(servers).take(all_containers(servers).len() as int) =~= all_containers(
            servers,
        ));
    } else {
        lemma_all_containers_take(servers, n + 1);
        assert(servers.take(n + 1).drop_last() =~= servers.take(n));
        let a = all_containers(servers.take(n));
        let b = all_containers(servers.take(n + 1));
        assert(b == a + managed_v(servers[n].containers@));
        assert(all_containers(servers).take(a.len() as int) =~= b.take(a.len() as int));
        assert(b.take(a.len() as int) =~= a);
    }
}

/// The hops reaching a target: those of its machine and, for a container, the hop
/// into it; an error for an unknown target, a local one, one whose machine or
/// container entry is missing, or a local machine.
pub fn resolve_target_ssh_chain(
    target_id: &str,
    inventory: &ResolvedInventory,
    machines: &[RemoteContainerServer],
    home: &UserHome,
) -> (r: Result<Vec<EndpointPlan>, String>)
    ensures
        chain_result_v(r) == target_chain_spec(
            target_id@,
            targets_v(inventory.targets_file.targets@),
            inventory.servers@,
            machines@,
            *home,
        ),
{
    let targets = &inventory.targets_file.targets;
    let k = match target_position(targets, target_id) {
        Some(k) => k,
        None => {
            return Err(concat2("Unknown target: ", target_id));
        },
    };
    let target: &DeveloperTarget = &targets[k];
    proof {
        assert(targets_v(targets@)[k as int] == target@);
    }
    if target.transport == MachineTransport::Local {
        return Err(concat3("Target ", target_id, " uses local transport"));
    }
    let m = match server_position(machines, target.machine_id.as_str()) {
        Some(m) => m,
        None => {
            return Err(concat2("Unknown machine for ", target_id));
        },
    };
    let server = &machines[m];
    if target.container_kind == ManagedContainerKind::Host {
        return resolved_machine_chain(server, home);
    }
    match find_container_entry(&inventory.servers, target_id) {
        None => Err(concat2("Unknown machine inventory for ", target_id)),
        Some(container) => {
            let chain = resolved_machine_chain(server, home);
            match chain {
                Ok(hops) => {
                    let mut hops = hops;
                    let plan = EndpointPlan {
                        alias: concat3(server.id.as_str(), "::", container.name.as_str()),
                        host: container.ipv4.clone(),
                        user: container.ssh_user.clone(),
                        port: 22,
                        identity_files: Vec::new(),
                        credential_id: None,
                        known_hosts_path: resolved_known_hosts_path(server, home),
                        host_key_alias: container_host_key_alias(server, container.name.as_str()),
                        accept_new_host_keys: accept_new_host_keys(server),
                    };
                    let ghost prev = hops@;
                    hops.push(plan);
                    proof {
                        assert(strs(plan.identity_files@) =~= seq![]);
                        assert(plans_v(hops@) =~= plans_v(prev).push(plan@));
                    }
                    Ok(hops)
                },
                Err(e) => Err(e),
            }
        },
    }
}

/// The shell command that runs `remote` on a target: on a machine's host, the
/// machine's `ssh` command with `remote` quoted; in a container of the inventory,
/// the container's `ssh` command with it quoted; for any other target of a known
/// machine, `remote` itself; an error for an unknown target or machine.
pub open spec fn target_shell_spec(
    target_id: Seq<char>,
    targets: Seq<TargetV>,
    servers: Seq<ManagedServer>,
    machines: Seq<RemoteContainerServer>,
    remote: Seq<char>,
    home: UserHome,
) -> Result<Seq<char>, Seq<char>> {
    match target_index_from(targets, target_id, 0) {
        None => Err("Unknown target: "@ + target_id),
        Some(k) => {
            let t = targets[k];
            match server_index_from(machines, t.machine_id, 0) {
                None => Err("Unknown machine for "@ + target_id),
                Some(m) => {
                    let server = machines[m];
                    if t.container_kind == ManagedContainerKind::Host {
                        Ok(host_ssh_command_spec(server, home, seq![], Some(single_quote_spec(remote))))
                    } else {
                        let cs = all_containers(servers);
                        match entry_index_from(cs, target_id, 0) {
                            None => Ok(remote),
                            Some(c) => Ok(
                                ssh_command_spec(
                                    server,
                                    home,
                                    cs[c].ipv4,
                                    cs[c].name,
                                    cs[c].ssh_user,
                                    seq![],
                                    Some(single_quote_spec(remote)),
                                ),
                            ),
                        }
                    }
                },
            }
        },
    }
}

/// The shell command that runs `remote_command` on a target (see
/// `target_shell_spec`).
pub fn target_shell_command(
    target_id: &str,
    inventory: &ResolvedInventory,
    machines: &[RemoteContainerServer],
    remote_command: &str,
    home: &UserHome,
) -> (r: Result<String, String>)
    ensures
        match (r, target_shell_spec(
            target_id@,
            targets_v(inventory.targets_file.targets@),
            inventory.servers@,
            machines@,
            remote_command@,
            *home,
        )) {
            (Ok(c), Ok(s)) => c@ == s,
            (Err(e), Err(s)) => e@ == s,
            _ => false,
        },
{
    let targets = &inventory.targets_file.targets;
    let k = match target_position(targets, target_id) {
        Some(k) => k,
        None => {
            return Err(concat2("Unknown target: ", target_id));
        },
    };
    let target: &DeveloperTarget = &targets[k];
    proof {
        assert(targets_v(targets@)[k as int] == target@);
    }
    let m = match server_position(machines, target.machine_id.as_str()) {
        Some(m) => m,
        None => {
            return Err(concat2("Unknown machine for ", target_id));
        },
    };
    let server = &machines[m];
    let no_options: [&str; 0] = [];
    proof {
        assert(crate::ssh::str_views(no_options@) =~= seq![]);
    }
    if target.container_kind == ManagedContainerKind::Host {
        let quoted = shell_single_quote(remote_command);
        return Ok(build_host_ssh_command(server, home, &no_options, Some(quoted.as_str())));
    }
    match find_container_entry(&inventory.servers, target_id) {
        None => Ok(owned(remote_command)),
        Some(container) => {
            let quoted = shell_single_quote(remote_command);
            Ok(build_ssh_command(
                server,
                home,
                container.ipv4.as_str(),
                container.name.as_str(),
                container.ssh_user.as_str(),
                &no_options,
                Some(quoted.as_str()),
            ))
        },
    }
}

} // verus!
