//! Scanning a machine for its containers: running the discovery commands (the runs
//! themselves are handed in), combining what each manager reported, and finding the
//! users each container accepts.
use vstd::prelude::*;
use crate::actions::CommandOutput;
use crate::model::{
    discovered_v, strs, ContainerDiscoveryMode, ContainerManagerType, DiscoveredContainer,
    DiscoveredV, MachineTransport, ManagedContainerKind, RemoteContainerServer,
};
use crate::projection::{
    build_machine_host_target, inventory_from_discovered_containers, container_target_id, host_state_spec,
    inventory_from_scan_error, inventory_spec, machine_host_state, machine_host_target_id, outcome_v,
    probe_outcome_spec, scan_error_spec, ssh_probe_outcome, container_target_id_spec, host_target_id_spec,
    InventoryProbes, ProbeV, ProbesV, RemoteOutput, SshProbe,
};
use crate::model::{configs_v, DiscoveredServerInventory, InventoryV, MachineContainerConfig, ManagedServer};
use crate::inventory::{
    containers_from_scan, effective_discovered_containers, effective_spec, scan_entries_spec,
    server_index_from, server_position,
};
use crate::sources::{
    looks_like_json, looks_like_json_spec, use_russh_spec,
    combine_manager_results, combine_spec, csv_discovery_spec, default_discovery_command_for_manager,
    discovery_command_spec, discovery_managers, manual_spec, result_v, source_label_spec, with_source, orbstack_container_from_info, orbstack_container_spec,
    orbstack_item_listed, parse_discovered_containers, parse_discovered_containers_for_manager,
    scan_plan, ManagerDiscoveryResult, ScanPlan,
};
use crate::ssh::{build_host_ssh_command, host_ssh_command_spec, shell_single_quote, single_quote_spec, UserHome};
use crate::ssh_users::{
    discovered_users_from_output, enrich_container_ssh_users, enriched_spec,
    host_container_users_command, listed_users_spec, users_command_spec,
};
use crate::text::{blank, concat2, concat3, eq_ignore_case, is_blank, owned, trim, trim_seq};

verus! {

// ---------------------------------------------------------------------------
// Running a discovery command
// ---------------------------------------------------------------------------
/// What running a discovery command through the system shell gives: its output, or
/// an error naming the machine, the command and the failure (the trimmed error
/// output when the command failed).
pub open spec fn local_discovery_spec(host: Seq<char>, command: Seq<char>, outcome: Result<(bool, Seq<char>, Seq<char>), Seq<char>>) -> Result<Seq<char>, Seq<char>> {
    let prefix = "Failed to discover containers on "@ + host + " with `"@ + command + "`: "@;
    match outcome {
        Err(e) => Err(prefix + e),
        Ok((success, stdout, stderr)) => if success {
            Ok(stdout)
        } else {
            Err(prefix + trim_seq(stderr))
        },
    }
}

/// The view of a shell command's outcome.
pub open spec fn shell_outcome_v(o: Result<CommandOutput, String>) -> Result<(bool, Seq<char>, Seq<char>), Seq<char>> {
    match o {
        Ok(out) => Ok((out.success, out.stdout@, out.stderr@)),
        Err(e) => Err(e@),
    }
}

/// The view of a discovery result.
pub open spec fn text_result_v(r: Result<String, String>) -> Result<Seq<char>, Seq<char>> {
    match r {
        Ok(t) => Ok(t@),
        Err(e) => Err(e@),
    }
}

/// Runs a discovery command through the system shell (see `local_discovery_spec`).
pub fn run_discovery_command_locally<S: Fn(&str) -> Result<CommandOutput, String>>(
    server: &RemoteContainerServer,
    command: &str,
    run_shell: &S,
) -> (r: Result<String, String>)
    requires
        forall|c: &str| run_shell.requires((c,)),
    ensures
        exists|o: Result<CommandOutput, String>|
            #[trigger] run_shell.ensures((command,), o) && text_result_v(r) == local_discovery_spec(
                server.host@,
                command@,
                shell_outcome_v(o),
            ),
{
    let outcome = run_shell(command);
    let ghost o = outcome;
    assert(run_shell.ensures((command,), o));
    let mut prefix = concat3("Failed to discover containers on ", server.host.as_str(), " with `");
    prefix.append(command);
    prefix.append("`: ");
    match outcome {
        Err(e) => {
            prefix.append(e.as_str());
            Err(prefix)
        },
        Ok(out) => {
            if out.success {
                Ok(out.stdout)
            } else {
                let t = trim(out.stderr.as_str());
                prefix.append(t.as_str());
                Err(prefix)
            }
        },
    }
}

/// What running a discovery command over the embedded SSH client gives: its output,
/// or an error naming the machine (and the command and trimmed error output when the
/// command failed).
pub open spec fn russh_discovery_spec(host: Seq<char>, command: Seq<char>, outcome: Result<(u32, Seq<char>, Seq<char>), Seq<char>>) -> Result<Seq<char>, Seq<char>> {
    match outcome {
        Err(e) => Err("Failed to discover containers on "@ + host + ": "@ + e),
        Ok((status, stdout, stderr)) => if status == 0 {
            Ok(stdout)
        } else {
            Err("Failed to discover containers on "@ + host + " with `"@ + command + "`: "@ + trim_seq(stderr))
        },
    }
}

/// Runs a discovery command on the machine over the embedded SSH client (see
/// `russh_discovery_spec`).
pub fn run_discovery_command_via_russh<H: Fn(&str, &str) -> Result<RemoteOutput, String>>(
    server: &RemoteContainerServer,
    command: &str,
    run_on_host: &H,
) -> (r: Result<String, String>)
    requires
        forall|t: &str, c: &str| run_on_host.requires((t, c)),
    ensures
        exists|t: &str, o: Result<RemoteOutput, String>|
            t@ == host_target_id_spec(*server) && #[trigger] run_on_host.ensures((t, command), o) && text_result_v(r) == russh_discovery_spec(
                server.host@,
                command@,
                outcome_v(o),
            ),
{
    let host_id = machine_host_target_id(server);
    let t: &str = host_id.as_str();
    let outcome = run_on_host(t, command);
    let ghost o = outcome;
    assert(run_on_host.ensures((t, command), o));
    match outcome {
        Err(e) => {
            let mut m = concat3("Failed to discover containers on ", server.host.as_str(), ": ");
            m.append(e.as_str());
            Err(m)
        },
        Ok(out) => {
            if out.exit_status == 0 {
                Ok(out.stdout)
            } else {
                let mut m = concat3("Failed to discover containers on ", server.host.as_str(), " with `");
                m.append(command);
                m.append("`: ");
                let t = trim(out.stderr.as_str());
                m.append(t.as_str());
                Err(m)
            }
        },
    }
}

// ---------------------------------------------------------------------------
// OrbStack
// ---------------------------------------------------------------------------
/// What `orb info` tells of a machine.
pub struct OrbInfo {
    pub name: String,
    pub state: String,
    pub default_username: String,
    pub ip4: String,
}

/// The command that describes an OrbStack machine as JSON, run on the host.
pub fn orbstack_info_command(server: &RemoteContainerServer, home: &UserHome, name: &str) -> (r: String)
    ensures
        r@ == host_ssh_command_spec(
            *server,
            *home,
            seq![],
            Some(single_quote_spec("/opt/homebrew/bin/orb info "@ + name@ + " --format json"@)),
        ),
{
    let line = concat3("/opt/homebrew/bin/orb info ", name, " --format json");
    let quoted = shell_single_quote(line.as_str());
    let no_options: [&str; 0] = [];
    proof {
        assert(crate::ssh::str_views(no_options@) =~= seq![]);
    }
    build_host_ssh_command(server, home, &no_options, Some(quoted.as_str()))
}

/// The view of what `orb info` tells of a machine.
pub open spec fn info_v(i: Result<OrbInfo, String>) -> Result<(Seq<char>, Seq<char>, Seq<char>, Seq<char>), Seq<char>> {
    match i {
        Ok(info) => Ok((info.name@, info.state@, info.default_username@, info.ip4@)),
        Err(e) => Err(e@),
    }
}

/// The command that describes an OrbStack machine, run on the host.
pub open spec fn orb_info_command_spec(server: RemoteContainerServer, home: UserHome, name: Seq<char>) -> Seq<char> {
    host_ssh_command_spec(
        server,
        home,
        seq![],
        Some(single_quote_spec("/opt/homebrew/bin/orb info "@ + name + " --format json"@)),
    )
}

/// What describing one OrbStack machine gives, from the outcome of its description
/// command and, when that succeeded, of reading the description: the container, none
/// when the command failed or the machine has no address, or an error naming the
/// machine and the host.
pub open spec fn orb_item_spec(
    host: Seq<char>,
    name: Seq<char>,
    shell: Result<(bool, Seq<char>, Seq<char>), Seq<char>>,
    info: Result<(Seq<char>, Seq<char>, Seq<char>, Seq<char>), Seq<char>>,
) -> Result<Option<DiscoveredV>, Seq<char>> {
    match shell {
        Err(e) => Err("Failed to read OrbStack info for "@ + name + " on "@ + host + ": "@ + e),
        Ok((success, _, _)) => if !success {
            Ok(None)
        } else {
            match info {
                Err(e) => Err("Failed to parse OrbStack info for "@ + name + " on "@ + host + ": "@ + e),
                Ok((n, st, u, ip)) => Ok(orbstack_container_spec(n, st, u, ip)),
            }
        },
    }
}

/// The view of one machine's outcome.
pub open spec fn item_v(o: Result<Option<DiscoveredContainer>, String>) -> Result<Option<DiscoveredV>, Seq<char>> {
    match o {
        Ok(Some(c)) => Ok(Some(c@)),
        Ok(None) => Ok(None),
        Err(e) => Err(e@),
    }
}

/// Whether `out` is what describing the machine `name` can give: its description
/// command ran through `run_shell` with some outcome and, when it succeeded, its
/// output was read by `read_info` with some outcome.
pub open spec fn orb_item_possible<S: Fn(&str) -> Result<CommandOutput, String>, I: Fn(&str) -> Result<OrbInfo, String>>(
    run_shell: S,
    read_info: I,
    server: RemoteContainerServer,
    home: UserHome,
    name: Seq<char>,
    out: Result<Option<DiscoveredV>, Seq<char>>,
) -> bool {
    exists|c: &str, o: Result<CommandOutput, String>|
        c@ == orb_info_command_spec(server, home, name) && #[trigger] run_shell.ensures((c,), o) && if o matches Ok(co) && co.success {
            exists|d: &str, i: Result<OrbInfo, String>|
                d@ == o->Ok_0.stdout@ && #[trigger] read_info.ensures((d,), i) && out == orb_item_spec(
                    server.host@,
                    name,
                    shell_outcome_v(o),
                    info_v(i),
                )
        } else {
            out == orb_item_spec(server.host@, name, shell_outcome_v(o), Err(seq![]))
        }
}

/// Describes one OrbStack machine (see `orb_item_spec`).
pub fn describe_orbstack_item<S: Fn(&str) -> Result<CommandOutput, String>, I: Fn(&str) -> Result<OrbInfo, String>>(
    server: &RemoteContainerServer,
    home: &UserHome,
    name: &str,
    run_shell: &S,
    read_info: &I,
) -> (r: Result<Option<DiscoveredContainer>, String>)
    requires
        forall|c: &str| run_shell.requires((c,)),
        forall|c: &str| read_info.requires((c,)),
    ensures
        orb_item_possible(*run_shell, *read_info, *server, *home, name@, item_v(r)),
{
    let command = orbstack_info_command(server, home, name);
    let c: &str = command.as_str();
    let outcome = run_shell(c);
    let ghost o = outcome;
    match outcome {
        Err(e) => {
            let mut m = concat3("Failed to read OrbStack info for ", name, " on ");
            m.append(server.host.as_str());
            m.append(": ");
            m.append(e.as_str());
            let r: Result<Option<DiscoveredContainer>, String> = Err(m);
            assert(run_shell.ensures((c,), o));
            r
        },
        Ok(output) => {
            if !output.success {
                assert(run_shell.ensures((c,), o));
                return Ok(None);
            }
            let d: &str = output.stdout.as_str();
            let read = read_info(d);
            let ghost gi = read;
            let r = match read {
                Err(e) => {
                    let mut m = concat3("Failed to parse OrbStack info for ", name, " on ");
                    m.append(server.host.as_str());
                    m.append(": ");
                    m.append(e.as_str());
                    Err(m)
                },
                Ok(info) => Ok(orbstack_container_from_info(
                    info.name.as_str(),
                    info.state.as_str(),
                    info.default_username.as_str(),
                    info.ip4.as_str(),
                )),
            };
            assert(read_info.ensures((d,), gi));
            assert(run_shell.ensures((c,), o));
            r
        },
    }
}

/// The containers of several described machines, in order; the first error wins.
pub open spec fn orb_collect(outs: Seq<Result<Option<DiscoveredV>, Seq<char>>>) -> Result<Seq<DiscoveredV>, Seq<char>>
    decreases outs.len(),
{
    if outs.len() == 0 {
        Ok(seq![])
    } else {
        match orb_collect(outs.drop_last()) {
            Err(e) => Err(e),
            Ok(cs) => match outs.last() {
                Err(e) => Err(e),
                Ok(None) => Ok(cs),
                Ok(Some(c)) => Ok(cs.push(c)),
            },
        }
    }
}

/// The view of a list of containers or an error.
pub open spec fn containers_result_v(r: Result<Vec<DiscoveredContainer>, String>) -> Result<Seq<DiscoveredV>, Seq<char>> {
    match r {
        Ok(v) => Ok(discovered_v(v@)),
        Err(e) => Err(e@),
    }
}

/// The containers of several described machines (see `orb_collect`).
pub fn collect_orbstack_results(outs: Vec<Result<Option<DiscoveredContainer>, String>>) -> (r: Result<Vec<DiscoveredContainer>, String>)
    ensures
        containers_result_v(r) == orb_collect(outs@.map_values(|o: Result<Option<DiscoveredContainer>, String>| item_v(o))),
{
    let ghost ov = outs@.map_values(|o: Result<Option<DiscoveredContainer>, String>| item_v(o));
    let mut containers: Vec<DiscoveredContainer> = Vec::new();
    let n = outs.len();
    let mut i: usize = 0;
    proof {
        assert(ov.take(0) =~= Seq::<Result<Option<DiscoveredV>, Seq<char>>>::empty());
        assert(discovered_v(containers@) =~= Seq::<DiscoveredV>::empty());
    }
    while i < n
        invariant
            n == outs@.len(),
            i <= n,
            ov == outs@.map_values(|o: Result<Option<DiscoveredContainer>, String>| item_v(o)),
            orb_collect(ov.take(i as int)) == Ok::<Seq<DiscoveredV>, Seq<char>>(discovered_v(containers@)),
        decreases n - i,
    {
        proof {
            assert(ov.take(i + 1).drop_last() =~= ov.take(i as int));
            assert(ov.take(i + 1).last() == item_v(outs@[i as int]));
        }
        match &outs[i] {
            Err(e) => {
                let e2 = e.clone();
                proof {
                    assert(ov.take(i + 1).last() == Err::<Option<DiscoveredV>, Seq<char>>(e@));
                    assert(orb_collect(ov.take(i + 1)) == Err::<Seq<DiscoveredV>, Seq<char>>(e@));
                    lemma_orb_collect_error_stays(ov, i as int + 1);
                }
                return Err(e2);
            },
            Ok(None) => {},
            Ok(Some(c)) => {
                let ghost prev = containers@;
                containers.push(c.duplicate());
                assert(discovered_v(containers@) =~= discovered_v(prev).push(c@));
            },
        }
        i = i + 1;
    }
    assert(ov.take(n as int) =~= ov);
    Ok(containers)
}

proof fn lemma_orb_collect_error_stays(outs: Seq<Result<Option<DiscoveredV>, Seq<char>>>, k: int)
    requires
        0 < k <= outs.len(),
        orb_collect(outs.take(k)) is Err,
    ensures
        orb_collect(outs) == orb_collect(outs.take(k)),
    decreases outs.len() - k,
{
    if k < outs.len() {
        assert(outs.take(k + 1).drop_last() =~= outs.take(k));
        lemma_orb_collect_error_stays(outs, k + 1);
    } else {
        assert(outs.take(k) =~= outs);
    }
}

/// The names of the OrbStack machines listed: running ones, or all when stopped ones
/// are included.
pub open spec fn orb_listed(server: RemoteContainerServer, items: Seq<(Seq<char>, Seq<char>)>) -> Seq<Seq<char>>
    decreases items.len(),
{
    if items.len() == 0 {
        seq![]
    } else {
        let r = orb_listed(server, items.drop_last());
        if server.include_stopped || eq_ignore_case(items.last().1, "running"@) {
            r.push(items.last().0)
        } else {
            r
        }
    }
}

/// The view of the machines `orb list` gives.
pub open spec fn list_v(l: Vec<(String, String)>) -> Seq<(Seq<char>, Seq<char>)> {
    l@.map_values(|p: (String, String)| (p.0@, p.1@))
}

/// Whether `outs` are possible outcomes of describing each listed machine.
pub open spec fn orb_items_possible<S: Fn(&str) -> Result<CommandOutput, String>, I: Fn(&str) -> Result<OrbInfo, String>>(
    run_shell: S,
    read_info: I,
    server: RemoteContainerServer,
    home: UserHome,
    names: Seq<Seq<char>>,
    outs: Seq<Result<Option<DiscoveredV>, Seq<char>>>,
) -> bool {
    &&& outs.len() == names.len()
    &&& forall|i: int| 0 <= i < names.len() ==> #[trigger] orb_item_possible(run_shell, read_info, server, home, names[i], outs[i])
}

/// Whether `res` is what discovering the OrbStack machines of a host from its
/// `orb list` output can give: the list is read by `read_list`; a list that cannot be
/// read is an error naming the host; else each listed machine is described and the
/// containers collected (see `orb_collect`).
pub open spec fn orbstack_possible<L: Fn(&str) -> Result<Vec<(String, String)>, String>, S: Fn(&str) -> Result<CommandOutput, String>, I: Fn(&str) -> Result<OrbInfo, String>>(
    read_list: L,
    run_shell: S,
    read_info: I,
    server: RemoteContainerServer,
    home: UserHome,
    output: Seq<char>,
    res: Result<Seq<DiscoveredV>, Seq<char>>,
) -> bool {
    exists|d: &str, l: Result<Vec<(String, String)>, String>|
        d@ == output && #[trigger] read_list.ensures((d,), l) && match l {
            Err(e) => res == Err::<Seq<DiscoveredV>, Seq<char>>(
                "Failed to parse OrbStack discovery output for "@ + server.host@ + ": "@ + e@,
            ),
            Ok(items) => exists|outs: Seq<Result<Option<DiscoveredV>, Seq<char>>>|
                #[trigger] orb_items_possible(run_shell, read_info, server, home, orb_listed(server, list_v(items)), outs)
                    && res == orb_collect(outs),
        }
}

/// The OrbStack containers of a host from the output of `orb list`: the list is read
/// by `read_list`, each listed machine is described with `orb info` through
/// `run_shell` and read by `read_info` (see `orbstack_possible`).
pub fn parse_orbstack_containers<L: Fn(&str) -> Result<Vec<(String, String)>, String>, S: Fn(&str) -> Result<CommandOutput, String>, I: Fn(&str) -> Result<OrbInfo, String>>(
    server: &RemoteContainerServer,
    home: &UserHome,
    discovery_output: &str,
    read_list: &L,
    run_shell: &S,
    read_info: &I,
) -> (r: Result<Vec<DiscoveredContainer>, String>)
    requires
        forall|c: &str| read_list.requires((c,)),
        forall|c: &str| run_shell.requires((c,)),
        forall|c: &str| read_info.requires((c,)),
    ensures
        orbstack_possible(*read_list, *run_shell, *read_info, *server, *home, discovery_output@, containers_result_v(r)),
{
    let listed = read_list(discovery_output);
    let ghost gl = listed;
    let items = match listed {
        Err(e) => {
            let mut m = concat3("Failed to parse OrbStack discovery output for ", server.host.as_str(), ": ");
            m.append(e.as_str());
            assert(read_list.ensures((discovery_output,), gl));
            return Err(m);
        },
        Ok(items) => items,
    };
    let ghost iv = list_v(items);
    let mut outs: Vec<Result<Option<DiscoveredContainer>, String>> = Vec::new();
    let n = items.len();
    let mut i: usize = 0;
    proof {
        assert(iv.take(0) =~= Seq::<(Seq<char>, Seq<char>)>::empty());
    }
    while i < n
        invariant
            n == items@.len(),
            i <= n,
            iv == list_v(items),
            forall|c: &str| run_shell.requires((c,)),
            forall|c: &str| read_info.requires((c,)),
            orb_items_possible(
                *run_shell,
                *read_info,
                *server,
                *home,
                orb_listed(*server, iv.take(i as int)),
                outs@.map_values(|o: Result<Option<DiscoveredContainer>, String>| item_v(o)),
            ),
        decreases n - i,
    {
        proof {
            assert(iv.take(i + 1).drop_last() =~= iv.take(i as int));
            assert(iv.take(i + 1).last() == (items@[i as int].0@, items@[i as int].1@));
        }
        if orbstack_item_listed(server, items[i].1.as_str()) {
            let ghost prev = outs@;
            let out = describe_orbstack_item(server, home, items[i].0.as_str(), run_shell, read_info);
            outs.push(out);
            proof {
                let names = orb_listed(*server, iv.take(i + 1));
                let ov = outs@.map_values(|o: Result<Option<DiscoveredContainer>, String>| item_v(o));
                let pv = prev.map_values(|o: Result<Option<DiscoveredContainer>, String>| item_v(o));
                assert(names == orb_listed(*server, iv.take(i as int)).push(items@[i as int].0@));
                assert(ov =~= pv.push(item_v(out)));
                assert forall|j: int| 0 <= j < names.len() implies #[trigger] orb_item_possible(
                    *run_shell,
                    *read_info,
                    *server,
                    *home,
                    names[j],
                    ov[j],
                ) by {
                    if j < pv.len() {
                        assert(orb_item_possible(*run_shell, *read_info, *server, *home, orb_listed(*server, iv.take(i as int))[j], pv[j]));
                    }
                }
            }
        }
        i = i + 1;
    }
    assert(iv.take(n as int) =~= iv);
    let r = collect_orbstack_results(outs);
    proof {
        let ov = outs@.map_values(|o: Result<Option<DiscoveredContainer>, String>| item_v(o));
        assert(orb_items_possible(*run_shell, *read_info, *server, *home, orb_listed(*server, list_v(items)), ov));
        assert(read_list.ensures((discovery_output,), gl));
    }
    r
}

// ---------------------------------------------------------------------------
// Supported managers
// ---------------------------------------------------------------------------
/// The containers of a manager's CSV output, with their source set to the manager.
pub open spec fn csv_with_source(server: RemoteContainerServer, output: Seq<char>, m: ContainerManagerType) -> Result<Seq<DiscoveredV>, Seq<char>> {
    match csv_discovery_spec(server, output) {
        Ok(cs) => Ok(with_source(cs, source_label_spec(m))),
        Err(e) => Err(e),
    }
}

/// Whether `res` is what running one manager's discovery command `command` on the
/// host can give: the command runs over `run_on_host`; a failed run is the manager's
/// error; else OrbStack's output is read as its machine list (see
/// `orbstack_possible`) and the other managers' output as CSV rows.
pub open spec fn manager_possible<
    H: Fn(&str, &str) -> Result<RemoteOutput, String>,
    L: Fn(&str) -> Result<Vec<(String, String)>, String>,
    S: Fn(&str) -> Result<CommandOutput, String>,
    I: Fn(&str) -> Result<OrbInfo, String>,
>(
    run_on_host: H,
    read_list: L,
    run_shell: S,
    read_info: I,
    server: RemoteContainerServer,
    home: UserHome,
    m: ContainerManagerType,
    command: Seq<char>,
    res: (ContainerManagerType, bool, Result<Seq<DiscoveredV>, Seq<char>>),
) -> bool {
    exists|t: &str, c: &str, o: Result<RemoteOutput, String>|
        t@ == host_target_id_spec(server) && c@ == command && #[trigger] run_on_host.ensures((t, c), o) && match russh_discovery_spec(
            server.host@,
            command,
            outcome_v(o),
        ) {
            Err(e) => res == (m, true, Err::<Seq<DiscoveredV>, Seq<char>>(e)),
            Ok(out) => if m == ContainerManagerType::Orbstack {
                exists|x: Result<Seq<DiscoveredV>, Seq<char>>|
                    #[trigger] orbstack_possible(read_list, run_shell, read_info, server, home, out, x)
                        && res == (m, true, x)
            } else {
                res == (m, true, csv_with_source(server, out, m))
            },
        }
}

/// Runs one manager's discovery command on the host (see `manager_possible`).
pub fn discover_with_manager<
    H: Fn(&str, &str) -> Result<RemoteOutput, String>,
    L: Fn(&str) -> Result<Vec<(String, String)>, String>,
    S: Fn(&str) -> Result<CommandOutput, String>,
    I: Fn(&str) -> Result<OrbInfo, String>,
>(
    server: &RemoteContainerServer,
    home: &UserHome,
    manager_type: ContainerManagerType,
    command: &str,
    run_on_host: &H,
    read_list: &L,
    run_shell: &S,
    read_info: &I,
) -> (r: ManagerDiscoveryResult)
    requires
        forall|t: &str, c: &str| run_on_host.requires((t, c)),
        forall|c: &str| read_list.requires((c,)),
        forall|c: &str| run_shell.requires((c,)),
        forall|c: &str| read_info.requires((c,)),
    ensures
        manager_possible(*run_on_host, *read_list, *run_shell, *read_info, *server, *home, manager_type, command@, result_v(r)),
{
    let output = run_discovery_command_via_russh(server, command, run_on_host);
    match output {
        Err(e) => ManagerDiscoveryResult { manager_type, attempted: true, containers: Err(e) },
        Ok(text) => {
            let orbstack_result = if manager_type == ContainerManagerType::Orbstack {
                parse_orbstack_containers(server, home, text.as_str(), read_list, run_shell, read_info)
            } else {
                Ok(Vec::new())
            };
            let ghost orb = containers_result_v(orbstack_result);
            let containers = parse_discovered_containers_for_manager(
                server,
                manager_type,
                text.as_str(),
                orbstack_result,
            );
            let r = ManagerDiscoveryResult { manager_type, attempted: true, containers };
            proof {
                if manager_type == ContainerManagerType::Orbstack {
                    assert(orbstack_possible(*read_list, *run_shell, *read_info, *server, *home, text@, orb));
                }
            }
            r
        },
    }
}

/// Whether `res` is what a manager can give in a discovery over all supported
/// managers: nothing attempted for a manager without a command, else see
/// `manager_possible`.
pub open spec fn manager_slot_possible<
    H: Fn(&str, &str) -> Result<RemoteOutput, String>,
    L: Fn(&str) -> Result<Vec<(String, String)>, String>,
    S: Fn(&str) -> Result<CommandOutput, String>,
    I: Fn(&str) -> Result<OrbInfo, String>,
>(
    run_on_host: H,
    read_list: L,
    run_shell: S,
    read_info: I,
    server: RemoteContainerServer,
    home: UserHome,
    m: ContainerManagerType,
    res: (ContainerManagerType, bool, Result<Seq<DiscoveredV>, Seq<char>>),
) -> bool {
    if blank(discovery_command_spec(m)) {
        res == (m, false, Ok::<Seq<DiscoveredV>, Seq<char>>(seq![]))
    } else {
        manager_possible(run_on_host, read_list, run_shell, read_info, server, home, m, discovery_command_spec(m), res)
    }
}

/// Whether `rs` are possible outcomes of the managers `ms`, one each, in order.
pub open spec fn managers_possible<
    H: Fn(&str, &str) -> Result<RemoteOutput, String>,
    L: Fn(&str) -> Result<Vec<(String, String)>, String>,
    S: Fn(&str) -> Result<CommandOutput, String>,
    I: Fn(&str) -> Result<OrbInfo, String>,
>(
    run_on_host: H,
    read_list: L,
    run_shell: S,
    read_info: I,
    server: RemoteContainerServer,
    home: UserHome,
    ms: Seq<ContainerManagerType>,
    rs: Seq<(ContainerManagerType, bool, Result<Seq<DiscoveredV>, Seq<char>>)>,
) -> bool {
    &&& rs.len() == ms.len()
    &&& forall|i: int| 0 <= i < ms.len() ==> #[trigger] manager_slot_possible(run_on_host, read_list, run_shell, read_info, server, home, ms[i], rs[i])
}

/// The containers of a machine found by each manager it supports, combined (see
/// `combine_spec`): every manager of the machine (all three when none is
/// configured) runs its discovery command on the host.
pub fn discover_containers_with_supported_managers<
    H: Fn(&str, &str) -> Result<RemoteOutput, String>,
    L: Fn(&str) -> Result<Vec<(String, String)>, String>,
    S: Fn(&str) -> Result<CommandOutput, String>,
    I: Fn(&str) -> Result<OrbInfo, String>,
>(
    server: &RemoteContainerServer,
    home: &UserHome,
    run_on_host: &H,
    read_list: &L,
    run_shell: &S,
    read_info: &I,
) -> (r: Result<Vec<DiscoveredContainer>, String>)
    requires
        forall|t: &str, c: &str| run_on_host.requires((t, c)),
        forall|c: &str| read_list.requires((c,)),
        forall|c: &str| run_shell.requires((c,)),
        forall|c: &str| read_info.requires((c,)),
    ensures
        exists|rs: Seq<(ContainerManagerType, bool, Result<Seq<DiscoveredV>, Seq<char>>)>|
            #[trigger] managers_possible(
                *run_on_host,
                *read_list,
                *run_shell,
                *read_info,
                *server,
                *home,
                crate::model::manager_priority_spec(server.manager_type),
                rs,
            ) && containers_result_v(r) == combine_spec(rs),
{
    let managers = discovery_managers(server);
    let ghost ms = managers@;
    let mut results: Vec<ManagerDiscoveryResult> = Vec::new();
    let mut i: usize = 0;
    while i < managers.len()
        invariant
            i <= managers@.len(),
            ms == managers@,
            forall|t: &str, c: &str| run_on_host.requires((t, c)),
            forall|c: &str| read_list.requires((c,)),
            forall|c: &str| run_shell.requires((c,)),
            forall|c: &str| read_info.requires((c,)),
            managers_possible(
                *run_on_host,
                *read_list,
                *run_shell,
                *read_info,
                *server,
                *home,
                ms.take(i as int),
                results@.map_values(|x: ManagerDiscoveryResult| result_v(x)),
            ),
        decreases managers@.len() - i,
    {
        let m = managers[i];
        let command = default_discovery_command_for_manager(m);
        let result = if is_blank(command.as_str()) {
            let none: Vec<DiscoveredContainer> = Vec::new();
            assert(discovered_v(none@) =~= Seq::<DiscoveredV>::empty());
            ManagerDiscoveryResult { manager_type: m, attempted: false, containers: Ok(none) }
        } else {
            discover_with_manager(server, home, m, command.as_str(), run_on_host, read_list, run_shell, read_info)
        };
        let ghost prev = results@;
        results.push(result);
        proof {
            let pv = prev.map_values(|x: ManagerDiscoveryResult| result_v(x));
            let rv = results@.map_values(|x: ManagerDiscoveryResult| result_v(x));
            assert(rv =~= pv.push(result_v(result)));
            assert(ms.take(i + 1) =~= ms.take(i as int).push(m));
            assert(manager_slot_possible(*run_on_host, *read_list, *run_shell, *read_info, *server, *home, m, result_v(result)));
            assert forall|j: int| 0 <= j < i + 1 implies #[trigger] manager_slot_possible(
                *run_on_host,
                *read_list,
                *run_shell,
                *read_info,
                *server,
                *home,
                ms.take(i + 1)[j],
                rv[j],
            ) by {
                if j < i {
                    assert(manager_slot_possible(*run_on_host, *read_list, *run_shell, *read_info, *server, *home, ms.take(i as int)[j], pv[j]));
                }
            }
        }
        i = i + 1;
    }
    assert(ms.take(managers@.len() as int) =~= ms);
    let ghost rv = results@.map_values(|x: ManagerDiscoveryResult| result_v(x));
    let r = combine_manager_results(results);
    proof {
        assert(managers_possible(*run_on_host, *read_list, *run_shell, *read_info, *server, *home, ms, rv));
    }
    r
}

// ---------------------------------------------------------------------------
// Users inside containers
// ---------------------------------------------------------------------------
/// The users a run of a container's user listing finds: none when it could not run
/// or failed, else the listed users.
pub open spec fn users_from_outcome(o: Result<(u32, Seq<char>, Seq<char>), Seq<char>>) -> Seq<Seq<char>> {
    match o {
        Err(_) => seq![],
        Ok((status, stdout, _)) => if status != 0 {
            seq![]
        } else {
            listed_users_spec(stdout)
        },
    }
}

/// Whether `found` is what looking for a container's users from the host can give:
/// the machine's user for the host itself; nothing when the container's manager is
/// unknown; else the users its listing command, run over `run_on_host`, finds.
pub open spec fn users_possible<H: Fn(&str, &str) -> Result<RemoteOutput, String>>(
    run_on_host: H,
    server: RemoteContainerServer,
    c: DiscoveredV,
    found: Seq<Seq<char>>,
) -> bool {
    if c.kind == ManagedContainerKind::Host {
        found == seq![server.ssh_user@]
    } else {
        match users_command_spec(server, c) {
            None => found == Seq::<Seq<char>>::empty(),
            Some(command) => exists|t: &str, x: &str, o: Result<RemoteOutput, String>|
                t@ == host_target_id_spec(server) && x@ == command && #[trigger] run_on_host.ensures((t, x), o)
                    && found == users_from_outcome(outcome_v(o)),
        }
    }
}

/// The login users of a container, listed from the host (see `users_possible`).
pub fn discover_container_ssh_users_via_host<H: Fn(&str, &str) -> Result<RemoteOutput, String>>(
    server: &RemoteContainerServer,
    container: &DiscoveredContainer,
    run_on_host: &H,
) -> (r: Vec<String>)
    requires
        forall|t: &str, c: &str| run_on_host.requires((t, c)),
    ensures
        users_possible(*run_on_host, *server, container@, strs(r@)),
{
    if container.kind == ManagedContainerKind::Host {
        let mut r: Vec<String> = Vec::new();
        r.push(server.ssh_user.clone());
        assert(strs(r@) =~= seq![server.ssh_user@]);
        return r;
    }
    let command = match host_container_users_command(server, container) {
        Some(c) => c,
        None => {
            let r: Vec<String> = Vec::new();
            assert(strs(r@) =~= Seq::<Seq<char>>::empty());
            return r;
        },
    };
    let host_id = machine_host_target_id(server);
    let t: &str = host_id.as_str();
    let x: &str = command.as_str();
    let outcome = run_on_host(t, x);
    let ghost o = outcome;
    assert(run_on_host.ensures((t, x), o));
    match outcome {
        Err(_) => {
            let r: Vec<String> = Vec::new();
            assert(strs(r@) =~= Seq::<Seq<char>>::empty());
            r
        },
        Ok(output) => discovered_users_from_output(output.exit_status, output.stdout.as_str()),
    }
}

/// Whether `out` is a container `c` with its SSH user chosen from users that looking
/// inside it can find.
pub open spec fn enriched_possible<H: Fn(&str, &str) -> Result<RemoteOutput, String>>(
    run_on_host: H,
    server: RemoteContainerServer,
    c: DiscoveredV,
    out: DiscoveredV,
) -> bool {
    exists|found: Seq<Seq<char>>|
        #[trigger] users_possible(run_on_host, server, c, found) && out == enriched_spec(server, c, found)
}

/// Whether `out` is the containers `cs`, in order, each with its SSH user chosen from
/// the users found inside it.
pub open spec fn all_enriched_possible<H: Fn(&str, &str) -> Result<RemoteOutput, String>>(
    run_on_host: H,
    server: RemoteContainerServer,
    cs: Seq<DiscoveredV>,
    out: Seq<DiscoveredV>,
) -> bool {
    &&& out.len() == cs.len()
    &&& forall|i: int| 0 <= i < cs.len() ==> #[trigger] enriched_possible(run_on_host, server, cs[i], out[i])
}

/// The containers, each with its SSH user and candidates chosen from the users found
/// inside it (see `enriched_spec`).
pub fn enrich_discovered_container_ssh_users<H: Fn(&str, &str) -> Result<RemoteOutput, String>>(
    server: &RemoteContainerServer,
    containers: Vec<DiscoveredContainer>,
    run_on_host: &H,
) -> (r: Vec<DiscoveredContainer>)
    requires
        forall|t: &str, c: &str| run_on_host.requires((t, c)),
    ensures
        all_enriched_possible(*run_on_host, *server, discovered_v(containers@), discovered_v(r@)),
{
    let ghost cv = discovered_v(containers@);
    let mut out: Vec<DiscoveredContainer> = Vec::new();
    let mut i: usize = 0;
    while i < containers.len()
        invariant
            i <= containers@.len(),
            cv == discovered_v(containers@),
            forall|t: &str, c: &str| run_on_host.requires((t, c)),
            out@.len() == i,
            forall|j: int| 0 <= j < i ==> #[trigger] enriched_possible(*run_on_host, *server, cv[j], out@[j]@),
        decreases containers@.len() - i,
    {
        let found = discover_container_ssh_users_via_host(server, &containers[i], run_on_host);
        let ghost fv = strs(found@);
        let c = enrich_container_ssh_users(server, containers[i].duplicate(), found);
        proof {
            assert(users_possible(*run_on_host, *server, cv[i as int], fv));
        }
        out.push(c);
        i = i + 1;
    }
    proof {
        let ov = discovered_v(out@);
        assert forall|j: int| 0 <= j < cv.len() implies #[trigger] enriched_possible(*run_on_host, *server, cv[j], ov[j]) by {
            assert(enriched_possible(*run_on_host, *server, cv[j], out@[j]@));
        }
    }
    out
}

// ---------------------------------------------------------------------------
// Scanning a machine
// ---------------------------------------------------------------------------
/// The containers of a custom discovery command's output: the OrbStack machines when
/// the output looks like an OrbStack list that could be read (`orb`), else its CSV
/// rows with the source `custom`.
pub open spec fn custom_output_spec(
    server: RemoteContainerServer,
    output: Seq<char>,
    orb: Option<Result<Seq<DiscoveredV>, Seq<char>>>,
) -> Result<Seq<DiscoveredV>, Seq<char>> {
    if looks_like_json_spec(output) && orb is Some && orb->Some_0 is Ok {
        orb->Some_0
    } else {
        match csv_discovery_spec(server, output) {
            Ok(cs) => Ok(with_source(cs, "custom"@)),
            Err(e) => Err(e),
        }
    }
}

/// Whether `found` is what a machine's own discovery command can give: it runs over
/// `run_on_host` when `via_russh`, else through `run_shell`; a failed run is the
/// error; else its output is read (see `custom_output_spec`), as an OrbStack list
/// first when it looks like JSON.
pub open spec fn custom_possible<
    H: Fn(&str, &str) -> Result<RemoteOutput, String>,
    L: Fn(&str) -> Result<Vec<(String, String)>, String>,
    S: Fn(&str) -> Result<CommandOutput, String>,
    I: Fn(&str) -> Result<OrbInfo, String>,
>(
    run_on_host: H,
    read_list: L,
    run_shell: S,
    read_info: I,
    server: RemoteContainerServer,
    home: UserHome,
    command: Seq<char>,
    via_russh: bool,
    found: Result<Seq<DiscoveredV>, Seq<char>>,
) -> bool {
    exists|text: Result<Seq<char>, Seq<char>>|
        #[trigger] text_possible(run_on_host, run_shell, server, command, via_russh, text) && match text {
            Err(e) => found == Err::<Seq<DiscoveredV>, Seq<char>>(e),
            Ok(out) => if looks_like_json_spec(out) {
                exists|x: Result<Seq<DiscoveredV>, Seq<char>>|
                    #[trigger] orbstack_possible(read_list, run_shell, read_info, server, home, out, x)
                        && found == custom_output_spec(server, out, Some(x))
            } else {
                found == custom_output_spec(server, out, None)
            },
        }
}

/// Whether `text` is what running a machine's discovery command can give.
pub open spec fn text_possible<H: Fn(&str, &str) -> Result<RemoteOutput, String>, S: Fn(&str) -> Result<CommandOutput, String>>(
    run_on_host: H,
    run_shell: S,
    server: RemoteContainerServer,
    command: Seq<char>,
    via_russh: bool,
    text: Result<Seq<char>, Seq<char>>,
) -> bool {
    if via_russh {
        exists|t: &str, c: &str, o: Result<RemoteOutput, String>|
            t@ == host_target_id_spec(server) && c@ == command && #[trigger] run_on_host.ensures((t, c), o)
                && text == russh_discovery_spec(server.host@, command, outcome_v(o))
    } else {
        exists|c: &str, o: Result<CommandOutput, String>|
            c@ == command && #[trigger] run_shell.ensures((c,), o) && text == local_discovery_spec(server.host@, command, shell_outcome_v(o))
    }
}

/// Whether `r` is what scanning a machine can give, given the containers `found`
/// before their users are looked for: an error stays; else each container gets its
/// users (see `all_enriched_possible`).
pub open spec fn then_enriched<H: Fn(&str, &str) -> Result<RemoteOutput, String>>(
    run_on_host: H,
    server: RemoteContainerServer,
    found: Result<Seq<DiscoveredV>, Seq<char>>,
    r: Result<Seq<DiscoveredV>, Seq<char>>,
) -> bool {
    match found {
        Err(e) => r == Err::<Seq<DiscoveredV>, Seq<char>>(e),
        Ok(cs) => r is Ok && all_enriched_possible(run_on_host, server, cs, r->Ok_0),
    }
}

/// Whether `r` is what scanning a machine for its containers can give: none for a
/// local machine or one that shows its host only; the configured ones for manual
/// discovery; else those the machine's own discovery command lists (see
/// `custom_possible`), or when it has none those its supported managers find (see
/// `managers_possible` and `combine_spec`); each found container then gets its
/// users (see `then_enriched`).
pub open spec fn scan_possible<
    H: Fn(&str, &str) -> Result<RemoteOutput, String>,
    L: Fn(&str) -> Result<Vec<(String, String)>, String>,
    S: Fn(&str) -> Result<CommandOutput, String>,
    I: Fn(&str) -> Result<OrbInfo, String>,
>(
    run_on_host: H,
    read_list: L,
    run_shell: S,
    read_info: I,
    server: RemoteContainerServer,
    home: UserHome,
    mobile: bool,
    r: Result<Seq<DiscoveredV>, Seq<char>>,
) -> bool {
    if server.transport == MachineTransport::Local || server.discovery_mode == ContainerDiscoveryMode::HostOnly {
        r == Ok::<Seq<DiscoveredV>, Seq<char>>(seq![])
    } else if server.discovery_mode == ContainerDiscoveryMode::Manual {
        then_enriched(run_on_host, server, Ok(manual_spec(server.containers@)), r)
    } else if !blank(server.discovery_command@) {
        exists|found: Result<Seq<DiscoveredV>, Seq<char>>|
            #[trigger] custom_possible(
                run_on_host,
                read_list,
                run_shell,
                read_info,
                server,
                home,
                server.discovery_command@,
                use_russh_spec(server, mobile),
                found,
            ) && then_enriched(run_on_host, server, found, r)
    } else {
        exists|rs: Seq<(ContainerManagerType, bool, Result<Seq<DiscoveredV>, Seq<char>>)>|
            #[trigger] managers_possible(
                run_on_host,
                read_list,
                run_shell,
                read_info,
                server,
                home,
                crate::model::manager_priority_spec(server.manager_type),
                rs,
            ) && then_enriched(run_on_host, server, combine_spec(rs), r)
    }
}

/// The containers of a machine with their SSH users: none for a local machine or one
/// that shows its host only; the configured ones for manual discovery; else those
/// the machine's own discovery command lists, or when it has none those its
/// supported managers find. Each container's users are then looked for from the
/// host. The commands run over `run_on_host` (the embedded SSH client) or through
/// `run_shell` (the system shell); `read_list` and `read_info` read OrbStack's JSON.
pub fn scan_server_containers<
    H: Fn(&str, &str) -> Result<RemoteOutput, String>,
    L: Fn(&str) -> Result<Vec<(String, String)>, String>,
    S: Fn(&str) -> Result<CommandOutput, String>,
    I: Fn(&str) -> Result<OrbInfo, String>,
>(
    server: &RemoteContainerServer,
    home: &UserHome,
    mobile: bool,
    run_on_host: &H,
    read_list: &L,
    run_shell: &S,
    read_info: &I,
) -> (r: Result<Vec<DiscoveredContainer>, String>)
    requires
        forall|t: &str, c: &str| run_on_host.requires((t, c)),
        forall|c: &str| read_list.requires((c,)),
        forall|c: &str| run_shell.requires((c,)),
        forall|c: &str| read_info.requires((c,)),
    ensures
        scan_possible(*run_on_host, *read_list, *run_shell, *read_info, *server, *home, mobile, containers_result_v(r)),
{
    match scan_plan(server, mobile) {
        ScanPlan::NoContainers => {
            let none: Vec<DiscoveredContainer> = Vec::new();
            assert(discovered_v(none@) =~= Seq::<DiscoveredV>::empty());
            Ok(none)
        },
        ScanPlan::Manual(containers) => Ok(enrich_discovered_container_ssh_users(server, containers, run_on_host)),
        ScanPlan::CustomCommand { command, via_russh } => {
            let text = if via_russh {
                run_discovery_command_via_russh(server, command.as_str(), run_on_host)
            } else {
                run_discovery_command_locally(server, command.as_str(), run_shell)
            };
            let ghost tv = text_result_v(text);
            proof {
                assert(text_possible(*run_on_host, *run_shell, *server, command@, via_russh, tv));
            }
            let output = match text {
                Err(e) => {
                    proof {
                        let found = Err::<Seq<DiscoveredV>, Seq<char>>(e@);
                        assert(custom_possible(*run_on_host, *read_list, *run_shell, *read_info, *server, *home, command@, via_russh, found));
                    }
                    return Err(e);
                },
                Ok(o) => o,
            };
            let attempt = if looks_like_json(output.as_str()) {
                Some(parse_orbstack_containers(server, home, output.as_str(), read_list, run_shell, read_info))
            } else {
                None
            };
            let ghost av = if attempt is Some {
                Some(containers_result_v(attempt->Some_0))
            } else {
                None::<Result<Seq<DiscoveredV>, Seq<char>>>
            };
            let parsed = parse_discovered_containers(server, output.as_str(), attempt);
            let ghost found = containers_result_v(parsed);
            proof {
                assert(found == custom_output_spec(*server, output@, av));
                if looks_like_json_spec(output@) {
                    assert(orbstack_possible(*read_list, *run_shell, *read_info, *server, *home, output@, av->Some_0));
                }
                assert(custom_possible(*run_on_host, *read_list, *run_shell, *read_info, *server, *home, command@, via_russh, found));
            }
            match parsed {
                Err(e) => Err(e),
                Ok(cs) => Ok(enrich_discovered_container_ssh_users(server, cs, run_on_host)),
            }
        },
        ScanPlan::SupportedManagers(_) => {
            match discover_containers_with_supported_managers(server, home, run_on_host, read_list, run_shell, read_info) {
                Err(e) => Err(e),
                Ok(cs) => Ok(enrich_discovered_container_ssh_users(server, cs, run_on_host)),
            }
        },
    }
}

// ---------------------------------------------------------------------------
// A machine's inventory
// ---------------------------------------------------------------------------
/// Whether `p` is what probing the target `target_id` over `probe_target` (a run of
/// `true` there) can give; a local machine is not probed.
pub open spec fn probe_possible<P: Fn(&str) -> Result<RemoteOutput, String>>(
    probe_target: P,
    server: RemoteContainerServer,
    target_id: Seq<char>,
    p: ProbeV,
) -> bool {
    server.transport == MachineTransport::Local || exists|c: &str, o: Result<RemoteOutput, String>|
        c@ == target_id && #[trigger] probe_target.ensures((c,), o) && p == probe_outcome_spec(server.host@, outcome_v(o))
}

/// Whether `pv` are possible probes of a machine's host and of the targets of its
/// containers `cs`.
pub open spec fn probes_possible<P: Fn(&str) -> Result<RemoteOutput, String>>(
    probe_target: P,
    server: RemoteContainerServer,
    cs: Seq<DiscoveredV>,
    pv: ProbesV,
) -> bool {
    &&& probe_possible(probe_target, server, host_target_id_spec(server), pv.host)
    &&& pv.containers.len() == cs.len()
    &&& forall|i: int| 0 <= i < cs.len() ==> #[trigger] probe_possible(probe_target, server, container_target_id_spec(server, cs[i]), pv.containers[i])
}

/// Whether `inv` is the inventory a scan's outcome `found` gives once the host and
/// the containers' targets are probed: the inventory of the containers found, or
/// the failed discovery reported on the host.
pub open spec fn inventory_possible<P: Fn(&str) -> Result<RemoteOutput, String>>(
    probe_target: P,
    server: RemoteContainerServer,
    home: UserHome,
    found: Result<Seq<DiscoveredV>, Seq<char>>,
    inv: InventoryV,
) -> bool {
    match found {
        Ok(cs) => exists|pv: ProbesV|
            #[trigger] probes_possible(probe_target, server, cs, pv) && inv == inventory_spec(server, cs, home, Some(pv)),
        Err(e) => exists|hp: ProbeV|
            #[trigger] probe_possible(probe_target, server, host_target_id_spec(server), hp) && inv == scan_error_spec(
                server,
                e,
                home,
                Some(hp),
            ),
    }
}

/// Probes a target with a run of `true` over `probe_target`, unless the machine is
/// local (whose probe is then never read).
fn probe_target_ssh<P: Fn(&str) -> Result<RemoteOutput, String>>(
    server: &RemoteContainerServer,
    target_id: &str,
    probe_target: &P,
) -> (r: SshProbe)
    requires
        forall|c: &str| probe_target.requires((c,)),
    ensures
        probe_possible(*probe_target, *server, target_id@, r@),
{
    if server.transport == MachineTransport::Local {
        return machine_host_state(server, None);
    }
    let outcome = probe_target(target_id);
    let ghost o = outcome;
    assert(probe_target.ensures((target_id,), o));
    ssh_probe_outcome(server.host.as_str(), outcome)
}

/// The inventory of a machine from its containers, with its host and each
/// container's target probed over `probe_target`.
pub fn probed_server_inventory<P: Fn(&str) -> Result<RemoteOutput, String>>(
    server: &RemoteContainerServer,
    home: &UserHome,
    containers: Vec<DiscoveredContainer>,
    probe_target: &P,
) -> (r: DiscoveredServerInventory)
    requires
        forall|c: &str| probe_target.requires((c,)),
    ensures
        inventory_possible(*probe_target, *server, *home, Ok(discovered_v(containers@)), r@),
{
    let ghost cs = discovered_v(containers@);
    let host_id = machine_host_target_id(server);
    let host = probe_target_ssh(server, host_id.as_str(), probe_target);
    let mut probes: Vec<SshProbe> = Vec::new();
    let mut i: usize = 0;
    while i < containers.len()
        invariant
            i <= containers@.len(),
            cs == discovered_v(containers@),
            forall|c: &str| probe_target.requires((c,)),
            probes@.len() == i,
            forall|j: int| 0 <= j < i ==> #[trigger] probe_possible(*probe_target, *server, container_target_id_spec(*server, cs[j]), probes@[j]@),
        decreases containers@.len() - i,
    {
        let id = container_target_id(server, &containers[i]);
        let p = probe_target_ssh(server, id.as_str(), probe_target);
        probes.push(p);
        i = i + 1;
    }
    let all = InventoryProbes { host, containers: probes };
    let ghost pv = crate::projection::probes_v(Some(all))->Some_0;
    let r = inventory_from_discovered_containers(server, containers, home, Some(all));
    proof {
        assert forall|j: int| 0 <= j < cs.len() implies #[trigger] probe_possible(*probe_target, *server, container_target_id_spec(*server, cs[j]), pv.containers[j]) by {
            assert(probe_possible(*probe_target, *server, container_target_id_spec(*server, cs[j]), probes@[j]@));
        }
        assert(probes_possible(*probe_target, *server, cs, pv));
    }
    r
}

/// The inventory of a machine whose discovery failed, with its host probed over
/// `probe_target`.
pub fn probed_scan_error_inventory<P: Fn(&str) -> Result<RemoteOutput, String>>(
    server: &RemoteContainerServer,
    home: &UserHome,
    error: String,
    probe_target: &P,
) -> (r: DiscoveredServerInventory)
    requires
        forall|c: &str| probe_target.requires((c,)),
    ensures
        inventory_possible(*probe_target, *server, *home, Err(error@), r@),
{
    let host_id = machine_host_target_id(server);
    let host = probe_target_ssh(server, host_id.as_str(), probe_target);
    let ghost hp = host@;
    let r = inventory_from_scan_error(server, error, home, Some(host));
    proof {
        assert(probe_possible(*probe_target, *server, host_target_id_spec(*server), hp));
    }
    r
}

/// A machine's inventory after a scan: its containers are scanned (see
/// `scan_possible`), then its host and each container's target are probed over
/// `probe_target`; a failed scan is reported on the host (see `inventory_possible`).
pub fn discover_remote_server_inventory<
    H: Fn(&str, &str) -> Result<RemoteOutput, String>,
    L: Fn(&str) -> Result<Vec<(String, String)>, String>,
    S: Fn(&str) -> Result<CommandOutput, String>,
    I: Fn(&str) -> Result<OrbInfo, String>,
    P: Fn(&str) -> Result<RemoteOutput, String>,
>(
    server: &RemoteContainerServer,
    home: &UserHome,
    mobile: bool,
    run_on_host: &H,
    read_list: &L,
    run_shell: &S,
    read_info: &I,
    probe_target: &P,
) -> (r: DiscoveredServerInventory)
    requires
        forall|t: &str, c: &str| run_on_host.requires((t, c)),
        forall|c: &str| read_list.requires((c,)),
        forall|c: &str| run_shell.requires((c,)),
        forall|c: &str| read_info.requires((c,)),
        forall|c: &str| probe_target.requires((c,)),
    ensures
        exists|found: Result<Seq<DiscoveredV>, Seq<char>>|
            #[trigger] scan_possible(*run_on_host, *read_list, *run_shell, *read_info, *server, *home, mobile, found)
                && inventory_possible(*probe_target, *server, *home, found, r@),
{
    let scanned = scan_server_containers(server, home, mobile, run_on_host, read_list, run_shell, read_info);
    let ghost found = containers_result_v(scanned);
    let r = match scanned {
        Err(error) => probed_scan_error_inventory(server, home, error, probe_target),
        Ok(containers) => probed_server_inventory(server, home, containers, probe_target),
    };
    proof {
        assert(scan_possible(*run_on_host, *read_list, *run_shell, *read_info, *server, *home, mobile, found));
    }
    r
}

// ---------------------------------------------------------------------------
// Scanning a configured machine
// ---------------------------------------------------------------------------
/// What a scan of a configured machine gives the caller to store: the containers
/// found (the machine's inventory snapshot), the configuration entries to write back
/// for them, and the machine's entry.
pub struct ScannedServer {
    pub discovered: Vec<DiscoveredContainer>,
    pub containers: Vec<MachineContainerConfig>,
    pub server: ManagedServer,
}

/// Whether `r` is what scanning the configured machine `server` can give once its
/// containers were found as `found`: the scan's error, or the containers found, the
/// entries that record them (see `scan_entries_spec`) and the machine's entry over
/// the containers it shows (see `effective_spec`).
pub open spec fn scanned_server_spec(
    server: RemoteContainerServer,
    home: UserHome,
    found: Result<Seq<DiscoveredV>, Seq<char>>,
    r: Result<ScannedServer, String>,
) -> bool {
    match found {
        Err(e) => r is Err && r->Err_0@ == e,
        Ok(cs) => r is Ok && {
            let s = r->Ok_0;
            &&& discovered_v(s.discovered@) == cs
            &&& configs_v(s.containers@) == scan_entries_spec(server.containers@, cs)
            &&& s.server@ == inventory_spec(server, effective_spec(server, cs), home, None).server
        },
    }
}

/// Scans the configured machine `server_id` among `machines` (see `scan_possible`)
/// and returns what is to be stored of it (see `scanned_server_spec`); an unknown
/// machine is an error naming it.
pub fn scan_server_inventory<
    H: Fn(&str, &str) -> Result<RemoteOutput, String>,
    L: Fn(&str) -> Result<Vec<(String, String)>, String>,
    S: Fn(&str) -> Result<CommandOutput, String>,
    I: Fn(&str) -> Result<OrbInfo, String>,
>(
    machines: &[RemoteContainerServer],
    server_id: &str,
    home: &UserHome,
    mobile: bool,
    run_on_host: &H,
    read_list: &L,
    run_shell: &S,
    read_info: &I,
) -> (r: Result<ScannedServer, String>)
    requires
        forall|t: &str, c: &str| run_on_host.requires((t, c)),
        forall|c: &str| read_list.requires((c,)),
        forall|c: &str| run_shell.requires((c,)),
        forall|c: &str| read_info.requires((c,)),
    ensures
        server_index_from(machines@, server_id@, 0) is None ==> r is Err && r->Err_0@ == "Unknown server: "@ + server_id@,
        server_index_from(machines@, server_id@, 0) is Some ==> exists|found: Result<Seq<DiscoveredV>, Seq<char>>|
            #[trigger] scan_possible(
                *run_on_host,
                *read_list,
                *run_shell,
                *read_info,
                machines@[server_index_from(machines@, server_id@, 0)->Some_0],
                *home,
                mobile,
                found,
            ) && scanned_server_spec(machines@[server_index_from(machines@, server_id@, 0)->Some_0], *home, found, r),
{
    let index = match server_position(machines, server_id) {
        None => return Err(concat2("Unknown server: ", server_id)),
        Some(i) => i,
    };
    let server = &machines[index];
    let scanned = scan_server_containers(server, home, mobile, run_on_host, read_list, run_shell, read_info);
    let ghost found = containers_result_v(scanned);
    let r = match scanned {
        Err(e) => Err(e),
        Ok(discovered) => {
            let containers = containers_from_scan(server.containers.as_slice(), discovered.as_slice());
            let effective = effective_discovered_containers(server, discovered.as_slice());
            let inventory = inventory_from_discovered_containers(server, effective, home, None);
            let ghost iv = inventory@;
            let out = ScannedServer { discovered, containers, server: inventory.server };
            assert(out.server@ == iv.server);
            assert(scanned_server_spec(*server, *home, found, Ok::<ScannedServer, String>(out)));
            Ok(out)
        },
    };
    proof {
        assert(*server == machines@[index as int]);
        assert(scan_possible(*run_on_host, *read_list, *run_shell, *read_info, machines@[index as int], *home, mobile, found));
        assert(scanned_server_spec(machines@[index as int], *home, found, r));
        assert(server_index_from(machines@, server_id@, 0) == Some(index as int));
        let k = server_index_from(machines@, server_id@, 0)->Some_0;
        assert(k == index as int);
        assert(scan_possible(*run_on_host, *read_list, *run_shell, *read_info, machines@[k], *home, mobile, found));
        assert(scanned_server_spec(machines@[k], *home, found, r));
    }
    r
}

} // verus!
