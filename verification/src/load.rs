//! Loading the inventory of every configured machine: from the stored snapshots, or
//! by scanning each machine afresh and probing what it shows.
use vstd::prelude::*;
use crate::actions::CommandOutput;
use crate::inventory::{
    all_targets, assemble_inventory, effective_discovered_containers, effective_spec,
    inventories_v, load_cached_server_inventory, servers_v, ResolvedInventory, ResolvedV,
};
use crate::model::{
    discovered_v, opt_v, targets_v, DiscoveredContainer, DiscoveredServerInventory, DiscoveredV,
    InventoryV, RawTargetsFile, RemoteContainerServer,
};
use crate::projection::{host_target_id_spec, inventory_spec, scan_error_spec, ProbeV, ProbesV, RemoteOutput};
use crate::scan::{
    containers_result_v, inventory_possible, probed_scan_error_inventory, probed_server_inventory,
    probe_possible, probes_possible, scan_possible, scan_server_containers, OrbInfo,
};
use crate::sources::manual_spec;
use crate::ssh::UserHome;

verus! {

/// The containers a scan found, merged with their configuration entries and
/// without those the machine does not show (see `effective_spec`).
pub open spec fn effective_found(
    server: RemoteContainerServer,
    found: Result<Seq<DiscoveredV>, Seq<char>>,
) -> Result<Seq<DiscoveredV>, Seq<char>> {
    match found {
        Ok(cs) => Ok(effective_spec(server, cs)),
        Err(e) => Err(e),
    }
}

/// Whether the containers a successful scan found were handed to `save_snapshot`
/// under the machine's identifier (nothing is owed after a failed scan).
pub open spec fn snapshot_saved<V: Fn(&str, &Vec<DiscoveredContainer>)>(
    save_snapshot: V,
    server: RemoteContainerServer,
    found: Result<Seq<DiscoveredV>, Seq<char>>,
) -> bool {
    match found {
        Ok(cs) => exists|id: &str, v: &Vec<DiscoveredContainer>|
            id@ == server.id@ && discovered_v(v@) == cs && #[trigger] save_snapshot.ensures((id, v), ()),
        Err(_) => true,
    }
}

/// Whether `inv` is what refreshing a machine's inventory can give: its containers
/// are scanned (see `scan_possible`), what a successful scan found is saved (see
/// `snapshot_saved`), and the ones it shows probed, or the failed scan is reported
/// on its probed host (see `inventory_possible`).
pub open spec fn refreshed_possible<
    H: Fn(&str, &str) -> Result<RemoteOutput, String>,
    L: Fn(&str) -> Result<Vec<(String, String)>, String>,
    S: Fn(&str) -> Result<CommandOutput, String>,
    I: Fn(&str) -> Result<OrbInfo, String>,
    P: Fn(&str) -> Result<RemoteOutput, String>,
    V: Fn(&str, &Vec<DiscoveredContainer>),
>(
    run_on_host: H,
    read_list: L,
    run_shell: S,
    read_info: I,
    probe_target: P,
    save_snapshot: V,
    server: RemoteContainerServer,
    home: UserHome,
    mobile: bool,
    inv: InventoryV,
) -> bool {
    exists|found: Result<Seq<DiscoveredV>, Seq<char>>|
        #[trigger] scan_possible(run_on_host, read_list, run_shell, read_info, server, home, mobile, found)
            && snapshot_saved(save_snapshot, server, found)
            && inventory_possible(probe_target, server, home, effective_found(server, found), inv)
}

/// Whether `inv` is a machine's inventory without a scan: from the stored snapshot
/// that `read_snapshot` gives for it (see `load_cached_server_inventory`).
pub open spec fn cached_possible<R: Fn(&str) -> Option<Vec<DiscoveredContainer>>>(
    read_snapshot: R,
    server: RemoteContainerServer,
    home: UserHome,
    inv: InventoryV,
) -> bool {
    exists|id: &str, snap: Option<Vec<DiscoveredContainer>>|
        id@ == server.id@ && #[trigger] read_snapshot.ensures((id,), snap) && inv == match snap {
            Some(d) => inventory_spec(server, effective_spec(server, discovered_v(d@)), home, None),
            None => inventory_spec(server, manual_spec(server.containers@), home, None),
        }
}

/// A machine's inventory refreshed by a scan (see `refreshed_possible`); the
/// containers a successful scan found are handed to `save_snapshot` with the
/// machine's identifier before the probes.
pub fn refresh_server_inventory<
    H: Fn(&str, &str) -> Result<RemoteOutput, String>,
    L: Fn(&str) -> Result<Vec<(String, String)>, String>,
    S: Fn(&str) -> Result<CommandOutput, String>,
    I: Fn(&str) -> Result<OrbInfo, String>,
    P: Fn(&str) -> Result<RemoteOutput, String>,
    V: Fn(&str, &Vec<DiscoveredContainer>),
>(
    server: &RemoteContainerServer,
    home: &UserHome,
    mobile: bool,
    run_on_host: &H,
    read_list: &L,
    run_shell: &S,
    read_info: &I,
    probe_target: &P,
    save_snapshot: &V,
) -> (r: DiscoveredServerInventory)
    requires
        forall|t: &str, c: &str| run_on_host.requires((t, c)),
        forall|c: &str| read_list.requires((c,)),
        forall|c: &str| run_shell.requires((c,)),
        forall|c: &str| read_info.requires((c,)),
        forall|c: &str| probe_target.requires((c,)),
        forall|id: &str, v: &Vec<DiscoveredContainer>| save_snapshot.requires((id, v)),
    ensures
        refreshed_possible(
            *run_on_host,
            *read_list,
            *run_shell,
            *read_info,
            *probe_target,
            *save_snapshot,
            *server,
            *home,
            mobile,
            r@,
        ),
{
    let scanned = scan_server_containers(server, home, mobile, run_on_host, read_list, run_shell, read_info);
    let ghost found = containers_result_v(scanned);
    let r = match scanned {
        Err(error) => probed_scan_error_inventory(server, home, error, probe_target),
        Ok(containers) => {
            let effective = effective_discovered_containers(server, containers.as_slice());
            let id: &str = server.id.as_str();
            save_snapshot(id, &containers);
            proof {
                assert(save_snapshot.ensures((id, &containers), ()));
                assert(snapshot_saved(*save_snapshot, *server, found));
            }
            probed_server_inventory(server, home, effective, probe_target)
        },
    };
    proof {
        assert(scan_possible(*run_on_host, *read_list, *run_shell, *read_info, *server, *home, mobile, found));
        assert(snapshot_saved(*save_snapshot, *server, found));
    }
    r
}

/// Whether `invs` are possible inventories of the machines `ms`, one each, in
/// order: refreshed by scans when `force_refresh`, else from the stored snapshots.
pub open spec fn inventories_possible<
    H: Fn(&str, &str) -> Result<RemoteOutput, String>,
    L: Fn(&str) -> Result<Vec<(String, String)>, String>,
    S: Fn(&str) -> Result<CommandOutput, String>,
    I: Fn(&str) -> Result<OrbInfo, String>,
    P: Fn(&str) -> Result<RemoteOutput, String>,
    R: Fn(&str) -> Option<Vec<DiscoveredContainer>>,
    V: Fn(&str, &Vec<DiscoveredContainer>),
>(
    run_on_host: H,
    read_list: L,
    run_shell: S,
    read_info: I,
    probe_target: P,
    read_snapshot: R,
    save_snapshot: V,
    ms: Seq<RemoteContainerServer>,
    home: UserHome,
    mobile: bool,
    force_refresh: bool,
    invs: Seq<InventoryV>,
) -> bool {
    &&& invs.len() == ms.len()
    &&& forall|i: int| 0 <= i < ms.len() ==> #[trigger] machine_inventory_possible(
        run_on_host,
        read_list,
        run_shell,
        read_info,
        probe_target,
        read_snapshot,
        save_snapshot,
        ms[i],
        home,
        mobile,
        force_refresh,
        invs[i],
    )
}

/// Whether `inv` is a possible inventory of one machine (see
/// `inventories_possible`).
pub open spec fn machine_inventory_possible<
    H: Fn(&str, &str) -> Result<RemoteOutput, String>,
    L: Fn(&str) -> Result<Vec<(String, String)>, String>,
    S: Fn(&str) -> Result<CommandOutput, String>,
    I: Fn(&str) -> Result<OrbInfo, String>,
    P: Fn(&str) -> Result<RemoteOutput, String>,
    R: Fn(&str) -> Option<Vec<DiscoveredContainer>>,
    V: Fn(&str, &Vec<DiscoveredContainer>),
>(
    run_on_host: H,
    read_list: L,
    run_shell: S,
    read_info: I,
    probe_target: P,
    read_snapshot: R,
    save_snapshot: V,
    server: RemoteContainerServer,
    home: UserHome,
    mobile: bool,
    force_refresh: bool,
    inv: InventoryV,
) -> bool {
    if force_refresh {
        refreshed_possible(run_on_host, read_list, run_shell, read_info, probe_target, save_snapshot, server, home, mobile, inv)
    } else {
        cached_possible(read_snapshot, server, home, inv)
    }
}

/// The servers of an inventory are the machines of the configuration, in order: one
/// each, under the machine's identifier.
pub open spec fn servers_follow_machines(v: ResolvedV, machines: Seq<RemoteContainerServer>) -> bool {
    &&& v.servers.len() == machines.len()
    &&& forall|i: int| 0 <= i < machines.len() ==> (#[trigger] v.servers[i]).id == machines[i].id@
}

proof fn lemma_machine_inventory_id<
    H: Fn(&str, &str) -> Result<RemoteOutput, String>,
    L: Fn(&str) -> Result<Vec<(String, String)>, String>,
    S: Fn(&str) -> Result<CommandOutput, String>,
    I: Fn(&str) -> Result<OrbInfo, String>,
    P: Fn(&str) -> Result<RemoteOutput, String>,
    R: Fn(&str) -> Option<Vec<DiscoveredContainer>>,
    V: Fn(&str, &Vec<DiscoveredContainer>),
>(
    run_on_host: H,
    read_list: L,
    run_shell: S,
    read_info: I,
    probe_target: P,
    read_snapshot: R,
    save_snapshot: V,
    server: RemoteContainerServer,
    home: UserHome,
    mobile: bool,
    force_refresh: bool,
    inv: InventoryV,
)
    requires
        machine_inventory_possible(
            run_on_host,
            read_list,
            run_shell,
            read_info,
            probe_target,
            read_snapshot,
            save_snapshot,
            server,
            home,
            mobile,
            force_refresh,
            inv,
        ),
    ensures
        inv.server.id == server.id@,
{
    if force_refresh {
        let found = choose|found: Result<Seq<DiscoveredV>, Seq<char>>|
            #[trigger] scan_possible(run_on_host, read_list, run_shell, read_info, server, home, mobile, found)
                && snapshot_saved(save_snapshot, server, found)
                && inventory_possible(probe_target, server, home, effective_found(server, found), inv);
        match effective_found(server, found) {
            Ok(cs) => {
                let pv = choose|pv: ProbesV|
                    #[trigger] probes_possible(probe_target, server, cs, pv) && inv == inventory_spec(server, cs, home, Some(pv));
            },
            Err(e) => {
                let hp = choose|hp: ProbeV|
                    #[trigger] probe_possible(probe_target, server, host_target_id_spec(server), hp) && inv == scan_error_spec(
                        server,
                        e,
                        home,
                        Some(hp),
                    );
            },
        }
    } else {
        let (id, snap) = choose|id: &str, snap: Option<Vec<DiscoveredContainer>>|
            id@ == server.id@ && #[trigger] read_snapshot.ensures((id,), snap) && inv == match snap {
                Some(d) => inventory_spec(server, effective_spec(server, discovered_v(d@)), home, None),
                None => inventory_spec(server, manual_spec(server.containers@), home, None),
            };
    }
}

/// Whether `v` is an inventory that loading the configuration `file` can give (see
/// `inventories_possible`): the targets of every machine one after another, beside
/// the selected target and default profile of the configuration, and the machines'
/// entries in order.
pub open spec fn loaded_possible<
    H: Fn(&str, &str) -> Result<RemoteOutput, String>,
    L: Fn(&str) -> Result<Vec<(String, String)>, String>,
    S: Fn(&str) -> Result<CommandOutput, String>,
    I: Fn(&str) -> Result<OrbInfo, String>,
    P: Fn(&str) -> Result<RemoteOutput, String>,
    R: Fn(&str) -> Option<Vec<DiscoveredContainer>>,
    V: Fn(&str, &Vec<DiscoveredContainer>),
>(
    run_on_host: H,
    read_list: L,
    run_shell: S,
    read_info: I,
    probe_target: P,
    read_snapshot: R,
    save_snapshot: V,
    file: RawTargetsFile,
    home: UserHome,
    mobile: bool,
    force_refresh: bool,
    v: ResolvedV,
) -> bool {
    &&& v.selected_target_id == opt_v(file.selected_target_id)
    &&& v.default_profile == opt_v(file.default_profile)
    &&& exists|invs: Seq<InventoryV>|
        #[trigger] inventories_possible(
            run_on_host,
            read_list,
            run_shell,
            read_info,
            probe_target,
            read_snapshot,
            save_snapshot,
            file.machines@,
            home,
            mobile,
            force_refresh,
            invs,
        ) && v.targets == all_targets(invs) && v.servers == invs.map_values(|i: InventoryV| i.server)
}

/// The inventory of every machine of a configuration, in order (see
/// `loaded_possible`): scanned afresh when `force_refresh`, else from the stored
/// snapshots.
pub fn inventory_from_targets_file<
    H: Fn(&str, &str) -> Result<RemoteOutput, String>,
    L: Fn(&str) -> Result<Vec<(String, String)>, String>,
    S: Fn(&str) -> Result<CommandOutput, String>,
    I: Fn(&str) -> Result<OrbInfo, String>,
    P: Fn(&str) -> Result<RemoteOutput, String>,
    R: Fn(&str) -> Option<Vec<DiscoveredContainer>>,
    V: Fn(&str, &Vec<DiscoveredContainer>),
>(
    raw_targets_file: &RawTargetsFile,
    home: &UserHome,
    force_refresh: bool,
    mobile: bool,
    run_on_host: &H,
    read_list: &L,
    run_shell: &S,
    read_info: &I,
    probe_target: &P,
    read_snapshot: &R,
    save_snapshot: &V,
) -> (r: ResolvedInventory)
    requires
        forall|t: &str, c: &str| run_on_host.requires((t, c)),
        forall|c: &str| read_list.requires((c,)),
        forall|c: &str| run_shell.requires((c,)),
        forall|c: &str| read_info.requires((c,)),
        forall|c: &str| probe_target.requires((c,)),
        forall|c: &str| read_snapshot.requires((c,)),
        forall|id: &str, v: &Vec<DiscoveredContainer>| save_snapshot.requires((id, v)),
    ensures
        loaded_possible(
            *run_on_host,
            *read_list,
            *run_shell,
            *read_info,
            *probe_target,
            *read_snapshot,
            *save_snapshot,
            *raw_targets_file,
            *home,
            mobile,
            force_refresh,
            r@,
        ),
        servers_follow_machines(r@, raw_targets_file.machines@),
{
    let machines = &raw_targets_file.machines;
    let ghost ms = machines@;
    let mut inventories: Vec<DiscoveredServerInventory> = Vec::new();
    let mut i: usize = 0;
    while i < machines.len()
        invariant
            i <= machines@.len(),
            ms == machines@,
            forall|t: &str, c: &str| run_on_host.requires((t, c)),
            forall|c: &str| read_list.requires((c,)),
            forall|c: &str| run_shell.requires((c,)),
            forall|c: &str| read_info.requires((c,)),
            forall|c: &str| probe_target.requires((c,)),
            forall|c: &str| read_snapshot.requires((c,)),
            forall|id: &str, v: &Vec<DiscoveredContainer>| save_snapshot.requires((id, v)),
            inventories@.len() == i,
            forall|j: int| 0 <= j < i ==> #[trigger] machine_inventory_possible(
                *run_on_host,
                *read_list,
                *run_shell,
                *read_info,
                *probe_target,
                *read_snapshot,
                *save_snapshot,
                ms[j],
                *home,
                mobile,
                force_refresh,
                inventories@[j]@,
            ),
        decreases machines@.len() - i,
    {
        let server = &machines[i];
        let inventory = if force_refresh {
            refresh_server_inventory(
                server,
                home,
                mobile,
                run_on_host,
                read_list,
                run_shell,
                read_info,
                probe_target,
                save_snapshot,
            )
        } else {
            let id: &str = server.id.as_str();
            let snapshot = read_snapshot(id);
            let ghost snap = snapshot;
            let inv = load_cached_server_inventory(server, snapshot, home);
            proof {
                assert(read_snapshot.ensures((id,), snap));
                assert(cached_possible(*read_snapshot, *server, *home, inv@));
            }
            inv
        };
        inventories.push(inventory);
        i = i + 1;
    }
    let ghost invs = inventories_v(inventories@);
    proof {
        assert forall|j: int| 0 <= j < ms.len() implies #[trigger] machine_inventory_possible(
            *run_on_host,
            *read_list,
            *run_shell,
            *read_info,
            *probe_target,
            *read_snapshot,
            *save_snapshot,
            ms[j],
            *home,
            mobile,
            force_refresh,
            invs[j],
        ) by {
            assert(invs[j] == inventories@[j]@);
        }
        assert(inventories_possible(
            *run_on_host,
            *read_list,
            *run_shell,
            *read_info,
            *probe_target,
            *read_snapshot,
            *save_snapshot,
            ms,
            *home,
            mobile,
            force_refresh,
            invs,
        ));
    }
    let selected = match &raw_targets_file.selected_target_id {
        Some(s) => Some(s.clone()),
        None => None,
    };
    let default_profile = match &raw_targets_file.default_profile {
        Some(s) => Some(s.clone()),
        None => None,
    };
    let r = assemble_inventory(selected, default_profile, inventories);
    proof {
        assert forall|j: int| 0 <= j < ms.len() implies (#[trigger] r@.servers[j]).id == ms[j].id@ by {
            lemma_machine_inventory_id(
                *run_on_host,
                *read_list,
                *run_shell,
                *read_info,
                *probe_target,
                *read_snapshot,
                *save_snapshot,
                ms[j],
                *home,
                mobile,
                force_refresh,
                invs[j],
            );
        }
    }
    r
}

/// The inventory of every configured machine (see `loaded_possible`), kept in
/// `cache`. Without `force_refresh`, a cached inventory is returned as it is, and
/// the cache is left alone. Otherwise the configuration is read with
/// `read_targets`: its error is returned and the cache left alone; else the
/// inventory is computed from it, stored in the cache and returned.
pub fn load_inventory<
    T: Fn() -> Result<RawTargetsFile, String>,
    H: Fn(&str, &str) -> Result<RemoteOutput, String>,
    L: Fn(&str) -> Result<Vec<(String, String)>, String>,
    S: Fn(&str) -> Result<CommandOutput, String>,
    I: Fn(&str) -> Result<OrbInfo, String>,
    P: Fn(&str) -> Result<RemoteOutput, String>,
    R: Fn(&str) -> Option<Vec<DiscoveredContainer>>,
    V: Fn(&str, &Vec<DiscoveredContainer>),
>(
    cache: &mut Option<ResolvedInventory>,
    read_targets: &T,
    home: &UserHome,
    force_refresh: bool,
    mobile: bool,
    run_on_host: &H,
    read_list: &L,
    run_shell: &S,
    read_info: &I,
    probe_target: &P,
    read_snapshot: &R,
    save_snapshot: &V,
) -> (r: Result<ResolvedInventory, String>)
    requires
        read_targets.requires(()),
        forall|t: &str, c: &str| run_on_host.requires((t, c)),
        forall|c: &str| read_list.requires((c,)),
        forall|c: &str| run_shell.requires((c,)),
        forall|c: &str| read_info.requires((c,)),
        forall|c: &str| probe_target.requires((c,)),
        forall|c: &str| read_snapshot.requires((c,)),
        forall|id: &str, v: &Vec<DiscoveredContainer>| save_snapshot.requires((id, v)),
    ensures
        !force_refresh && *old(cache) is Some ==> (r matches Ok(inv) && inv@ == (*old(cache))->Some_0@
            && *final(cache) == *old(cache)),
        force_refresh || *old(cache) is None ==> exists|raw: Result<RawTargetsFile, String>|
            #[trigger] read_targets.ensures((), raw) && match raw {
                Err(e) => (r matches Err(e2) && e2@ == e@ && *final(cache) == *old(cache)),
                Ok(file) => (r matches Ok(inv) && (*final(cache) matches Some(c) && c@ == inv@
                    && loaded_possible(
                    *run_on_host,
                    *read_list,
                    *run_shell,
                    *read_info,
                    *probe_target,
                    *read_snapshot,
                    *save_snapshot,
                    file,
                    *home,
                    mobile,
                    force_refresh,
                    inv@,
                ) && servers_follow_machines(inv@, file.machines@))),
            },
{
    if !force_refresh {
        match cache {
            Some(cached) => {
                return Ok(cached.duplicate());
            },
            None => {},
        }
    }
    let raw = read_targets();
    let ghost raw_g = raw;
    proof {
        assert(read_targets.ensures((), raw_g));
    }
    match raw {
        Err(e) => Err(e),
        Ok(file) => {
            let inventory = inventory_from_targets_file(
                &file,
                home,
                force_refresh,
                mobile,
                run_on_host,
                read_list,
                run_shell,
                read_info,
                probe_target,
                read_snapshot,
                save_snapshot,
            );
            *cache = Some(inventory.duplicate());
            Ok(inventory)
        },
    }
}

/// Forgets the cached inventory, so that the next load computes it again (after
/// the configuration was saved or a machine scanned and stored).
pub fn clear_targets_cache(cache: &mut Option<ResolvedInventory>)
    ensures
        *final(cache) is None,
{
    *cache = None;
}

} // verus!
