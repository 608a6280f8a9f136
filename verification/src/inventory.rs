//! Discovered containers merged with the machine's configuration entries, the
//! configuration written back after a scan, and the inventory assembled from all
//! machines.
use vstd::prelude::*;
use crate::model::{
    configs_v, discovered_v, services_v, strs, surfaces_v, BrowserSurface, ConfigV,
    ContainerWorkspace, DeveloperService, DeveloperTarget, DiscoveredContainer,
    DiscoveredServerInventory, DiscoveredV, MachineContainerConfig, ManagedContainerKind,
    ManagedServer, RemoteContainerServer, ServiceV, SurfaceV, TargetsFile, WorkspaceV,
    copy_opt_string, copy_services, copy_strings, copy_surfaces, copy_targets, opt_v,
};
use crate::sources::{has_workspace_override, workspace_set};
use crate::projection::{inventory_from_discovered_containers, cached_remote_server_inventory, inventory_spec};
use crate::sources::manual_spec;
use crate::ssh::UserHome;
use crate::model::{targets_v, InventoryV, ServerV, TargetV};
use crate::text::{blank, concat2, ends_with, ends_with_str, is_blank, owned, str_eq, trim, trim_seq};

verus! {

// ---------------------------------------------------------------------------
// Configuration entries
// ---------------------------------------------------------------------------
/// The first configuration entry at or after `i` with the given name.
pub open spec fn entry_named_from(entries: Seq<MachineContainerConfig>, name: Seq<char>, i: int) -> Option<
    MachineContainerConfig,
>
    decreases entries.len() - i,
{
    if i < 0 || i >= entries.len() {
        None
    } else if entries[i].name@ == name {
        Some(entries[i])
    } else {
        entry_named_from(entries, name, i + 1)
    }
}

/// The first configuration entry with the given name.
pub open spec fn entry_named(entries: Seq<MachineContainerConfig>, name: Seq<char>) -> Option<
    MachineContainerConfig,
> {
    entry_named_from(entries, name, 0)
}

/// The first configuration entry with the given name.
pub fn find_entry<'a>(entries: &'a [MachineContainerConfig], name: &str) -> (r: Option<
    &'a MachineContainerConfig,
>)
    ensures
        match entry_named(entries@, name@) {
            Some(e) => r == Some(&e),
            None => r is None,
        },
{
    let mut i: usize = 0;
    let len = entries.len();
    while i < len
        invariant
            len == entries@.len(),
            i <= len,
            entry_named(entries@, name@) == entry_named_from(entries@, name@, i as int),
        decreases len - i,
    {
        if str_eq(entries[i].name.as_str(), name) {
            return Some(&entries[i]);
        }
        i = i + 1;
    }
    None
}

/// The entry an optional reference points to.
pub open spec fn deref_entry(o: Option<&MachineContainerConfig>) -> Option<MachineContainerConfig> {
    match o {
        Some(e) => Some(*e),
        None => None,
    }
}

// ---------------------------------------------------------------------------
// Merging a discovered container with its configuration entry
// ---------------------------------------------------------------------------
/// The trimmed forms of a list of strings.
pub open spec fn trims(ss: Seq<Seq<char>>) -> Seq<Seq<char>> {
    ss.map_values(|s: Seq<char>| trim_seq(s))
}

/// A list of strings without the blank ones and without any whose trimmed form
/// equals that of an earlier one kept; each kept string is left as it was.
pub open spec fn dedup_by_trim(ss: Seq<Seq<char>>) -> Seq<Seq<char>>
    decreases ss.len(),
{
    if ss.len() == 0 {
        seq![]
    } else {
        let r = dedup_by_trim(ss.drop_last());
        if blank(ss.last()) || trims(r).contains(trim_seq(ss.last())) {
            r
        } else {
            r.push(ss.last())
        }
    }
}

/// The identifier of a merged container: its own, else its entry's, else its name.
pub open spec fn merged_id_spec(c: DiscoveredV, e: Option<MachineContainerConfig>) -> Seq<char> {
    if blank(c.id) {
        match e {
            Some(x) => x.id@,
            None => c.name,
        }
    } else {
        c.id
    }
}

/// The source of a merged container: `host` for a host, else the entry's unless it
/// is blank or `unknown`, else the container's.
pub open spec fn merged_source_spec(c: DiscoveredV, e: Option<MachineContainerConfig>) -> Seq<char> {
    if c.kind == ManagedContainerKind::Host {
        "host"@
    } else {
        match e {
            Some(x) => if blank(x.source@) || x.source@ == "unknown"@ {
                c.source
            } else {
                x.source@
            },
            None => c.source,
        }
    }
}

/// The machine's default login for containers: its container user, else its own.
pub open spec fn default_container_user_spec(server: RemoteContainerServer) -> Seq<char> {
    if !blank(server.container_ssh_user@) {
        server.container_ssh_user@
    } else {
        server.ssh_user@
    }
}

/// The SSH user of a merged container: the machine's for a host; else the detected
/// one; else the entry's; else the machine's default for containers.
pub open spec fn merged_user_spec(
    server: RemoteContainerServer,
    c: DiscoveredV,
    e: Option<MachineContainerConfig>,
) -> Seq<char> {
    if c.kind == ManagedContainerKind::Host {
        server.ssh_user@
    } else if !blank(c.ssh_user) {
        c.ssh_user
    } else {
        match e {
            Some(x) => if !blank(x.ssh_user@) {
                x.ssh_user@
            } else {
                default_container_user_spec(server)
            },
            None => default_container_user_spec(server),
        }
    }
}

/// The SSH user candidates of a merged container: its user, its detected
/// candidates, then its entry's, blank ones and repeats (by trimmed form) left out.
pub open spec fn merged_candidates_spec(
    user: Seq<char>,
    c: DiscoveredV,
    e: Option<MachineContainerConfig>,
) -> Seq<Seq<char>> {
    dedup_by_trim(
        (if !blank(user) {
            seq![user]
        } else {
            seq![]
        }) + c.ssh_user_candidates + match e {
            Some(x) => strs(x.ssh_user_candidates@),
            None => seq![],
        },
    )
}

/// The services of a merged container: the entry's when it has some, else the
/// container's.
pub open spec fn merged_services_spec(c: DiscoveredV, e: Option<MachineContainerConfig>) -> Seq<ServiceV> {
    match e {
        Some(x) => if x.services@.len() > 0 {
            services_v(x.services@)
        } else {
            c.services
        },
        None => c.services,
    }
}

/// The surfaces of a merged container: the entry's when it has some, else the
/// container's.
pub open spec fn merged_surfaces_spec(c: DiscoveredV, e: Option<MachineContainerConfig>) -> Seq<SurfaceV> {
    match e {
        Some(x) => if x.surfaces@.len() > 0 {
            surfaces_v(x.surfaces@)
        } else {
            c.surfaces
        },
        None => c.surfaces,
    }
}

/// The workspace of a merged container: the entry's when it sets a field, else the
/// container's.
pub open spec fn merged_workspace_spec(c: DiscoveredV, e: Option<MachineContainerConfig>) -> Option<
    WorkspaceV,
> {
    match e {
        Some(x) => if workspace_set(x.workspace@) {
            Some(x.workspace@)
        } else {
            c.workspace
        },
        None => c.workspace,
    }
}

/// A text of the entry when it is not blank, else the container's.
pub open spec fn prefer_entry_text(entry_text: Option<Seq<char>>, own: Option<Seq<char>>) -> Option<
    Seq<char>,
> {
    match entry_text {
        Some(t) => if !blank(t) {
            Some(t)
        } else {
            own
        },
        None => own,
    }
}

/// A discovered container merged with its configuration entry: what the scan saw
/// (address, status, detected user) wins, the entry adds what it sets by hand.
pub open spec fn merge_spec(
    server: RemoteContainerServer,
    c: DiscoveredV,
    e: Option<MachineContainerConfig>,
) -> DiscoveredV {
    let user = merged_user_spec(server, c, e);
    DiscoveredV {
        id: merged_id_spec(c, e),
        kind: c.kind,
        name: c.name,
        source: merged_source_spec(c, e),
        ssh_user: user,
        ssh_user_candidates: merged_candidates_spec(user, c, e),
        status: c.status,
        ipv4: c.ipv4,
        label: prefer_entry_text(
            match e {
                Some(x) => Some(x.label@),
                None => None,
            },
            c.label,
        ),
        description: prefer_entry_text(
            match e {
                Some(x) => Some(x.description@),
                None => None,
            },
            c.description,
        ),
        workspace: merged_workspace_spec(c, e),
        services: merged_services_spec(c, e),
        surfaces: merged_surfaces_spec(c, e),
    }
}

fn trimmed_contains(seen: &Vec<String>, t: &str) -> (r: bool)
    ensures
        r == strs(seen@).contains(t@),
{
    let mut i: usize = 0;
    while i < seen.len()
        invariant
            i <= seen@.len(),
            forall|j: int| 0 <= j < i ==> seen@[j]@ != t@,
        decreases seen@.len() - i,
    {
        if str_eq(seen[i].as_str(), t) {
            assert(strs(seen@)[i as int] == t@);
            return true;
        }
        i = i + 1;
    }
    proof {
        if strs(seen@).contains(t@) {
            let k = choose|k: int| 0 <= k < strs(seen@).len() && strs(seen@)[k] == t@;
            assert(seen@[k]@ == t@);
        }
    }
    false
}

/// Appends the strings of `items` that are not blank and whose trimmed form is not
/// yet in `seen`.
fn push_new_trimmed(out: &mut Vec<String>, seen: &mut Vec<String>, items: &Vec<String>)
    requires
        strs(old(seen)@) == trims(strs(old(out)@)),
    ensures
        strs(final(seen)@) == trims(strs(final(out)@)),
        strs(final(out)@) == dedup_by_trim_onto(strs(old(out)@), strs(items@)),
{
    let mut i: usize = 0;
    while i < items.len()
        invariant
            i <= items@.len(),
            strs(seen@) == trims(strs(out@)),
            strs(out@) == dedup_by_trim_onto(strs(old(out)@), strs(items@.take(i as int))),
        decreases items@.len() - i,
    {
        proof {
            assert(strs(items@.take(i + 1)).drop_last() =~= strs(items@.take(i as int)));
            assert(strs(items@.take(i + 1)).last() == items@[i as int]@);
        }
        let t = trim(items[i].as_str());
        if !is_blank(items[i].as_str()) && !trimmed_contains(seen, t.as_str()) {
            let ghost prev_out = out@;
            let ghost prev_seen = seen@;
            out.push(items[i].clone());
            seen.push(t);
            proof {
                assert(strs(out@) =~= strs(prev_out).push(items@[i as int]@));
                assert(strs(seen@) =~= strs(prev_seen).push(trim_seq(items@[i as int]@)));
                assert(trims(strs(out@)) =~= trims(strs(prev_out)).push(trim_seq(items@[i as int]@)));
            }
        }
        i = i + 1;
    }
    proof {
        assert(items@.take(items@.len() as int) =~= items@);
    }
}

/// `dedup_by_trim` continued from an already deduplicated prefix.
pub open spec fn dedup_by_trim_onto(acc: Seq<Seq<char>>, ss: Seq<Seq<char>>) -> Seq<Seq<char>>
    decreases ss.len(),
{
    if ss.len() == 0 {
        acc
    } else {
        let r = dedup_by_trim_onto(acc, ss.drop_last());
        if blank(ss.last()) || trims(r).contains(trim_seq(ss.last())) {
            r
        } else {
            r.push(ss.last())
        }
    }
}

proof fn lemma_dedup_onto_concat(acc: Seq<Seq<char>>, a: Seq<Seq<char>>, b: Seq<Seq<char>>)
    ensures
        dedup_by_trim_onto(dedup_by_trim_onto(acc, a), b) == dedup_by_trim_onto(acc, a + b),
    decreases b.len(),
{
    if b.len() == 0 {
        assert(a + b =~= a);
    } else {
        lemma_dedup_onto_concat(acc, a, b.drop_last());
        assert((a + b).drop_last() =~= a + b.drop_last());
        assert((a + b).last() == b.last());
    }
}

proof fn lemma_dedup_onto_empty(ss: Seq<Seq<char>>)
    ensures
        dedup_by_trim_onto(seq![], ss) == dedup_by_trim(ss),
    decreases ss.len(),
{
    if ss.len() > 0 {
        lemma_dedup_onto_empty(ss.drop_last());
    }
}

/// A discovered container merged with the machine's configuration entry for it:
/// the detected user and address win over stale saved ones, while the entry's
/// label, description, workspace, services and surfaces win when it sets them.
pub fn merge_discovered_container_with_manual_config(
    server: &RemoteContainerServer,
    container: &DiscoveredContainer,
    existing: Option<&MachineContainerConfig>,
) -> (r: DiscoveredContainer)
    ensures
        r@ == merge_spec(*server, container@, deref_entry(existing)),
{
    let ghost e = deref_entry(existing);
    let id = if is_blank(container.id.as_str()) {
        match existing {
            Some(item) => item.id.clone(),
            None => container.name.clone(),
        }
    } else {
        container.id.clone()
    };
    let is_host = container.kind == ManagedContainerKind::Host;
    let source = if is_host {
        owned("host")
    } else {
        match existing {
            Some(item) => if is_blank(item.source.as_str()) || str_eq(
                item.source.as_str(),
                "unknown",
            ) {
                container.source.clone()
            } else {
                item.source.clone()
            },
            None => container.source.clone(),
        }
    };
    let default_user = if !is_blank(server.container_ssh_user.as_str()) {
        server.container_ssh_user.clone()
    } else {
        server.ssh_user.clone()
    };
    let ssh_user = if is_host {
        server.ssh_user.clone()
    } else if !is_blank(container.ssh_user.as_str()) {
        container.ssh_user.clone()
    } else {
        match existing {
            Some(item) => if !is_blank(item.ssh_user.as_str()) {
                item.ssh_user.clone()
            } else {
                default_user
            },
            None => default_user,
        }
    };
    let mut first: Vec<String> = Vec::new();
    if !is_blank(ssh_user.as_str()) {
        first.push(ssh_user.clone());
    }
    let mut candidates: Vec<String> = Vec::new();
    let mut seen: Vec<String> = Vec::new();
    proof {
        assert(strs(seen@) =~= trims(strs(candidates@)));
    }
    push_new_trimmed(&mut candidates, &mut seen, &first);
    push_new_trimmed(&mut candidates, &mut seen, &container.ssh_user_candidates);
    let ghost third: Seq<Seq<char>> = match e {
        Some(x) => strs(x.ssh_user_candidates@),
        None => seq![],
    };
    let none: Vec<String> = Vec::new();
    let from_entry = match existing {
        Some(item) => &item.ssh_user_candidates,
        None => &none,
    };
    assert(strs(from_entry@) == third);
    push_new_trimmed(&mut candidates, &mut seen, from_entry);
    proof {
        assert(strs(first@) =~= (if !blank(ssh_user@) {
            seq![ssh_user@]
        } else {
            seq![]
        }));
        lemma_dedup_onto_concat(seq![], strs(first@), container@.ssh_user_candidates);
        lemma_dedup_onto_concat(
            seq![],
            strs(first@) + container@.ssh_user_candidates,
            third,
        );
        lemma_dedup_onto_empty(strs(first@) + container@.ssh_user_candidates + third);
        assert(strs(Seq::<String>::empty()) =~= seq![]);
    }
    let label = match existing {
        Some(item) => if !is_blank(item.label.as_str()) {
            Some(item.label.clone())
        } else {
            crate::model::copy_opt_string(&container.label)
        },
        None => crate::model::copy_opt_string(&container.label),
    };
    let description = match existing {
        Some(item) => if !is_blank(item.description.as_str()) {
            Some(item.description.clone())
        } else {
            crate::model::copy_opt_string(&container.description)
        },
        None => crate::model::copy_opt_string(&container.description),
    };
    let workspace = merged_container_workspace(container, existing);
    let services = merged_container_services(container, existing);
    let surfaces = match existing {
        Some(item) => if item.surfaces.len() > 0 {
            copy_surfaces(&item.surfaces)
        } else {
            copy_surfaces(&container.surfaces)
        },
        None => copy_surfaces(&container.surfaces),
    };
    proof {
        reveal_strlit("unknown");
        reveal_strlit("host");
    }
    DiscoveredContainer {
        id,
        kind: container.kind,
        name: container.name.clone(),
        source,
        ssh_user,
        ssh_user_candidates: candidates,
        status: container.status.clone(),
        ipv4: container.ipv4.clone(),
        label,
        description,
        workspace,
        services,
        surfaces,
    }
}

/// The services of a merged container: the entry's when it has some, else the
/// container's.
pub fn merged_container_services(
    discovered: &DiscoveredContainer,
    existing: Option<&MachineContainerConfig>,
) -> (r: Vec<DeveloperService>)
    ensures
        services_v(r@) == merged_services_spec(discovered@, deref_entry(existing)),
{
    match existing {
        Some(item) => if item.services.len() > 0 {
            copy_services(&item.services)
        } else {
            copy_services(&discovered.services)
        },
        None => copy_services(&discovered.services),
    }
}

/// The workspace of a merged container: the entry's when it sets any field, else
/// the container's.
pub fn merged_container_workspace(
    discovered: &DiscoveredContainer,
    existing: Option<&MachineContainerConfig>,
) -> (r: Option<ContainerWorkspace>)
    ensures
        crate::model::opt_ws(r) == merged_workspace_spec(discovered@, deref_entry(existing)),
{
    if let Some(item) = existing {
        if has_workspace_override(&item.workspace) {
            return Some(item.workspace.duplicate());
        }
    }
    match &discovered.workspace {
        Some(w) => Some(w.duplicate()),
        None => None,
    }
}

// ---------------------------------------------------------------------------
// The containers a machine shows
// ---------------------------------------------------------------------------
/// Whether a merged container is shown: a host always; else as its configuration
/// entry says; else when the machine has no name suffix or the name ends with it.
pub open spec fn shown_spec(server: RemoteContainerServer, c: DiscoveredV) -> bool {
    c.kind == ManagedContainerKind::Host || match entry_named(server.containers@, c.name) {
        Some(x) => x.enabled,
        None => blank(server.container_name_suffix@) || ends_with(
            c.name,
            server.container_name_suffix@,
        ),
    }
}

/// The discovered containers merged with their configuration entries, keeping the
/// ones shown.
pub open spec fn effective_spec(server: RemoteContainerServer, cs: Seq<DiscoveredV>) -> Seq<DiscoveredV>
    decreases cs.len(),
{
    if cs.len() == 0 {
        seq![]
    } else {
        let r = effective_spec(server, cs.drop_last());
        let m = merge_spec(server, cs.last(), entry_named(server.containers@, cs.last().name));
        if shown_spec(server, m) {
            r.push(m)
        } else {
            r
        }
    }
}

/// The discovered containers of a machine merged with their configuration entries,
/// without those the configuration disables or whose name lacks the machine's
/// suffix.
pub fn effective_discovered_containers(
    server: &RemoteContainerServer,
    discovered: &[DiscoveredContainer],
) -> (r: Vec<DiscoveredContainer>)
    ensures
        discovered_v(r@) == effective_spec(*server, discovered_v(discovered@)),
{
    let mut out: Vec<DiscoveredContainer> = Vec::new();
    let len = discovered.len();
    let mut i: usize = 0;
    while i < len
        invariant
            len == discovered@.len(),
            i <= len,
            discovered_v(out@) == effective_spec(*server, discovered_v(discovered@.take(i as int))),
        decreases len - i,
    {
        proof {
            assert(discovered_v(discovered@.take(i + 1)).drop_last() =~= discovered_v(
                discovered@.take(i as int),
            ));
            assert(discovered_v(discovered@.take(i + 1)).last() == discovered@[i as int]@);
        }
        let container = &discovered[i];
        let existing = find_entry(server.containers.as_slice(), container.name.as_str());
        let merged = merge_discovered_container_with_manual_config(server, container, existing);
        let shown = if merged.kind == ManagedContainerKind::Host {
            true
        } else {
            match find_entry(server.containers.as_slice(), merged.name.as_str()) {
                Some(item) => item.enabled,
                None => is_blank(server.container_name_suffix.as_str()) || ends_with_str(
                    merged.name.as_str(),
                    server.container_name_suffix.as_str(),
                ),
            }
        };
        if shown {
            let ghost prev = out@;
            out.push(merged);
            proof {
                assert(discovered_v(out@) =~= discovered_v(prev).push(merged@));
            }
        }
        i = i + 1;
    }
    proof {
        assert(discovered@.take(len as int) =~= discovered@);
    }
    out
}

/// The inventory of a machine without scanning: from the containers of its last
/// scan when one was stored, else from its configured containers.
pub fn load_cached_server_inventory(
    server: &RemoteContainerServer,
    snapshot: Option<Vec<DiscoveredContainer>>,
    home: &UserHome,
) -> (r: DiscoveredServerInventory)
    ensures
        r@ == match snapshot {
            Some(d) => inventory_spec(*server, effective_spec(*server, discovered_v(d@)), *home, None),
            None => inventory_spec(*server, manual_spec(server.containers@), *home, None),
        },
{
    match snapshot {
        Some(discovered) => {
            let effective = effective_discovered_containers(server, discovered.as_slice());
            inventory_from_discovered_containers(server, effective, home, None)
        },
        None => cached_remote_server_inventory(server, home),
    }
}

// ---------------------------------------------------------------------------
// The configuration written back after a scan
// ---------------------------------------------------------------------------
/// A text of the entry when it is not blank, else the given one.
pub open spec fn entry_text_or(entry_text: Option<Seq<char>>, other: Seq<char>) -> Seq<char> {
    match entry_text {
        Some(t) => if !blank(t) {
            t
        } else {
            other
        },
        None => other,
    }
}

/// An optional text, empty when absent.
pub open spec fn or_empty(o: Option<Seq<char>>) -> Seq<char> {
    match o {
        Some(t) => t,
        None => seq![],
    }
}

/// A workspace that sets no field.
pub open spec fn empty_workspace() -> WorkspaceV {
    WorkspaceV {
        profile: seq![],
        default_tool: seq![],
        project_path: seq![],
        files_root: seq![],
        primary_web_service_id: seq![],
        tmux_command_service_id: seq![],
    }
}

/// The configuration entry recorded for a scanned container: what the scan saw,
/// with the user, label, description, workspace, services, surfaces and enabled
/// flag kept from the earlier entry of the same name where it set them.
pub open spec fn scanned_entry_spec(existing: Seq<MachineContainerConfig>, c: DiscoveredV) -> ConfigV {
    let e = entry_named(existing, c.name);
    ConfigV {
        id: if !blank(c.id) {
            c.id
        } else {
            match e {
                Some(x) => x.id@,
                None => c.name,
            }
        },
        name: c.name,
        kind: c.kind,
        enabled: match e {
            Some(x) => x.enabled,
            None => false,
        },
        source: c.source,
        ssh_user: entry_text_or(
            match e {
                Some(x) => Some(x.ssh_user@),
                None => None,
            },
            c.ssh_user,
        ),
        ssh_user_candidates: c.ssh_user_candidates,
        label: entry_text_or(
            match e {
                Some(x) => Some(x.label@),
                None => None,
            },
            or_empty(c.label),
        ),
        description: entry_text_or(
            match e {
                Some(x) => Some(x.description@),
                None => None,
            },
            or_empty(c.description),
        ),
        ipv4: c.ipv4,
        status: c.status,
        workspace: match e {
            Some(x) => x.workspace@,
            None => match c.workspace {
                Some(w) => w,
                None => empty_workspace(),
            },
        },
        services: merged_services_spec(c, e),
        surfaces: merged_surfaces_spec(c, e),
    }
}

/// The configuration entries recorded for the scanned containers other than hosts.
pub open spec fn scan_entries_spec(existing: Seq<MachineContainerConfig>, cs: Seq<DiscoveredV>) -> Seq<
    ConfigV,
>
    decreases cs.len(),
{
    if cs.len() == 0 {
        seq![]
    } else {
        let r = scan_entries_spec(existing, cs.drop_last());
        if cs.last().kind == ManagedContainerKind::Host {
            r
        } else {
            r.push(scanned_entry_spec(existing, cs.last()))
        }
    }
}

fn text_or_empty(o: &Option<String>) -> (r: String)
    ensures
        r@ == or_empty(opt_v(*o)),
{
    match o {
        Some(t) => t.clone(),
        None => String::new(),
    }
}

fn scanned_entry(existing: &[MachineContainerConfig], container: &DiscoveredContainer) -> (r:
    MachineContainerConfig)
    ensures
        r@ == scanned_entry_spec(existing@, container@),
{
    let entry = find_entry(existing, container.name.as_str());
    let id = if !is_blank(container.id.as_str()) {
        container.id.clone()
    } else {
        match entry {
            Some(x) => x.id.clone(),
            None => container.name.clone(),
        }
    };
    let enabled = match entry {
        Some(x) => x.enabled,
        None => false,
    };
    let ssh_user = match entry {
        Some(x) => if !is_blank(x.ssh_user.as_str()) {
            x.ssh_user.clone()
        } else {
            container.ssh_user.clone()
        },
        None => container.ssh_user.clone(),
    };
    let label = match entry {
        Some(x) => if !is_blank(x.label.as_str()) {
            x.label.clone()
        } else {
            text_or_empty(&container.label)
        },
        None => text_or_empty(&container.label),
    };
    let description = match entry {
        Some(x) => if !is_blank(x.description.as_str()) {
            x.description.clone()
        } else {
            text_or_empty(&container.description)
        },
        None => text_or_empty(&container.description),
    };
    let workspace = match entry {
        Some(x) => x.workspace.duplicate(),
        None => match &container.workspace {
            Some(w) => w.duplicate(),
            None => {
                let w = ContainerWorkspace::empty();
                assert(w@.profile =~= seq![]);
                assert(w@.default_tool =~= seq![]);
                assert(w@.project_path =~= seq![]);
                assert(w@.files_root =~= seq![]);
                assert(w@.primary_web_service_id =~= seq![]);
                assert(w@.tmux_command_service_id =~= seq![]);
                w
            },
        },
    };
    let services = merged_container_services(container, entry);
    let surfaces = match entry {
        Some(x) => if x.surfaces.len() > 0 {
            copy_surfaces(&x.surfaces)
        } else {
            copy_surfaces(&container.surfaces)
        },
        None => copy_surfaces(&container.surfaces),
    };
    MachineContainerConfig {
        id,
        name: container.name.clone(),
        kind: container.kind,
        enabled,
        source: container.source.clone(),
        ssh_user,
        ssh_user_candidates: copy_strings(&container.ssh_user_candidates),
        label,
        description,
        ipv4: container.ipv4.clone(),
        status: container.status.clone(),
        workspace,
        services,
        surfaces,
    }
}

/// The configuration entries to record after a scan: one per scanned container
/// other than a host, keeping what the earlier entry of the same name set by hand
/// (a new container starts disabled).
pub fn containers_from_scan(
    existing: &[MachineContainerConfig],
    discovered: &[DiscoveredContainer],
) -> (r: Vec<MachineContainerConfig>)
    ensures
        configs_v(r@) == scan_entries_spec(existing@, discovered_v(discovered@)),
{
    let mut out: Vec<MachineContainerConfig> = Vec::new();
    let len = discovered.len();
    let mut i: usize = 0;
    while i < len
        invariant
            len == discovered@.len(),
            i <= len,
            configs_v(out@) == scan_entries_spec(existing@, discovered_v(discovered@.take(i as int))),
        decreases len - i,
    {
        proof {
            assert(discovered_v(discovered@.take(i + 1)).drop_last() =~= discovered_v(
                discovered@.take(i as int),
            ));
            assert(discovered_v(discovered@.take(i + 1)).last() == discovered@[i as int]@);
        }
        if discovered[i].kind != ManagedContainerKind::Host {
            let entry = scanned_entry(existing, &discovered[i]);
            let ghost prev = out@;
            out.push(entry);
            proof {
                assert(configs_v(out@) =~= configs_v(prev).push(entry@));
            }
        }
        i = i + 1;
    }
    proof {
        assert(discovered@.take(len as int) =~= discovered@);
    }
    out
}

// ---------------------------------------------------------------------------
// The inventory of all machines
// ---------------------------------------------------------------------------
/// The targets file and the machine entries resolved from every machine.
pub struct ResolvedInventory {
    pub targets_file: TargetsFile,
    pub servers: Vec<ManagedServer>,
}

/// The targets of all machines, machine by machine, in order.
pub open spec fn all_targets(invs: Seq<InventoryV>) -> Seq<TargetV>
    decreases invs.len(),
{
    if invs.len() == 0 {
        seq![]
    } else {
        all_targets(invs.drop_last()) + invs.last().available_targets
    }
}

/// Views of a list of machine inventories.
pub open spec fn inventories_v(v: Seq<DiscoveredServerInventory>) -> Seq<InventoryV> {
    v.map_values(|i: DiscoveredServerInventory| i@)
}

/// Views of a list of machine entries.
pub open spec fn servers_v(v: Seq<ManagedServer>) -> Seq<ServerV> {
    v.map_values(|s: ManagedServer| s@)
}

/// View of a resolved inventory.
pub ghost struct ResolvedV {
    pub selected_target_id: Option<Seq<char>>,
    pub default_profile: Option<Seq<char>>,
    pub targets: Seq<TargetV>,
    pub servers: Seq<ServerV>,
}

impl View for ResolvedInventory {
    type V = ResolvedV;

    open spec fn view(&self) -> ResolvedV {
        ResolvedV {
            selected_target_id: opt_v(self.targets_file.selected_target_id),
            default_profile: opt_v(self.targets_file.default_profile),
            targets: targets_v(self.targets_file.targets@),
            servers: servers_v(self.servers@),
        }
    }
}

/// A copy of a list of machine entries.
pub fn copy_servers(v: &Vec<ManagedServer>) -> (r: Vec<ManagedServer>)
    ensures
        servers_v(r@) == servers_v(v@),
{
    let mut r: Vec<ManagedServer> = Vec::new();
    let mut i: usize = 0;
    while i < v.len()
        invariant
            i <= v@.len(),
            servers_v(r@) == servers_v(v@.take(i as int)),
        decreases v@.len() - i,
    {
        let ghost prev = r@;
        r.push(v[i].duplicate());
        proof {
            assert(v@.take(i + 1) =~= v@.take(i as int).push(v@[i as int]));
            assert(servers_v(r@) =~= servers_v(prev).push(v@[i as int]@));
            assert(servers_v(v@.take(i + 1)) =~= servers_v(v@.take(i as int)).push(v@[i as int]@));
        }
        i = i + 1;
    }
    assert(v@.take(v@.len() as int) =~= v@);
    r
}

impl ResolvedInventory {
    /// A copy of this inventory.
    pub fn duplicate(&self) -> (r: ResolvedInventory)
        ensures
            r@ == self@,
    {
        ResolvedInventory {
            targets_file: TargetsFile {
                selected_target_id: copy_opt_string(&self.targets_file.selected_target_id),
                default_profile: copy_opt_string(&self.targets_file.default_profile),
                targets: copy_targets(&self.targets_file.targets),
            },
            servers: copy_servers(&self.servers),
        }
    }
}

/// The inventory of all machines: their targets one after another in the targets
/// file, beside the selected target and default profile of the configuration, and
/// their entries in order.
pub fn assemble_inventory(
    selected_target_id: Option<String>,
    default_profile: Option<String>,
    inventories: Vec<DiscoveredServerInventory>,
) -> (r: ResolvedInventory)
    ensures
        opt_v(r.targets_file.selected_target_id) == opt_v(selected_target_id),
        opt_v(r.targets_file.default_profile) == opt_v(default_profile),
        targets_v(r.targets_file.targets@) == all_targets(inventories_v(inventories@)),
        servers_v(r.servers@) == inventories_v(inventories@).map_values(|i: InventoryV| i.server),
{
    let ghost all = inventories_v(inventories@);
    let mut rest = inventories;
    let mut targets: Vec<DeveloperTarget> = Vec::new();
    let mut servers: Vec<ManagedServer> = Vec::new();
    let ghost mut k: int = 0;
    while rest.len() > 0
        invariant
            0 <= k <= all.len(),
            inventories_v(rest@) == all.skip(k),
            targets_v(targets@) == all_targets(all.take(k)),
            servers_v(servers@) == all.take(k).map_values(|i: InventoryV| i.server),
        decreases rest@.len(),
    {
        let ghost before = rest@;
        proof {
            assert(inventories_v(before).len() == before.len());
            assert(k < all.len());
        }
        let mut inv = rest.remove(0);
        proof {
            assert(inventories_v(before)[0] == inv@);
            assert(all.skip(k)[0] == all[k]);
            assert(all.take(k + 1).drop_last() =~= all.take(k));
            assert(all.take(k + 1).last() == all[k]);
            assert forall|j: int| 0 <= j < rest@.len() implies inventories_v(rest@)[j] == all.skip(
                k + 1,
            )[j] by {
                assert(rest@[j] == before[j + 1]);
                assert(inventories_v(before)[j + 1] == before[j + 1]@);
            }
            assert(inventories_v(rest@) =~= all.skip(k + 1));
        }
        let ghost prev_t = targets@;
        let ghost inv_targets = inv.available_targets@;
        targets.append(&mut inv.available_targets);
        let ghost prev_s = servers@;
        servers.push(inv.server);
        proof {
            assert(targets_v(targets@) =~= targets_v(prev_t) + targets_v(inv_targets));
            assert(servers_v(servers@) =~= servers_v(prev_s).push(all[k].server));
            assert(all.take(k + 1).map_values(|i: InventoryV| i.server) =~= all.take(k).map_values(
                |i: InventoryV| i.server,
            ).push(all[k].server));
            k = k + 1;
        }
    }
    proof {
        assert(all.take(k) =~= all);
    }
    ResolvedInventory {
        targets_file: TargetsFile { selected_target_id, default_profile, targets },
        servers,
    }
}

/// The index of the first target with the given identifier, at or after `i`.
pub open spec fn target_index_from(ts: Seq<TargetV>, id: Seq<char>, i: int) -> Option<int>
    decreases ts.len() - i,
{
    if i < 0 || i >= ts.len() {
        None
    } else if ts[i].id == id {
        Some(i)
    } else {
        target_index_from(ts, id, i + 1)
    }
}

proof fn lemma_target_index_from(ts: Seq<TargetV>, id: Seq<char>, i: int)
    requires
        0 <= i,
    ensures
        match target_index_from(ts, id, i) {
            Some(k) => i <= k < ts.len() && ts[k].id == id,
            None => true,
        },
    decreases ts.len() - i,
{
    if i < ts.len() && ts[i].id != id {
        lemma_target_index_from(ts, id, i + 1);
    }
}

pub fn target_position(targets: &Vec<DeveloperTarget>, target_id: &str) -> (r: Option<usize>)
    ensures
        match r {
            Some(i) => target_index_from(targets_v(targets@), target_id@, 0) == Some(i as int)
                && i < targets@.len(),
            None => target_index_from(targets_v(targets@), target_id@, 0) is None,
        },
{
    let ghost tv = targets_v(targets@);
    let len = targets.len();
    let mut i: usize = 0;
    while i < len
        invariant
            len == targets@.len(),
            i <= len,
            tv == targets_v(targets@),
            target_index_from(tv, target_id@, 0) == target_index_from(tv, target_id@, i as int),
        decreases len - i,
    {
        proof {
            assert(tv[i as int] == targets@[i as int]@);
        }
        if str_eq(targets[i].id.as_str(), target_id) {
            return Some(i);
        }
        i = i + 1;
    }
    None
}

fn take_at(v: Vec<DeveloperTarget>, k: usize) -> (r: DeveloperTarget)
    requires
        k < v@.len(),
    ensures
        r == v@[k as int],
{
    let mut v = v;
    v.swap_remove(k)
}

/// The first target with the given identifier, or an error naming the identifier
/// when there is none.
pub fn resolve_raw_target(targets: Vec<DeveloperTarget>, target_id: &str) -> (r: Result<
    DeveloperTarget,
    String,
>)
    ensures
        match target_index_from(targets_v(targets@), target_id@, 0) {
            Some(k) => r matches Ok(t) && t@ == targets_v(targets@)[k],
            None => r matches Err(e) && e@ == "Unknown target: "@ + target_id@,
        },
{
    match target_position(&targets, target_id) {
        Some(k) => {
            let ghost tv = targets_v(targets@);
            let ghost tk = targets@[k as int];
            proof {
                assert(tk@ == tv[k as int]);
                assert(target_index_from(tv, target_id@, 0) == Some(k as int));
            }
            let t = take_at(targets, k);
            assert(t@ == tv[k as int]);
            Ok(t)
        },
        None => Err(concat2("Unknown target: ", target_id)),
    }
}

/// The index of the first machine with the given identifier.
pub open spec fn server_index_from(ms: Seq<RemoteContainerServer>, id: Seq<char>, i: int) -> Option<int>
    decreases ms.len() - i,
{
    if i < 0 || i >= ms.len() {
        None
    } else if ms[i].id@ == id {
        Some(i)
    } else {
        server_index_from(ms, id, i + 1)
    }
}

/// A machine index found at or after `i` lies within the list.
pub proof fn lemma_server_index_from_bounds(ms: Seq<RemoteContainerServer>, id: Seq<char>, i: int)
    requires
        0 <= i,
    ensures
        server_index_from(ms, id, i) matches Some(k) ==> i <= k < ms.len(),
    decreases ms.len() - i,
{
    if i < ms.len() && ms[i].id@ != id {
        lemma_server_index_from_bounds(ms, id, i + 1);
    }
}

/// The position of the first machine with the given identifier.
pub fn server_position(machines: &[RemoteContainerServer], server_id: &str) -> (r: Option<usize>)
    ensures
        match r {
            Some(i) => server_index_from(machines@, server_id@, 0) == Some(i as int) && i
                < machines@.len(),
            None => server_index_from(machines@, server_id@, 0) is None,
        },
{
    let len = machines.len();
    let mut i: usize = 0;
    while i < len
        invariant
            len == machines@.len(),
            i <= len,
            server_index_from(machines@, server_id@, 0) == server_index_from(
                machines@,
                server_id@,
                i as int,
            ),
        decreases len - i,
    {
        if str_eq(machines[i].id.as_str(), server_id) {
            return Some(i);
        }
        i = i + 1;
    }
    None
}

// ---------------------------------------------------------------------------
// Laws
// ---------------------------------------------------------------------------
/// The SSH user candidates of a merged container are clean: none is blank, no two
/// have the same trimmed form, and each comes from the lists merged.
pub proof fn law_merged_candidates_are_distinct(ss: Seq<Seq<char>>)
    ensures
        forall|i: int|
            0 <= i < dedup_by_trim(ss).len() ==> !blank(#[trigger] dedup_by_trim(ss)[i])
                && ss.contains(dedup_by_trim(ss)[i]),
        forall|i: int, j: int|
            0 <= i < j < dedup_by_trim(ss).len() ==> trim_seq(#[trigger] dedup_by_trim(ss)[i])
                != trim_seq(#[trigger] dedup_by_trim(ss)[j]),
    decreases ss.len(),
{
    if ss.len() > 0 {
        let prev = ss.drop_last();
        law_merged_candidates_are_distinct(prev);
        let r = dedup_by_trim(prev);
        let c = ss.last();
        assert forall|i: int| 0 <= i < r.len() implies ss.contains(#[trigger] r[i]) by {
            assert(prev.contains(r[i]));
            let k = choose|k: int| 0 <= k < prev.len() && prev[k] == r[i];
            assert(ss[k] == r[i]);
        }
        if !(blank(c) || trims(r).contains(trim_seq(c))) {
            let r2 = r.push(c);
            assert(ss[ss.len() - 1] == c);
            assert forall|i: int, j: int| 0 <= i < j < r2.len() implies trim_seq(#[trigger] r2[i])
                != trim_seq(#[trigger] r2[j]) by {
                if j == r2.len() - 1 {
                    if trim_seq(r2[i]) == trim_seq(c) {
                        assert(trims(r)[i] == trim_seq(c));
                    }
                } else {
                    assert(r2[i] == r[i] && r2[j] == r[j]);
                }
            }
        }
    }
}

/// What the scan detected wins over stale saved settings: a managed container with
/// a detected SSH user keeps that user, first among its candidates, together with its
/// name, kind, status and address.
pub proof fn law_detected_user_wins(
    server: RemoteContainerServer,
    c: DiscoveredV,
    e: Option<MachineContainerConfig>,
)
    requires
        c.kind == ManagedContainerKind::Managed,
        !blank(c.ssh_user),
    ensures
        merge_spec(server, c, e).ssh_user == c.ssh_user,
        merge_spec(server, c, e).ssh_user_candidates.len() > 0,
        merge_spec(server, c, e).ssh_user_candidates[0] == c.ssh_user,
        merge_spec(server, c, e).name == c.name,
        merge_spec(server, c, e).kind == c.kind,
        merge_spec(server, c, e).status == c.status,
        merge_spec(server, c, e).ipv4 == c.ipv4,
{
    let rest = c.ssh_user_candidates + match e {
        Some(x) => strs(x.ssh_user_candidates@),
        None => seq![],
    };
    let all = seq![c.ssh_user] + rest;
    lemma_dedup_by_trim_head(c.ssh_user, rest);
    assert(seq![c.ssh_user] + c.ssh_user_candidates + match e {
        Some(x) => strs(x.ssh_user_candidates@),
        None => seq![],
    } =~= all);
}

proof fn lemma_dedup_by_trim_head(first: Seq<char>, rest: Seq<Seq<char>>)
    requires
        !blank(first),
    ensures
        dedup_by_trim(seq![first] + rest).len() > 0,
        dedup_by_trim(seq![first] + rest)[0] == first,
    decreases rest.len(),
{
    if rest.len() == 0 {
        assert(seq![first] + rest =~= seq![first]);
        assert(seq![first].drop_last() =~= Seq::<Seq<char>>::empty());
        assert(trims(Seq::<Seq<char>>::empty()) =~= Seq::<Seq<char>>::empty());
        assert(dedup_by_trim(Seq::<Seq<char>>::empty()) == Seq::<Seq<char>>::empty());
        assert(seq![first].last() == first);
        assert(dedup_by_trim(seq![first]) == Seq::<Seq<char>>::empty().push(first));
    } else {
        lemma_dedup_by_trim_head(first, rest.drop_last());
        let all = seq![first] + rest;
        assert(all.drop_last() =~= seq![first] + rest.drop_last());
        let r = dedup_by_trim(all.drop_last());
        assert(r[0] == first);
        if !(blank(all.last()) || trims(r).contains(trim_seq(all.last()))) {
            assert(r.push(all.last())[0] == r[0]);
        }
    }
}

/// Every container the machine shows is a host, enabled by its configuration entry,
/// or, without an entry, named with the machine's suffix; and each is the merge of
/// a discovered container with its entry.
pub proof fn law_effective_containers_are_shown(server: RemoteContainerServer, cs: Seq<DiscoveredV>)
    ensures
        forall|i: int|
            0 <= i < effective_spec(server, cs).len() ==> shown_spec(
                server,
                #[trigger] effective_spec(server, cs)[i],
            ) && exists|j: int|
                0 <= j < cs.len() && effective_spec(server, cs)[i] == merge_spec(
                    server,
                    cs[j],
                    entry_named(server.containers@, cs[j].name),
                ),
    decreases cs.len(),
{
    if cs.len() > 0 {
        law_effective_containers_are_shown(server, cs.drop_last());
        let r = effective_spec(server, cs.drop_last());
        let last = cs.len() - 1;
        assert forall|i: int| 0 <= i < r.len() implies exists|j: int|
            0 <= j < cs.len() && #[trigger] r[i] == merge_spec(
                server,
                cs[j],
                entry_named(server.containers@, cs[j].name),
            ) by {
            let j = choose|j: int|
                0 <= j < cs.drop_last().len() && r[i] == merge_spec(
                    server,
                    cs.drop_last()[j],
                    entry_named(server.containers@, cs.drop_last()[j].name),
                );
            assert(cs.drop_last()[j] == cs[j]);
        }
        let m = merge_spec(server, cs[last], entry_named(server.containers@, cs[last].name));
        assert(cs.last() == cs[last]);
        if shown_spec(server, m) {
            assert(r.push(m)[r.len() as int] == m);
        }
    }
}

/// A resolved target is the one asked for: its identifier is the one looked up.
pub proof fn law_resolved_target_matches(ts: Seq<TargetV>, id: Seq<char>)
    ensures
        target_index_from(ts, id, 0) matches Some(k) ==> 0 <= k < ts.len() && ts[k].id == id,
{
    lemma_target_index_from(ts, id, 0);
}


/// Whether the machine's configuration shows a discovered container: a host
/// always; one with a configuration entry under its name when that entry is
/// enabled; one without an entry when the machine has no name suffix or the name
/// ends with it.
pub open spec fn configured_to_show(server: RemoteContainerServer, c: DiscoveredV) -> bool {
    ||| c.kind == ManagedContainerKind::Host
    ||| (entry_named(server.containers@, c.name) matches Some(x) && x.enabled)
    ||| (entry_named(server.containers@, c.name) is None && (blank(server.container_name_suffix@) || ends_with(
        c.name,
        server.container_name_suffix@,
    )))
}

proof fn lemma_shown_iff_configured(server: RemoteContainerServer, c: DiscoveredV)
    ensures
        shown_spec(server, merge_spec(server, c, entry_named(server.containers@, c.name))) <==> configured_to_show(
            server,
            c,
        ),
{
}

/// The merge of a discovered container with its configuration entry.
pub open spec fn merged_with_entry(server: RemoteContainerServer, c: DiscoveredV) -> DiscoveredV {
    merge_spec(server, c, entry_named(server.containers@, c.name))
}

/// Every discovered container that the machine's configuration shows is kept,
/// merged with its entry (see `configured_to_show`).
#[verifier::rlimit(30)]
pub proof fn law_shown_containers_are_kept(server: RemoteContainerServer, cs: Seq<DiscoveredV>)
    ensures
        forall|j: int|
            0 <= j < cs.len() && configured_to_show(server, #[trigger] cs[j]) ==> exists|i: int|
                0 <= i < effective_spec(server, cs).len() && effective_spec(server, cs)[i] == merged_with_entry(
                    server,
                    cs[j],
                ),
    decreases cs.len(),
{
    if cs.len() > 0 {
        let d = cs.drop_last();
        law_shown_containers_are_kept(server, d);
        let r = effective_spec(server, d);
        let last = cs.len() - 1;
        let c = cs[last];
        assert(cs.last() == c);
        let m = merged_with_entry(server, c);
        let e = effective_spec(server, cs);
        lemma_shown_iff_configured(server, c);
        assert(e == if shown_spec(server, m) { r.push(m) } else { r });
        assert forall|j: int| 0 <= j < cs.len() && configured_to_show(server, #[trigger] cs[j]) implies exists|i: int|
            0 <= i < e.len() && e[i] == merged_with_entry(server, cs[j]) by {
            if j < last {
                assert(d[j] == cs[j]);
                let i = choose|i: int| 0 <= i < r.len() && r[i] == merged_with_entry(server, d[j]);
                assert(e[i] == r[i]);
            } else {
                assert(e[r.len() as int] == m);
            }
        }
    }
}

/// Every kept container is the merge of a discovered container that the machine's
/// configuration shows (see `configured_to_show`).
#[verifier::rlimit(30)]
pub proof fn law_kept_containers_are_shown(server: RemoteContainerServer, cs: Seq<DiscoveredV>)
    ensures
        forall|i: int|
            0 <= i < effective_spec(server, cs).len() ==> exists|j: int|
                0 <= j < cs.len() && configured_to_show(server, cs[j]) && #[trigger] effective_spec(server, cs)[i]
                    == merged_with_entry(server, cs[j]),
    decreases cs.len(),
{
    if cs.len() > 0 {
        let d = cs.drop_last();
        law_kept_containers_are_shown(server, d);
        let r = effective_spec(server, d);
        let last = cs.len() - 1;
        let c = cs[last];
        assert(cs.last() == c);
        let m = merged_with_entry(server, c);
        let e = effective_spec(server, cs);
        lemma_shown_iff_configured(server, c);
        assert(e == if shown_spec(server, m) { r.push(m) } else { r });
        assert forall|i: int| 0 <= i < e.len() implies exists|j: int|
            0 <= j < cs.len() && configured_to_show(server, cs[j]) && #[trigger] e[i] == merged_with_entry(server, cs[j]) by {
            if i < r.len() {
                assert(e[i] == r[i]);
                let j = choose|j: int|
                    0 <= j < d.len() && configured_to_show(server, d[j]) && #[trigger] r[i] == merged_with_entry(server, d[j]);
                assert(d[j] == cs[j]);
            } else {
                assert(e[i] == m);
            }
        }
    }
}


/// The containers kept are exactly the discovered containers that the machine's
/// configuration shows (see `configured_to_show`), each merged with its entry, in
/// the order they were discovered.
pub proof fn law_kept_containers_in_order(server: RemoteContainerServer, cs: Seq<DiscoveredV>)
    ensures
        effective_spec(server, cs) == cs.filter(|c: DiscoveredV| configured_to_show(server, c)).map_values(
            |c: DiscoveredV| merged_with_entry(server, c),
        ),
    decreases cs.len(),
{
    reveal_with_fuel(Seq::filter, 1);
    let pred = |c: DiscoveredV| configured_to_show(server, c);
    let f = |c: DiscoveredV| merged_with_entry(server, c);
    if cs.len() == 0 {
        assert(cs.filter(pred).map_values(f) =~= Seq::<DiscoveredV>::empty());
    } else {
        let d = cs.drop_last();
        law_kept_containers_in_order(server, d);
        let c = cs.last();
        lemma_shown_iff_configured(server, c);
        let fd = d.filter(pred);
        assert(cs.filter(pred) == if pred(c) { fd.push(c) } else { fd });
        if pred(c) {
            assert(fd.push(c).map_values(f) =~= fd.map_values(f).push(f(c)));
        }
    }
}
} // verus!
