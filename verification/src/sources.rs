//! Where containers come from: discovery commands of the container managers, their
//! output, and the containers configured by hand.
use crate::discovery::{extract_ipv4, extract_ipv4_spec, trim_quotes_chars, trim_quotes_spec};
use crate::model::{
    copy_services, copy_strings, copy_surfaces, discovered_v, opt_v, opt_ws, services_v, strs,
    surfaces_v, ContainerDiscoveryMode, ContainerManagerType, ContainerWorkspace,
    DiscoveredContainer, DiscoveredV, MachineContainerConfig, MachineTransport,
    ManagedContainerKind, RemoteContainerServer, WorkspaceV,
};
use crate::text::{
    blank, chars_of, concat2, concat3, contains_chars, contains_seq, eq_ignore_case,
    eq_ignore_case_chars, is_blank, lower_chars, lower_seq, owned, string_from_chars,
    trim_bounds, trim_start_seq,
};
use vstd::prelude::*;

verus! {

// ---------------------------------------------------------------------------
// Discovery commands
// ---------------------------------------------------------------------------
/// The command that lists a manager's containers as `name,status,address` rows (or
/// JSON for OrbStack).
pub open spec fn discovery_command_spec(m: ContainerManagerType) -> Seq<char> {
    match m {
        ContainerManagerType::Unspecified => seq![],
        ContainerManagerType::Lxd => "lxc list --format csv -c ns4"@,
        ContainerManagerType::Docker => "docker ps --format \"{{.Names}}\" | while read -r name; do [ -z \"$name\" ] && continue; ip=$(docker inspect -f \"{{range .NetworkSettings.Networks}}{{.IPAddress}}{{end}}\" \"$name\" 2>/dev/null); printf \"%s,RUNNING,%s\\n\" \"$name\" \"$ip\"; done"@,
        ContainerManagerType::Orbstack => "/opt/homebrew/bin/orb list --format json"@,
    }
}

/// The command that lists a manager's containers.
pub fn default_discovery_command_for_manager(manager_type: ContainerManagerType) -> (r: String)
    ensures
        r@ == discovery_command_spec(manager_type),
{
    match manager_type {
        ContainerManagerType::Unspecified => String::new(),
        ContainerManagerType::Lxd => owned("lxc list --format csv -c ns4"),
        ContainerManagerType::Docker => owned(
            "docker ps --format \"{{.Names}}\" | while read -r name; do [ -z \"$name\" ] && continue; ip=$(docker inspect -f \"{{range .NetworkSettings.Networks}}{{.IPAddress}}{{end}}\" \"$name\" 2>/dev/null); printf \"%s,RUNNING,%s\\n\" \"$name\" \"$ip\"; done",
        ),
        ContainerManagerType::Orbstack => owned("/opt/homebrew/bin/orb list --format json"),
    }
}

/// The managers whose discovery commands are run on a machine.
pub fn discovery_managers(server: &RemoteContainerServer) -> (r: Vec<ContainerManagerType>)
    ensures
        r@ == crate::model::manager_priority_spec(server.manager_type),
{
    crate::model::manager_priority(server)
}

/// The identifier of a machine's host target.
pub fn host_target_id(server: &RemoteContainerServer) -> (r: String)
    ensures
        r@ == server.id@ + "::host"@,
{
    concat2(server.id.as_str(), "::host")
}

/// Whether a machine's discovery command runs over the embedded SSH client rather
/// than the system `ssh`: always on mobile builds, and whenever the machine or a
/// jump host authenticates with a stored credential.
pub open spec fn use_russh_spec(server: RemoteContainerServer, mobile: bool) -> bool {
    mobile || !blank(server.ssh_credential_id@) || exists|i: int|
        0 <= i < server.jump_chain@.len() && !blank(
            #[trigger] server.jump_chain@[i].ssh_credential_id@,
        )
}

/// Whether a machine's discovery command runs over the embedded SSH client.
pub fn should_use_russh_discovery(server: &RemoteContainerServer, mobile: bool) -> (r: bool)
    ensures
        r == use_russh_spec(*server, mobile),
{
    if mobile || !is_blank(server.ssh_credential_id.as_str()) {
        return true;
    }
    let mut i: usize = 0;
    while i < server.jump_chain.len()
        invariant
            i <= server.jump_chain@.len(),
            forall|j: int| 0 <= j < i ==> blank(#[trigger] server.jump_chain@[j].ssh_credential_id@),
        decreases server.jump_chain@.len() - i,
    {
        if !is_blank(server.jump_chain[i].ssh_credential_id.as_str()) {
            return true;
        }
        i = i + 1;
    }
    false
}

/// A discovery error that only says the manager is not installed.
pub open spec fn ignorable_error_spec(error: Seq<char>) -> bool {
    let n = lower_seq(error);
    contains_seq(n, "command not found"@) || contains_seq(n, "no such file or directory"@)
        || contains_seq(n, "not installed"@) || contains_seq(n, "unknown command"@)
}

fn contains_lit(s: &[char], lit: &str) -> (b: bool)
    ensures
        b == contains_seq(s@, lit@),
{
    let l = chars_of(lit);
    contains_chars(s, l.as_slice())
}

/// Whether a discovery error only says that the manager is missing.
pub fn is_ignorable_discovery_error(error: &str) -> (r: bool)
    ensures
        r == ignorable_error_spec(error@),
{
    let e = chars_of(error);
    let n = lower_chars(e.as_slice());
    contains_lit(n.as_slice(), "command not found") || contains_lit(
        n.as_slice(),
        "no such file or directory",
    ) || contains_lit(n.as_slice(), "not installed") || contains_lit(
        n.as_slice(),
        "unknown command",
    )
}

/// The name of a container manager in messages.
pub open spec fn manager_label_spec(m: ContainerManagerType) -> Seq<char> {
    match m {
        ContainerManagerType::Unspecified => "none"@,
        ContainerManagerType::Orbstack => "orbstack"@,
        ContainerManagerType::Docker => "docker"@,
        ContainerManagerType::Lxd => "lxd"@,
    }
}

/// The name of a container manager in messages.
pub fn manager_type_label(manager_type: ContainerManagerType) -> (r: &'static str)
    ensures
        r@ == manager_label_spec(manager_type),
{
    match manager_type {
        ContainerManagerType::Unspecified => "none",
        ContainerManagerType::Orbstack => "orbstack",
        ContainerManagerType::Docker => "docker",
        ContainerManagerType::Lxd => "lxd",
    }
}

// ---------------------------------------------------------------------------
// CSV discovery output
// ---------------------------------------------------------------------------
/// What the `csv` crate reads from a text without header row: the fields of each
/// record, or the text of the first error.
pub uninterp spec fn csv_parse(input: Seq<char>) -> Result<Seq<Seq<Seq<char>>>, Seq<char>>;

/// The records of a CSV text without header row (the `csv` crate's
/// `ReaderBuilder::new().has_headers(false)` reader, records read in order), or the
/// text of the first error.
#[verifier::external_body]
fn read_csv_records(input: &str) -> (r: Result<Vec<Vec<String>>, String>)
    ensures
        match (r, csv_parse(input@)) {
            (Ok(rows), Ok(spec_rows)) => rows.deep_view() == spec_rows,
            (Err(e), Err(spec_e)) => e@ == spec_e,
            _ => false,
        },
{
    let mut reader = csv::ReaderBuilder::new().has_headers(false).from_reader(input.as_bytes());
    let mut rows = Vec::new();
    for record in reader.records() {
        match record {
            Ok(record) => rows.push(record.iter().map(|field| field.to_string()).collect()),
            Err(error) => return Err(error.to_string()),
        }
    }
    Ok(rows)
}

/// A field of a row, or nothing when the row is shorter.
pub open spec fn field_or_empty(row: Seq<Seq<char>>, i: int) -> Seq<char> {
    if 0 <= i < row.len() {
        row[i]
    } else {
        seq![]
    }
}

/// The container described by one `name,status,address` row, if it is listed.
pub open spec fn csv_row_container(include_stopped: bool, row: Seq<Seq<char>>) -> Option<DiscoveredV> {
    let name = trim_quotes_spec(field_or_empty(row, 0));
    let status = trim_quotes_spec(field_or_empty(row, 1));
    let raw = trim_quotes_spec(field_or_empty(row, 2));
    if name.len() == 0 || status.len() == 0 {
        None
    } else if !include_stopped && !eq_ignore_case(status, "running"@) {
        None
    } else {
        match extract_ipv4_spec(raw) {
            Some(ip) => Some(
                DiscoveredV {
                    id: name,
                    kind: ManagedContainerKind::Managed,
                    name: name,
                    source: "unknown"@,
                    ssh_user: seq![],
                    ssh_user_candidates: seq![],
                    status: status,
                    ipv4: ip,
                    label: None,
                    description: None,
                    workspace: None,
                    services: seq![],
                    surfaces: seq![],
                },
            ),
            None => None,
        }
    }
}

/// The containers listed by the rows, in order.
pub open spec fn csv_containers(include_stopped: bool, rows: Seq<Seq<Seq<char>>>) -> Seq<DiscoveredV>
    decreases rows.len(),
{
    if rows.len() == 0 {
        seq![]
    } else {
        let r = csv_containers(include_stopped, rows.drop_last());
        match csv_row_container(include_stopped, rows.last()) {
            Some(c) => r.push(c),
            None => r,
        }
    }
}

/// The containers of a CSV discovery output, or the error message.
pub open spec fn csv_discovery_spec(server: RemoteContainerServer, output: Seq<char>) -> Result<
    Seq<DiscoveredV>,
    Seq<char>,
> {
    match csv_parse(output) {
        Ok(rows) => Ok(csv_containers(server.include_stopped, rows)),
        Err(e) => Err(
            "Failed to parse discovery output for "@ + server.host@ + " as CSV: "@ + e,
        ),
    }
}

fn row_field(row: &Vec<String>, i: usize) -> (r: Vec<char>)
    ensures
        r@ == trim_quotes_spec(field_or_empty(row.deep_view(), i as int)),
{
    if i < row.len() {
        let c = chars_of(row[i].as_str());
        trim_quotes_chars(c.as_slice())
    } else {
        let e: Vec<char> = Vec::new();
        trim_quotes_chars(e.as_slice())
    }
}

/// A discovered container with everything but its name, status and address empty.
pub fn bare_container(name: &[char], status: &[char], ipv4: String, source: &str) -> (r:
    DiscoveredContainer)
    ensures
        r@ == (DiscoveredV {
            id: name@,
            kind: ManagedContainerKind::Managed,
            name: name@,
            source: source@,
            ssh_user: seq![],
            ssh_user_candidates: seq![],
            status: status@,
            ipv4: ipv4@,
            label: None,
            description: None,
            workspace: None,
            services: seq![],
            surfaces: seq![],
        }),
{
    let r = DiscoveredContainer {
        id: string_from_chars(name),
        kind: ManagedContainerKind::Managed,
        name: string_from_chars(name),
        source: owned(source),
        ssh_user: String::new(),
        ssh_user_candidates: Vec::new(),
        status: string_from_chars(status),
        ipv4,
        label: None,
        description: None,
        workspace: None,
        services: Vec::new(),
        surfaces: Vec::new(),
    };
    assert(strs(r.ssh_user_candidates@) =~= Seq::<Seq<char>>::empty());
    assert(services_v(r.services@) =~= Seq::empty());
    assert(surfaces_v(r.surfaces@) =~= Seq::empty());
    r
}

/// The containers described by `name,status,address` rows of CSV discovery output;
/// stopped containers are left out unless the machine includes them, and so are
/// rows without a name, status or IPv4 address.
pub fn parse_csv_discovered_containers(server: &RemoteContainerServer, discovery_output: &str) -> (r:
    Result<Vec<DiscoveredContainer>, String>)
    ensures
        match (r, csv_discovery_spec(*server, discovery_output@)) {
            (Ok(v), Ok(s)) => discovered_v(v@) == s,
            (Err(e), Err(s)) => e@ == s,
            _ => false,
        },
{
    let rows = match read_csv_records(discovery_output) {
        Ok(rows) => rows,
        Err(error) => {
            let mut m = concat3(
                "Failed to parse discovery output for ",
                server.host.as_str(),
                " as CSV: ",
            );
            m.append(error.as_str());
            return Err(m);
        },
    };
    let ghost rv = rows.deep_view();
    let mut containers: Vec<DiscoveredContainer> = Vec::new();
    let mut i: usize = 0;
    proof {
        assert(rv.take(0) =~= Seq::<Seq<Seq<char>>>::empty());
    }
    while i < rows.len()
        invariant
            i <= rows@.len(),
            rv == rows.deep_view(),
            discovered_v(containers@) == csv_containers(server.include_stopped, rv.take(i as int)),
        decreases rows@.len() - i,
    {
        proof {
            assert(rv.take(i + 1).drop_last() =~= rv.take(i as int));
            assert(rv.take(i + 1).last() == rows@[i as int].deep_view());
        }
        let row = &rows[i];
        let name = row_field(row, 0);
        let status = row_field(row, 1);
        let raw = row_field(row, 2);
        let running = chars_of("running");
        if name.len() > 0 && status.len() > 0 && (server.include_stopped || eq_ignore_case_chars(
            status.as_slice(),
            running.as_slice(),
        )) {
            let raw_s = string_from_chars(raw.as_slice());
            match extract_ipv4(raw_s.as_str()) {
                Some(ipv4) => {
                    let c = bare_container(name.as_slice(), status.as_slice(), ipv4, "unknown");
                    let ghost prev = containers@;
                    containers.push(c);
                    assert(discovered_v(containers@) =~= discovered_v(prev).push(c@));
                },
                None => {},
            }
        }
        i = i + 1;
    }
    assert(rv.take(rows@.len() as int) =~= rv);
    Ok(containers)
}

/// The containers with their source set.
pub open spec fn with_source(cs: Seq<DiscoveredV>, source: Seq<char>) -> Seq<DiscoveredV> {
    cs.map_values(|c: DiscoveredV| DiscoveredV { source: source, ..c })
}

fn set_sources(containers: &mut Vec<DiscoveredContainer>, source: &str)
    ensures
        discovered_v(final(containers)@) == with_source(discovered_v(old(containers)@), source@),
{
    let ghost start = discovered_v(containers@);
    let mut i: usize = 0;
    while i < containers.len()
        invariant
            i <= containers@.len(),
            containers@.len() == start.len(),
            forall|j: int|
                0 <= j < i ==> #[trigger] containers@[j]@ == (DiscoveredV {
                    source: source@,
                    ..start[j]
                }),
            forall|j: int| i <= j < containers@.len() ==> #[trigger] containers@[j]@ == start[j],
        decreases containers@.len() - i,
    {
        let ghost before = containers@;
        let mut c = containers.remove(i);
        let ghost removed = c;
        c.source = owned(source);
        containers.insert(i, c);
        proof {
            assert(removed == before[i as int]);
            assert(c@ == (DiscoveredV { source: source@, ..removed@ }));
            assert(containers@ =~= before.update(i as int, c));
            assert forall|j: int| 0 <= j < i + 1 implies #[trigger] containers@[j]@ == (DiscoveredV {
                source: source@,
                ..start[j]
            }) by {
                if j < i {
                    assert(containers@[j] == before[j]);
                }
            }
            assert forall|j: int| i + 1 <= j < containers@.len() implies #[trigger] containers@[j]@
                == start[j] by {
                assert(containers@[j] == before[j]);
            }
        }
        i = i + 1;
    }
    assert(discovered_v(containers@) =~= with_source(start, source@));
}

/// The source label of a manager's containers.
pub open spec fn source_label_spec(m: ContainerManagerType) -> Seq<char> {
    match m {
        ContainerManagerType::Docker => "docker"@,
        ContainerManagerType::Lxd => "lxd"@,
        ContainerManagerType::Orbstack => "orbstack"@,
        ContainerManagerType::Unspecified => "unknown"@,
    }
}

/// The containers one manager reported: for OrbStack, the result of its JSON
/// discovery (`orbstack_result`); for the others, the CSV rows of its output with
/// their source set to the manager.
pub fn parse_discovered_containers_for_manager(
    server: &RemoteContainerServer,
    manager_type: ContainerManagerType,
    discovery_output: &str,
    orbstack_result: Result<Vec<DiscoveredContainer>, String>,
) -> (r: Result<Vec<DiscoveredContainer>, String>)
    ensures
        manager_type == ContainerManagerType::Orbstack ==> r == orbstack_result,
        manager_type != ContainerManagerType::Orbstack ==> match (
            r,
            csv_discovery_spec(*server, discovery_output@),
        ) {
            (Ok(v), Ok(s)) => discovered_v(v@) == with_source(s, source_label_spec(manager_type)),
            (Err(e), Err(s)) => e@ == s,
            _ => false,
        },
{
    if manager_type == ContainerManagerType::Orbstack {
        return orbstack_result;
    }
    let mut containers = match parse_csv_discovered_containers(server, discovery_output) {
        Ok(c) => c,
        Err(e) => return Err(e),
    };
    let source = match manager_type {
        ContainerManagerType::Docker => "docker",
        ContainerManagerType::Lxd => "lxd",
        ContainerManagerType::Orbstack => "orbstack",
        ContainerManagerType::Unspecified => "unknown",
    };
    set_sources(&mut containers, source);
    Ok(containers)
}

/// Output that looks like JSON: it starts, after whitespace, with `[` or `{`.
pub open spec fn looks_like_json_spec(output: Seq<char>) -> bool {
    let t = trim_start_seq(output);
    t.len() > 0 && (t[0] == '[' || t[0] == '{')
}

/// Whether discovery output looks like JSON.
pub fn looks_like_json(output: &str) -> (r: bool)
    ensures
        r == looks_like_json_spec(output@),
{
    let v = chars_of(output);
    let (a, _) = trim_bounds(v.as_slice());
    a < v.len() && (v[a] == '[' || v[a] == '{')
}

/// The containers of the output of a machine's own discovery command: the OrbStack
/// JSON result when the output looks like JSON and that succeeded
/// (`orbstack_attempt`), else the CSV rows with the source `custom`.
pub fn parse_discovered_containers(
    server: &RemoteContainerServer,
    discovery_output: &str,
    orbstack_attempt: Option<Result<Vec<DiscoveredContainer>, String>>,
) -> (r: Result<Vec<DiscoveredContainer>, String>)
    ensures
        match orbstack_attempt {
            Some(Ok(v)) => looks_like_json_spec(discovery_output@) ==> r == Ok::<
                Vec<DiscoveredContainer>,
                String,
            >(v),
            _ => true,
        },
        !(looks_like_json_spec(discovery_output@) && orbstack_attempt matches Some(Ok(_)))
            ==> match (r, csv_discovery_spec(*server, discovery_output@)) {
            (Ok(v), Ok(s)) => discovered_v(v@) == with_source(s, "custom"@),
            (Err(e), Err(s)) => e@ == s,
            _ => false,
        },
{
    if looks_like_json(discovery_output) {
        match orbstack_attempt {
            Some(Ok(v)) => return Ok(v),
            _ => {},
        }
    }
    let mut containers = match parse_csv_discovered_containers(server, discovery_output) {
        Ok(c) => c,
        Err(e) => return Err(e),
    };
    set_sources(&mut containers, "custom");
    Ok(containers)
}

// ---------------------------------------------------------------------------
// OrbStack
// ---------------------------------------------------------------------------
/// The Unicode upper-case form of a string (`str::to_uppercase`).
pub uninterp spec fn upper_str(s: Seq<char>) -> Seq<char>;

/// The upper-case form of a string (std's `str::to_uppercase`).
#[verifier::external_body]
fn to_uppercase(s: &str) -> (r: String)
    ensures
        r@ == upper_str(s@),
{
    s.to_uppercase()
}

/// Whether an OrbStack machine in the given state is listed.
pub fn orbstack_item_listed(server: &RemoteContainerServer, state: &str) -> (r: bool)
    ensures
        r == (server.include_stopped || eq_ignore_case(state@, "running"@)),
{
    server.include_stopped || crate::text::eq_ignore_ascii_case(state, "running")
}

/// The container an OrbStack machine's `orb info` describes, unless it has no IPv4
/// address.
pub open spec fn orbstack_container_spec(
    name: Seq<char>,
    state: Seq<char>,
    default_username: Seq<char>,
    ip4: Seq<char>,
) -> Option<DiscoveredV> {
    if blank(ip4) {
        None
    } else {
        Some(
            DiscoveredV {
                id: name,
                kind: ManagedContainerKind::Managed,
                name: name,
                source: "orbstack"@,
                ssh_user: default_username,
                ssh_user_candidates: if blank(default_username) {
                    seq![]
                } else {
                    seq![default_username]
                },
                status: upper_str(state),
                ipv4: ip4,
                label: None,
                description: None,
                workspace: None,
                services: seq![],
                surfaces: seq![],
            },
        )
    }
}

/// The container an OrbStack machine's `orb info` describes (name, state, default
/// user and IPv4 address), unless it has no address.
pub fn orbstack_container_from_info(
    name: &str,
    state: &str,
    default_username: &str,
    ip4: &str,
) -> (r: Option<DiscoveredContainer>)
    ensures
        match orbstack_container_spec(name@, state@, default_username@, ip4@) {
            Some(c) => r is Some && r.unwrap()@ == c,
            None => r is None,
        },
{
    if is_blank(ip4) {
        return None;
    }
    let mut candidates: Vec<String> = Vec::new();
    if !is_blank(default_username) {
        candidates.push(owned(default_username));
    }
    proof {
        if blank(default_username@) {
            assert(strs(candidates@) =~= Seq::<Seq<char>>::empty());
        } else {
            assert(strs(candidates@) =~= seq![default_username@]);
        }
    }
    let r = DiscoveredContainer {
        id: owned(name),
        kind: ManagedContainerKind::Managed,
        name: owned(name),
        source: owned("orbstack"),
        ssh_user: owned(default_username),
        ssh_user_candidates: candidates,
        status: to_uppercase(state),
        ipv4: owned(ip4),
        label: None,
        description: None,
        workspace: None,
        services: Vec::new(),
        surfaces: Vec::new(),
    };
    assert(services_v(r.services@) =~= Seq::empty());
    assert(surfaces_v(r.surfaces@) =~= Seq::empty());
    Some(r)
}

// ---------------------------------------------------------------------------
// Containers of several managers
// ---------------------------------------------------------------------------
/// The outcome of one manager's discovery.
pub struct ManagerDiscoveryResult {
    pub manager_type: ContainerManagerType,
    /// Whether a discovery command was run.
    pub attempted: bool,
    pub containers: Result<Vec<DiscoveredContainer>, String>,
}

/// The names in a list of containers.
pub open spec fn names_of(cs: Seq<DiscoveredV>) -> Seq<Seq<char>> {
    cs.map_values(|c: DiscoveredV| c.name)
}

/// State of merging the results of several managers.
pub struct MergeState {
    pub discovered: Seq<DiscoveredV>,
    pub failures: Seq<Seq<char>>,
    pub attempted: nat,
}

/// `cs` appended to `acc`, leaving out containers whose name is already there.
pub open spec fn add_new_names(acc: Seq<DiscoveredV>, cs: Seq<DiscoveredV>) -> Seq<DiscoveredV>
    decreases cs.len(),
{
    if cs.len() == 0 {
        acc
    } else {
        let a = add_new_names(acc, cs.drop_last());
        if names_of(a).contains(cs.last().name) {
            a
        } else {
            a.push(cs.last())
        }
    }
}

/// View of one manager's outcome.
pub open spec fn result_v(r: ManagerDiscoveryResult) -> (ContainerManagerType, bool, Result<
    Seq<DiscoveredV>,
    Seq<char>,
>) {
    (
        r.manager_type,
        r.attempted,
        match r.containers {
            Ok(v) => Ok(discovered_v(v@)),
            Err(e) => Err(e@),
        },
    )
}

/// The merge of the outcomes of several managers, in order.
pub open spec fn merge_spec(
    rs: Seq<(ContainerManagerType, bool, Result<Seq<DiscoveredV>, Seq<char>>)>,
) -> MergeState
    decreases rs.len(),
{
    if rs.len() == 0 {
        MergeState { discovered: seq![], failures: seq![], attempted: 0 }
    } else {
        let m = merge_spec(rs.drop_last());
        let (t, attempted, result) = rs.last();
        if !attempted {
            m
        } else {
            match result {
                Ok(cs) => MergeState {
                    discovered: add_new_names(m.discovered, cs),
                    attempted: m.attempted + 1,
                    ..m
                },
                Err(e) => MergeState {
                    failures: if ignorable_error_spec(e) {
                        m.failures
                    } else {
                        m.failures.push("["@ + manager_label_spec(t) + "] "@ + e)
                    },
                    attempted: m.attempted + 1,
                    ..m
                },
            }
        }
    }
}

/// The containers found by several managers: every container found, first name
/// wins; an error only when nothing was found and a manager that ran failed for
/// another reason than being absent.
pub open spec fn combine_spec(
    rs: Seq<(ContainerManagerType, bool, Result<Seq<DiscoveredV>, Seq<char>>)>,
) -> Result<Seq<DiscoveredV>, Seq<char>> {
    let m = merge_spec(rs);
    if m.discovered.len() > 0 || m.attempted == 0 || m.failures.len() == 0 {
        Ok(m.discovered)
    } else {
        Err(crate::text::join_seq(m.failures, "\n"@))
    }
}

/// No two containers of a list share a name.
pub open spec fn names_distinct(cs: Seq<DiscoveredV>) -> bool {
    forall|i: int, j: int| 0 <= i < j < cs.len() ==> #[trigger] cs[i].name != #[trigger] cs[j].name
}

proof fn lemma_add_new_names_distinct(acc: Seq<DiscoveredV>, cs: Seq<DiscoveredV>)
    requires
        names_distinct(acc),
    ensures
        names_distinct(add_new_names(acc, cs)),
    decreases cs.len(),
{
    if cs.len() > 0 {
        lemma_add_new_names_distinct(acc, cs.drop_last());
        let a = add_new_names(acc, cs.drop_last());
        if !names_of(a).contains(cs.last().name) {
            let b = a.push(cs.last());
            assert forall|i: int, j: int| 0 <= i < j < b.len() implies #[trigger] b[i].name != #[trigger] b[j].name by {
                if j == a.len() {
                    assert(names_of(a)[i] == a[i].name);
                } else {
                    assert(b[i] == a[i] && b[j] == a[j]);
                }
            }
        }
    }
}

proof fn lemma_merge_distinct(rs: Seq<(ContainerManagerType, bool, Result<Seq<DiscoveredV>, Seq<char>>)>)
    ensures
        names_distinct(merge_spec(rs).discovered),
    decreases rs.len(),
{
    if rs.len() > 0 {
        lemma_merge_distinct(rs.drop_last());
        let m = merge_spec(rs.drop_last());
        if let Ok(cs) = rs.last().2 {
            lemma_add_new_names_distinct(m.discovered, cs);
        }
    }
}

/// The containers found over several managers never share a name: a container
/// whose name was already found is left out.
pub proof fn law_combined_containers_have_distinct_names(
    rs: Seq<(ContainerManagerType, bool, Result<Seq<DiscoveredV>, Seq<char>>)>,
)
    ensures
        combine_spec(rs) matches Ok(cs) ==> names_distinct(cs),
{
    lemma_merge_distinct(rs);
}

fn has_name(v: &Vec<DiscoveredContainer>, name: &str) -> (b: bool)
    ensures
        b == names_of(discovered_v(v@)).contains(name@),
{
    let mut i: usize = 0;
    while i < v.len()
        invariant
            i <= v@.len(),
            forall|j: int| 0 <= j < i ==> v@[j].name@ != name@,
        decreases v@.len() - i,
    {
        if crate::text::str_eq(v[i].name.as_str(), name) {
            assert(names_of(discovered_v(v@))[i as int] == name@);
            return true;
        }
        i = i + 1;
    }
    proof {
        if names_of(discovered_v(v@)).contains(name@) {
            let k = choose|k: int|
                0 <= k < names_of(discovered_v(v@)).len() && names_of(discovered_v(v@))[k]
                    == name@;
            assert(v@[k].name@ == name@);
        }
    }
    false
}

/// The containers found by several managers on one machine: all containers found,
/// without repeated names; the failures of managers that ran and are installed,
/// joined, when none found anything.
pub fn combine_manager_results(results: Vec<ManagerDiscoveryResult>) -> (r: Result<
    Vec<DiscoveredContainer>,
    String,
>)
    ensures
        match (r, combine_spec(results@.map_values(|x: ManagerDiscoveryResult| result_v(x)))) {
            (Ok(v), Ok(s)) => discovered_v(v@) == s,
            (Err(e), Err(s)) => e@ == s,
            _ => false,
        },
{
    let ghost rv = results@.map_values(|x: ManagerDiscoveryResult| result_v(x));
    let mut discovered: Vec<DiscoveredContainer> = Vec::new();
    let mut failures: Vec<String> = Vec::new();
    let mut attempted: usize = 0;
    let mut i: usize = 0;
    proof {
        assert(rv.take(0) =~= Seq::empty());
    }
    while i < results.len()
        invariant
            i <= results@.len(),
            rv == results@.map_values(|x: ManagerDiscoveryResult| result_v(x)),
            attempted <= i,
            ({
                let m = merge_spec(rv.take(i as int));
                &&& discovered_v(discovered@) == m.discovered
                &&& strs(failures@) == m.failures
                &&& attempted == m.attempted
            }),
        decreases results@.len() - i,
    {
        proof {
            assert(rv.take(i + 1).drop_last() =~= rv.take(i as int));
            assert(rv.take(i + 1).last() == result_v(results@[i as int]));
        }
        let result = &results[i];
        if result.attempted {
            attempted = attempted + 1;
            match &result.containers {
                Ok(cs) => {
                    let ghost base = discovered_v(discovered@);
                    let ghost csv = discovered_v(cs@);
                    let mut k: usize = 0;
                    proof {
                        assert(csv.take(0) =~= Seq::<DiscoveredV>::empty());
                    }
                    while k < cs.len()
                        invariant
                            k <= cs@.len(),
                            csv == discovered_v(cs@),
                            discovered_v(discovered@) == add_new_names(base, csv.take(k as int)),
                        decreases cs@.len() - k,
                    {
                        proof {
                            assert(csv.take(k + 1).drop_last() =~= csv.take(k as int));
                            assert(csv.take(k + 1).last() == cs@[k as int]@);
                        }
                        if !has_name(&discovered, cs[k].name.as_str()) {
                            let ghost prev = discovered@;
                            let c = cs[k].duplicate();
                            discovered.push(c);
                            assert(discovered_v(discovered@) =~= discovered_v(prev).push(
                                cs@[k as int]@,
                            ));
                        }
                        k = k + 1;
                    }
                    assert(csv.take(cs@.len() as int) =~= csv);
                },
                Err(e) => {
                    if !is_ignorable_discovery_error(e.as_str()) {
                        let mut m = concat3(
                            "[",
                            manager_type_label(result.manager_type),
                            "] ",
                        );
                        m.append(e.as_str());
                        let ghost prev = failures@;
                        failures.push(m);
                        assert(strs(failures@) =~= strs(prev).push(m@));
                    }
                },
            }
        }
        i = i + 1;
    }
    assert(rv.take(results@.len() as int) =~= rv);
    if discovered.len() > 0 || attempted == 0 || failures.len() == 0 {
        return Ok(discovered);
    }
    Err(crate::ssh::join_strings(&failures, "\n"))
}

// ---------------------------------------------------------------------------
// Manually configured containers
// ---------------------------------------------------------------------------
/// Whether a workspace sets any field.
pub open spec fn workspace_set(w: WorkspaceV) -> bool {
    !blank(w.profile) || !blank(w.default_tool) || !blank(w.project_path) || !blank(w.files_root)
        || !blank(w.primary_web_service_id) || !blank(w.tmux_command_service_id)
}

/// Whether a workspace sets any field.
pub fn has_workspace_override(workspace: &ContainerWorkspace) -> (r: bool)
    ensures
        r == workspace_set(workspace@),
{
    !is_blank(workspace.profile.as_str()) || !is_blank(workspace.default_tool.as_str())
        || !is_blank(workspace.project_path.as_str()) || !is_blank(workspace.files_root.as_str())
        || !is_blank(workspace.primary_web_service_id.as_str()) || !is_blank(
        workspace.tmux_command_service_id.as_str(),
    )
}

/// The container a configuration entry describes.
pub open spec fn configured_container_spec(c: MachineContainerConfig) -> DiscoveredV {
    DiscoveredV {
        id: if blank(c.id@) {
            c.name@
        } else {
            c.id@
        },
        kind: c.kind,
        name: c.name@,
        source: if blank(c.source@) {
            if c.kind == ManagedContainerKind::Host {
                "host"@
            } else {
                "manual"@
            }
        } else {
            c.source@
        },
        ssh_user: c.ssh_user@,
        ssh_user_candidates: strs(c.ssh_user_candidates@),
        status: c.status@,
        ipv4: c.ipv4@,
        label: if blank(c.label@) {
            None
        } else {
            Some(c.label@)
        },
        description: if blank(c.description@) {
            None
        } else {
            Some(c.description@)
        },
        workspace: if workspace_set(c.workspace@) {
            Some(c.workspace@)
        } else {
            None
        },
        services: services_v(c.services@),
        surfaces: surfaces_v(c.surfaces@),
    }
}

/// The container a configuration entry describes: the name stands in for a blank
/// id, `host` or `manual` for a blank source; blank label and description are
/// absent, and so is a workspace that sets nothing.
pub fn machine_container_to_discovered(container: &MachineContainerConfig) -> (r:
    DiscoveredContainer)
    ensures
        r@ == configured_container_spec(*container),
{
    let has_workspace = has_workspace_override(&container.workspace);
    DiscoveredContainer {
        id: if is_blank(container.id.as_str()) {
            container.name.clone()
        } else {
            container.id.clone()
        },
        kind: container.kind,
        name: container.name.clone(),
        source: if is_blank(container.source.as_str()) {
            if container.kind == ManagedContainerKind::Host {
                owned("host")
            } else {
                owned("manual")
            }
        } else {
            container.source.clone()
        },
        ssh_user: container.ssh_user.clone(),
        ssh_user_candidates: copy_strings(&container.ssh_user_candidates),
        status: container.status.clone(),
        ipv4: container.ipv4.clone(),
        label: if is_blank(container.label.as_str()) {
            None
        } else {
            Some(container.label.clone())
        },
        description: if is_blank(container.description.as_str()) {
            None
        } else {
            Some(container.description.clone())
        },
        workspace: if has_workspace {
            Some(container.workspace.duplicate())
        } else {
            None
        },
        services: copy_services(&container.services),
        surfaces: copy_surfaces(&container.surfaces),
    }
}

/// Whether a configuration entry is an enabled managed container with a name and
/// an address.
pub open spec fn manual_listed(c: MachineContainerConfig) -> bool {
    c.kind == ManagedContainerKind::Managed && c.enabled && !blank(c.name@) && !blank(c.ipv4@)
}

/// The containers configured by hand, in order.
pub open spec fn manual_spec(cs: Seq<MachineContainerConfig>) -> Seq<DiscoveredV>
    decreases cs.len(),
{
    if cs.len() == 0 {
        seq![]
    } else {
        let r = manual_spec(cs.drop_last());
        if manual_listed(cs.last()) {
            r.push(configured_container_spec(cs.last()))
        } else {
            r
        }
    }
}

/// The enabled managed containers configured by hand that have a name and an
/// address.
pub fn discover_manual_containers(server: &RemoteContainerServer) -> (r: Vec<DiscoveredContainer>)
    ensures
        discovered_v(r@) == manual_spec(server.containers@),
{
    let mut r: Vec<DiscoveredContainer> = Vec::new();
    let mut i: usize = 0;
    proof {
        assert(server.containers@.take(0) =~= Seq::<MachineContainerConfig>::empty());
    }
    while i < server.containers.len()
        invariant
            i <= server.containers@.len(),
            discovered_v(r@) == manual_spec(server.containers@.take(i as int)),
        decreases server.containers@.len() - i,
    {
        let c = &server.containers[i];
        proof {
            assert(server.containers@.take(i + 1).drop_last() =~= server.containers@.take(
                i as int,
            ));
        }
        if c.kind == ManagedContainerKind::Managed && c.enabled && !is_blank(c.name.as_str())
            && !is_blank(c.ipv4.as_str()) {
            let d = machine_container_to_discovered(c);
            let ghost prev = r@;
            r.push(d);
            assert(discovered_v(r@) =~= discovered_v(prev).push(d@));
        }
        i = i + 1;
    }
    assert(server.containers@.take(server.containers@.len() as int) =~= server.containers@);
    r
}

/// The containers known without scanning: the ones configured by hand.
pub fn cached_server_containers(server: &RemoteContainerServer) -> (r: Vec<DiscoveredContainer>)
    ensures
        discovered_v(r@) == manual_spec(server.containers@),
{
    discover_manual_containers(server)
}

// ---------------------------------------------------------------------------
// Scanning a machine
// ---------------------------------------------------------------------------
/// What scanning a machine for containers involves.
pub enum ScanPlan {
    /// Nothing to scan: the machine is local or shows its host only.
    NoContainers,
    /// The containers configured by hand; their users are looked up next.
    Manual(Vec<DiscoveredContainer>),
    /// Run the machine's own discovery command, over the embedded SSH client or the
    /// system shell.
    CustomCommand { command: String, via_russh: bool },
    /// Run the discovery command of each supported manager, in order.
    SupportedManagers(Vec<(ContainerManagerType, String)>),
}

/// The discovery commands of the managers of a machine, skipping managers without
/// one.
pub open spec fn manager_commands(ms: Seq<ContainerManagerType>) -> Seq<
    (ContainerManagerType, Seq<char>),
>
    decreases ms.len(),
{
    if ms.len() == 0 {
        seq![]
    } else {
        let r = manager_commands(ms.drop_last());
        if blank(discovery_command_spec(ms.last())) {
            r
        } else {
            r.push((ms.last(), discovery_command_spec(ms.last())))
        }
    }
}

/// How to scan a machine for containers: nothing for a local machine or a host-only
/// one; the configured containers for manual discovery; the machine's own command
/// when it has one; else the command of each supported manager.
pub fn scan_plan(server: &RemoteContainerServer, mobile: bool) -> (r: ScanPlan)
    ensures
        server.transport == MachineTransport::Local ==> r is NoContainers,
        server.transport != MachineTransport::Local && server.discovery_mode
            == ContainerDiscoveryMode::HostOnly ==> r is NoContainers,
        server.transport != MachineTransport::Local && server.discovery_mode
            == ContainerDiscoveryMode::Manual ==> (r matches ScanPlan::Manual(v) && discovered_v(
            v@,
        ) == manual_spec(server.containers@)),
        server.transport != MachineTransport::Local && server.discovery_mode
            == ContainerDiscoveryMode::Auto && !blank(server.discovery_command@) ==> (
        r matches ScanPlan::CustomCommand { command, via_russh } && command@
            == server.discovery_command@ && via_russh == use_russh_spec(*server, mobile)),
        server.transport != MachineTransport::Local && server.discovery_mode
            == ContainerDiscoveryMode::Auto && blank(server.discovery_command@) ==> (
        r matches ScanPlan::SupportedManagers(v) && v@.map_values(
            |p: (ContainerManagerType, String)| (p.0, p.1@),
        ) == manager_commands(crate::model::manager_priority_spec(server.manager_type))),
{
    if server.transport == MachineTransport::Local {
        return ScanPlan::NoContainers;
    }
    if server.discovery_mode == ContainerDiscoveryMode::HostOnly {
        return ScanPlan::NoContainers;
    }
    if server.discovery_mode == ContainerDiscoveryMode::Manual {
        return ScanPlan::Manual(discover_manual_containers(server));
    }
    if !is_blank(server.discovery_command.as_str()) {
        return ScanPlan::CustomCommand {
            command: server.discovery_command.clone(),
            via_russh: should_use_russh_discovery(server, mobile),
        };
    }
    let managers = discovery_managers(server);
    let ghost mv = managers@;
    let mut commands: Vec<(ContainerManagerType, String)> = Vec::new();
    let mut i: usize = 0;
    proof {
        assert(mv.take(0) =~= Seq::<ContainerManagerType>::empty());
    }
    while i < managers.len()
        invariant
            i <= managers@.len(),
            mv == managers@,
            commands@.map_values(|p: (ContainerManagerType, String)| (p.0, p.1@))
                == manager_commands(mv.take(i as int)),
        decreases managers@.len() - i,
    {
        proof {
            assert(mv.take(i + 1).drop_last() =~= mv.take(i as int));
        }
        let command = default_discovery_command_for_manager(managers[i]);
        if !is_blank(command.as_str()) {
            let ghost prev = commands@;
            commands.push((managers[i], command));
            assert(commands@.map_values(|p: (ContainerManagerType, String)| (p.0, p.1@))
                =~= prev.map_values(|p: (ContainerManagerType, String)| (p.0, p.1@)).push(
                (mv[i as int], discovery_command_spec(mv[i as int])),
            ));
        }
        i = i + 1;
    }
    assert(mv.take(managers@.len() as int) =~= mv);
    ScanPlan::SupportedManagers(commands)
}

} // verus!
