//! Choice of the SSH user of a container: configured users, users found inside the
//! container, and well-known defaults.
use crate::model::{
    strs, ContainerManagerType, DiscoveredContainer, DiscoveredV, ManagedContainerKind,
    MachineContainerConfig, RemoteContainerServer,
};
use crate::ssh::{managed_container_ssh_user, managed_container_ssh_user_spec, shell_single_quote, single_quote_spec};
use crate::text::{
    blank, chars_of, concat2, fields, is_blank, owned, split_fields, str_eq, string_from_chars,
    trim, trim_chars, trim_seq, CharClass,
};
use vstd::prelude::*;

verus! {

// ---------------------------------------------------------------------------
// Specifications
// ---------------------------------------------------------------------------
/// `ss` without repeated members, keeping the first occurrence of each.
pub open spec fn dedup(ss: Seq<Seq<char>>) -> Seq<Seq<char>>
    decreases ss.len(),
{
    if ss.len() == 0 {
        seq![]
    } else {
        let d = dedup(ss.drop_last());
        if d.contains(ss.last()) {
            d
        } else {
            d.push(ss.last())
        }
    }
}

/// Each member trimmed, blank members dropped.
pub open spec fn trimmed_non_blank(ss: Seq<Seq<char>>) -> Seq<Seq<char>>
    decreases ss.len(),
{
    if ss.len() == 0 {
        seq![]
    } else {
        let r = trimmed_non_blank(ss.drop_last());
        if trim_seq(ss.last()).len() > 0 {
            r.push(trim_seq(ss.last()))
        } else {
            r
        }
    }
}

/// The user as a one-member list unless it is blank.
pub open spec fn unless_blank(u: Seq<char>) -> Seq<Seq<char>> {
    if blank(u) {
        seq![]
    } else {
        seq![u]
    }
}

/// The users tried for a machine's containers when nothing better is known: the
/// container user, the machine user and common default accounts.
pub open spec fn managed_candidates_spec(server: RemoteContainerServer) -> Seq<Seq<char>> {
    trimmed_non_blank(
        seq![
            managed_container_ssh_user_spec(server),
            server.ssh_user@,
            "ubuntu"@,
            "root"@,
            "admin"@,
            "ec2-user"@,
            "debian"@,
            "core"@,
            "opc"@,
        ],
    )
}

/// The first configured container of a machine with the given name, from `i` on.
pub open spec fn configured_from(server: RemoteContainerServer, name: Seq<char>, i: int) -> Option<
    MachineContainerConfig,
>
    decreases server.containers@.len() - i,
{
    if i < 0 || i >= server.containers@.len() {
        None
    } else if server.containers@[i].name@ == name {
        Some(server.containers@[i])
    } else {
        configured_from(server, name, i + 1)
    }
}

/// The configured container of a machine with the given name.
pub open spec fn configured(server: RemoteContainerServer, name: Seq<char>) -> Option<
    MachineContainerConfig,
> {
    configured_from(server, name, 0)
}

/// The users known for a container, best first, without repeats: its own user and
/// candidates, those of its configuration entry, then the machine's defaults.
pub open spec fn candidates_spec(server: RemoteContainerServer, c: DiscoveredV) -> Seq<Seq<char>> {
    let own = unless_blank(c.ssh_user) + trimmed_non_blank(c.ssh_user_candidates);
    let configured_users = match configured(server, c.name) {
        Some(e) => unless_blank(e.ssh_user@) + trimmed_non_blank(strs(e.ssh_user_candidates@)),
        None => seq![],
    };
    dedup(own + configured_users + managed_candidates_spec(server))
}

/// `ordered` extended by each member of `extra` that it does not hold yet.
pub open spec fn append_missing(ordered: Seq<Seq<char>>, extra: Seq<Seq<char>>) -> Seq<Seq<char>>
    decreases extra.len(),
{
    if extra.len() == 0 {
        ordered
    } else {
        let o = append_missing(ordered, extra.drop_last());
        if o.contains(extra.last()) {
            o
        } else {
            o.push(extra.last())
        }
    }
}

/// The users to try for a container given the users found in it: the known
/// candidates that exist, in their order, then the other existing users.
pub open spec fn preferred_spec(
    server: RemoteContainerServer,
    c: DiscoveredV,
    available: Seq<Seq<char>>,
) -> Seq<Seq<char>> {
    if c.kind == ManagedContainerKind::Host {
        seq![server.ssh_user@]
    } else if available.len() == 0 {
        candidates_spec(server, c)
    } else {
        append_missing(
            candidates_spec(server, c).filter(|u: Seq<char>| available.contains(u)),
            available,
        )
    }
}

/// The SSH user of a container: the machine user for the host, else the container's
/// own user, else the machine's container user.
pub open spec fn resolve_user_spec(server: RemoteContainerServer, c: DiscoveredV) -> Seq<char> {
    if c.kind == ManagedContainerKind::Host {
        server.ssh_user@
    } else if !blank(c.ssh_user) {
        c.ssh_user
    } else {
        managed_container_ssh_user_spec(server)
    }
}

// ---------------------------------------------------------------------------
// Lists of strings
// ---------------------------------------------------------------------------
fn list_contains(v: &Vec<String>, s: &str) -> (b: bool)
    ensures
        b == strs(v@).contains(s@),
{
    let mut i: usize = 0;
    while i < v.len()
        invariant
            i <= v@.len(),
            forall|j: int| 0 <= j < i ==> v@[j]@ != s@,
        decreases v@.len() - i,
    {
        if str_eq(v[i].as_str(), s) {
            assert(strs(v@)[i as int] == s@);
            return true;
        }
        i = i + 1;
    }
    proof {
        if strs(v@).contains(s@) {
            let k = choose|k: int| 0 <= k < strs(v@).len() && strs(v@)[k] == s@;
            assert(v@[k]@ == s@);
        }
    }
    false
}

/// A list without repeats, keeping the first occurrence of each member.
pub fn dedup_strings(v: &Vec<String>) -> (r: Vec<String>)
    ensures
        strs(r@) == dedup(strs(v@)),
{
    let mut r: Vec<String> = Vec::new();
    let mut i: usize = 0;
    let ghost sv = strs(v@);
    proof {
        assert(sv.take(0) =~= Seq::<Seq<char>>::empty());
    }
    while i < v.len()
        invariant
            i <= v@.len(),
            sv == strs(v@),
            strs(r@) == dedup(sv.take(i as int)),
        decreases v@.len() - i,
    {
        proof {
            assert(sv.take(i + 1).drop_last() =~= sv.take(i as int));
            assert(sv.take(i + 1).last() == v@[i as int]@);
        }
        if !list_contains(&r, v[i].as_str()) {
            let ghost prev = r@;
            r.push(v[i].clone());
            assert(strs(r@) =~= strs(prev).push(v@[i as int]@));
        }
        i = i + 1;
    }
    assert(sv.take(v@.len() as int) =~= sv);
    r
}

/// Appends each member of `src`, trimmed, unless it is blank.
fn push_trimmed_non_blank(dst: &mut Vec<String>, src: &Vec<String>)
    ensures
        strs(final(dst)@) == strs(old(dst)@) + trimmed_non_blank(strs(src@)),
{
    let ghost start = strs(dst@);
    let ghost sv = strs(src@);
    let mut i: usize = 0;
    proof {
        assert(sv.take(0) =~= Seq::<Seq<char>>::empty());
        assert(start + Seq::<Seq<char>>::empty() =~= start);
    }
    while i < src.len()
        invariant
            i <= src@.len(),
            sv == strs(src@),
            strs(dst@) == start + trimmed_non_blank(sv.take(i as int)),
        decreases src@.len() - i,
    {
        proof {
            assert(sv.take(i + 1).drop_last() =~= sv.take(i as int));
            assert(sv.take(i + 1).last() == src@[i as int]@);
        }
        let t = trim(src[i].as_str());
        if !t.as_str().is_empty() {
            let ghost prev = dst@;
            dst.push(t);
            proof {
                assert(strs(dst@) =~= strs(prev).push(trim_seq(src@[i as int]@)));
            }
        }
        i = i + 1;
    }
    assert(sv.take(src@.len() as int) =~= sv);
}

// ---------------------------------------------------------------------------
// Candidates
// ---------------------------------------------------------------------------
/// The users tried for a machine's containers when nothing better is known: the
/// container user, the machine user and common default accounts, trimmed, blanks
/// dropped.
pub fn managed_container_ssh_user_candidates(server: &RemoteContainerServer) -> (r: Vec<String>)
    ensures
        strs(r@) == managed_candidates_spec(*server),
{
    let mut all: Vec<String> = Vec::new();
    all.push(owned(managed_container_ssh_user(server)));
    all.push(server.ssh_user.clone());
    all.push(owned("ubuntu"));
    all.push(owned("root"));
    all.push(owned("admin"));
    all.push(owned("ec2-user"));
    all.push(owned("debian"));
    all.push(owned("core"));
    all.push(owned("opc"));
    let mut r: Vec<String> = Vec::new();
    push_trimmed_non_blank(&mut r, &all);
    proof {
        assert(strs(all@) =~= seq![
            managed_container_ssh_user_spec(*server),
            server.ssh_user@,
            "ubuntu"@,
            "root"@,
            "admin"@,
            "ec2-user"@,
            "debian"@,
            "core"@,
            "opc"@,
        ]);
        assert(Seq::<Seq<char>>::empty() + managed_candidates_spec(*server)
            =~= managed_candidates_spec(*server));
    }
    r
}

/// The configured container of a machine with the given name.
pub fn find_configured<'a>(server: &'a RemoteContainerServer, name: &str) -> (r: Option<
    &'a MachineContainerConfig,
>)
    ensures
        match configured(*server, name@) {
            Some(e) => r == Some(&e),
            None => r is None,
        },
{
    let mut i: usize = 0;
    while i < server.containers.len()
        invariant
            i <= server.containers@.len(),
            configured(*server, name@) == configured_from(*server, name@, i as int),
        decreases server.containers@.len() - i,
    {
        if str_eq(server.containers[i].name.as_str(), name) {
            return Some(&server.containers[i]);
        }
        i = i + 1;
    }
    None
}

/// The users known for a container, best first, without repeats: its own user and
/// candidates, those of the machine's configuration entry for it, then the
/// machine's defaults.
pub fn candidate_container_ssh_users(
    server: &RemoteContainerServer,
    container: &DiscoveredContainer,
) -> (r: Vec<String>)
    ensures
        strs(r@) == candidates_spec(*server, container@),
{
    let existing = find_configured(server, container.name.as_str());
    let mut users: Vec<String> = Vec::new();
    if !is_blank(container.ssh_user.as_str()) {
        users.push(container.ssh_user.clone());
    }
    proof {
        assert(strs(users@) =~= crate::ssh_users::unless_blank(container.ssh_user@));
    }
    push_trimmed_non_blank(&mut users, &container.ssh_user_candidates);
    let ghost own = strs(users@);
    match existing {
        Some(e) => {
            if !is_blank(e.ssh_user.as_str()) {
                let ghost prev = users@;
                users.push(e.ssh_user.clone());
                assert(strs(users@) =~= strs(prev).push(e.ssh_user@));
            }
            proof {
                assert(strs(users@) =~= own + unless_blank(e.ssh_user@));
            }
            push_trimmed_non_blank(&mut users, &e.ssh_user_candidates);
            proof {
                assert(strs(users@) =~= own + (unless_blank(e.ssh_user@) + trimmed_non_blank(
                    strs(e.ssh_user_candidates@),
                )));
            }
        },
        None => {
            assert(strs(users@) =~= own + Seq::<Seq<char>>::empty());
        },
    }
    let ghost mid = strs(users@);
    let defaults = managed_container_ssh_user_candidates(server);
    let mut i: usize = 0;
    while i < defaults.len()
        invariant
            i <= defaults@.len(),
            strs(users@) == mid + strs(defaults@.take(i as int)),
        decreases defaults@.len() - i,
    {
        let ghost prev = users@;
        users.push(defaults[i].clone());
        proof {
            assert(defaults@.take(i + 1) =~= defaults@.take(i as int).push(defaults@[i as int]));
            assert(strs(users@) =~= strs(prev).push(defaults@[i as int]@));
        }
        i = i + 1;
    }
    assert(defaults@.take(defaults@.len() as int) =~= defaults@);
    dedup_strings(&users)
}

/// The users to try for a container given the users found inside it: the known
/// candidates that exist there, in their order, then the other users found.
pub fn preferred_available_container_ssh_users(
    server: &RemoteContainerServer,
    container: &DiscoveredContainer,
    available_users: Vec<String>,
) -> (r: Vec<String>)
    ensures
        strs(r@) == preferred_spec(*server, container@, strs(available_users@)),
{
    if container.kind == ManagedContainerKind::Host {
        let mut r = Vec::new();
        r.push(server.ssh_user.clone());
        assert(strs(r@) =~= seq![server.ssh_user@]);
        return r;
    }
    if available_users.len() == 0 {
        return candidate_container_ssh_users(server, container);
    }
    let candidates = candidate_container_ssh_users(server, container);
    let ghost cv = strs(candidates@);
    let ghost av = strs(available_users@);
    let mut ordered: Vec<String> = Vec::new();
    let mut i: usize = 0;
    proof {
        assert(cv.take(0) =~= Seq::<Seq<char>>::empty());
        reveal_with_fuel(Seq::filter, 1);
    }
    while i < candidates.len()
        invariant
            i <= candidates@.len(),
            cv == strs(candidates@),
            av == strs(available_users@),
            strs(ordered@) == cv.take(i as int).filter(|u: Seq<char>| av.contains(u)),
        decreases candidates@.len() - i,
    {
        proof {
            assert(cv.take(i + 1).drop_last() =~= cv.take(i as int));
            reveal_with_fuel(Seq::filter, 1);
        }
        if list_contains(&available_users, candidates[i].as_str()) {
            let ghost prev = ordered@;
            ordered.push(candidates[i].clone());
            assert(strs(ordered@) =~= strs(prev).push(cv[i as int]));
        }
        i = i + 1;
    }
    assert(cv.take(candidates@.len() as int) =~= cv);
    let ghost base = strs(ordered@);
    let mut k: usize = 0;
    proof {
        assert(av.take(0) =~= Seq::<Seq<char>>::empty());
    }
    while k < available_users.len()
        invariant
            k <= available_users@.len(),
            av == strs(available_users@),
            strs(ordered@) == append_missing(base, av.take(k as int)),
        decreases available_users@.len() - k,
    {
        proof {
            assert(av.take(k + 1).drop_last() =~= av.take(k as int));
            assert(av.take(k + 1).last() == available_users@[k as int]@);
        }
        if !list_contains(&ordered, available_users[k].as_str()) {
            let ghost prev = ordered@;
            ordered.push(available_users[k].clone());
            assert(strs(ordered@) =~= strs(prev).push(av[k as int]));
        }
        k = k + 1;
    }
    assert(av.take(available_users@.len() as int) =~= av);
    ordered
}

/// The SSH user of a container: the machine's user for the host, the container's
/// own user when it has one, else the machine's container user.
pub fn resolve_container_ssh_user(
    server: &RemoteContainerServer,
    container: &DiscoveredContainer,
) -> (r: String)
    ensures
        r@ == resolve_user_spec(*server, container@),
{
    if container.kind == ManagedContainerKind::Host {
        return server.ssh_user.clone();
    }
    if !is_blank(container.ssh_user.as_str()) {
        return container.ssh_user.clone();
    }
    owned(managed_container_ssh_user(server))
}

/// A container with its SSH user and candidates chosen from the users found inside
/// it.
pub open spec fn enriched_spec(
    server: RemoteContainerServer,
    c: DiscoveredV,
    found: Seq<Seq<char>>,
) -> DiscoveredV {
    if c.kind == ManagedContainerKind::Host {
        DiscoveredV { ssh_user: server.ssh_user@, ssh_user_candidates: seq![server.ssh_user@], ..c }
    } else {
        let cands = preferred_spec(server, c, found);
        DiscoveredV {
            ssh_user: if cands.len() > 0 {
                cands[0]
            } else {
                managed_candidates_spec(server)[0]
            },
            ssh_user_candidates: cands,
            ..c
        }
    }
}

proof fn lemma_managed_candidates_non_empty(server: RemoteContainerServer)
    ensures
        managed_candidates_spec(server).len() > 0,
{
    let l = seq![
        managed_container_ssh_user_spec(server),
        server.ssh_user@,
        "ubuntu"@,
        "root"@,
        "admin"@,
        "ec2-user"@,
        "debian"@,
        "core"@,
        "opc"@,
    ];
    reveal_strlit("opc");
    assert(l.last() == "opc"@);
    assert(trim_seq("opc"@) == "opc"@) by {
        crate::text::lemma_trim_of_trimmed("opc"@);
    }
}

/// A container with its SSH user and candidates chosen from the users found inside
/// it (`found_users`); the host keeps the machine's user.
pub fn enrich_container_ssh_users(
    server: &RemoteContainerServer,
    container: DiscoveredContainer,
    found_users: Vec<String>,
) -> (r: DiscoveredContainer)
    ensures
        r@ == enriched_spec(*server, container@, strs(found_users@)),
{
    if container.kind == ManagedContainerKind::Host {
        let mut cands = Vec::new();
        cands.push(server.ssh_user.clone());
        assert(strs(cands@) =~= seq![server.ssh_user@]);
        return DiscoveredContainer {
            ssh_user: server.ssh_user.clone(),
            ssh_user_candidates: cands,
            ..container
        };
    }
    let cands = preferred_available_container_ssh_users(server, &container, found_users);
    let ssh_user = if cands.len() > 0 {
        cands[0].clone()
    } else {
        let defaults = managed_container_ssh_user_candidates(server);
        proof {
            lemma_managed_candidates_non_empty(*server);
        }
        defaults[0].clone()
    };
    DiscoveredContainer { ssh_user, ssh_user_candidates: cands, ..container }
}

// ---------------------------------------------------------------------------
// Users found inside a container
// ---------------------------------------------------------------------------
/// The container manager that runs a container: from its discovery source, else the
/// machine's configured manager.
pub open spec fn manager_for_spec(server: RemoteContainerServer, c: DiscoveredV) -> Option<
    ContainerManagerType,
> {
    let s = trim_seq(c.source);
    if s == "lxd"@ {
        Some(ContainerManagerType::Lxd)
    } else if s == "docker"@ {
        Some(ContainerManagerType::Docker)
    } else if s == "orbstack"@ {
        Some(ContainerManagerType::Orbstack)
    } else if server.manager_type == ContainerManagerType::Unspecified {
        None
    } else {
        Some(server.manager_type)
    }
}

/// The container manager that runs a container.
pub fn manager_type_for_container(
    server: &RemoteContainerServer,
    container: &DiscoveredContainer,
) -> (r: Option<ContainerManagerType>)
    ensures
        r == manager_for_spec(*server, container@),
{
    let s = trim(container.source.as_str());
    if str_eq(s.as_str(), "lxd") {
        Some(ContainerManagerType::Lxd)
    } else if str_eq(s.as_str(), "docker") {
        Some(ContainerManagerType::Docker)
    } else if str_eq(s.as_str(), "orbstack") {
        Some(ContainerManagerType::Orbstack)
    } else if server.manager_type == ContainerManagerType::Unspecified {
        None
    } else {
        Some(server.manager_type)
    }
}

/// The shell query that lists a container's login users.
pub open spec fn login_users_query() -> Seq<char> {
    "if command -v getent >/dev/null 2>&1; then getent passwd; elif [ -r /etc/passwd ]; then cat /etc/passwd; fi | awk -F: '($1 == \"root\" || $3 >= 1000) && $6 ~ /^\\// && $7 !~ /(nologin|false)$/ { print $1 }'"@
}

/// The command run inside a container by its manager.
pub open spec fn exec_command_spec(m: ContainerManagerType, name: Seq<char>) -> Seq<char> {
    let n = single_quote_spec(name);
    let q = single_quote_spec(login_users_query());
    match m {
        ContainerManagerType::Lxd => "lxc exec "@ + n + " -- sh -lc "@ + q,
        ContainerManagerType::Docker => "docker exec "@ + n + " sh -lc "@ + q,
        _ => "/opt/homebrew/bin/orb run -m "@ + n + " sh -lc "@ + q,
    }
}

/// The command, run on the machine host, that lists a container's login users, with
/// a five second limit where `timeout` or `gtimeout` exists.
pub open spec fn users_command_spec(server: RemoteContainerServer, c: DiscoveredV) -> Option<
    Seq<char>,
> {
    match manager_for_spec(server, c) {
        Some(m) => if m == ContainerManagerType::Unspecified {
            None
        } else {
            let e = exec_command_spec(m, c.name);
            Some(
                "if command -v timeout >/dev/null 2>&1; then timeout 5 "@ + e
                    + "; elif command -v gtimeout >/dev/null 2>&1; then gtimeout 5 "@ + e
                    + "; else "@ + e + "; fi"@,
            )
        },
        None => None,
    }
}

/// The command, run on the machine host, that lists a container's login users.
pub fn host_container_users_command(
    server: &RemoteContainerServer,
    container: &DiscoveredContainer,
) -> (r: Option<String>)
    ensures
        match users_command_spec(*server, container@) {
            Some(c) => r is Some && r.unwrap()@ == c,
            None => r is None,
        },
{
    let manager_type = match manager_type_for_container(server, container) {
        Some(m) => m,
        None => return None,
    };
    let container_name = shell_single_quote(container.name.as_str());
    let query = shell_single_quote(
        "if command -v getent >/dev/null 2>&1; then getent passwd; elif [ -r /etc/passwd ]; then cat /etc/passwd; fi | awk -F: '($1 == \"root\" || $3 >= 1000) && $6 ~ /^\\// && $7 !~ /(nologin|false)$/ { print $1 }'",
    );
    let mut exec_command = match manager_type {
        ContainerManagerType::Lxd => owned("lxc exec "),
        ContainerManagerType::Docker => owned("docker exec "),
        ContainerManagerType::Orbstack => owned("/opt/homebrew/bin/orb run -m "),
        ContainerManagerType::Unspecified => return None,
    };
    exec_command.append(container_name.as_str());
    match manager_type {
        ContainerManagerType::Lxd => exec_command.append(" -- sh -lc "),
        _ => exec_command.append(" sh -lc "),
    }
    exec_command.append(query.as_str());
    let mut r = owned("if command -v timeout >/dev/null 2>&1; then timeout 5 ");
    r.append(exec_command.as_str());
    r.append("; elif command -v gtimeout >/dev/null 2>&1; then gtimeout 5 ");
    r.append(exec_command.as_str());
    r.append("; else ");
    r.append(exec_command.as_str());
    r.append("; fi");
    Some(r)
}

/// The users listed in a command's output: one per line, trimmed, blank lines
/// dropped, repeats dropped.
pub open spec fn listed_users_spec(output: Seq<char>) -> Seq<Seq<char>> {
    dedup(trimmed_non_blank(fields(output, CharClass::Single('\n'))))
}

/// The users listed in a command's output, one per line.
pub fn parse_discovered_container_users(output: &str) -> (r: Vec<String>)
    ensures
        strs(r@) == listed_users_spec(output@),
{
    let chars = chars_of(output);
    let lines = split_fields(chars.as_slice(), CharClass::Single('\n'));
    let ghost lv = lines.deep_view();
    let mut trimmed: Vec<String> = Vec::new();
    let mut i: usize = 0;
    proof {
        assert(lv.take(0) =~= Seq::<Seq<char>>::empty());
    }
    while i < lines.len()
        invariant
            i <= lines@.len(),
            lv == lines.deep_view(),
            strs(trimmed@) == trimmed_non_blank(lv.take(i as int)),
        decreases lines@.len() - i,
    {
        proof {
            crate::text::lemma_chars_deep(lines@[i as int]);
            assert(lv.take(i + 1).drop_last() =~= lv.take(i as int));
            assert(lv.take(i + 1).last() == lines@[i as int]@);
        }
        let t = trim_chars(lines[i].as_slice());
        if t.len() > 0 {
            let ghost prev = trimmed@;
            let s = string_from_chars(t.as_slice());
            trimmed.push(s);
            assert(strs(trimmed@) =~= strs(prev).push(t@));
        }
        i = i + 1;
    }
    assert(lv.take(lines@.len() as int) =~= lv);
    dedup_strings(&trimmed)
}

/// The users found inside a container from the outcome of the listing command: none
/// when it failed, else the listed users.
pub fn discovered_users_from_output(exit_status: u32, stdout: &str) -> (r: Vec<String>)
    ensures
        strs(r@) == (if exit_status != 0 {
            Seq::<Seq<char>>::empty()
        } else {
            listed_users_spec(stdout@)
        }),
{
    if exit_status != 0 {
        let r: Vec<String> = Vec::new();
        assert(strs(r@) =~= Seq::<Seq<char>>::empty());
        return r;
    }
    parse_discovered_container_users(stdout)
}

// ---------------------------------------------------------------------------
// Laws
// ---------------------------------------------------------------------------
/// Deduplication keeps each string once, in the order of first occurrence: no
/// string occurs twice in the result and the result holds exactly the input's
/// strings.
pub proof fn law_dedup_keeps_each_once(ss: Seq<Seq<char>>)
    ensures
        forall|i: int, j: int| 0 <= i < j < dedup(ss).len() ==> #[trigger] dedup(ss)[i] != #[trigger] dedup(ss)[j],
        forall|x: Seq<char>| #[trigger] dedup(ss).contains(x) <==> ss.contains(x),
    decreases ss.len(),
{
    if ss.len() > 0 {
        let prev = ss.drop_last();
        law_dedup_keeps_each_once(prev);
        let d = dedup(prev);
        let x = ss.last();
        assert forall|y: Seq<char>| #[trigger] dedup(ss).contains(y) <==> ss.contains(y) by {
            if ss.contains(y) {
                let k = choose|k: int| 0 <= k < ss.len() && ss[k] == y;
                if k < ss.len() - 1 {
                    assert(prev[k] == y);
                }
            }
            if prev.contains(y) {
                let k = choose|k: int| 0 <= k < prev.len() && prev[k] == y;
                assert(ss[k] == y);
            }
            if !d.contains(x) {
                if d.push(x).contains(y) {
                    let k = choose|k: int| 0 <= k < d.push(x).len() && d.push(x)[k] == y;
                    if k < d.len() {
                        assert(d[k] == y);
                    }
                }
                if d.contains(y) {
                    let k = choose|k: int| 0 <= k < d.len() && d[k] == y;
                    assert(d.push(x)[k] == y);
                }
                assert(d.push(x)[d.len() as int] == x);
            }
            assert(ss[ss.len() - 1] == x);
        }
        if !d.contains(x) {
            assert forall|i: int, j: int| 0 <= i < j < d.push(x).len() implies #[trigger] d.push(x)[i]
                != #[trigger] d.push(x)[j] by {
                if j == d.len() {
                    assert(d.push(x)[i] == d[i]);
                } else {
                    assert(d.push(x)[i] == d[i] && d.push(x)[j] == d[j]);
                }
            }
        }
    }
}

proof fn lemma_append_missing(ordered: Seq<Seq<char>>, extra: Seq<Seq<char>>)
    ensures
        forall|x: Seq<char>| #[trigger] append_missing(ordered, extra).contains(x) <==> (
        ordered.contains(x) || extra.contains(x)),
    decreases extra.len(),
{
    if extra.len() > 0 {
        let prev = extra.drop_last();
        lemma_append_missing(ordered, prev);
        let o = append_missing(ordered, prev);
        let x = extra.last();
        assert forall|y: Seq<char>| #[trigger] append_missing(ordered, extra).contains(y) <==> (
        ordered.contains(y) || extra.contains(y)) by {
            if extra.contains(y) {
                let k = choose|k: int| 0 <= k < extra.len() && extra[k] == y;
                if k < extra.len() - 1 {
                    assert(prev[k] == y);
                }
            }
            if prev.contains(y) {
                let k = choose|k: int| 0 <= k < prev.len() && prev[k] == y;
                assert(extra[k] == y);
            }
            if !o.contains(x) {
                if o.push(x).contains(y) {
                    let k = choose|k: int| 0 <= k < o.push(x).len() && o.push(x)[k] == y;
                    if k < o.len() {
                        assert(o[k] == y);
                    }
                }
                if o.contains(y) {
                    let k = choose|k: int| 0 <= k < o.len() && o[k] == y;
                    assert(o.push(x)[k] == y);
                }
                assert(o.push(x)[o.len() as int] == x);
            }
            assert(extra[extra.len() - 1] == x);
        }
    }
}

/// The users found in a container win: for a managed container in which users were
/// found, the users to try are exactly the users found, none lost and none added.
pub proof fn law_preferred_users_are_the_available_ones(
    server: RemoteContainerServer,
    c: DiscoveredV,
    available: Seq<Seq<char>>,
)
    requires
        c.kind == ManagedContainerKind::Managed,
        available.len() > 0,
    ensures
        forall|x: Seq<char>| #[trigger] preferred_spec(server, c, available).contains(x) <==> available.contains(x),
{
    broadcast use vstd::seq_lib::group_filter_ensures;
    let pred = |u: Seq<char>| available.contains(u);
    let filtered = candidates_spec(server, c).filter(pred);
    lemma_append_missing(filtered, available);
    assert forall|x: Seq<char>| filtered.contains(x) implies available.contains(x) by {
        let k = choose|k: int| 0 <= k < filtered.len() && filtered[k] == x;
        assert(pred(filtered[k]));
    }
}

} // verus!
