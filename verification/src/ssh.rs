//! Construction of `ssh` command lines, host key aliases and known-hosts paths for
//! machines and their containers.
use crate::model::{strs, RemoteContainerServer, SshJumpConfig};
use crate::text::{
    blank, chars_of, concat2, concat3, dec, dec_string, is_blank, join_seq, owned, replace_seq,
    replace_str, slice_chars, starts_with, starts_with_chars, str_eq, string_from_chars, trim,
    trim_seq,
};
use vstd::prelude::*;

verus! {

/// The home directory of the local user, as the environment gives it.
pub struct UserHome {
    /// `USERPROFILE` on Windows, `HOME` elsewhere, when set.
    pub path: Option<String>,
    /// Whether the local platform is Windows.
    pub windows: bool,
}

// ---------------------------------------------------------------------------
// Specifications
// ---------------------------------------------------------------------------
/// Every `from` character of `s` replaced by `to`.
pub open spec fn swap_char(s: Seq<char>, from: char, to: char) -> Seq<char> {
    s.map_values(|c: char| if c == from { to } else { c })
}

/// The concatenation of `p + s` for every `s` of `ss`, in order.
pub open spec fn prefixed_concat(ss: Seq<Seq<char>>, p: Seq<char>) -> Seq<char>
    decreases ss.len(),
{
    if ss.len() == 0 {
        seq![]
    } else {
        prefixed_concat(ss.drop_last(), p) + p + ss.last()
    }
}

/// The SSH user of a machine's containers.
pub open spec fn managed_container_ssh_user_spec(server: RemoteContainerServer) -> Seq<char> {
    if blank(server.container_ssh_user@) {
        server.ssh_user@
    } else {
        server.container_ssh_user@
    }
}

/// The known-hosts file managed by the application.
pub open spec fn managed_known_hosts_spec(home: UserHome) -> Seq<char> {
    match home.path {
        Some(h) => if !blank(h@) {
            (if home.windows {
                swap_char(h@, '\\', '/')
            } else {
                h@
            }) + "/.ssh/univers-ark-developer-known_hosts"@
        } else {
            "~/.ssh/univers-ark-developer-known_hosts"@
        },
        None => "~/.ssh/univers-ark-developer-known_hosts"@,
    }
}

/// A path with a leading `~/` replaced by the home directory.
pub open spec fn expand_home_spec(home: UserHome, path: Seq<char>) -> Seq<char> {
    let t = trim_seq(path);
    if starts_with(t, "~/"@) && home.path is Some {
        swap_char(home.path.unwrap()@, '\\', '/') + "/"@ + t.skip(2)
    } else {
        t
    }
}

/// The known-hosts file of a machine.
pub open spec fn known_hosts_spec(server: RemoteContainerServer, home: UserHome) -> Seq<char> {
    if blank(server.known_hosts_path@) {
        managed_known_hosts_spec(home)
    } else {
        expand_home_spec(home, server.known_hosts_path@)
    }
}

/// The host key alias of a container.
pub open spec fn container_alias_spec(server_id: Seq<char>, name: Seq<char>) -> Seq<char> {
    "univers-ark-developer--"@ + server_id + "--"@ + name
}

/// The host key alias of a machine host.
pub open spec fn machine_alias_spec(server_id: Seq<char>) -> Seq<char> {
    "univers-ark-developer--"@ + server_id + "--host"@
}

/// The `-i` flags of identity files.
pub open spec fn identity_flags(home: UserHome, files: Seq<String>) -> Seq<Seq<char>> {
    files.map_values(|f: String| "-i "@ + expand_home_spec(home, f@))
}

/// The common `ssh` options of a machine for a host key alias.
pub open spec fn ssh_flags_spec(
    server: RemoteContainerServer,
    home: UserHome,
    alias: Seq<char>,
) -> Seq<Seq<char>> {
    seq![
        "-o UserKnownHostsFile="@ + known_hosts_spec(server, home),
        "-o HostKeyAlias="@ + alias,
        "-o StrictHostKeyChecking="@ + (if server.strict_host_key_checking {
            "accept-new"@
        } else {
            "no"@
        }),
    ] + if server.identity_files@.len() == 0 {
        Seq::<Seq<char>>::empty()
    } else {
        seq!["-o IdentitiesOnly=yes"@] + identity_flags(home, server.identity_files@)
    }
}

/// One hop of a `-J` jump list.
pub open spec fn hop_spec(user: Seq<char>, host: Seq<char>, port: u16) -> Seq<char> {
    if port == 22 {
        user + "@"@ + host
    } else {
        user + "@"@ + host + ":"@ + dec(port as nat)
    }
}

/// The hops of a machine's jump chain.
pub open spec fn jump_hops(jumps: Seq<SshJumpConfig>) -> Seq<Seq<char>> {
    jumps.map_values(|j: SshJumpConfig| hop_spec(j.user@, j.host@, j.port))
}

/// The `-J` list to reach a machine host.
pub open spec fn host_proxy_jump_spec(server: RemoteContainerServer) -> Option<Seq<char>> {
    if server.jump_chain@.len() == 0 {
        None
    } else {
        Some(join_seq(jump_hops(server.jump_chain@), ","@))
    }
}

/// The `-J` list to reach a container: the jump chain, then the machine itself.
pub open spec fn container_proxy_jump_spec(server: RemoteContainerServer) -> Seq<char> {
    join_seq(
        jump_hops(server.jump_chain@).push(hop_spec(server.ssh_user@, server.host@, server.port)),
        ","@,
    )
}

/// `'value'`, with every `'` of `value` written as `'"'"'`.
pub open spec fn single_quote_spec(v: Seq<char>) -> Seq<char> {
    "'"@ + replace_seq(v, "'"@, "'\"'\"'"@) + "'"@
}

/// `user@address`.
pub open spec fn destination_spec(ip: Seq<char>, user: Seq<char>) -> Seq<char> {
    user + "@"@ + ip
}

/// The login shell started when no other startup command is configured.
pub open spec fn default_startup_spec() -> Seq<char> {
    "exec /bin/zsh -l || exec /bin/bash -l || exec /bin/sh -l"@
}

/// The startup command of a machine host terminal.
pub open spec fn host_startup_spec(server: RemoteContainerServer) -> Seq<char> {
    if blank(server.host_terminal_startup_command@) {
        default_startup_spec()
    } else {
        trim_seq(server.host_terminal_startup_command@)
    }
}

/// The startup command of a container terminal for a workspace profile.
pub open spec fn profile_startup_spec(profile: Seq<char>) -> Seq<char> {
    if trim_seq(profile) == "ark-workbench"@ {
        "tmux-mobile-view attach || exec /bin/zsh -l || exec /bin/bash -l || exec /bin/sh -l"@
    } else {
        default_startup_spec()
    }
}

/// Views of a list of string slices.
pub open spec fn str_views(v: Seq<&str>) -> Seq<Seq<char>> {
    v.map_values(|s: &str| s@)
}

/// The view of an optional string slice.
pub open spec fn opt_str(o: Option<&str>) -> Option<Seq<char>> {
    match o {
        Some(v) => Some(v@),
        None => None,
    }
}

/// The optional trailing remote command of an `ssh` line.
pub open spec fn remote_suffix(remote: Option<Seq<char>>) -> Seq<char> {
    match remote {
        Some(r) => " "@ + r,
        None => seq![],
    }
}

/// The `ssh` command line reaching a container through its machine.
pub open spec fn ssh_command_spec(
    server: RemoteContainerServer,
    home: UserHome,
    ip: Seq<char>,
    name: Seq<char>,
    user: Seq<char>,
    extra: Seq<Seq<char>>,
    remote: Option<Seq<char>>,
) -> Seq<char> {
    "ssh"@ + prefixed_concat(
        ssh_flags_spec(server, home, container_alias_spec(server.id@, name)),
        " "@,
    ) + prefixed_concat(extra, " "@) + " -J "@ + container_proxy_jump_spec(server) + " "@
        + "-p 22 "@ + destination_spec(ip, user) + remote_suffix(remote)
}

/// The `ssh` command line reaching a machine host.
pub open spec fn host_ssh_command_spec(
    server: RemoteContainerServer,
    home: UserHome,
    extra: Seq<Seq<char>>,
    remote: Option<Seq<char>>,
) -> Seq<char> {
    "ssh"@ + prefixed_concat(ssh_flags_spec(server, home, machine_alias_spec(server.id@)), " "@)
        + prefixed_concat(extra, " "@) + match host_proxy_jump_spec(server) {
        Some(j) => " -J "@ + j,
        None => seq![],
    } + " "@ + "-p "@ + dec(server.port as nat) + " "@ + server.ssh_user@ + "@"@ + server.host@
        + remote_suffix(remote)
}

// ---------------------------------------------------------------------------
// Implementation
// ---------------------------------------------------------------------------
/// Every `from` character replaced by `to`.
pub fn swap_chars(s: &str, from: char, to: char) -> (r: String)
    ensures
        r@ == swap_char(s@, from, to),
{
    let v = chars_of(s);
    let mut out: Vec<char> = Vec::new();
    let mut i: usize = 0;
    while i < v.len()
        invariant
            i <= v@.len(),
            v@ == s@,
            out@ == swap_char(v@.take(i as int), from, to),
        decreases v@.len() - i,
    {
        let c = v[i];
        out.push(if c == from { to } else { c });
        i = i + 1;
        assert(out@ =~= swap_char(v@.take(i as int), from, to));
    }
    assert(v@.take(v@.len() as int) =~= v@);
    string_from_chars(out.as_slice())
}

/// Appends `p + s` to `out` for every `s` of `items`.
fn append_prefixed(out: &mut String, items: &Vec<String>, p: &str)
    ensures
        final(out)@ == old(out)@ + prefixed_concat(strs(items@), p@),
{
    let ghost start = out@;
    let mut i: usize = 0;
    while i < items.len()
        invariant
            i <= items@.len(),
            out@ == start + prefixed_concat(strs(items@.take(i as int)), p@),
        decreases items@.len() - i,
    {
        out.append(p);
        out.append(items[i].as_str());
        proof {
            assert(strs(items@.take(i + 1)).drop_last() =~= strs(items@.take(i as int)));
            assert(strs(items@.take(i + 1)).last() == items@[i as int]@);
        }
        i = i + 1;
    }
    assert(items@.take(items@.len() as int) =~= items@);
}

/// Appends `p + s` to `out` for every slice `s` of `items`.
fn append_prefixed_strs(out: &mut String, items: &[&str], p: &str)
    ensures
        final(out)@ == old(out)@ + prefixed_concat(str_views(items@), p@),
{
    let ghost start = out@;
    let mut i: usize = 0;
    while i < items.len()
        invariant
            i <= items@.len(),
            out@ == start + prefixed_concat(str_views(items@.take(i as int)), p@),
        decreases items@.len() - i,
    {
        out.append(p);
        out.append(items[i]);
        proof {
            assert(str_views(items@.take(i + 1)).drop_last() =~= str_views(
                items@.take(i as int),
            ));
            assert(str_views(items@.take(i + 1)).last() == items@[i as int]@);
        }
        i = i + 1;
    }
    assert(items@.take(items@.len() as int) =~= items@);
}

/// `strs.join(sep)`.
pub fn join_strings(items: &Vec<String>, sep: &str) -> (r: String)
    ensures
        r@ == join_seq(strs(items@), sep@),
{
    let mut out = String::new();
    let mut i: usize = 0;
    let ghost all = strs(items@);
    while i < items.len()
        invariant
            i <= items@.len(),
            all == strs(items@),
            out@ == join_seq(all.take(i as int), sep@),
        decreases items@.len() - i,
    {
        proof {
            assert(all.take(i + 1).drop_last() =~= all.take(i as int));
            assert(all.take(i + 1).last() == items@[i as int]@);
        }
        if i > 0 {
            out.append(sep);
        }
        out.append(items[i].as_str());
        proof {
            if i == 0 {
                assert(join_seq(all.take(0), sep@) =~= Seq::<char>::empty());
                assert(out@ =~= all.take(1)[0]);
            }
        }
        i = i + 1;
    }
    assert(all.take(items@.len() as int) =~= all);
    out
}

/// The SSH user of a machine's containers: the configured container user, or the
/// machine's user when none is configured.
pub fn managed_container_ssh_user(server: &RemoteContainerServer) -> (r: &str)
    ensures
        r@ == managed_container_ssh_user_spec(*server),
{
    if is_blank(server.container_ssh_user.as_str()) {
        server.ssh_user.as_str()
    } else {
        server.container_ssh_user.as_str()
    }
}

/// The known-hosts file managed by the application, under the user's `.ssh`.
pub fn managed_known_hosts_file(home: &UserHome) -> (r: String)
    ensures
        r@ == managed_known_hosts_spec(*home),
{
    match &home.path {
        Some(h) => {
            if !is_blank(h.as_str()) {
                let base = if home.windows {
                    swap_chars(h.as_str(), '\\', '/')
                } else {
                    h.clone()
                };
                concat2(base.as_str(), "/.ssh/univers-ark-developer-known_hosts")
            } else {
                owned("~/.ssh/univers-ark-developer-known_hosts")
            }
        },
        None => owned("~/.ssh/univers-ark-developer-known_hosts"),
    }
}

/// A path with a leading `~/` expanded to the home directory; the path is trimmed.
pub fn expand_home_path(home: &UserHome, path: &str) -> (r: String)
    ensures
        r@ == expand_home_spec(*home, path@),
{
    let t = trim(path);
    let tv = chars_of(t.as_str());
    let prefix = chars_of("~/");
    if starts_with_chars(tv.as_slice(), prefix.as_slice()) {
        proof {
            reveal_strlit("~/");
        }
        match &home.path {
            Some(h) => {
                let base = swap_chars(h.as_str(), '\\', '/');
                let rest = slice_chars(tv.as_slice(), 2, tv.len());
                let rest_s = string_from_chars(rest.as_slice());
                assert(rest@ =~= tv@.skip(2));
                return concat3(base.as_str(), "/", rest_s.as_str());
            },
            None => {},
        }
    }
    t
}

/// The known-hosts file of a machine: its configured path, or the managed file.
pub fn resolved_known_hosts_path(server: &RemoteContainerServer, home: &UserHome) -> (r: String)
    ensures
        r@ == known_hosts_spec(*server, *home),
{
    if is_blank(server.known_hosts_path.as_str()) {
        managed_known_hosts_file(home)
    } else {
        expand_home_path(home, server.known_hosts_path.as_str())
    }
}

/// The host key alias under which a container's key is stored.
pub fn container_host_key_alias(server: &RemoteContainerServer, container_name: &str) -> (r:
    String)
    ensures
        r@ == container_alias_spec(server.id@, container_name@),
{
    let mut r = owned("univers-ark-developer--");
    r.append(server.id.as_str());
    r.append("--");
    r.append(container_name);
    r
}

/// The host key alias under which a machine host's key is stored.
pub fn machine_host_key_alias(server: &RemoteContainerServer) -> (r: String)
    ensures
        r@ == machine_alias_spec(server.id@),
{
    concat3("univers-ark-developer--", server.id.as_str(), "--host")
}

/// The `-i` flags of identity files.
fn identity_file_flags(home: &UserHome, files: &Vec<String>) -> (r: Vec<String>)
    ensures
        strs(r@) == identity_flags(*home, files@),
{
    let mut r: Vec<String> = Vec::new();
    let mut i: usize = 0;
    while i < files.len()
        invariant
            i <= files@.len(),
            strs(r@) == identity_flags(*home, files@.take(i as int)),
        decreases files@.len() - i,
    {
        let e = expand_home_path(home, files[i].as_str());
        let flag = concat2("-i ", e.as_str());
        let ghost prev = r@;
        r.push(flag);
        proof {
            assert(files@.take(i + 1) =~= files@.take(i as int).push(files@[i as int]));
            assert(strs(r@) =~= strs(prev).push(flag@));
            assert(identity_flags(*home, files@.take(i + 1)) =~= identity_flags(
                *home,
                files@.take(i as int),
            ).push(flag@));
        }
        i = i + 1;
    }
    assert(files@.take(files@.len() as int) =~= files@);
    r
}

/// The common `ssh` options of a machine for a host key alias.
pub fn base_ssh_flags(server: &RemoteContainerServer, home: &UserHome, host_key_alias: &str) -> (r:
    Vec<String>)
    ensures
        strs(r@) == ssh_flags_spec(*server, *home, host_key_alias@),
{
    let known_hosts = resolved_known_hosts_path(server, home);
    let mut flags: Vec<String> = Vec::new();
    flags.push(concat2("-o UserKnownHostsFile=", known_hosts.as_str()));
    flags.push(concat2("-o HostKeyAlias=", host_key_alias));
    flags.push(
        concat2(
            "-o StrictHostKeyChecking=",
            if server.strict_host_key_checking {
                "accept-new"
            } else {
                "no"
            },
        ),
    );
    let ghost head = strs(flags@);
    if server.identity_files.len() > 0 {
        flags.push(owned("-o IdentitiesOnly=yes"));
        let idf = identity_file_flags(home, &server.identity_files);
        let mut i: usize = 0;
        let ghost mid = strs(flags@);
        while i < idf.len()
            invariant
                i <= idf@.len(),
                strs(flags@) == mid + strs(idf@.take(i as int)),
            decreases idf@.len() - i,
        {
            let ghost prev = flags@;
            flags.push(idf[i].clone());
            proof {
                assert(idf@.take(i + 1) =~= idf@.take(i as int).push(idf@[i as int]));
                assert(strs(flags@) =~= strs(prev).push(idf@[i as int]@));
            }
            i = i + 1;
        }
        proof {
            assert(idf@.take(idf@.len() as int) =~= idf@);
            assert(strs(flags@) =~= ssh_flags_spec(*server, *home, host_key_alias@));
        }
    } else {
        assert(strs(flags@) =~= ssh_flags_spec(*server, *home, host_key_alias@));
    }
    flags
}

/// One hop of a `-J` jump list: `user@host`, with `:port` unless the port is 22.
pub fn jump_hop(user: &str, host: &str, port: u16) -> (r: String)
    ensures
        r@ == hop_spec(user@, host@, port),
{
    let mut r = concat3(user, "@", host);
    if port != 22 {
        r.append(":");
        let p = dec_string(port as u64);
        r.append(p.as_str());
    }
    r
}

fn jump_chain_hops(server: &RemoteContainerServer) -> (r: Vec<String>)
    ensures
        strs(r@) == jump_hops(server.jump_chain@),
{
    let mut r: Vec<String> = Vec::new();
    let mut i: usize = 0;
    while i < server.jump_chain.len()
        invariant
            i <= server.jump_chain@.len(),
            strs(r@) == jump_hops(server.jump_chain@.take(i as int)),
        decreases server.jump_chain@.len() - i,
    {
        let jump = &server.jump_chain[i];
        let hop = jump_hop(jump.user.as_str(), jump.host.as_str(), jump.port);
        let ghost prev = r@;
        r.push(hop);
        proof {
            assert(server.jump_chain@.take(i + 1) =~= server.jump_chain@.take(i as int).push(
                server.jump_chain@[i as int],
            ));
            assert(strs(r@) =~= strs(prev).push(hop@));
            assert(jump_hops(server.jump_chain@.take(i + 1)) =~= jump_hops(
                server.jump_chain@.take(i as int),
            ).push(hop@));
        }
        i = i + 1;
    }
    assert(server.jump_chain@.take(server.jump_chain@.len() as int) =~= server.jump_chain@);
    r
}

/// The `-J` list to reach a machine host, if it has a jump chain.
pub fn proxy_jump_for_host(server: &RemoteContainerServer) -> (r: Option<String>)
    ensures
        match (r, host_proxy_jump_spec(*server)) {
            (Some(a), Some(b)) => a@ == b,
            (None, None) => true,
            _ => false,
        },
{
    let hops = jump_chain_hops(server);
    if hops.len() == 0 {
        None
    } else {
        Some(join_strings(&hops, ","))
    }
}

/// The `-J` list to reach a container: the jump chain, then the machine itself.
pub fn proxy_jump_for_container(server: &RemoteContainerServer) -> (r: String)
    ensures
        r@ == container_proxy_jump_spec(*server),
{
    let mut hops = jump_chain_hops(server);
    let ghost prev = hops@;
    let machine_hop = jump_hop(server.ssh_user.as_str(), server.host.as_str(), server.port);
    hops.push(machine_hop);
    assert(strs(hops@) =~= strs(prev).push(machine_hop@));
    join_strings(&hops, ",")
}

/// The `ssh` options of a container, joined by spaces.
pub fn ssh_options_for_context(
    server: &RemoteContainerServer,
    home: &UserHome,
    container_name: &str,
) -> (r: String)
    ensures
        r@ == join_seq(
            ssh_flags_spec(*server, *home, container_alias_spec(server.id@, container_name@)),
            " "@,
        ),
{
    let alias = container_host_key_alias(server, container_name);
    let flags = base_ssh_flags(server, home, alias.as_str());
    join_strings(&flags, " ")
}

/// A value quoted for a POSIX shell: `'value'`, with each `'` written as `'"'"'`.
pub fn shell_single_quote(value: &str) -> (r: String)
    ensures
        r@ == single_quote_spec(value@),
{
    proof {
        reveal_strlit("'");
    }
    let inner = replace_str(value, "'", "'\"'\"'");
    concat3("'", inner.as_str(), "'")
}

/// `user@address`.
pub fn ssh_destination(container_ip: &str, ssh_user: &str) -> (r: String)
    ensures
        r@ == destination_spec(container_ip@, ssh_user@),
{
    concat3(ssh_user, "@", container_ip)
}

/// The login shell started when no other startup command is configured.
pub fn default_terminal_startup_command() -> (r: String)
    ensures
        r@ == default_startup_spec(),
{
    owned("exec /bin/zsh -l || exec /bin/bash -l || exec /bin/sh -l")
}

/// The startup command of a machine host terminal: the configured one (trimmed), or
/// the default login shell.
pub fn host_terminal_startup_command(server: &RemoteContainerServer) -> (r: String)
    ensures
        r@ == host_startup_spec(*server),
{
    if is_blank(server.host_terminal_startup_command.as_str()) {
        default_terminal_startup_command()
    } else {
        trim(server.host_terminal_startup_command.as_str())
    }
}

/// The startup command of a container terminal: the tmux mobile view for the
/// `ark-workbench` profile, the default login shell otherwise.
pub fn profile_terminal_startup_command(profile: &str) -> (r: String)
    ensures
        r@ == profile_startup_spec(profile@),
{
    let t = trim(profile);
    if str_eq(t.as_str(), "ark-workbench") {
        return owned(
            "tmux-mobile-view attach || exec /bin/zsh -l || exec /bin/bash -l || exec /bin/sh -l",
        );
    }
    default_terminal_startup_command()
}

fn append_remote(out: &mut String, remote_command: Option<&str>)
    ensures
        final(out)@ == old(out)@ + remote_suffix(opt_str(remote_command)),
{
    match remote_command {
        Some(r) => {
            out.append(" ");
            out.append(r);
        },
        None => {
            assert(old(out)@ + remote_suffix(opt_str(remote_command)) =~= old(out)@);
        },
    }
}

/// The `ssh` command line that reaches a container through its machine.
pub fn build_ssh_command(
    server: &RemoteContainerServer,
    home: &UserHome,
    container_ip: &str,
    container_name: &str,
    ssh_user: &str,
    extra_options: &[&str],
    remote_command: Option<&str>,
) -> (r: String)
    ensures
        r@ == ssh_command_spec(
            *server,
            *home,
            container_ip@,
            container_name@,
            ssh_user@,
            str_views(extra_options@),
            opt_str(remote_command),
        ),
{
    let alias = container_host_key_alias(server, container_name);
    let ssh_options = base_ssh_flags(server, home, alias.as_str());
    let mut command = owned("ssh");
    append_prefixed(&mut command, &ssh_options, " ");
    append_prefixed_strs(&mut command, extra_options, " ");
    command.append(" -J ");
    let jumps = proxy_jump_for_container(server);
    command.append(jumps.as_str());
    command.append(" ");
    command.append("-p 22 ");
    let dest = ssh_destination(container_ip, ssh_user);
    command.append(dest.as_str());
    append_remote(&mut command, remote_command);
    command
}

/// The `ssh` command line that reaches a machine host.
pub fn build_host_ssh_command(
    server: &RemoteContainerServer,
    home: &UserHome,
    extra_options: &[&str],
    remote_command: Option<&str>,
) -> (r: String)
    ensures
        r@ == host_ssh_command_spec(*server, *home, str_views(extra_options@), opt_str(remote_command)),
{
    let alias = machine_host_key_alias(server);
    let ssh_options = base_ssh_flags(server, home, alias.as_str());
    let mut command = owned("ssh");
    append_prefixed(&mut command, &ssh_options, " ");
    append_prefixed_strs(&mut command, extra_options, " ");
    let ghost before_jump = command@;
    match proxy_jump_for_host(server) {
        Some(j) => {
            command.append(" -J ");
            command.append(j.as_str());
        },
        None => {},
    }
    command.append(" ");
    command.append("-p ");
    let port = dec_string(server.port as u64);
    command.append(port.as_str());
    command.append(" ");
    command.append(server.ssh_user.as_str());
    command.append("@");
    command.append(server.host.as_str());
    append_remote(&mut command, remote_command);
    command
}


/// The command line reaching a machine host ends by connecting to the machine's
/// configured port as its user at its host: ` -p <port> <user>@<host>`, then the
/// remote command, if any.
pub proof fn law_host_command_uses_configured_port(
    server: RemoteContainerServer,
    home: UserHome,
    extra: Seq<Seq<char>>,
    remote: Option<Seq<char>>,
)
    ensures
        exists|pre: Seq<char>|
            host_ssh_command_spec(server, home, extra, remote) == pre + (" -p "@ + dec(server.port as nat) + " "@
                + server.ssh_user@ + "@"@ + server.host@) + remote_suffix(remote),
{
    reveal_strlit(" ");
    reveal_strlit("-p ");
    reveal_strlit(" -p ");
    let pre = "ssh"@ + prefixed_concat(ssh_flags_spec(server, home, machine_alias_spec(server.id@)), " "@)
        + prefixed_concat(extra, " "@) + match host_proxy_jump_spec(server) {
        Some(j) => " -J "@ + j,
        None => seq![],
    };
    assert(host_ssh_command_spec(server, home, extra, remote) =~= pre + (" -p "@ + dec(server.port as nat) + " "@
        + server.ssh_user@ + "@"@ + server.host@) + remote_suffix(remote));
}
} // verus!
