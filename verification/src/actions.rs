//! Acting on containers through their machine: restarting one with each supported
//! manager in turn, and installing the local public key in one whose SSH login was
//! refused.
use vstd::prelude::*;
use crate::inventory::{server_index_from, server_position, target_index_from, target_position};
use crate::model::{targets_v, DeveloperTarget, MachineContainerConfig, ManagedContainerKind};
use crate::model::{strs, ContainerManagerType, MachineTransport, RemoteContainerServer};
use crate::ssh::{
    base_ssh_flags, build_host_ssh_command, host_proxy_jump_spec, host_ssh_command_spec,
    machine_alias_spec, machine_host_key_alias, proxy_jump_for_host, shell_single_quote,
    single_quote_spec, ssh_flags_spec, UserHome,
};
use crate::text::{
    blank, concat2, concat3, contains, contains_seq, dec, dec_string, is_blank, join_seq, lower_seq,
    owned, to_ascii_lowercase, trim, trim_seq,
};

verus! {

// ---------------------------------------------------------------------------
// Restarting a container
// ---------------------------------------------------------------------------
/// The command that restarts a container with a manager, run on the machine.
pub open spec fn restart_line_spec(m: ContainerManagerType, name: Seq<char>) -> Option<Seq<char>> {
    match m {
        ContainerManagerType::Orbstack => Some("/opt/homebrew/bin/orb restart "@ + name),
        ContainerManagerType::Docker => Some("docker restart "@ + name),
        ContainerManagerType::Lxd => Some("lxc restart "@ + name + " --force"@),
        ContainerManagerType::Unspecified => None,
    }
}

/// The `ssh` commands that restart a container, one per manager of the machine that
/// has a restart command, in the machine's order.
pub open spec fn restart_commands_spec(
    server: RemoteContainerServer,
    home: UserHome,
    name: Seq<char>,
    ms: Seq<ContainerManagerType>,
) -> Seq<Seq<char>>
    decreases ms.len(),
{
    if ms.len() == 0 {
        seq![]
    } else {
        let r = restart_commands_spec(server, home, name, ms.drop_last());
        match restart_line_spec(ms.last(), name) {
            Some(line) => r.push(
                host_ssh_command_spec(server, home, seq![], Some(single_quote_spec(line))),
            ),
            None => r,
        }
    }
}

/// The `ssh` commands that restart a container of a machine, in order; an error
/// for an unknown machine or a local one.
pub fn restart_container_commands(
    machines: &[RemoteContainerServer],
    server_id: &str,
    container_name: &str,
    home: &UserHome,
) -> (r: Result<Vec<String>, String>)
    ensures
        match server_index_from(machines@, server_id@, 0) {
            None => r matches Err(e) && e@ == "Unknown machine: "@ + server_id@,
            Some(k) => if machines@[k].transport == MachineTransport::Local {
                r matches Err(e) && e@
                    == "Local host container cannot be restarted from machine inventory."@
            } else {
                r matches Ok(v) && strs(v@) == restart_commands_spec(
                    machines@[k],
                    *home,
                    container_name@,
                    crate::model::manager_priority_spec(machines@[k].manager_type),
                )
            },
        },
{
    let k = match server_position(machines, server_id) {
        Some(k) => k,
        None => {
            return Err(concat2("Unknown machine: ", server_id));
        },
    };
    let server = &machines[k];
    if server.transport == MachineTransport::Local {
        return Err(owned("Local host container cannot be restarted from machine inventory."));
    }
    let managers = crate::model::manager_priority(server);
    let ghost ms = managers@;
    let mut commands: Vec<String> = Vec::new();
    let len = managers.len();
    let mut i: usize = 0;
    let no_options: [&str; 0] = [];
    proof {
        assert(crate::ssh::str_views(no_options@) =~= seq![]);
    }
    while i < len
        invariant
            len == managers@.len(),
            ms == managers@,
            i <= len,
            crate::ssh::str_views(no_options@) == Seq::<Seq<char>>::empty(),
            strs(commands@) == restart_commands_spec(*server, *home, container_name@, ms.take(i as int)),
        decreases len - i,
    {
        proof {
            assert(ms.take(i + 1).drop_last() =~= ms.take(i as int));
        }
        let line = match managers[i] {
            ContainerManagerType::Orbstack => Some(concat2("/opt/homebrew/bin/orb restart ", container_name)),
            ContainerManagerType::Docker => Some(concat2("docker restart ", container_name)),
            ContainerManagerType::Lxd => Some(concat3("lxc restart ", container_name, " --force")),
            ContainerManagerType::Unspecified => None,
        };
        match line {
            Some(l) => {
                let quoted = shell_single_quote(l.as_str());
                let command = build_host_ssh_command(server, home, &no_options, Some(quoted.as_str()));
                let ghost prev = commands@;
                commands.push(command);
                proof {
                    assert(strs(commands@) =~= strs(prev).push(command@));
                }
            },
            None => {},
        }
        i = i + 1;
    }
    proof {
        assert(ms.take(len as int) =~= ms);
    }
    Ok(commands)
}

/// What running a command gave back.
pub struct CommandOutput {
    pub success: bool,
    /// How the exit status displays, such as `exit status: 1`.
    pub status_text: String,
    pub stdout: String,
    pub stderr: String,
}

/// What to do after one restart attempt.
pub enum RestartStep {
    /// Stop with this result.
    Done(Result<(), String>),
    /// Try the next manager.
    Next,
}

/// The detail of a failed command: its trimmed error output, else its trimmed
/// output, else the given fallback.
pub open spec fn failure_detail_spec(stdout: Seq<char>, stderr: Seq<char>, fallback: Seq<char>) -> Seq<char> {
    if !blank(stderr) {
        trim_seq(stderr)
    } else if !blank(stdout) {
        trim_seq(stdout)
    } else {
        fallback
    }
}

/// Whether a failure says the manager is missing on the machine.
pub open spec fn manager_missing_spec(detail: Seq<char>) -> bool {
    let n = lower_seq(detail);
    contains_seq(n, "command not found"@) || contains_seq(n, "no such file or directory"@)
        || contains_seq(n, "not found"@)
}

/// The detail of a failed restart.
pub open spec fn restart_detail_spec(name: Seq<char>, host: Seq<char>, o: (Seq<char>, Seq<char>, Seq<char>)) -> Seq<char> {
    failure_detail_spec(
        o.1,
        o.2,
        "Failed to restart container "@ + name + " on "@ + host + ": exit code "@ + o.0,
    )
}

/// Weighs one restart attempt: success ends with `Ok`; a command that could not run
/// ends with an error; a manager missing on the machine moves on; any other failure
/// is recorded in `errors` and moves on.
pub fn restart_step(
    errors: &mut Vec<String>,
    container_name: &str,
    host: &str,
    outcome: Result<CommandOutput, String>,
) -> (r: RestartStep)
    ensures
        match outcome {
            Err(e) => r matches RestartStep::Done(Err(m)) && m@ == "Failed to restart container "@
                + container_name@ + " on "@ + host@ + ": "@ + e@ && final(errors)@ == old(errors)@,
            Ok(o) => if o.success {
                r matches RestartStep::Done(Ok(())) && final(errors)@ == old(errors)@
            } else {
                let detail = restart_detail_spec(
                    container_name@,
                    host@,
                    (o.status_text@, o.stdout@, o.stderr@),
                );
                &&& r is Next
                &&& if manager_missing_spec(detail) {
                    final(errors)@ == old(errors)@
                } else {
                    strs(final(errors)@) == strs(old(errors)@).push(detail)
                }
            },
        },
{
    proof {
        reveal_strlit("command not found");
        reveal_strlit("no such file or directory");
        reveal_strlit("not found");
    }
    match outcome {
        Err(e) => {
            let mut m = concat3("Failed to restart container ", container_name, " on ");
            m.append(host);
            m.append(": ");
            m.append(e.as_str());
            RestartStep::Done(Err(m))
        },
        Ok(o) => {
            if o.success {
                return RestartStep::Done(Ok(()));
            }
            let detail = if !is_blank(o.stderr.as_str()) {
                trim(o.stderr.as_str())
            } else if !is_blank(o.stdout.as_str()) {
                trim(o.stdout.as_str())
            } else {
                let mut m = concat3("Failed to restart container ", container_name, " on ");
                m.append(host);
                m.append(": exit code ");
                m.append(o.status_text.as_str());
                m
            };
            let normalized = to_ascii_lowercase(detail.as_str());
            if contains(normalized.as_str(), "command not found") || contains(
                normalized.as_str(),
                "no such file or directory",
            ) || contains(normalized.as_str(), "not found") {
                return RestartStep::Next;
            }
            let ghost prev = errors@;
            errors.push(detail);
            proof {
                assert(strs(errors@) =~= strs(prev).push(detail@));
            }
            RestartStep::Next
        },
    }
}

/// The view of one run of a restart command.
pub open spec fn restart_run_v(o: Result<CommandOutput, String>) -> Result<(bool, Seq<char>, Seq<char>, Seq<char>), Seq<char>> {
    match o {
        Ok(out) => Ok((out.success, out.status_text@, out.stdout@, out.stderr@)),
        Err(e) => Err(e@),
    }
}

/// The failures recorded over a restart's runs: the detail of each failed run,
/// unless it says the manager is missing.
pub open spec fn restart_errors_spec(
    name: Seq<char>,
    host: Seq<char>,
    outs: Seq<Result<(bool, Seq<char>, Seq<char>, Seq<char>), Seq<char>>>,
) -> Seq<Seq<char>>
    decreases outs.len(),
{
    if outs.len() == 0 {
        seq![]
    } else {
        let prev = restart_errors_spec(name, host, outs.drop_last());
        match outs.last() {
            Ok((false, st, out, err)) => {
                let d = restart_detail_spec(name, host, (st, out, err));
                if manager_missing_spec(d) {
                    prev
                } else {
                    prev.push(d)
                }
            },
            _ => prev,
        }
    }
}

/// The outcome of a restart from its runs, in order: a run that could not start is
/// the error; a successful run ends it; after every manager failed, the recorded
/// failures one per line, or that no supported manager could restart it.
pub open spec fn restart_result_spec(
    name: Seq<char>,
    host: Seq<char>,
    outs: Seq<Result<(bool, Seq<char>, Seq<char>, Seq<char>), Seq<char>>>,
) -> Result<(), Seq<char>> {
    if outs.len() > 0 && outs.last() is Err {
        Err("Failed to restart container "@ + name + " on "@ + host + ": "@ + outs.last()->Err_0)
    } else if outs.len() > 0 && outs.last() matches Ok((true, _, _, _)) {
        Ok(())
    } else {
        let errors = restart_errors_spec(name, host, outs);
        Err(
            if errors.len() == 0 {
                "Failed to restart container "@ + name + " on "@ + host
                    + " with supported container managers."@
            } else {
                join_seq(errors, "\n"@)
            },
        )
    }
}

/// Whether a run goes on to the next manager: it ran and failed.
pub open spec fn restart_goes_on(o: Result<(bool, Seq<char>, Seq<char>, Seq<char>), Seq<char>>) -> bool {
    o matches Ok((false, _, _, _))
}

/// Whether `out` is what running the restart command `command` through `run_shell`
/// can give.
pub open spec fn restart_run_possible<F: Fn(&str) -> Result<CommandOutput, String>>(
    run_shell: F,
    command: Seq<char>,
    out: Result<(bool, Seq<char>, Seq<char>, Seq<char>), Seq<char>>,
) -> bool {
    exists|c: &str, o: Result<CommandOutput, String>|
        c@ == command && #[trigger] run_shell.ensures((c,), o) && out == restart_run_v(o)
}

/// Whether `outs` are the runs of a restart over the commands in order: each a
/// possible run of its command, all but the last going on, and stopping early only
/// at a run that does not go on.
pub open spec fn restart_runs_possible<F: Fn(&str) -> Result<CommandOutput, String>>(
    run_shell: F,
    commands: Seq<Seq<char>>,
    outs: Seq<Result<(bool, Seq<char>, Seq<char>, Seq<char>), Seq<char>>>,
) -> bool {
    &&& outs.len() <= commands.len()
    &&& forall|i: int| 0 <= i < outs.len() ==> #[trigger] restart_run_possible(run_shell, commands[i], outs[i])
    &&& forall|i: int| 0 <= i < outs.len() - 1 ==> #[trigger] restart_goes_on(outs[i])
    &&& outs.len() < commands.len() ==> outs.len() > 0 && !restart_goes_on(outs.last())
}

/// The view of a result without a value.
pub open spec fn unit_result_v(r: Result<(), String>) -> Result<(), Seq<char>> {
    match r {
        Ok(()) => Ok(()),
        Err(e) => Err(e@),
    }
}

/// Restarts a container of a machine through each supported manager in turn, the
/// commands being run by `run_shell`: done at the first success; an error at once
/// when a command cannot run; after all managers, the recorded failures (or, with
/// none, that no supported manager could restart it). An unknown or local machine is
/// an error before anything runs.
pub fn restart_container(
    machines: &[RemoteContainerServer],
    server_id: &str,
    container_name: &str,
    home: &UserHome,
    run_shell: impl Fn(&str) -> Result<CommandOutput, String>,
) -> (r: Result<(), String>)
    requires
        forall|c: &str| run_shell.requires((c,)),
    ensures
        match server_index_from(machines@, server_id@, 0) {
            None => r matches Err(e) && e@ == "Unknown machine: "@ + server_id@,
            Some(k) => if machines@[k].transport == MachineTransport::Local {
                r matches Err(e) && e@
                    == "Local host container cannot be restarted from machine inventory."@
            } else {
                let commands = restart_commands_spec(
                    machines@[k],
                    *home,
                    container_name@,
                    crate::model::manager_priority_spec(machines@[k].manager_type),
                );
                exists|outs: Seq<Result<(bool, Seq<char>, Seq<char>, Seq<char>), Seq<char>>>|
                    #[trigger] restart_runs_possible(run_shell, commands, outs) && unit_result_v(r)
                        == restart_result_spec(container_name@, machines@[k].host@, outs)
            },
        },
{
    let commands = match restart_container_commands(machines, server_id, container_name, home) {
        Ok(c) => c,
        Err(e) => {
            return Err(e);
        },
    };
    let pos = server_position(machines, server_id);
    let ghost k = server_index_from(machines@, server_id@, 0)->Some_0;
    let host = match pos {
        Some(p) => &machines[p].host,
        None => {
            return Err(concat2("Unknown machine: ", server_id));
        },
    };
    let mut errors: Vec<String> = Vec::new();
    let ghost cv = strs(commands@);
    let ghost mut outs: Seq<Result<(bool, Seq<char>, Seq<char>, Seq<char>), Seq<char>>> = seq![];
    let n = commands.len();
    let mut i: usize = 0;
    while i < n
        invariant
            n == commands@.len(),
            i <= n,
            forall|c: &str| run_shell.requires((c,)),
            server_index_from(machines@, server_id@, 0) == Some(k),
            0 <= k < machines@.len(),
            machines@[k].transport != MachineTransport::Local,
            host@ == machines@[k].host@,
            cv == strs(commands@),
            cv == restart_commands_spec(
                machines@[k],
                *home,
                container_name@,
                crate::model::manager_priority_spec(machines@[k].manager_type),
            ),
            outs.len() == i,
            forall|j: int| 0 <= j < i ==> #[trigger] restart_run_possible(run_shell, cv[j], outs[j]),
            forall|j: int| 0 <= j < i ==> #[trigger] restart_goes_on(outs[j]),
            strs(errors@) == restart_errors_spec(container_name@, host@, outs),
        decreases n - i,
    {
        let cmd: &str = commands[i].as_str();
        let outcome = run_shell(cmd);
        let ghost o = outcome;
        let ghost prev_outs = outs;
        proof {
            assert(cv[i as int] == cmd@);
            assert(run_shell.ensures((cmd,), o));
            assert(restart_run_possible(run_shell, cv[i as int], restart_run_v(o)));
            outs = outs.push(restart_run_v(o));
            assert(outs.drop_last() == prev_outs);
            assert forall|j: int| 0 <= j < i + 1 implies #[trigger] restart_run_possible(run_shell, cv[j], outs[j]) by {
                if j < i {
                    assert(outs[j] == prev_outs[j]);
                }
            }
        }
        match restart_step(&mut errors, container_name, host.as_str(), outcome) {
            RestartStep::Done(result) => {
                proof {
                    assert forall|j: int| 0 <= j < outs.len() - 1 implies #[trigger] restart_goes_on(outs[j]) by {
                        assert(outs[j] == prev_outs[j]);
                    }
                    assert(!restart_goes_on(outs.last()));
                    assert(restart_runs_possible(run_shell, cv, outs));
                    assert(unit_result_v(result) == restart_result_spec(container_name@, host@, outs));
                }
                return result;
            },
            RestartStep::Next => {
                proof {
                    assert forall|j: int| 0 <= j < i + 1 implies #[trigger] restart_goes_on(outs[j]) by {
                        if j < i {
                            assert(outs[j] == prev_outs[j]);
                        }
                    }
                }
            },
        }
        i = i + 1;
    }
    let r = restart_failure(container_name, host.as_str(), &errors);
    proof {
        assert(restart_runs_possible(run_shell, cv, outs));
        assert(outs.len() == 0 || restart_goes_on(outs.last()));
    }
    Err(r)
}

/// The error of a restart no manager carried out: the recorded failures one per
/// line, or, when there are none, that no supported manager could restart it.
pub fn restart_failure(container_name: &str, host: &str, errors: &Vec<String>) -> (r: String)
    ensures
        r@ == if errors@.len() == 0 {
            "Failed to restart container "@ + container_name@ + " on "@ + host@
                + " with supported container managers."@
        } else {
            join_seq(strs(errors@), "\n"@)
        },
{
    if errors.len() == 0 {
        let mut m = concat3("Failed to restart container ", container_name, " on ");
        m.append(host);
        m.append(" with supported container managers.");
        return m;
    }
    let mut out = String::new();
    let mut i: usize = 0;
    proof {
        reveal_strlit("\n");
        assert(strs(errors@.take(0)) =~= seq![]);
    }
    while i < errors.len()
        invariant
            i <= errors@.len(),
            out@ == join_seq(strs(errors@.take(i as int)), "\n"@),
        decreases errors@.len() - i,
    {
        proof {
            assert(strs(errors@.take(i + 1)).drop_last() =~= strs(errors@.take(i as int)));
            assert(strs(errors@.take(i + 1)).last() == errors@[i as int]@);
        }
        if i > 0 {
            out.append("\n");
        }
        out.append(errors[i].as_str());
        proof {
            if i == 0 {
                assert(out@ =~= strs(errors@.take(1))[0]);
            }
        }
        i = i + 1;
    }
    proof {
        assert(errors@.take(errors@.len() as int) =~= errors@);
    }
    out
}

// ---------------------------------------------------------------------------
// Installing the local public key in a container
// ---------------------------------------------------------------------------
/// Whether an SSH error looks like a refused login.
pub open spec fn auth_failure_spec(error: Seq<char>) -> bool {
    let n = lower_seq(error);
    contains_seq(n, "authentication failed"@) || contains_seq(n, "permission denied"@)
        || contains_seq(n, "disconnected"@)
}

/// Whether an SSH error looks like a refused login: it mentions a failed
/// authentication, a denied permission or a disconnection, in any case.
pub fn looks_like_auth_failure(error: &str) -> (r: bool)
    ensures
        r == auth_failure_spec(error@),
{
    proof {
        reveal_strlit("authentication failed");
        reveal_strlit("permission denied");
        reveal_strlit("disconnected");
    }
    let normalized = to_ascii_lowercase(error);
    contains(normalized.as_str(), "authentication failed") || contains(
        normalized.as_str(),
        "permission denied",
    ) || contains(normalized.as_str(), "disconnected")
}

/// The managers through which a key can be installed in a container of the machine.
pub open spec fn deploy_managers_spec(m: ContainerManagerType) -> Seq<ContainerManagerType> {
    match m {
        ContainerManagerType::Orbstack => seq![ContainerManagerType::Orbstack],
        ContainerManagerType::Lxd => seq![ContainerManagerType::Lxd],
        ContainerManagerType::Docker => seq![],
        ContainerManagerType::Unspecified => seq![
            ContainerManagerType::Orbstack,
            ContainerManagerType::Lxd,
        ],
    }
}

/// The managers through which a key can be installed in a container of the
/// machine: its own when it is OrbStack or LXD, none for Docker, both otherwise.
pub fn deploy_key_managers(server: &RemoteContainerServer) -> (r: Vec<ContainerManagerType>)
    ensures
        r@ == deploy_managers_spec(server.manager_type),
{
    let mut r: Vec<ContainerManagerType> = Vec::new();
    match server.manager_type {
        ContainerManagerType::Orbstack => r.push(ContainerManagerType::Orbstack),
        ContainerManagerType::Lxd => r.push(ContainerManagerType::Lxd),
        ContainerManagerType::Docker => {},
        ContainerManagerType::Unspecified => {
            r.push(ContainerManagerType::Orbstack);
            r.push(ContainerManagerType::Lxd);
        },
    }
    proof {
        assert(r@ =~= deploy_managers_spec(server.manager_type));
    }
    r
}

/// The shell script, run inside a container, that adds a public key to a user's
/// `authorized_keys` unless it is there already.
pub open spec fn inject_script_spec(user: Seq<char>, key: Seq<char>) -> Seq<char> {
    let u = single_quote_spec(user);
    let k = single_quote_spec(key);
    "target_home=$(getent passwd "@ + u + " 2>/dev/null | cut -d: -f6); if [ -z \"$target_home\" ]; then   if [ "@
        + u + " = 'root' ]; then     target_home=/root;   else     target_home=/home/"@ + u
        + ";   fi; fi; mkdir -p \"$target_home/.ssh\" && chmod 700 \"$target_home/.ssh\" && touch \"$target_home/.ssh/authorized_keys\" && grep -Fqx "@
        + k + " \"$target_home/.ssh/authorized_keys\" || echo "@ + k
        + " >> \"$target_home/.ssh/authorized_keys\" && chmod 600 \"$target_home/.ssh/authorized_keys\""@
}

/// The shell script that adds a public key to a user's `authorized_keys` in a
/// container, the user's home taken from `getent` or guessed.
pub fn deploy_key_inject_script(ssh_user: &str, public_key: &str) -> (r: String)
    ensures
        r@ == inject_script_spec(ssh_user@, public_key@),
{
    let u = shell_single_quote(ssh_user);
    let k = shell_single_quote(public_key);
    let mut s = concat3("target_home=$(getent passwd ", u.as_str(), " 2>/dev/null | cut -d: -f6); if [ -z \"$target_home\" ]; then   if [ ");
    s.append(u.as_str());
    s.append(" = 'root' ]; then     target_home=/root;   else     target_home=/home/");
    s.append(u.as_str());
    s.append(";   fi; fi; mkdir -p \"$target_home/.ssh\" && chmod 700 \"$target_home/.ssh\" && touch \"$target_home/.ssh/authorized_keys\" && grep -Fqx ");
    s.append(k.as_str());
    s.append(" \"$target_home/.ssh/authorized_keys\" || echo ");
    s.append(k.as_str());
    s.append(" >> \"$target_home/.ssh/authorized_keys\" && chmod 600 \"$target_home/.ssh/authorized_keys\"");
    s
}

/// The command, run on the machine, that runs the key script in a container.
pub open spec fn deploy_remote_spec(m: ContainerManagerType, name: Seq<char>, user: Seq<char>, script: Seq<char>) -> Seq<char> {
    if m == ContainerManagerType::Orbstack {
        "orb run -m "@ + name + " -u "@ + user + " bash -c "@ + single_quote_spec(script)
    } else {
        "lxc exec "@ + name + " -- bash -c "@ + single_quote_spec(script)
    }
}

/// The command, run on the machine, that runs the key script in a container through
/// OrbStack or LXD.
pub fn deploy_key_remote_command(
    manager_type: ContainerManagerType,
    container_name: &str,
    ssh_user: &str,
    inject_script: &str,
) -> (r: String)
    ensures
        r@ == deploy_remote_spec(manager_type, container_name@, ssh_user@, inject_script@),
{
    let quoted = shell_single_quote(inject_script);
    if manager_type == ContainerManagerType::Orbstack {
        let mut s = concat3("orb run -m ", container_name, " -u ");
        s.append(ssh_user);
        s.append(" bash -c ");
        s.append(quoted.as_str());
        s
    } else {
        let mut s = concat3("lxc exec ", container_name, " -- bash -c ");
        s.append(quoted.as_str());
        s
    }
}

/// The arguments of the `ssh` that runs a command on a machine in a login shell:
/// its options, its jump hosts, its port, the login and `bash -lc` with the command.
pub open spec fn deploy_ssh_args_spec(server: RemoteContainerServer, home: UserHome, remote: Seq<char>) -> Seq<Seq<char>> {
    ssh_flags_spec(server, home, machine_alias_spec(server.id@)) + match host_proxy_jump_spec(server) {
        Some(j) => seq!["-J"@, j],
        None => seq![],
    } + seq![
        "-p"@,
        dec(server.port as nat),
        server.ssh_user@ + "@"@ + server.host@,
        "bash -lc "@ + single_quote_spec(remote),
    ]
}

/// The arguments of the `ssh` that runs a command on a machine in a login shell.
pub fn deploy_key_ssh_args(server: &RemoteContainerServer, home: &UserHome, remote_command: &str) -> (r:
    Vec<String>)
    ensures
        strs(r@) == deploy_ssh_args_spec(*server, *home, remote_command@),
{
    let alias = machine_host_key_alias(server);
    let mut args = base_ssh_flags(server, home, alias.as_str());
    let ghost flags = strs(args@);
    let ghost jump: Seq<Seq<char>> = match host_proxy_jump_spec(*server) {
        Some(j) => seq!["-J"@, j],
        None => seq![],
    };
    match proxy_jump_for_host(server) {
        Some(j) => {
            args.push(owned("-J"));
            args.push(j);
        },
        None => {},
    }
    assert(strs(args@) =~= flags + jump);
    args.push(owned("-p"));
    args.push(dec_string(server.port as u64));
    let mut login = server.ssh_user.clone();
    login.append("@");
    login.append(server.host.as_str());
    args.push(login);
    let quoted = shell_single_quote(remote_command);
    args.push(concat2("bash -lc ", quoted.as_str()));
    proof {
        assert(strs(args@) =~= deploy_ssh_args_spec(*server, *home, remote_command@));
    }
    args
}

/// The message of a key installed in a container.
pub fn deploy_key_success_message(container_name: &str, host: &str) -> (r: String)
    ensures
        r@ == "Automatically deployed local SSH public key to "@ + container_name@ + " via "@ + host@
            + "."@,
{
    let mut m = concat3("Automatically deployed local SSH public key to ", container_name, " via ");
    m.append(host);
    m.append(".");
    m
}

/// Where a key is to be installed: the machine (by position), the container's name
/// and the user to install it for.
pub struct DeployTarget {
    pub server_index: usize,
    pub container_name: String,
    pub ssh_user: String,
}

/// The index of the first configuration entry at or after `i` whose identifier or
/// name is `cid`.
pub open spec fn entry_for_from(cs: Seq<MachineContainerConfig>, cid: Seq<char>, i: int) -> Option<int>
    decreases cs.len() - i,
{
    if i < 0 || i >= cs.len() {
        None
    } else if cs[i].id@ == cid || cs[i].name@ == cid {
        Some(i)
    } else {
        entry_for_from(cs, cid, i + 1)
    }
}

/// The user a key is installed for: the container entry's, else the machine's
/// container user (both trimmed), else the machine's user.
pub open spec fn deploy_user_spec(server: RemoteContainerServer, entry: Option<MachineContainerConfig>) -> Seq<char> {
    match entry {
        Some(e) if !blank(e.ssh_user@) => trim_seq(e.ssh_user@),
        _ => if !blank(server.container_ssh_user@) {
            trim_seq(server.container_ssh_user@)
        } else {
            server.ssh_user@
        },
    }
}

/// Where to install the local key after an SSH probe of a target failed: only for a
/// refused login on a known container target of a known machine.
pub open spec fn deploy_target_spec(
    target_id: Seq<char>,
    probe_error: Seq<char>,
    targets: Seq<DeveloperTarget>,
    machines: Seq<RemoteContainerServer>,
) -> Option<(int, Seq<char>, Seq<char>)> {
    if !auth_failure_spec(probe_error) {
        None
    } else {
        match target_index_from(targets_v(targets), target_id, 0) {
            None => None,
            Some(t) => {
                let target = targets[t];
                if target.container_kind == ManagedContainerKind::Host || target.container_id@.len() == 0 {
                    None
                } else {
                    match server_index_from(machines, target.machine_id@, 0) {
                        None => None,
                        Some(m) => {
                            let server = machines[m];
                            let cid = target.container_id@;
                            let entry = match entry_for_from(server.containers@, cid, 0) {
                                Some(c) => Some(server.containers@[c]),
                                None => None,
                            };
                            let name = match entry {
                                Some(e) => e.name@,
                                None => cid,
                            };
                            Some((m, name, deploy_user_spec(server, entry)))
                        },
                    }
                }
            },
        }
    }
}

proof fn lemma_entry_for_from(cs: Seq<MachineContainerConfig>, cid: Seq<char>, i: int)
    requires
        0 <= i,
    ensures
        entry_for_from(cs, cid, i) matches Some(k) ==> i <= k < cs.len(),
    decreases cs.len() - i,
{
    if i < cs.len() && !(cs[i].id@ == cid || cs[i].name@ == cid) {
        lemma_entry_for_from(cs, cid, i + 1);
    }
}

fn find_entry_for(cs: &Vec<MachineContainerConfig>, cid: &str) -> (r: Option<usize>)
    ensures
        match r {
            Some(i) => entry_for_from(cs@, cid@, 0) == Some(i as int) && i < cs@.len(),
            None => entry_for_from(cs@, cid@, 0) is None,
        },
{
    let len = cs.len();
    let mut i: usize = 0;
    while i < len
        invariant
            len == cs@.len(),
            i <= len,
            entry_for_from(cs@, cid@, 0) == entry_for_from(cs@, cid@, i as int),
        decreases len - i,
    {
        if crate::text::str_eq(cs[i].id.as_str(), cid) || crate::text::str_eq(cs[i].name.as_str(), cid) {
            return Some(i);
        }
        i = i + 1;
    }
    None
}

/// Where to install the local public key after an SSH probe of a target failed:
/// `None` unless the failure looks like a refused login on a container target whose
/// machine is known.
pub fn deploy_key_target(
    target_id: &str,
    probe_error: &str,
    targets: &Vec<DeveloperTarget>,
    machines: &[RemoteContainerServer],
) -> (r: Option<DeployTarget>)
    ensures
        match deploy_target_spec(target_id@, probe_error@, targets@, machines@) {
            None => r is None,
            Some((m, name, user)) => r matches Some(d) && d.server_index == m && d.container_name@
                == name && d.ssh_user@ == user,
        },
{
    if !looks_like_auth_failure(probe_error) {
        return None;
    }
    let t = match target_position(targets, target_id) {
        Some(t) => t,
        None => {
            return None;
        },
    };
    let target = &targets[t];
    proof {
        assert(targets_v(targets@)[t as int] == target@);
    }
    if target.container_kind == ManagedContainerKind::Host || target.container_id.as_str().is_empty() {
        return None;
    }
    let m = match server_position(machines, target.machine_id.as_str()) {
        Some(m) => m,
        None => {
            return None;
        },
    };
    let server = &machines[m];
    let cid = target.container_id.as_str();
    let (container_name, ssh_user) = match find_entry_for(&server.containers, cid) {
        Some(c) => {
            let entry = &server.containers[c];
            let user = if !is_blank(entry.ssh_user.as_str()) {
                trim(entry.ssh_user.as_str())
            } else if !is_blank(server.container_ssh_user.as_str()) {
                trim(server.container_ssh_user.as_str())
            } else {
                server.ssh_user.clone()
            };
            (entry.name.clone(), user)
        },
        None => {
            let user = if !is_blank(server.container_ssh_user.as_str()) {
                trim(server.container_ssh_user.as_str())
            } else {
                server.ssh_user.clone()
            };
            (owned(cid), user)
        },
    };
    Some(DeployTarget { server_index: m, container_name, ssh_user })
}

/// The view of one run of `ssh`: whether it ran and succeeded, or why it could not
/// run.
pub open spec fn run_v(o: Result<bool, String>) -> Result<bool, Seq<char>> {
    match o {
        Ok(b) => Ok(b),
        Err(e) => Err(e@),
    }
}

/// The `ssh` arguments that install `key` for `user` in the container `name`
/// through the manager `m`.
pub open spec fn deploy_args_for(
    server: RemoteContainerServer,
    home: UserHome,
    name: Seq<char>,
    user: Seq<char>,
    key: Seq<char>,
    m: ContainerManagerType,
) -> Seq<Seq<char>> {
    deploy_ssh_args_spec(server, home, deploy_remote_spec(m, name, user, inject_script_spec(user, key)))
}

/// Whether `out` is what running `ssh` with the installing arguments for manager `m`
/// through `run_ssh` can give.
pub open spec fn deploy_run_possible<R: Fn(&Vec<String>) -> Result<bool, String>>(
    run_ssh: R,
    server: RemoteContainerServer,
    home: UserHome,
    name: Seq<char>,
    user: Seq<char>,
    key: Seq<char>,
    m: ContainerManagerType,
    out: Result<bool, Seq<char>>,
) -> bool {
    exists|a: &Vec<String>, o: Result<bool, String>|
        strs(a@) == deploy_args_for(server, home, name, user, key, m) && #[trigger] run_ssh.ensures((a,), o)
            && out == run_v(o)
}

/// Whether `outs` are the runs of an installation: one per manager of the machine in
/// order (see `deploy_managers_spec`), stopping after the first that succeeded.
pub open spec fn deploy_runs_possible<R: Fn(&Vec<String>) -> Result<bool, String>>(
    run_ssh: R,
    server: RemoteContainerServer,
    home: UserHome,
    name: Seq<char>,
    user: Seq<char>,
    key: Seq<char>,
    outs: Seq<Result<bool, Seq<char>>>,
) -> bool {
    let ms = deploy_managers_spec(server.manager_type);
    &&& outs.len() <= ms.len()
    &&& forall|i: int| 0 <= i < outs.len() ==> #[trigger] deploy_run_possible(run_ssh, server, home, name, user, key, ms[i], outs[i])
    &&& forall|i: int| 0 <= i < outs.len() - 1 ==> #[trigger] outs[i] != Ok::<bool, Seq<char>>(true)
    &&& outs.len() < ms.len() ==> outs.len() > 0 && outs.last() == Ok::<bool, Seq<char>>(true)
}

/// The outcome of an installation's runs: the success message when the last one
/// succeeded.
pub open spec fn deploy_message_spec(outs: Seq<Result<bool, Seq<char>>>, name: Seq<char>, host: Seq<char>) -> Option<Seq<char>> {
    if outs.len() > 0 && outs.last() == Ok::<bool, Seq<char>>(true) {
        Some("Automatically deployed local SSH public key to "@ + name + " via "@ + host + "."@)
    } else {
        None
    }
}

/// Installs the local public key, read through `read_key` (none when there is no
/// key), for `ssh_user` in the container `container_name` of a machine: through each
/// manager of the machine in turn, an `ssh` to the machine run by `run_ssh`, until
/// one succeeds; the success message then, else `None`.
pub fn auto_deploy_public_key<K: Fn() -> Option<String>, R: Fn(&Vec<String>) -> Result<bool, String>>(
    server: &RemoteContainerServer,
    home: &UserHome,
    container_name: &str,
    ssh_user: &str,
    read_key: &K,
    run_ssh: &R,
) -> (r: Option<String>)
    requires
        read_key.requires(()),
        forall|a: &Vec<String>| run_ssh.requires((a,)),
    ensures
        exists|k: Option<String>|
            #[trigger] read_key.ensures((), k) && match k {
                None => r is None,
                Some(key) => exists|outs: Seq<Result<bool, Seq<char>>>|
                    #[trigger] deploy_runs_possible(*run_ssh, *server, *home, container_name@, ssh_user@, key@, outs)
                        && crate::model::opt_v(r) == deploy_message_spec(outs, container_name@, server.host@),
            },
{
    let read = read_key();
    let ghost k = read;
    let public_key = match read {
        None => return None,
        Some(key) => key,
    };
    let inject_script = deploy_key_inject_script(ssh_user, public_key.as_str());
    let managers = deploy_key_managers(server);
    let ghost ms = managers@;
    let ghost mut outs: Seq<Result<bool, Seq<char>>> = seq![];
    let mut i: usize = 0;
    while i < managers.len()
        invariant
            i <= managers@.len(),
            ms == managers@,
            ms == deploy_managers_spec(server.manager_type),
            inject_script@ == inject_script_spec(ssh_user@, public_key@),
            read_key.ensures((), k),
            k == Some(public_key),
            forall|a: &Vec<String>| run_ssh.requires((a,)),
            outs.len() == i,
            forall|j: int| 0 <= j < i ==> #[trigger] deploy_run_possible(*run_ssh, *server, *home, container_name@, ssh_user@, public_key@, ms[j], outs[j]),
            forall|j: int| 0 <= j < i ==> #[trigger] outs[j] != Ok::<bool, Seq<char>>(true),
        decreases managers@.len() - i,
    {
        let remote = deploy_key_remote_command(managers[i], container_name, ssh_user, inject_script.as_str());
        let args = deploy_key_ssh_args(server, home, remote.as_str());
        let outcome = run_ssh(&args);
        let ghost o = outcome;
        proof {
            assert(run_ssh.ensures((&args,), o));
            assert(deploy_run_possible(*run_ssh, *server, *home, container_name@, ssh_user@, public_key@, ms[i as int], run_v(o)));
            outs = outs.push(run_v(o));
            assert forall|j: int| 0 <= j < i + 1 implies #[trigger] deploy_run_possible(*run_ssh, *server, *home, container_name@, ssh_user@, public_key@, ms[j], outs[j]) by {
                if j < i {
                    assert(outs[j] == outs.drop_last()[j]);
                }
            }
        }
        match outcome {
            Ok(true) => {
                let message = deploy_key_success_message(container_name, server.host.as_str());
                proof {
                    assert(outs.last() == Ok::<bool, Seq<char>>(true));
                    assert(crate::model::opt_v(Some(message)) == deploy_message_spec(outs, container_name@, server.host@));
                    assert forall|j: int| 0 <= j < outs.len() - 1 implies #[trigger] outs[j] != Ok::<bool, Seq<char>>(true) by {
                        assert(outs[j] == outs.drop_last()[j]);
                    }
                    assert(deploy_runs_possible(*run_ssh, *server, *home, container_name@, ssh_user@, public_key@, outs));
                    assert(read_key.ensures((), k));
                    assert(k->Some_0 == public_key);
                    assert(deploy_runs_possible(*run_ssh, *server, *home, container_name@, ssh_user@, k->Some_0@, outs));
                    assert(exists|o2: Seq<Result<bool, Seq<char>>>|
                        #[trigger] deploy_runs_possible(*run_ssh, *server, *home, container_name@, ssh_user@, k->Some_0@, o2)
                            && crate::model::opt_v(Some(message)) == deploy_message_spec(o2, container_name@, server.host@));
                }
                return Some(message);
            },
            _ => {},
        }
        proof {
            assert forall|j: int| 0 <= j < i + 1 implies #[trigger] outs[j] != Ok::<bool, Seq<char>>(true) by {
                if j < i {
                    assert(outs[j] == outs.drop_last()[j]);
                }
            }
        }
        i = i + 1;
    }
    proof {
        assert(deploy_runs_possible(*run_ssh, *server, *home, container_name@, ssh_user@, public_key@, outs));
        assert(read_key.ensures((), k));
    }
    None
}

/// After an SSH probe of a target failed, installs the local public key in the
/// target's container when the failure looks like a refused login on a container
/// target of a known machine (see `deploy_target_spec`); `None` otherwise, else the
/// outcome of `auto_deploy_public_key`.
pub fn maybe_auto_deploy_target_public_key<K: Fn() -> Option<String>, R: Fn(&Vec<String>) -> Result<bool, String>>(
    target_id: &str,
    probe_error: &str,
    targets: &Vec<DeveloperTarget>,
    machines: &[RemoteContainerServer],
    home: &UserHome,
    read_key: &K,
    run_ssh: &R,
) -> (r: Option<String>)
    requires
        read_key.requires(()),
        forall|a: &Vec<String>| run_ssh.requires((a,)),
    ensures
        match deploy_target_spec(target_id@, probe_error@, targets@, machines@) {
            None => r is None,
            Some((m, name, user)) => exists|k: Option<String>|
                #[trigger] read_key.ensures((), k) && match k {
                    None => r is None,
                    Some(key) => exists|outs: Seq<Result<bool, Seq<char>>>|
                        #[trigger] deploy_runs_possible(*run_ssh, machines@[m], *home, name, user, key@, outs)
                            && crate::model::opt_v(r) == deploy_message_spec(outs, name, machines@[m].host@),
                },
        },
{
    match deploy_key_target(target_id, probe_error, targets, machines) {
        None => None,
        Some(d) => {
            proof {
                lemma_deploy_index(target_id@, probe_error@, targets@, machines@);
            }
            auto_deploy_public_key(
                &machines[d.server_index],
                home,
                d.container_name.as_str(),
                d.ssh_user.as_str(),
                read_key,
                run_ssh,
            )
        },
    }
}

proof fn lemma_deploy_index(
    target_id: Seq<char>,
    probe_error: Seq<char>,
    targets: Seq<DeveloperTarget>,
    machines: Seq<RemoteContainerServer>,
)
    ensures
        deploy_target_spec(target_id, probe_error, targets, machines) matches Some((m, _, _)) ==> 0 <= m < machines.len(),
{
    if let Some(t) = target_index_from(targets_v(targets), target_id, 0) {
        if let Some(t2) = server_index_from(machines, targets[t].machine_id@, 0) {
            crate::inventory::lemma_server_index_from_bounds(machines, targets[t].machine_id@, 0);
        }
    }
}

// ---------------------------------------------------------------------------
// The local public key
// ---------------------------------------------------------------------------
/// The local public key from the contents of the key files in order of preference
/// (`None` for one that could not be read): the first whose trimmed content is not
/// blank, trimmed.
pub open spec fn local_key_spec(contents: Seq<Option<Seq<char>>>) -> Option<Seq<char>>
    decreases contents.len(),
{
    if contents.len() == 0 {
        None
    } else {
        match contents[0] {
            Some(c) if !blank(c) => Some(trim_seq(c)),
            _ => local_key_spec(contents.skip(1)),
        }
    }
}

/// The view of a list of optional texts.
pub open spec fn opt_texts(v: Seq<Option<String>>) -> Seq<Option<Seq<char>>> {
    v.map_values(|o: Option<String>| crate::model::opt_v(o))
}

/// The local public key from the contents of the key files (see `local_key_spec`).
pub fn local_public_key(contents: &Vec<Option<String>>) -> (r: Option<String>)
    ensures
        crate::model::opt_v(r) == local_key_spec(opt_texts(contents@)),
{
    let ghost cv = opt_texts(contents@);
    let n = contents.len();
    let mut i: usize = 0;
    assert(cv.skip(0) =~= cv);
    while i < n
        invariant
            n == contents@.len(),
            i <= n,
            cv == opt_texts(contents@),
            local_key_spec(cv) == local_key_spec(cv.skip(i as int)),
        decreases n - i,
    {
        proof {
            assert(cv.skip(i as int)[0] == crate::model::opt_v(contents@[i as int]));
            assert(cv.skip(i as int).skip(1) =~= cv.skip(i + 1));
        }
        match &contents[i] {
            Some(c) => {
                if !is_blank(c.as_str()) {
                    return Some(trim(c.as_str()));
                }
            },
            None => {},
        }
        i = i + 1;
    }
    None
}

/// The key to authorize for the local machine, from the contents of the key files
/// in order of preference: the first that could be read, trimmed, unless it is blank.
pub open spec fn readable_key_spec(contents: Seq<Option<Seq<char>>>) -> Option<Seq<char>>
    decreases contents.len(),
{
    if contents.len() == 0 {
        None
    } else {
        match contents[0] {
            Some(c) => if blank(c) {
                None
            } else {
                Some(trim_seq(c))
            },
            None => readable_key_spec(contents.skip(1)),
        }
    }
}

/// The key to authorize for the local machine (see `readable_key_spec`).
pub fn local_key_to_authorize(contents: &Vec<Option<String>>) -> (r: Option<String>)
    ensures
        crate::model::opt_v(r) == readable_key_spec(opt_texts(contents@)),
{
    let ghost cv = opt_texts(contents@);
    let n = contents.len();
    let mut i: usize = 0;
    assert(cv.skip(0) =~= cv);
    while i < n
        invariant
            n == contents@.len(),
            i <= n,
            cv == opt_texts(contents@),
            readable_key_spec(cv) == readable_key_spec(cv.skip(i as int)),
        decreases n - i,
    {
        proof {
            assert(cv.skip(i as int)[0] == crate::model::opt_v(contents@[i as int]));
            assert(cv.skip(i as int).skip(1) =~= cv.skip(i + 1));
        }
        match &contents[i] {
            Some(c) => {
                if is_blank(c.as_str()) {
                    return None;
                }
                return Some(trim(c.as_str()));
            },
            None => {},
        }
        i = i + 1;
    }
    None
}

/// Whether a key must still be appended to an authorized-keys file: unless the
/// file could be read and already holds it.
pub fn key_needs_authorizing(authorized_keys: &Option<String>, key: &str) -> (r: bool)
    ensures
        r == !(authorized_keys matches Some(c) && contains_seq(c@, key@)),
{
    match authorized_keys {
        Some(c) => !contains(c.as_str(), key),
        None => true,
    }
}


/// The authorized-keys text after the local key was authorized: unchanged when it
/// already holds the key; else with the key and a newline appended (a missing file
/// is made of just that line).
pub open spec fn authorized_after(authorized: Option<Seq<char>>, key: Seq<char>) -> Seq<char> {
    match authorized {
        Some(c) => if contains_seq(c, key) {
            c
        } else {
            c + key + "\n"@
        },
        None => key + "\n"@,
    }
}

/// The line to append to the authorized-keys text (`None` when the file is
/// missing) to authorize `key`: the key and a newline, or nothing when the text
/// already holds the key. The text with it appended is `authorized_after`.
pub fn authorized_keys_addition(authorized_keys: &Option<String>, key: &str) -> (r: Option<String>)
    ensures
        r is Some <==> !(authorized_keys matches Some(c) && contains_seq(c@, key@)),
        r matches Some(line) ==> line@ == key@ + "\n"@,
        crate::inventory::or_empty(crate::model::opt_v(*authorized_keys)) + crate::inventory::or_empty(
            crate::model::opt_v(r),
        ) == authorized_after(crate::model::opt_v(*authorized_keys), key@),
{
    proof {
        reveal_strlit("\n");
    }
    if key_needs_authorizing(authorized_keys, key) {
        let line = concat2(key, "\n");
        proof {
            match authorized_keys {
                Some(c) => {},
                None => {
                    assert(Seq::<char>::empty() + line@ =~= line@);
                },
            }
        }
        Some(line)
    } else {
        proof {
            assert(authorized_keys matches Some(c) && contains_seq(c@, key@));
            let c = authorized_keys->Some_0;
            assert(c@ + Seq::<char>::empty() =~= c@);
        }
        None
    }
}

/// Authorizing the local key leaves it in the authorized-keys text, and doing it
/// a second time leaves the text as the first time left it.
pub proof fn law_authorizing_twice_changes_nothing(authorized: Option<Seq<char>>, key: Seq<char>)
    ensures
        contains_seq(authorized_after(authorized, key), key),
        authorized_after(Some(authorized_after(authorized, key)), key) == authorized_after(authorized, key),
{
    reveal_strlit("\n");
    let after = authorized_after(authorized, key);
    match authorized {
        Some(c) => {
            if !contains_seq(c, key) {
                assert(after.subrange(c.len() as int, (c.len() + key.len()) as int) =~= key);
                crate::text::lemma_has_at_found(after, key, 0, c.len() as int);
            }
        },
        None => {
            assert(after.subrange(0, key.len() as int) =~= key);
            crate::text::lemma_has_at_found(after, key, 0, 0);
        },
    }
}

} // verus!
