use univers_ark_developer::actions::{
    authorized_keys_addition, auto_deploy_public_key, key_needs_authorizing, local_key_to_authorize, local_public_key,
    maybe_auto_deploy_target_public_key, CommandOutput,
};
use univers_ark_developer::browser::{browser_probe_request, looks_like_http_answer};
use univers_ark_developer::chain::target_shell_command;
use univers_ark_developer::inventory::ResolvedInventory;
use univers_ark_developer::json::{sanitize_workspace_aliases, JsonValue};
use univers_ark_developer::load::{clear_targets_cache, load_inventory};
use univers_ark_developer::local_machine::{local_machine_available, local_machine_probe_chain};
use univers_ark_developer::model::{
    AppSettings, ContainerDiscoveryMode, ContainerManagerType, ContainerWorkspace,
    DeveloperTarget, DiscoveredContainer, MachineTransport, ManagedContainerKind, RawTargetsFile,
    RemoteContainerServer, TargetsFile,
};
use univers_ark_developer::projection::RemoteOutput;
use univers_ark_developer::rate::RateWindow;
use univers_ark_developer::runtime::{read_runtime_targets_file, PortRegistry, RuntimeSurface, RuntimeTarget};
use univers_ark_developer::scan::{
    discover_containers_with_supported_managers, parse_orbstack_containers,
    scan_server_containers, scan_server_inventory, OrbInfo,
};
use univers_ark_developer::sessions::SessionTable;
use univers_ark_developer::ssh::UserHome;
use univers_ark_developer::tunnel::{
    existing_session_answer, monitor_end, starting_tunnel_status, tunnel_request_direct, ProcessCheck,
};

const LXD_LIST: &str = "lxc list --format csv -c ns4";

fn scan_home() -> UserHome {
    UserHome { path: Some(String::from("/home/tester")), windows: false }
}

fn scan_server() -> RemoteContainerServer {
    RemoteContainerServer {
        id: String::from("qa-dev"),
        label: String::from("QA"),
        transport: MachineTransport::Ssh,
        host: String::from("qa-dev"),
        port: 22,
        description: String::new(),
        os: String::new(),
        manager_type: ContainerManagerType::Lxd,
        discovery_mode: ContainerDiscoveryMode::Auto,
        discovery_command: String::from(LXD_LIST),
        ssh_user: String::from("david"),
        container_ssh_user: String::from("david"),
        identity_files: vec![],
        ssh_credential_id: String::new(),
        jump_chain: vec![],
        known_hosts_path: String::new(),
        strict_host_key_checking: false,
        container_name_suffix: String::new(),
        include_stopped: false,
        target_label_template: String::new(),
        target_host_template: String::new(),
        target_description_template: String::new(),
        host_terminal_startup_command: String::new(),
        terminal_command_template: String::new(),
        notes: vec![],
        workspace: ContainerWorkspace::empty(),
        services: vec![],
        surfaces: vec![],
        containers: vec![],
    }
}

fn shell_ok(stdout: &str) -> Result<CommandOutput, String> {
    Ok(CommandOutput {
        success: true,
        status_text: String::from("exit status: 0"),
        stdout: String::from(stdout),
        stderr: String::new(),
    })
}

fn remote(exit_status: u32, stdout: &str, stderr: &str) -> Result<RemoteOutput, String> {
    Ok(RemoteOutput {
        exit_status,
        stdout: String::from(stdout),
        stderr: String::from(stderr),
    })
}

fn no_list(_: &str) -> Result<Vec<(String, String)>, String> {
    Err(String::from("no OrbStack here"))
}

fn no_info(_: &str) -> Result<OrbInfo, String> {
    Err(String::from("no OrbStack here"))
}

fn no_shell(_: &str) -> Result<CommandOutput, String> {
    Err(String::from("no shell here"))
}

fn plain_target(id: &str, machine_id: &str, kind: ManagedContainerKind) -> DeveloperTarget {
    DeveloperTarget {
        id: String::from(id),
        machine_id: String::from(machine_id),
        container_id: String::from("box"),
        transport: MachineTransport::Ssh,
        container_kind: kind,
        label: String::from(id),
        host: String::from("qa-dev"),
        description: String::new(),
        terminal_command: String::new(),
        terminal_startup_command: String::new(),
        notes: vec![],
        workspace: ContainerWorkspace::empty(),
        services: vec![],
        surfaces: vec![],
    }
}

#[test]
fn scan_lists_custom_command_containers_with_their_users() {
    let server = scan_server();
    let run_shell = |command: &str| {
        if command == LXD_LIST {
            shell_ok("alpha-dev,RUNNING,10.0.0.5 (eth0)\n")
        } else {
            Err(String::from("unexpected command"))
        }
    };
    let run_on_host = |_: &str, _: &str| remote(0, "root\nubuntu\n", "");

    let containers = scan_server_containers(
        &server,
        &scan_home(),
        false,
        &run_on_host,
        &no_list,
        &run_shell,
        &no_info,
    )
    .unwrap();

    assert_eq!(containers.len(), 1);
    assert_eq!(containers[0].name, "alpha-dev");
    assert_eq!(containers[0].ipv4, "10.0.0.5");
    assert_eq!(containers[0].source, "custom");
    assert_eq!(containers[0].ssh_user, "ubuntu");
    assert_eq!(
        containers[0].ssh_user_candidates,
        vec![String::from("ubuntu"), String::from("root")]
    );
}

#[test]
fn scan_of_local_machine_finds_no_containers() {
    let mut server = scan_server();
    server.transport = MachineTransport::Local;
    let run_on_host = |_: &str, _: &str| remote(0, "", "");

    let containers = scan_server_containers(
        &server,
        &scan_home(),
        false,
        &run_on_host,
        &no_list,
        &no_shell,
        &no_info,
    )
    .unwrap();

    assert!(containers.is_empty());
}

#[test]
fn scan_reports_failed_discovery_command() {
    let server = scan_server();
    let run_shell = |_: &str| {
        Ok(CommandOutput {
            success: false,
            status_text: String::from("exit status: 1"),
            stdout: String::new(),
            stderr: String::from("  boom \n"),
        })
    };
    let run_on_host = |_: &str, _: &str| remote(0, "", "");

    let error = scan_server_containers(
        &server,
        &scan_home(),
        false,
        &run_on_host,
        &no_list,
        &run_shell,
        &no_info,
    )
    .unwrap_err();

    assert_eq!(
        error,
        "Failed to discover containers on qa-dev with `lxc list --format csv -c ns4`: boom"
    );
}

#[test]
fn scan_runs_the_discovery_command_over_ssh_with_a_stored_credential() {
    let mut server = scan_server();
    server.ssh_credential_id = String::from("key-1");
    let run_on_host = |target: &str, command: &str| {
        assert_eq!(target, "qa-dev::host");
        if command == LXD_LIST {
            remote(0, "beta-dev,RUNNING,10.0.0.6\n", "")
        } else {
            remote(1, "", "")
        }
    };

    let containers = scan_server_containers(
        &server,
        &scan_home(),
        false,
        &run_on_host,
        &no_list,
        &no_shell,
        &no_info,
    )
    .unwrap();

    assert_eq!(containers.len(), 1);
    assert_eq!(containers[0].name, "beta-dev");
    assert_eq!(containers[0].ipv4, "10.0.0.6");
}

#[test]
fn scan_uses_the_configured_manager_without_a_command() {
    let mut server = scan_server();
    server.discovery_command = String::new();
    server.manager_type = ContainerManagerType::Docker;
    let run_on_host = |_: &str, command: &str| {
        if command.starts_with("docker ps") {
            remote(0, "web,RUNNING,172.17.0.2\n", "")
        } else {
            remote(1, "", "")
        }
    };

    let containers = scan_server_containers(
        &server,
        &scan_home(),
        false,
        &run_on_host,
        &no_list,
        &no_shell,
        &no_info,
    )
    .unwrap();

    assert_eq!(containers.len(), 1);
    assert_eq!(containers[0].name, "web");
    assert_eq!(containers[0].source, "docker");
    assert_eq!(containers[0].ipv4, "172.17.0.2");
}

#[test]
fn supported_managers_join_their_failures_when_nothing_is_found() {
    let mut server = scan_server();
    server.manager_type = ContainerManagerType::Unspecified;
    let run_on_host = |_: &str, _: &str| -> Result<RemoteOutput, String> { Err(String::from("connection refused")) };

    let error = discover_containers_with_supported_managers(
        &server,
        &scan_home(),
        &run_on_host,
        &no_list,
        &no_shell,
        &no_info,
    )
    .unwrap_err();

    assert_eq!(
        error,
        "[orbstack] Failed to discover containers on qa-dev: connection refused\n\
[docker] Failed to discover containers on qa-dev: connection refused\n\
[lxd] Failed to discover containers on qa-dev: connection refused"
    );
}

#[test]
fn missing_managers_are_not_failures() {
    let mut server = scan_server();
    server.manager_type = ContainerManagerType::Unspecified;
    let run_on_host = |_: &str, _: &str| remote(127, "", "sh: lxc: command not found");

    let containers = discover_containers_with_supported_managers(
        &server,
        &scan_home(),
        &run_on_host,
        &no_list,
        &no_shell,
        &no_info,
    )
    .unwrap();

    assert!(containers.is_empty());
}

#[test]
fn orbstack_machines_are_described_one_by_one() {
    let server = scan_server();
    let read_list = |_: &str| -> Result<Vec<(String, String)>, String> {
        Ok(vec![
            (String::from("box"), String::from("running")),
            (String::from("old"), String::from("stopped")),
        ])
    };
    let run_shell = |command: &str| {
        if command.contains("orb info box") {
            shell_ok("{\"box\": true}")
        } else {
            Err(String::from("only box is described"))
        }
    };
    let read_info = |_: &str| -> Result<OrbInfo, String> {
        Ok(OrbInfo {
            name: String::from("box"),
            state: String::from("running"),
            default_username: String::from("me"),
            ip4: String::from("192.168.139.2"),
        })
    };

    let containers = parse_orbstack_containers(
        &server,
        &scan_home(),
        "[]",
        &read_list,
        &run_shell,
        &read_info,
    )
    .unwrap();

    assert_eq!(containers.len(), 1);
    assert_eq!(containers[0].name, "box");
    assert_eq!(containers[0].status, "RUNNING");
    assert_eq!(containers[0].source, "orbstack");
    assert_eq!(containers[0].ssh_user, "me");
    assert_eq!(containers[0].ssh_user_candidates, vec![String::from("me")]);
}

#[test]
fn unreadable_orbstack_list_is_an_error() {
    let server = scan_server();
    let read_list = |_: &str| -> Result<Vec<(String, String)>, String> {
        Err(String::from("expected value at line 1 column 1"))
    };

    let error = parse_orbstack_containers(
        &server,
        &scan_home(),
        "nope",
        &read_list,
        &no_shell,
        &no_info,
    )
    .unwrap_err();

    assert_eq!(
        error,
        "Failed to parse OrbStack discovery output for qa-dev: expected value at line 1 column 1"
    );
}

#[test]
fn scanning_an_unknown_server_is_an_error() {
    let machines = vec![scan_server()];
    let run_on_host = |_: &str, _: &str| remote(0, "", "");

    let result = scan_server_inventory(
        &machines,
        "missing",
        &scan_home(),
        false,
        &run_on_host,
        &no_list,
        &no_shell,
        &no_info,
    );

    assert_eq!(result.err(), Some(String::from("Unknown server: missing")));
}

#[test]
fn scanning_a_server_returns_what_to_store() {
    let machines = vec![scan_server()];
    let run_shell = |_: &str| shell_ok("alpha-dev,RUNNING,10.0.0.5\n");
    let run_on_host = |_: &str, _: &str| remote(0, "ubuntu\n", "");

    let scanned = scan_server_inventory(
        &machines,
        "qa-dev",
        &scan_home(),
        false,
        &run_on_host,
        &no_list,
        &run_shell,
        &no_info,
    )
    .unwrap();

    assert_eq!(scanned.discovered.len(), 1);
    assert_eq!(scanned.containers.len(), 1);
    assert_eq!(scanned.containers[0].name, "alpha-dev");
    assert!(!scanned.containers[0].enabled);
    assert_eq!(scanned.server.id, "qa-dev");
    assert_eq!(scanned.server.state, "checking");
}

#[test]
fn a_recorded_session_is_current_under_its_key() {
    let mut table: SessionTable<&str> = SessionTable::new();
    assert!(table.insert(String::from("t::web"), 1, "first").is_none());

    assert!(table.is_current("t::web", 1));
    assert!(!table.is_current("t::web", 2));
    assert!(!table.is_current("t::api", 1));
    assert_eq!(table.session_id("t::web"), Some(1));
    assert_eq!(table.get("t::web"), Some(&"first"));
}

#[test]
fn a_stale_session_leaves_its_replacement_in_place() {
    let mut table: SessionTable<&str> = SessionTable::new();
    table.insert(String::from("t::web"), 1, "first");
    let replaced = table.insert(String::from("t::web"), 2, "second");

    assert_eq!(replaced, Some((1, "first")));
    assert!(!table.remove_if_current("t::web", 1));
    assert_eq!(table.get("t::web"), Some(&"second"));
    assert!(table.remove_if_current("t::web", 2));
    assert!(table.get("t::web").is_none());
}

#[test]
fn draining_sessions_empties_the_table() {
    let mut table: SessionTable<u8> = SessionTable::new();
    table.insert(String::from("a"), 1, 10);
    table.insert(String::from("b"), 2, 20);

    let drained = table.drain();

    assert_eq!(drained.len(), 2);
    assert!(table.get("a").is_none());
    assert_eq!(table.remove("b"), None);
}

fn object(entries: Vec<(&str, JsonValue)>) -> JsonValue {
    JsonValue::Object(entries.into_iter().map(|(k, v)| (String::from(k), v)).collect())
}

fn text(value: &str) -> JsonValue {
    JsonValue::Text(String::from(value))
}

fn entry<'a>(value: &'a JsonValue, key: &str) -> Option<&'a JsonValue> {
    match value {
        JsonValue::Object(entries) => entries.iter().find(|(k, _)| k == key).map(|(_, v)| v),
        _ => None,
    }
}

fn text_of(value: Option<&JsonValue>) -> Option<String> {
    match value {
        Some(JsonValue::Text(t)) => Some(t.clone()),
        _ => None,
    }
}

#[test]
fn legacy_workspace_key_is_renamed_at_any_depth() {
    let mut value = object(vec![(
        "machines",
        JsonValue::Array(vec![object(vec![(
            "workspace",
            object(vec![("primaryBrowserServiceId", text("web"))]),
        )])]),
    )]);

    sanitize_workspace_aliases(&mut value);

    let machines = match entry(&value, "machines") {
        Some(JsonValue::Array(items)) => items,
        _ => panic!("machines is not a list"),
    };
    let workspace = entry(&machines[0], "workspace").unwrap();
    assert_eq!(text_of(entry(workspace, "primaryWebServiceId")), Some(String::from("web")));
    assert!(entry(workspace, "primaryBrowserServiceId").is_none());
}

#[test]
fn current_workspace_key_wins_over_the_legacy_one() {
    let mut value = object(vec![
        ("primaryWebServiceId", text("api")),
        ("primaryBrowserServiceId", text("web")),
        ("count", JsonValue::Number(String::from("3"))),
    ]);

    sanitize_workspace_aliases(&mut value);

    assert_eq!(text_of(entry(&value, "primaryWebServiceId")), Some(String::from("api")));
    assert!(entry(&value, "primaryBrowserServiceId").is_none());
    match entry(&value, "count") {
        Some(JsonValue::Number(n)) => assert_eq!(n, "3"),
        _ => panic!("count was lost"),
    }
}

fn render(value: &JsonValue) -> String {
    match value {
        JsonValue::Null => String::from("null"),
        JsonValue::Bool(b) => format!("{}", b),
        JsonValue::Number(n) => n.clone(),
        JsonValue::Text(t) => format!("{:?}", t),
        JsonValue::Array(items) => {
            let parts: Vec<String> = items.iter().map(render).collect();
            format!("[{}]", parts.join(","))
        }
        JsonValue::Object(entries) => {
            let parts: Vec<String> =
                entries.iter().map(|(k, v)| format!("{:?}:{}", k, render(v))).collect();
            format!("{{{}}}", parts.join(","))
        }
    }
}

#[test]
fn rewriting_twice_changes_nothing_more() {
    let mut value = JsonValue::Array(vec![
        object(vec![("primaryBrowserServiceId", object(vec![("primaryBrowserServiceId", text("x"))]))]),
        object(vec![("primaryWebServiceId", text("api")), ("flag", JsonValue::Bool(true))]),
        JsonValue::Null,
    ]);

    sanitize_workspace_aliases(&mut value);
    let once = render(&value);
    sanitize_workspace_aliases(&mut value);

    assert_eq!(render(&value), once);
    assert!(!once.contains("primaryBrowserServiceId"));
    assert_eq!(
        once,
        "[{\"primaryWebServiceId\":{\"primaryWebServiceId\":\"x\"}},{\"primaryWebServiceId\":\"api\",\"flag\":true},null]"
    );
}

#[test]
fn documents_without_the_legacy_key_are_kept() {
    let mut value = object(vec![
        ("machines", JsonValue::Array(vec![text("a"), JsonValue::Number(String::from("2"))])),
        ("primaryWebServiceId", text("web")),
    ]);
    let before = render(&value);

    sanitize_workspace_aliases(&mut value);

    assert_eq!(render(&value), before);
}

#[test]
fn browser_probe_asks_for_the_path_and_query() {
    assert_eq!(
        browser_probe_request("http://127.0.0.1:4173/app?x=1"),
        Some(String::from(
            "HEAD /app?x=1 HTTP/1.1\r\nHost: 127.0.0.1:4173\r\nConnection: close\r\n\r\n"
        ))
    );
}

#[test]
fn browser_probe_names_the_host_alone_on_the_default_port() {
    assert_eq!(
        browser_probe_request("http://localhost"),
        Some(String::from("HEAD / HTTP/1.1\r\nHost: localhost\r\nConnection: close\r\n\r\n"))
    );
}

#[test]
fn browser_probe_only_speaks_plain_http() {
    assert_eq!(browser_probe_request("https://127.0.0.1:4173/"), None);
    assert_eq!(browser_probe_request("not a url"), None);
}

#[test]
fn http_answers_start_with_the_protocol_name() {
    assert!(looks_like_http_answer(b"HTTP/1.1 200 OK\r\n"));
    assert!(!looks_like_http_answer(b"SSH-2.0"));
    assert!(!looks_like_http_answer(b"HTTP"));
}

#[test]
fn rate_window_counts_the_last_minute() {
    let mut window = RateWindow::new();
    window.record(0, 2);
    window.record(30_000, 3);

    assert_eq!(window.per_minute(30_000), 5);
    assert_eq!(window.per_minute(70_000), 3);
    window.record(61_000, 0);
    assert_eq!(window.per_minute(61_000), 3);
    window.record(61_000, 4);
    assert_eq!(window.per_minute(61_000), 7);
}

#[test]
fn local_public_key_skips_blank_files() {
    let contents = vec![Some(String::from("  \n")), Some(String::from(" ssh-rsa AAA me \n"))];
    assert_eq!(local_public_key(&contents), Some(String::from("ssh-rsa AAA me")));
    assert_eq!(local_public_key(&vec![None, None]), None);
}

#[test]
fn key_to_authorize_comes_from_the_first_readable_file() {
    let contents = vec![Some(String::from("  \n")), Some(String::from("ssh-rsa AAA me"))];
    assert_eq!(local_key_to_authorize(&contents), None);
    let contents = vec![None, Some(String::from(" ssh-rsa AAA me\n"))];
    assert_eq!(local_key_to_authorize(&contents), Some(String::from("ssh-rsa AAA me")));
}

#[test]
fn key_is_appended_unless_already_authorized() {
    assert!(!key_needs_authorizing(&Some(String::from("ssh-ed25519 K me\n")), "ssh-ed25519 K me"));
    assert!(key_needs_authorizing(&Some(String::from("other\n")), "ssh-ed25519 K me"));
    assert!(key_needs_authorizing(&None, "ssh-ed25519 K me"));
}

#[test]
fn key_is_deployed_through_the_first_manager_that_succeeds() {
    let mut server = scan_server();
    server.manager_type = ContainerManagerType::Unspecified;
    let read_key = || Some(String::from("ssh-ed25519 K me"));
    let run_ssh = |args: &Vec<String>| Ok(args.last().map_or(false, |a| a.contains("lxc exec")));

    let message = auto_deploy_public_key(&server, &scan_home(), "box", "ubuntu", &read_key, &run_ssh);

    assert_eq!(
        message,
        Some(String::from("Automatically deployed local SSH public key to box via qa-dev."))
    );
}

#[test]
fn no_key_is_deployed_without_a_local_key() {
    let server = scan_server();
    let read_key = || None;
    let run_ssh = |_: &Vec<String>| Ok(true);

    assert_eq!(auto_deploy_public_key(&server, &scan_home(), "box", "ubuntu", &read_key, &run_ssh), None);
}

#[test]
fn keys_are_deployed_only_after_a_refused_login() {
    let machines = vec![scan_server()];
    let targets = vec![plain_target("qa-dev::box", "qa-dev", ManagedContainerKind::Managed)];
    let read_key = || Some(String::from("ssh-ed25519 K me"));
    let run_ssh = |_: &Vec<String>| Ok(true);

    assert_eq!(
        maybe_auto_deploy_target_public_key("qa-dev::box", "connection timed out", &targets, &machines, &scan_home(), &read_key, &run_ssh),
        None
    );
    assert_eq!(
        maybe_auto_deploy_target_public_key("qa-dev::box", "Permission denied (publickey)", &targets, &machines, &scan_home(), &read_key, &run_ssh),
        Some(String::from("Automatically deployed local SSH public key to box via qa-dev."))
    );
}

fn inventory_of(targets: Vec<DeveloperTarget>) -> ResolvedInventory {
    ResolvedInventory {
        targets_file: TargetsFile { selected_target_id: None, default_profile: None, targets },
        servers: vec![],
    }
}

#[test]
fn shell_commands_on_a_host_go_through_ssh() {
    let machines = vec![scan_server()];
    let inventory = inventory_of(vec![plain_target("qa-dev::host", "qa-dev", ManagedContainerKind::Host)]);

    let command = target_shell_command("qa-dev::host", &inventory, &machines, "uptime", &scan_home()).unwrap();

    assert!(command.starts_with("ssh "));
    assert!(command.ends_with(" -p 22 david@qa-dev 'uptime'"));
}

#[test]
fn shell_commands_on_an_unlisted_container_run_as_given() {
    let machines = vec![scan_server()];
    let inventory = inventory_of(vec![plain_target("qa-dev::box", "qa-dev", ManagedContainerKind::Managed)]);

    assert_eq!(
        target_shell_command("qa-dev::box", &inventory, &machines, "uptime", &scan_home()),
        Ok(String::from("uptime"))
    );
    assert_eq!(
        target_shell_command("nope", &inventory, &machines, "uptime", &scan_home()),
        Err(String::from("Unknown target: nope"))
    );
    assert_eq!(
        target_shell_command("qa-dev::box", &inventory, &[], "uptime", &scan_home()),
        Err(String::from("Unknown machine for qa-dev::box"))
    );
}

#[test]
fn local_machine_is_probed_over_a_single_hop() {
    let mut server = scan_server();
    server.id = String::from("local");
    server.host = String::from("127.0.0.1");

    let chain = local_machine_probe_chain(&server, &scan_home());

    assert_eq!(chain.len(), 1);
    assert_eq!(chain[0].alias, "local");
    assert_eq!(chain[0].host, "127.0.0.1");
    assert_eq!(chain[0].user, "david");
    assert_eq!(chain[0].host_key_alias, "univers-ark-developer--local--host");
    assert_eq!(chain[0].known_hosts_path, "/home/tester/.ssh/univers-ark-developer-known_hosts");
    assert!(chain[0].credential_id.is_none());
}

#[test]
fn local_machine_is_available_when_the_probe_succeeds() {
    let mut server = scan_server();
    server.host = String::from("127.0.0.1");
    let deploy_key = |_: &str| {};
    let answers = |_: &Vec<univers_ark_developer::chain::EndpointPlan>, command: &str| {
        remote(if command == "printf univers-ark-local-ready" { 0 } else { 1 }, "univers-ark-local-ready", "")
    };
    let silent = |_: &Vec<univers_ark_developer::chain::EndpointPlan>, _: &str| -> Result<RemoteOutput, String> {
        Err(String::from("connection refused"))
    };

    assert!(local_machine_available(&server, &scan_home(), &deploy_key, &answers));
    assert!(!local_machine_available(&server, &scan_home(), &deploy_key, &silent));
    server.ssh_user = String::new();
    assert!(!local_machine_available(&server, &scan_home(), &deploy_key, &answers));
}

#[test]
fn runtime_targets_get_stable_local_ports() {
    let targets = vec![RuntimeTarget {
        id: String::from("t1"),
        label: String::from("T1"),
        host: String::from("qa-dev"),
        description: String::new(),
        terminal_command: String::new(),
        notes: vec![],
        surfaces: vec![
            RuntimeSurface {
                id: String::from("web"),
                label: String::from("Web"),
                tunnel_command: String::from("ssh -NT -L {localPort}:127.0.0.1:3000 qa-dev"),
                local_url: String::from("http://127.0.0.1:{localPort}/"),
                remote_url: String::from("http://127.0.0.1:3000/"),
                vite_hmr_tunnel_command: String::new(),
            },
            RuntimeSurface {
                id: String::from("docs"),
                label: String::from("Docs"),
                tunnel_command: String::new(),
                local_url: String::from("https://docs.example.com/"),
                remote_url: String::new(),
                vite_hmr_tunnel_command: String::new(),
            },
        ],
    }];
    let mut registry = PortRegistry::new();

    let served = read_runtime_targets_file(&targets, &mut registry, |_| true).unwrap();

    assert_eq!(served[0].surfaces[0].tunnel_command, "ssh -NT -L 43988:127.0.0.1:3000 qa-dev");
    assert_eq!(served[0].surfaces[0].local_url, "http://127.0.0.1:43988/");
    assert_eq!(served[0].surfaces[1].local_url, "https://docs.example.com/");
    assert_eq!(registry.get("t1::web"), Some(43988));
}

#[test]
fn starting_status_names_the_surface_in_lower_case() {
    let surface = RuntimeSurface {
        id: String::from("web"),
        label: String::from("Web UI"),
        tunnel_command: String::from("ssh -L 1:2:3 h"),
        local_url: String::from("http://127.0.0.1:43988/"),
        remote_url: String::new(),
        vite_hmr_tunnel_command: String::new(),
    };

    let status = starting_tunnel_status("t1", &surface);

    assert_eq!(status.state, "starting");
    assert_eq!(
        status.message,
        "Starting the web ui tunnel and probing http://127.0.0.1:43988/ for readiness."
    );
}

#[test]
fn app_settings_default_to_the_system_theme() {
    let settings = AppSettings::default();
    assert_eq!(settings.theme_mode, "system");
    assert_eq!(settings.dashboard_refresh_seconds, 30);
}

fn qa_targets_file() -> RawTargetsFile {
    RawTargetsFile {
        selected_target_id: Some(String::from("qa-dev::host")),
        default_profile: None,
        profile_names: vec![],
        machines: vec![scan_server()],
    }
}

fn no_snapshot(id: &str) -> Option<Vec<DiscoveredContainer>> {
    assert_eq!(id, "qa-dev");
    None
}

fn no_host_run(_: &str, _: &str) -> Result<RemoteOutput, String> {
    panic!("no scan expected")
}

fn no_probe(_: &str) -> Result<RemoteOutput, String> {
    panic!("no probe expected")
}

fn no_save(_: &str, _: &Vec<DiscoveredContainer>) {}

#[test]
fn inventory_loads_from_snapshots_without_scanning() {
    let mut cache = None;
    let read_targets = || -> Result<RawTargetsFile, String> { Ok(qa_targets_file()) };

    let inventory = load_inventory(
        &mut cache,
        &read_targets,
        &scan_home(),
        false,
        false,
        &no_host_run,
        &no_list,
        &no_shell,
        &no_info,
        &no_probe,
        &no_snapshot,
        &no_save,
    )
    .unwrap();

    assert_eq!(inventory.targets_file.selected_target_id, Some(String::from("qa-dev::host")));
    assert_eq!(inventory.targets_file.targets.len(), 1);
    assert_eq!(inventory.targets_file.targets[0].id, "qa-dev::host");
    assert_eq!(inventory.servers.len(), 1);
    assert_eq!(inventory.servers[0].state, "checking");
    assert_eq!(
        inventory.servers[0].message,
        "Checking machine host. No managed containers detected."
    );
    let cached = cache.as_ref().expect("the load is cached");
    assert_eq!(cached.servers.len(), 1);
    assert_eq!(cached.targets_file.targets[0].id, "qa-dev::host");
}

#[test]
fn cached_inventory_is_returned_without_reading_the_configuration() {
    let mut cache = None;
    let read_once = || -> Result<RawTargetsFile, String> { Ok(qa_targets_file()) };
    load_inventory(
        &mut cache, &read_once, &scan_home(), false, false, &no_host_run, &no_list, &no_shell,
        &no_info, &no_probe, &no_snapshot, &no_save,
    )
    .unwrap();

    let never_read = || -> Result<RawTargetsFile, String> { panic!("the configuration was read again") };
    let inventory = load_inventory(
        &mut cache, &never_read, &scan_home(), false, false, &no_host_run, &no_list, &no_shell,
        &no_info, &no_probe, &no_snapshot, &no_save,
    )
    .unwrap();

    assert_eq!(inventory.servers[0].id, "qa-dev");
    assert_eq!(inventory.targets_file.selected_target_id, Some(String::from("qa-dev::host")));
}

#[test]
fn cleared_cache_reads_the_configuration_again() {
    let mut cache = None;
    let read_targets = || -> Result<RawTargetsFile, String> { Ok(qa_targets_file()) };
    load_inventory(
        &mut cache, &read_targets, &scan_home(), false, false, &no_host_run, &no_list, &no_shell,
        &no_info, &no_probe, &no_snapshot, &no_save,
    )
    .unwrap();

    clear_targets_cache(&mut cache);
    assert!(cache.is_none());

    let failing = || -> Result<RawTargetsFile, String> { Err(String::from("targets file missing")) };
    let result = load_inventory(
        &mut cache, &failing, &scan_home(), false, false, &no_host_run, &no_list, &no_shell,
        &no_info, &no_probe, &no_snapshot, &no_save,
    );

    assert_eq!(result.err(), Some(String::from("targets file missing")));
    assert!(cache.is_none());
}

fn web_surface() -> RuntimeSurface {
    RuntimeSurface {
        id: String::from("web"),
        label: String::from("Web"),
        tunnel_command: String::from("ssh -NT -L 4173:127.0.0.1:3000 qa-dev"),
        local_url: String::from("http://127.0.0.1:4173/"),
        remote_url: String::from("http://127.0.0.1:3000/"),
        vite_hmr_tunnel_command: String::new(),
    }
}

#[test]
fn watch_goes_on_while_everything_runs() {
    let status = monitor_end("t1", &web_surface(), Some(true), None, ProcessCheck::Running, None);
    assert!(status.is_none());
    let status = monitor_end("t1", &web_surface(), None, None, ProcessCheck::Running, None);
    assert!(status.is_none());
}

#[test]
fn watch_ends_when_the_proxy_stops() {
    let status = monitor_end("t1", &web_surface(), Some(false), None, ProcessCheck::Running, None).unwrap();
    assert_eq!(status.state, "error");
    assert_eq!(status.message, "Web proxy exited unexpectedly.");
    assert_eq!(status.surface_id, "web");
    let status = monitor_end(
        "t1",
        &web_surface(),
        Some(false),
        Some(String::from("bind failed")),
        ProcessCheck::Running,
        None,
    )
    .unwrap();
    assert_eq!(status.message, "bind failed");
}

#[test]
fn watch_ends_when_a_process_ends_or_cannot_be_inspected() {
    let ended = ProcessCheck::Ended {
        label: String::from("Web tunnel"),
        success: false,
        status_text: String::from("exit status: 255"),
    };
    let status = monitor_end("t1", &web_surface(), None, None, ended, Some(String::from("Connection refused"))).unwrap();
    assert_eq!(status.state, "error");
    assert_eq!(status.message, "Web tunnel exited with exit status: 255. Connection refused");

    let stopped = ProcessCheck::Ended {
        label: String::from("Web tunnel"),
        success: true,
        status_text: String::from("exit status: 0"),
    };
    let status = monitor_end("t1", &web_surface(), Some(true), None, stopped, None).unwrap();
    assert_eq!(status.state, "stopped");
    assert_eq!(status.message, "Web tunnel exited.");

    let failed = ProcessCheck::Failed { message: String::from("Failed to monitor Web tunnel process: gone") };
    let status = monitor_end("t1", &web_surface(), None, None, failed, None).unwrap();
    assert_eq!(status.state, "error");
    assert_eq!(status.message, "Failed to monitor Web tunnel process: gone");
}

#[test]
fn surfaces_without_a_tunnel_are_answered_directly() {
    let mut surface = web_surface();
    assert!(tunnel_request_direct("t1", &surface).is_none());
    surface.tunnel_command = String::from("   ");
    let status = tunnel_request_direct("t1", &surface).unwrap();
    assert_eq!(status.state, "direct");
    assert_eq!(status.message, "Web is using the local URL directly.");
}

#[test]
fn existing_sessions_answer_by_whether_they_run() {
    let surface = web_surface();
    let running = existing_session_answer("t1", &surface, Ok(true), true, 10).unwrap().unwrap();
    assert_eq!(running.state, "running");
    assert_eq!(running.message, "Web is forwarding browser traffic to http://127.0.0.1:4173/.");
    let waiting = existing_session_answer("t1", &surface, Ok(true), false, 5000).unwrap().unwrap();
    assert_eq!(waiting.state, "starting");
    assert_eq!(waiting.message, "Web tunnel is up, waiting for http://127.0.0.1:4173/ to accept connections.");
    assert!(existing_session_answer("t1", &surface, Ok(false), true, 10).unwrap().is_none());
    assert_eq!(
        existing_session_answer("t1", &surface, Err(String::from("lost")), true, 10).err(),
        Some(String::from("lost"))
    );
}

#[test]
fn authorizing_the_key_twice_appends_it_once() {
    let key = "ssh-ed25519 AAAA me@host";
    let first = authorized_keys_addition(&Some(String::from("ssh-rsa BBBB other\n")), key);
    assert_eq!(first, Some(String::from("ssh-ed25519 AAAA me@host\n")));
    let after = format!("ssh-rsa BBBB other\n{}", first.unwrap());
    assert_eq!(authorized_keys_addition(&Some(after), key), None);
    assert_eq!(authorized_keys_addition(&None, key), Some(String::from("ssh-ed25519 AAAA me@host\n")));
}

#[test]
fn refreshed_loads_save_what_each_scan_found() {
    let mut server = scan_server();
    server.discovery_mode = ContainerDiscoveryMode::HostOnly;
    let file = RawTargetsFile {
        selected_target_id: None,
        default_profile: None,
        profile_names: vec![],
        machines: vec![server],
    };
    let read_targets = || -> Result<RawTargetsFile, String> { Ok(file.clone()) };
    let probe = |_: &str| -> Result<RemoteOutput, String> {
        Ok(RemoteOutput { exit_status: 0, stdout: String::new(), stderr: String::new() })
    };
    let saved = std::cell::RefCell::new(Vec::new());
    let save = |id: &str, containers: &Vec<DiscoveredContainer>| {
        saved.borrow_mut().push((id.to_string(), containers.len()));
    };
    let mut cache = None;
    let inventory = load_inventory(
        &mut cache, &read_targets, &scan_home(), true, false, &no_host_run, &no_list, &no_shell,
        &no_info, &probe, &no_snapshot, &save,
    )
    .unwrap();

    assert_eq!(saved.borrow().clone(), vec![(String::from("qa-dev"), 0)]);
    assert_eq!(inventory.servers.len(), 1);
    assert!(cache.is_some());
}
