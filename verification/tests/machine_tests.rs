use univers_ark_developer::chain::accept_new_host_keys;
use univers_ark_developer::inventory::merge_discovered_container_with_manual_config;
use univers_ark_developer::local_machine::build_local_machine_config;
use univers_ark_developer::model::{
    BrowserServiceType, BrowserSurface, ContainerDiscoveryMode, ContainerManagerType,
    ContainerWorkspace, DiscoveredContainer, MachineContainerConfig, MachineTransport,
    ManagedContainer, ManagedContainerKind, RawTargetsFile, RemoteContainerServer,
};
use univers_ark_developer::projection::{build_target_from_container, server_state_for_containers};
use univers_ark_developer::sources::parse_discovered_containers;
use univers_ark_developer::ssh::{ssh_destination, UserHome};
use univers_ark_developer::ssh_users::{
    parse_discovered_container_users, preferred_available_container_ssh_users,
};

fn empty_workspace() -> ContainerWorkspace {
    ContainerWorkspace::empty()
}

fn fixture_server() -> RemoteContainerServer {
    RemoteContainerServer {
        id: String::from("mechanism-dev"),
        label: String::from("Mechanism"),
        transport: MachineTransport::Ssh,
        host: String::from("mechanism-dev"),
        port: 22,
        description: String::from("Mechanism development server."),
        os: String::new(),
        manager_type: ContainerManagerType::Lxd,
        discovery_mode: ContainerDiscoveryMode::Auto,
        discovery_command: String::new(),
        ssh_user: String::from("david"),
        container_ssh_user: String::from("ubuntu"),
        identity_files: vec![],
        ssh_credential_id: String::new(),
        jump_chain: vec![],
        known_hosts_path: String::new(),
        strict_host_key_checking: false,
        container_name_suffix: String::from("-dev"),
        include_stopped: false,
        target_label_template: String::new(),
        target_host_template: String::from("{serverHost}"),
        target_description_template: String::new(),
        host_terminal_startup_command: String::new(),
        terminal_command_template: String::new(),
        notes: vec![String::from("SSH target: {sshUser}@{containerIp} via {serverHost}.")],
        workspace: empty_workspace(),
        services: vec![],
        surfaces: vec![BrowserSurface {
            id: String::from("development"),
            label: String::from("Development"),
            service_type: BrowserServiceType::Vite,
            background_prerender: true,
            tunnel_command: String::from(
                "ssh {sshOptions} -NT -L {localPort}:127.0.0.1:3432 -J {serverHost} {sshUser}@{containerIp}",
            ),
            local_url: String::from("http://127.0.0.1:{localPort}/"),
            remote_url: String::from("http://127.0.0.1:3432/"),
            vite_hmr_tunnel_command: String::from(
                "ssh {sshOptions} -NT -L {localPort}:127.0.0.1:3433 -J {serverHost} {sshUser}@{containerIp}",
            ),
        }],
        containers: vec![],
    }
}

fn qa_server() -> RemoteContainerServer {
    RemoteContainerServer {
        id: String::from("qa-dev"),
        label: String::from("QA"),
        transport: MachineTransport::Ssh,
        host: String::from("qa-dev"),
        port: 22,
        description: String::new(),
        os: String::new(),
        manager_type: ContainerManagerType::Lxd,
        discovery_mode: ContainerDiscoveryMode::Auto,
        discovery_command: String::new(),
        ssh_user: String::from("david"),
        container_ssh_user: String::from("david"),
        identity_files: vec![],
        ssh_credential_id: String::new(),
        jump_chain: vec![],
        known_hosts_path: String::new(),
        strict_host_key_checking: false,
        container_name_suffix: String::new(),
        include_stopped: false,
        target_label_template: String::new(),
        target_host_template: String::new(),
        target_description_template: String::new(),
        host_terminal_startup_command: String::new(),
        terminal_command_template: String::new(),
        notes: vec![],
        workspace: empty_workspace(),
        services: vec![],
        surfaces: vec![],
        containers: vec![],
    }
}

fn infra_server(strict_host_key_checking: bool) -> RemoteContainerServer {
    RemoteContainerServer {
        id: String::from("infra-dev"),
        label: String::from("Infra Dev"),
        transport: MachineTransport::Ssh,
        host: String::from("legion-ubuntu.mink-ph.ts.net"),
        port: 22,
        description: String::new(),
        os: String::new(),
        manager_type: ContainerManagerType::Unspecified,
        discovery_mode: ContainerDiscoveryMode::HostOnly,
        discovery_command: String::new(),
        ssh_user: String::from("david"),
        container_ssh_user: String::from("david"),
        identity_files: vec![],
        ssh_credential_id: String::new(),
        jump_chain: vec![],
        known_hosts_path: String::from("~/.univers/known_hosts"),
        strict_host_key_checking,
        container_name_suffix: String::new(),
        include_stopped: false,
        target_label_template: String::new(),
        target_host_template: String::from("{machineHost}"),
        target_description_template: String::new(),
        host_terminal_startup_command: String::new(),
        terminal_command_template: String::new(),
        notes: vec![],
        workspace: empty_workspace(),
        services: vec![],
        surfaces: vec![],
        containers: vec![],
    }
}

fn maintenance_container() -> DiscoveredContainer {
    DiscoveredContainer {
        id: String::from("maintenance-dev"),
        kind: ManagedContainerKind::Managed,
        name: String::from("maintenance-dev"),
        source: String::from("lxd"),
        ssh_user: String::new(),
        ssh_user_candidates: vec![],
        status: String::from("RUNNING"),
        ipv4: String::from("10.0.0.2"),
        label: None,
        description: None,
        workspace: None,
        services: vec![],
        surfaces: vec![],
    }
}

fn workflow_container() -> DiscoveredContainer {
    DiscoveredContainer {
        id: String::from("workflow-dev"),
        kind: ManagedContainerKind::Managed,
        name: String::from("workflow-dev"),
        source: String::from("lxd"),
        ssh_user: String::from("ubuntu"),
        ssh_user_candidates: vec![String::from("ubuntu"), String::from("root")],
        status: String::from("RUNNING"),
        ipv4: String::from("10.211.82.202"),
        label: None,
        description: None,
        workspace: None,
        services: vec![],
        surfaces: vec![],
    }
}

fn test_home() -> UserHome {
    UserHome { path: Some(String::from("/home/tester")), windows: false }
}

#[test]
fn relaxed_host_key_checking_accepts_new_keys() {
    assert!(!accept_new_host_keys(&infra_server(false)));
    assert!(accept_new_host_keys(&infra_server(true)));
}

#[test]
fn discovery_prefers_available_container_users_over_stale_machine_default() {
    let server = qa_server();
    let container = maintenance_container();
    let users = preferred_available_container_ssh_users(
        &server,
        &container,
        vec![String::from("root"), String::from("ubuntu")],
    );
    assert_eq!(users, vec![String::from("ubuntu"), String::from("root")]);
}

#[test]
fn discovery_parses_direct_container_user_query_output() {
    let users = parse_discovered_container_users("ubuntu\nroot\nubuntu\n");
    assert_eq!(users, vec![String::from("ubuntu"), String::from("root")]);
}

#[test]
fn ssh_users_prefers_available_container_users_over_stale_machine_default() {
    let server = qa_server();
    let container = maintenance_container();
    let users = preferred_available_container_ssh_users(
        &server,
        &container,
        vec![String::from("root"), String::from("ubuntu")],
    );
    assert_eq!(users, vec![String::from("ubuntu"), String::from("root")]);
}

#[test]
fn ssh_users_parses_direct_container_user_query_output() {
    let users = parse_discovered_container_users("ubuntu\nroot\nubuntu\n");
    assert_eq!(users, vec![String::from("ubuntu"), String::from("root")]);
}

#[test]
fn mod_prefers_available_container_users_over_stale_machine_default() {
    let server = qa_server();
    let container = maintenance_container();
    let users = preferred_available_container_ssh_users(
        &server,
        &container,
        vec![String::from("root"), String::from("ubuntu")],
    );
    assert_eq!(users, vec![String::from("ubuntu"), String::from("root")]);
}

#[test]
fn mod_parses_direct_container_user_query_output() {
    let users = parse_discovered_container_users("ubuntu\nroot\nubuntu\n");
    assert_eq!(users, vec![String::from("ubuntu"), String::from("root")]);
}

#[test]
fn local_sync_preserves_user_managed_fields() {
    let raw_targets_file = RawTargetsFile {
        selected_target_id: Some(String::from("local::host")),
        default_profile: Some(String::from("ark-workbench")),
        profile_names: vec![],
        machines: vec![],
    };
    let existing_machine = RemoteContainerServer {
        id: String::from("local"),
        label: String::from("My Local"),
        transport: MachineTransport::Ssh,
        host: String::from("127.0.0.1"),
        port: 2222,
        description: String::from("Customized local provider"),
        os: String::from("linux"),
        manager_type: ContainerManagerType::Orbstack,
        discovery_mode: ContainerDiscoveryMode::Manual,
        discovery_command: String::from("custom-scan"),
        ssh_user: String::from("davidxu"),
        container_ssh_user: String::from("ubuntu"),
        identity_files: vec![String::from("~/.ssh/custom")],
        ssh_credential_id: String::from("ssh-key"),
        jump_chain: vec![],
        known_hosts_path: String::from("~/.ssh/custom_known_hosts"),
        strict_host_key_checking: false,
        container_name_suffix: String::new(),
        include_stopped: true,
        target_label_template: String::new(),
        target_host_template: String::from("{machineHost}"),
        target_description_template: String::new(),
        host_terminal_startup_command: String::from("exec /opt/homebrew/bin/fish -l"),
        terminal_command_template: String::from("ssh {sshOptions} {sshDestination}"),
        notes: vec![String::from("hello")],
        workspace: ContainerWorkspace {
            profile: String::from("custom-profile"),
            default_tool: String::from("services"),
            project_path: String::from("~/repos/demo"),
            files_root: String::from("~/repos/demo"),
            primary_web_service_id: String::from("dev"),
            tmux_command_service_id: String::from("tmux"),
        },
        services: vec![],
        surfaces: vec![],
        containers: vec![],
    };

    let merged = build_local_machine_config(
        &raw_targets_file,
        Some(existing_machine),
        "davidxu",
        String::from("linux"),
    );

    assert_eq!(merged.id, "local");
    assert_eq!(merged.host, "127.0.0.1");
    assert_eq!(merged.transport, MachineTransport::Ssh);
    assert_eq!(merged.label, "My Local");
    assert_eq!(merged.port, 2222);
    assert_eq!(merged.manager_type, ContainerManagerType::Orbstack);
    assert_eq!(merged.discovery_mode, ContainerDiscoveryMode::Manual);
    assert_eq!(merged.host_terminal_startup_command, "exec /opt/homebrew/bin/fish -l");
    assert_eq!(merged.workspace.profile, "custom-profile");
    assert_eq!(merged.ssh_credential_id, "ssh-key");
}

#[test]
fn parses_running_dev_containers_from_lxd_csv() {
    let server = fixture_server();
    let discovery_output = "\
automation-dev,RUNNING,10.211.82.78 (eth0)\n\
runtime-dev,RUNNING,10.211.82.38 (eth0)\n\
tooling,STOPPED,\n\
workflow-dev,RUNNING,10.211.82.202 (eth0)\n";

    let containers = parse_discovered_containers(&server, discovery_output, None).unwrap();

    assert_eq!(containers.len(), 3);
    assert_eq!(containers[0].name, "automation-dev");
    assert_eq!(containers[0].ipv4, "10.211.82.78");
    assert_eq!(containers[1].name, "runtime-dev");
    assert_eq!(containers[2].name, "workflow-dev");
}

#[test]
fn prefers_eth0_address_from_multiline_csv_field() {
    let server = fixture_server();
    let discovery_output = "\
env-dev,RUNNING,\"172.17.0.1 (docker0)\n\
10.197.97.142 (eth0)\"\n";

    let containers = parse_discovered_containers(&server, discovery_output, None).unwrap();

    assert_eq!(containers.len(), 1);
    assert_eq!(containers[0].name, "env-dev");
    assert_eq!(containers[0].ipv4, "10.197.97.142");
}

#[test]
fn renders_terminal_and_tunnel_commands_for_discovered_container() {
    let server = fixture_server();
    let container = workflow_container();
    let home = test_home();

    let target = build_target_from_container(&server, &container, &home);

    assert_eq!(target.id, "mechanism-dev::workflow-dev");
    assert_eq!(target.label, "Workflow");
    assert_eq!(target.host, "mechanism-dev");
    let expected_known_hosts_file = "/home/tester/.ssh/univers-ark-developer-known_hosts";
    let expected_terminal_command = format!(
        "ssh -o UserKnownHostsFile={expected_known_hosts_file} -o HostKeyAlias=univers-ark-developer--mechanism-dev--workflow-dev -o StrictHostKeyChecking=no -tt -J david@mechanism-dev -p 22 ubuntu@10.211.82.202 'exec /bin/zsh -l || exec /bin/bash -l || exec /bin/sh -l'"
    );
    assert_eq!(target.terminal_command, expected_terminal_command);
    assert_eq!(
        target.surfaces[0].tunnel_command,
        format!(
            "ssh -o UserKnownHostsFile={expected_known_hosts_file} -o HostKeyAlias=univers-ark-developer--mechanism-dev--workflow-dev -o StrictHostKeyChecking=no -NT -L {{localPort}}:127.0.0.1:3432 -J mechanism-dev ubuntu@10.211.82.202"
        )
    );
}

#[test]
fn uses_tmux_startup_for_ark_workbench_container_profiles() {
    let mut server = fixture_server();
    server.workspace.profile = String::from("ark-workbench");
    let container = workflow_container();

    let target = build_target_from_container(&server, &container, &test_home());

    assert_eq!(
        target.terminal_startup_command,
        "tmux-mobile-view attach || exec /bin/zsh -l || exec /bin/bash -l || exec /bin/sh -l"
    );
    assert!(target.terminal_command.contains("tmux-mobile-view attach"));
}

#[test]
fn scan_prefers_detected_container_user_over_stale_saved_user() {
    let server = fixture_server();
    let discovered = DiscoveredContainer {
        id: String::from("automation-dev"),
        kind: ManagedContainerKind::Managed,
        name: String::from("automation-dev"),
        source: String::from("lxd"),
        ssh_user: String::from("ubuntu"),
        ssh_user_candidates: vec![String::from("ubuntu"), String::from("root")],
        status: String::from("RUNNING"),
        ipv4: String::from("10.211.82.78"),
        label: None,
        description: None,
        workspace: None,
        services: vec![],
        surfaces: vec![],
    };
    let existing = MachineContainerConfig {
        id: String::from("automation-dev"),
        name: String::from("automation-dev"),
        kind: ManagedContainerKind::Managed,
        enabled: true,
        source: String::from("lxd"),
        ssh_user: String::from("david"),
        ssh_user_candidates: vec![String::from("david"), String::from("ubuntu")],
        label: String::new(),
        description: String::new(),
        ipv4: String::from("10.211.82.78"),
        status: String::from("RUNNING"),
        workspace: empty_workspace(),
        services: vec![],
        surfaces: vec![],
    };

    let value = merge_discovered_container_with_manual_config(&server, &discovered, Some(&existing));

    assert_eq!(value.ssh_user, "ubuntu");
    assert_eq!(
        value.ssh_user_candidates,
        vec![String::from("ubuntu"), String::from("root"), String::from("david")]
    );
}

fn managed_entry(
    container_id: &str,
    label: &str,
    ipv4: &str,
) -> ManagedContainer {
    ManagedContainer {
        server_id: String::from("mechanism-dev"),
        server_label: String::from("Mechanism"),
        container_id: String::from(container_id),
        kind: ManagedContainerKind::Managed,
        transport: MachineTransport::Ssh,
        target_id: format!("mechanism-dev::{container_id}"),
        name: String::from(container_id),
        label: String::from(label),
        status: String::from("RUNNING"),
        ipv4: String::from(ipv4),
        ssh_user: String::from("ubuntu"),
        ssh_destination: format!("ubuntu@{ipv4}"),
        ssh_command: format!("ssh -J mechanism-dev ubuntu@{ipv4}"),
        ssh_state: String::from("ready"),
        ssh_message: String::from("SSH ready via mechanism-dev."),
        ssh_reachable: true,
    }
}

#[test]
fn builds_ready_server_state_from_reachable_containers() {
    let containers = vec![
        managed_entry("automation-dev", "Automation", "10.211.82.78"),
        managed_entry("runtime-dev", "Runtime", "10.211.82.38"),
    ];

    let (state, message) = server_state_for_containers(&containers);

    assert_eq!(state, "ready");
    assert!(message.contains("2 development container(s)"));
}

#[test]
fn computes_ssh_destination() {
    assert_eq!(ssh_destination("10.1.2.3", "ubuntu"), "ubuntu@10.1.2.3");
}

#[test]
fn identity_paths_expand_home_prefix() {
    let home = test_home();
    let paths = univers_ark_developer::chain::identity_paths(&home, &[String::from("~/.ssh/id_ed25519")]);
    assert_eq!(paths, vec![String::from("/home/tester/.ssh/id_ed25519")]);
}
