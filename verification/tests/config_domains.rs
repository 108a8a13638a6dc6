use weezterm::overlay_data::{
    devcontainers_from_config, domains_from_config, to_config_ssh_domain, DevContainerDomainConfig,
    DomainSource, SshBackend, SshDomain, SshDomainConfig, SshMultiplexing,
};

fn runtime_domain(name: &str, user: Option<&str>, mux: SshMultiplexing, backend: Option<SshBackend>) -> SshDomain {
    SshDomain {
        name: name.to_string(),
        remote_address: format!("{}.example:22", name),
        username: user.map(|u| u.to_string()),
        multiplexing: mux,
        ssh_backend: backend,
        no_agent_auth: true,
        connect_automatically: false,
    }
}

#[test]
fn lua_domains_become_read_only_overlay_entries() {
    let domains = vec![
        runtime_domain("alpha", Some("me"), SshMultiplexing::WezTerm, Some(SshBackend::Ssh2)),
        runtime_domain("beta", None, SshMultiplexing::Direct, None),
    ];
    let entries = domains_from_config(&domains);
    assert_eq!(entries.len(), 2);
    assert_eq!(entries[0].config.name, "alpha");
    assert_eq!(entries[0].config.remote_address, "alpha.example:22");
    assert_eq!(entries[0].config.username, "me");
    assert_eq!(entries[0].config.multiplexing, "WezTerm");
    assert_eq!(entries[0].config.ssh_backend, "Ssh2");
    assert!(entries[0].config.no_agent_auth);
    assert!(!entries[0].config.connect_automatically);
    assert_eq!(entries[0].source, DomainSource::Lua);
    assert!(!entries[0].expanded);
    assert_eq!(entries[1].config.username, "");
    assert_eq!(entries[1].config.multiplexing, "None");
    assert_eq!(entries[1].config.ssh_backend, "LibSsh");
}

#[test]
fn no_lua_domains_give_no_entries() {
    assert!(domains_from_config(&vec![]).is_empty());
}

#[test]
fn overlay_domain_survives_a_runtime_round_trip() {
    let dom = SshDomainConfig {
        name: "work".to_string(),
        remote_address: "work.example".to_string(),
        username: String::new(),
        multiplexing: "None".to_string(),
        ssh_backend: "Ssh2".to_string(),
        no_agent_auth: false,
        connect_automatically: true,
    };
    let back = domains_from_config(&vec![to_config_ssh_domain(&dom)]);
    assert_eq!(back[0].config, dom);
}

#[test]
fn lua_devcontainers_fill_defaults_for_unset_fields() {
    let with_ssh = DevContainerDomainConfig {
        name: "dev".to_string(),
        ssh: Some(runtime_domain("host", Some("root"), SshMultiplexing::WezTerm, Some(SshBackend::LibSsh))),
        default_workspace_folder: Some("/src".to_string()),
        default_container: None,
        docker_command: "podman".to_string(),
        devcontainer_command: "devcontainer".to_string(),
        default_shell: Some("zsh".to_string()),
        override_user: None,
        poll_interval_secs: 120,
        auto_discover: false,
    };
    let local = DevContainerDomainConfig {
        name: "local".to_string(),
        ssh: None,
        default_workspace_folder: None,
        default_container: Some("app".to_string()),
        docker_command: "docker".to_string(),
        devcontainer_command: "dc".to_string(),
        default_shell: None,
        override_user: Some("dev".to_string()),
        poll_interval_secs: 0,
        auto_discover: true,
    };
    let entries = devcontainers_from_config(&vec![with_ssh, local]);
    assert_eq!(entries.len(), 2);
    let a = &entries[0].config;
    assert_eq!(a.name, "dev");
    assert_eq!(a.ssh.name, "host");
    assert_eq!(a.ssh.username, "root");
    assert_eq!(a.ssh.multiplexing, "WezTerm");
    assert_eq!(a.ssh.ssh_backend, "LibSsh");
    assert_eq!(a.default_workspace_folder, "/src");
    assert_eq!(a.default_container, "");
    assert_eq!(a.docker_command, "podman");
    assert_eq!(a.default_shell, "zsh");
    assert_eq!(a.override_user, "");
    assert_eq!(a.poll_interval_secs, "120");
    assert!(!a.auto_discover);
    assert_eq!(entries[0].source, DomainSource::Lua);
    let b = &entries[1].config;
    assert_eq!(b.ssh, SshDomainConfig::default());
    assert_eq!(b.default_container, "app");
    assert_eq!(b.override_user, "dev");
    assert_eq!(b.poll_interval_secs, "0");
    assert!(b.auto_discover);
    assert!(!entries[1].expanded);
}
