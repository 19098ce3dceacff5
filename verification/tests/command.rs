use aether_gui::aether::command::{configure_command, prepare_command};
use aether_gui::aether::profiles::ConnectionProfile;
use portable_pty::CommandBuilder;

fn profile() -> ConnectionProfile {
    ConnectionProfile {
        args: vec!["--protocol".to_string(), "masque".to_string()],
        masque_http2: true,
        service_auth: true,
        access_client_id: " id.access ".to_string(),
        access_client_secret: "\tsecret\n".to_string(),
        zero_trust_env: Some(("AETHER_TEAM".to_string(), "team".to_string())),
        bind_address: "127.0.0.1:1080".to_string(),
        connect_timeout_ms: 60_000,
    }
}

fn env(cmd: &CommandBuilder, name: &str) -> Option<String> {
    cmd.get_env(name).map(|v| v.to_string_lossy().into_owned())
}

fn argv(cmd: &CommandBuilder) -> Vec<String> {
    cmd.get_argv()
        .iter()
        .map(|a| a.to_string_lossy().into_owned())
        .collect()
}

#[test]
fn a_command_carries_its_arguments_and_directory() {
    let cmd = prepare_command("/opt/aether", "/tmp", &profile());
    assert_eq!(argv(&cmd), ["/opt/aether", "--protocol", "masque"]);
    assert_eq!(cmd.get_cwd().unwrap().to_string_lossy(), "/tmp");
}

#[test]
fn a_service_token_goes_into_the_environment_only() {
    let cmd = prepare_command("aether", "/tmp", &profile());
    assert_eq!(env(&cmd, "AETHER_ACCESS_CLIENT_ID").unwrap(), "id.access");
    assert_eq!(env(&cmd, "AETHER_ACCESS_CLIENT_SECRET").unwrap(), "secret");
    assert_eq!(env(&cmd, "AETHER_TEAM"), None);
    assert!(argv(&cmd).iter().all(|a| !a.contains("secret")));
}

#[test]
fn without_a_full_token_the_other_way_in_is_used() {
    for (service, id, secret) in [
        (false, "id", "secret"),
        (true, "  ", "secret"),
        (true, "id", "\n"),
    ] {
        let mut p = profile();
        p.service_auth = service;
        p.access_client_id = id.to_string();
        p.access_client_secret = secret.to_string();
        let cmd = prepare_command("aether", "/tmp", &p);
        assert_eq!(env(&cmd, "AETHER_ACCESS_CLIENT_ID"), None);
        assert_eq!(env(&cmd, "AETHER_ACCESS_CLIENT_SECRET"), None);
        assert_eq!(env(&cmd, "AETHER_TEAM").unwrap(), "team");
        p.zero_trust_env = None;
        let cmd = prepare_command("aether", "/tmp", &p);
        assert_eq!(env(&cmd, "AETHER_TEAM"), None);
    }
}

#[test]
fn the_environment_is_set_up_and_otherwise_kept() {
    let mut cmd = CommandBuilder::new("aether");
    for name in [
        "HTTP_PROXY",
        "http_proxy",
        "HTTPS_PROXY",
        "https_proxy",
        "ALL_PROXY",
        "all_proxy",
    ] {
        cmd.env(name, "http://127.0.0.1:8080");
    }
    cmd.env("NO_PROXY", "localhost");
    cmd.env("AETHER_MASQUE_HTTP2", "maybe");
    configure_command(&mut cmd, &profile());
    for name in [
        "HTTP_PROXY",
        "http_proxy",
        "HTTPS_PROXY",
        "https_proxy",
        "ALL_PROXY",
        "all_proxy",
    ] {
        assert_eq!(env(&cmd, name), None);
    }
    assert_eq!(env(&cmd, "NO_PROXY").unwrap(), "localhost");
    assert_eq!(env(&cmd, "AETHER_MASQUE_HTTP2").unwrap(), "1");
    let mut p = profile();
    p.masque_http2 = false;
    configure_command(&mut cmd, &p);
    assert_eq!(env(&cmd, "AETHER_MASQUE_HTTP2").unwrap(), "0");
}
