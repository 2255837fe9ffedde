use wazuh_agent_installer::command::{
    browser_launch, build_enroll_command, build_install_command, build_netbird_up_command,
    homebrew_path_value, is_executable_mode, setup_script_name, sudo_stdin, sudo_validate_command,
    with_sudo, BrowserLaunch, CommandSpec, InstallConfig, Stdio,
};
use wazuh_agent_installer::platform::Os;

fn config(netbird: bool) -> InstallConfig {
    InstallConfig {
        wazuh_manager: "mgr.example".to_string(),
        wazuh_agent_name: "host-1".to_string(),
        log_level: "INFO".to_string(),
        ids_engine: "suricata".to_string(),
        suricata_mode: "ids".to_string(),
        install_netbird: netbird,
        oauth_issuer: "https://issuer".to_string(),
        cert_endpoint: "https://cert".to_string(),
    }
}

fn pairs(v: &[(&str, &str)]) -> Vec<(String, String)> {
    v.iter().map(|(a, b)| (a.to_string(), b.to_string())).collect()
}

#[test]
fn install_command_unix() {
    let c = build_install_command(&config(true), "/tmp/setup.sh", Os::Linux, &None, false);
    assert_eq!(c.program, "bash");
    assert_eq!(c.args, vec!["/tmp/setup.sh", "-b"]);
    assert_eq!(
        c.envs,
        pairs(&[
            ("WAZUH_MANAGER", "mgr.example"),
            ("WAZUH_AGENT_NAME", "host-1"),
            ("IDS_ENGINE", "suricata"),
            ("SURICATA_MODE", "ids"),
        ])
    );
    assert_eq!(c.stdin, Stdio::Null);
    assert_eq!(c.stdout, Stdio::Piped);
    assert_eq!(c.stderr, Stdio::Piped);
}

#[test]
fn install_command_macos_path() {
    let c = build_install_command(&config(false), "/s.sh", Os::MacOs, &Some("/usr/bin".to_string()), false);
    assert_eq!(c.args, vec!["/s.sh"]);
    assert_eq!(c.envs.len(), 5);
    assert_eq!(
        c.envs[4],
        ("PATH".to_string(), "/opt/homebrew/bin:/usr/local/bin:/usr/bin".to_string())
    );
}

#[test]
fn install_command_windows() {
    let c = build_install_command(&config(true), "C:\\s.ps1", Os::Windows, &None, false);
    assert_eq!(c.program, "powershell");
    assert_eq!(
        c.args,
        vec!["-NoProfile", "-ExecutionPolicy", "Bypass", "-File", "C:\\s.ps1", "-InstallNetBird"]
    );
    assert!(c.envs.is_empty());
}

#[test]
fn default_homebrew_path() {
    assert_eq!(
        homebrew_path_value(&None),
        "/opt/homebrew/bin:/usr/local/bin:/usr/bin:/bin:/usr/sbin:/sbin"
    );
}

#[test]
fn enroll_command_args() {
    let c = build_enroll_command("iss", "ep", true, Os::Linux, &None, false);
    assert_eq!(c.program, "/var/ossec/bin/wazuh-cert-oauth2-client");
    assert_eq!(c.args, vec!["o-auth2", "--issuer", "iss", "--endpoint", "ep", "--overwrite", "true"]);
    assert!(c.envs.is_empty());
    let w = build_enroll_command("i", "e", false, Os::Windows, &None, false);
    assert_eq!(w.program, "C:\\Program Files (x86)\\ossec-agent\\wazuh-cert-oauth2-client.exe");
    assert_eq!(w.args, vec!["o-auth2", "--issuer", "i", "--endpoint", "e"]);
    let m = build_enroll_command("i", "e", false, Os::MacOs, &Some("/bin".to_string()), false);
    assert_eq!(m.program, "/Library/Ossec/bin/wazuh-cert-oauth2-client");
    assert_eq!(m.envs, pairs(&[("PATH", "/opt/homebrew/bin:/usr/local/bin:/bin")]));
}

#[test]
fn netbird_up_defaults() {
    let c = build_netbird_up_command("  ", " ", Os::Linux, &None, false);
    assert_eq!(c.program, "netbird");
    assert_eq!(c.args, vec!["up", "--management-url", "https://api.netbird.io:443"]);
    assert_eq!(
        c.envs,
        pairs(&[("PATH", "/opt/homebrew/bin:/usr/local/bin:/usr/bin:/bin:/usr/sbin:/sbin")])
    );
    assert_eq!(c.stdin, Stdio::Inherit);
}

#[test]
fn netbird_up_with_key() {
    let c = build_netbird_up_command("KEY-1", "https://nb.example", Os::Windows, &None, false);
    assert_eq!(c.program, "netbird.exe");
    assert_eq!(
        c.args,
        vec!["up", "--management-url", "https://nb.example", "--setup-key", "KEY-1"]
    );
    assert!(c.envs.is_empty());
}

#[test]
fn browser_as_pkexec_user() {
    match browser_launch(Os::Linux, &Some("1000".to_string()), &Some("bob".to_string()), "https://u") {
        BrowserLaunch::Wait(c) => {
            assert_eq!(c.program, "sudo");
            assert_eq!(c.args, vec!["-u", "#1000", "xdg-open", "https://u"]);
        }
        _ => panic!("expected a sudo command"),
    }
}

#[test]
fn browser_as_sudo_user() {
    match browser_launch(Os::Linux, &None, &Some("bob".to_string()), "https://u") {
        BrowserLaunch::Wait(c) => assert_eq!(c.args, vec!["-u", "bob", "xdg-open", "https://u"]),
        _ => panic!("expected a sudo command"),
    }
}

#[test]
fn browser_other_platforms() {
    assert!(matches!(browser_launch(Os::Linux, &None, &None, "u"), BrowserLaunch::SystemOpener));
    assert!(matches!(browser_launch(Os::Windows, &Some("1".to_string()), &None, "u"), BrowserLaunch::SystemOpener));
    match browser_launch(Os::MacOs, &None, &None, "https://u") {
        BrowserLaunch::Spawn(c) => {
            assert_eq!(c.program, "open");
            assert_eq!(c.args, vec!["https://u"]);
            assert_eq!(c.stdout, Stdio::Null);
        }
        _ => panic!("expected open"),
    }
}

#[test]
fn setup_script_names() {
    assert_eq!(setup_script_name(Os::Windows), "setup-agent.ps1");
    assert_eq!(setup_script_name(Os::Linux), "setup-agent.sh");
    assert!(is_executable_mode(0o100755));
    assert!(is_executable_mode(0o100001));
    assert!(!is_executable_mode(0o100644));
}

#[test]
fn install_command_through_sudo() {
    let c = build_install_command(&config(true), "/tmp/setup.sh", Os::Linux, &None, true);
    assert_eq!(c.program, "sudo");
    assert_eq!(
        c.args,
        vec![
            "-S",
            "-p",
            "",
            "env",
            "WAZUH_MANAGER=mgr.example",
            "WAZUH_AGENT_NAME=host-1",
            "IDS_ENGINE=suricata",
            "SURICATA_MODE=ids",
            "bash",
            "/tmp/setup.sh",
            "-b",
        ]
    );
    assert!(c.envs.is_empty());
    assert_eq!(c.stdin, Stdio::Piped);
    assert_eq!(c.stdout, Stdio::Piped);
    assert_eq!(c.stderr, Stdio::Piped);
}

#[test]
fn install_command_through_sudo_macos() {
    let c = build_install_command(&config(false), "/s.sh", Os::MacOs, &Some("/usr/bin".to_string()), true);
    assert_eq!(c.program, "sudo");
    assert_eq!(c.args[8], "PATH=/opt/homebrew/bin:/usr/local/bin:/usr/bin");
    assert_eq!(&c.args[9..], &["bash".to_string(), "/s.sh".to_string()]);
    assert_eq!(c.stdin, Stdio::Piped);
}

#[test]
fn enroll_and_netbird_through_sudo() {
    let e = build_enroll_command("iss", "ep", false, Os::Linux, &None, true);
    assert_eq!(
        e.args,
        vec![
            "-S",
            "-p",
            "",
            "env",
            "/var/ossec/bin/wazuh-cert-oauth2-client",
            "o-auth2",
            "--issuer",
            "iss",
            "--endpoint",
            "ep",
        ]
    );
    assert_eq!(e.stdin, Stdio::Piped);
    let n = build_netbird_up_command("K", "", Os::Linux, &None, true);
    assert_eq!(n.program, "sudo");
    assert_eq!(
        n.args,
        vec![
            "-S",
            "-p",
            "",
            "env",
            "PATH=/opt/homebrew/bin:/usr/local/bin:/usr/bin:/bin:/usr/sbin:/sbin",
            "netbird",
            "up",
            "--management-url",
            "https://api.netbird.io:443",
            "--setup-key",
            "K",
        ]
    );
    assert_eq!(n.stdin, Stdio::Piped);
}

#[test]
fn sudo_wraps_any_command() {
    let c = CommandSpec {
        program: "prog".to_string(),
        args: vec!["a b".to_string()],
        envs: pairs(&[("X", "1=2")]),
        stdin: Stdio::Inherit,
        stdout: Stdio::Null,
        stderr: Stdio::Inherit,
    };
    let s = with_sudo(c);
    assert_eq!(s.program, "sudo");
    assert_eq!(s.args, vec!["-S", "-p", "", "env", "X=1=2", "prog", "a b"]);
    assert!(s.envs.is_empty());
    assert_eq!(s.stdin, Stdio::Piped);
    assert_eq!(s.stdout, Stdio::Null);
    assert_eq!(s.stderr, Stdio::Inherit);
}

#[test]
fn sudo_password_check() {
    let c = sudo_validate_command();
    assert_eq!(c.program, "sudo");
    assert_eq!(c.args, vec!["-k", "-S", "-p", "", "-v"]);
    assert!(c.envs.is_empty());
    assert_eq!(c.stdin, Stdio::Piped);
    assert_eq!(c.stdout, Stdio::Null);
    assert_eq!(c.stderr, Stdio::Piped);
    assert_eq!(sudo_stdin("s3cr et"), "s3cr et\n");
    assert_eq!(sudo_stdin(""), "\n");
}
