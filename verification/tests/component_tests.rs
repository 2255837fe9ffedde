use wazuh_agent_installer::component::{
    check_component_unix, check_component_windows, check_netbird_unix, check_suricata_unix,
    component_list, component_version_command, unix_candidates, version_command_if_installed,
    windows_candidates, windows_probe,
};
use wazuh_agent_installer::platform::Os;

#[test]
fn linux_component_list() {
    let l = component_list(Os::Linux);
    assert_eq!(l.len(), 6);
    assert_eq!(l[0], ("Wazuh Agent".to_string(), "/var/ossec/bin/wazuh-agentd".to_string()));
    assert_eq!(l[4], ("Suricata".to_string(), "/usr/bin/suricata".to_string()));
    let w = component_list(Os::Windows);
    assert_eq!(w[3], ("YARA".to_string(), "yara64.exe".to_string()));
    let m = component_list(Os::MacOs);
    assert_eq!(m[5], ("NetBird".to_string(), "/usr/local/bin/netbird".to_string()));
}

#[test]
fn netbird_found_in_fallback() {
    assert_eq!(
        check_netbird_unix("/usr/bin/netbird", &vec![false, false, true]),
        (true, "/usr/local/bin/netbird".to_string())
    );
    assert_eq!(
        check_netbird_unix("/x/netbird", &vec![false, false, false]),
        (false, "/x/netbird".to_string())
    );
    assert_eq!(
        check_netbird_unix("/x/netbird", &vec![true, true, true]),
        (true, "/x/netbird".to_string())
    );
}

#[test]
fn suricata_found_in_homebrew() {
    assert_eq!(
        check_suricata_unix("/usr/local/bin/suricata", &vec![false, false, false, true]),
        (true, "/opt/homebrew/bin/suricata".to_string())
    );
}

#[test]
fn other_component_unix() {
    assert_eq!(unix_candidates("YARA", "/usr/local/bin/yara"), vec!["/usr/local/bin/yara"]);
    assert_eq!(
        check_component_unix("YARA", "/usr/local/bin/yara", &vec![true]),
        (true, "/usr/local/bin/yara".to_string())
    );
    assert_eq!(unix_candidates("NetBird", "/p").len(), 3);
    assert_eq!(unix_candidates("Suricata", "/p").len(), 4);
}

#[test]
fn wazuh_agent_windows_check() {
    let p = "C:\\Program Files (x86)\\ossec-agent\\wazuh-agent.exe";
    assert_eq!(
        windows_candidates("Wazuh Agent", p),
        vec![p.to_string(), "C:\\Program Files (x86)\\ossec-agent\\ossec-agent.exe".to_string()]
    );
    assert_eq!(check_component_windows("Wazuh Agent", p, &vec![false, true], false), (true, p.to_string()));
    assert_eq!(check_component_windows("Wazuh Agent", p, &vec![false, false], true), (true, p.to_string()));
    assert_eq!(check_component_windows("Wazuh Agent", p, &vec![false, false], false), (false, p.to_string()));
    let probe = windows_probe("Wazuh Agent", p).unwrap();
    assert_eq!(probe.program, "sc");
    assert_eq!(probe.args, vec!["query", "WazuhSvc"]);
}

#[test]
fn netbird_windows_check() {
    assert_eq!(
        check_component_windows("NetBird", "netbird.exe", &vec![false, true], false),
        (true, "C:\\Program Files (x86)\\Netbird\\netbird.exe".to_string())
    );
    assert_eq!(
        check_component_windows("NetBird", "netbird.exe", &vec![false, false], true),
        (true, "netbird.exe".to_string())
    );
    let probe = windows_probe("YARA", "yara64.exe").unwrap();
    assert_eq!(probe.program, "yara64.exe");
    assert_eq!(probe.args, vec!["--help"]);
    assert!(windows_probe("Agent Status Monitor", "C:\\x\\wazuh-agent-status.exe").is_none());
    assert_eq!(
        check_component_windows("Agent Status Monitor", "C:\\s.exe", &vec![true], false),
        (true, "C:\\s.exe".to_string())
    );
}

#[test]
fn wazuh_version_command_unix() {
    let c = component_version_command("Wazuh Agent", "/var/ossec/bin/wazuh-agentd", Os::Linux);
    assert_eq!(c.program, "/var/ossec/bin/wazuh-control");
    assert_eq!(c.args, vec!["info"]);
    let c = component_version_command("Wazuh Agent", "/opt/ossec-agentd", Os::MacOs);
    assert_eq!(c.program, "/opt/wazuh-control");
}

#[test]
fn wazuh_version_command_windows() {
    let c = component_version_command("Wazuh Agent", "C:\\w\\wazuh-agent.exe", Os::Windows);
    assert_eq!(c.program, "powershell");
    assert_eq!(
        c.args,
        vec![
            "-NoProfile",
            "-Command",
            "(Get-Item 'C:\\w\\wazuh-agent.exe').VersionInfo.ProductVersion"
        ]
    );
}

#[test]
fn other_version_commands() {
    assert_eq!(component_version_command("Suricata", "/s", Os::Linux).args, vec!["-V"]);
    assert_eq!(component_version_command("NetBird", "/n", Os::Linux).args, vec!["version"]);
    let c = component_version_command("YARA", "/y", Os::Linux);
    assert_eq!(c.program, "/y");
    assert_eq!(c.args, vec!["--version"]);
}

#[test]
fn version_read_only_when_installed() {
    assert!(version_command_if_installed("YARA", &(false, "/usr/local/bin/yara".to_string()), Os::Linux).is_none());
    let c = version_command_if_installed("NetBird", &(true, "/opt/nb/netbird".to_string()), Os::Linux)
        .expect("a command");
    assert_eq!(c.program, "/opt/nb/netbird");
    assert_eq!(c.args, vec!["version"]);
    let w = version_command_if_installed("Wazuh Agent", &(true, "/var/ossec/bin/wazuh-agentd".to_string()), Os::Linux)
        .expect("a command");
    assert_eq!(w.program, "/var/ossec/bin/wazuh-control");
    assert_eq!(w.args, vec!["info"]);
}
