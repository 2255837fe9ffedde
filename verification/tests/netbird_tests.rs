use wazuh_agent_installer::command::Stdio;
use wazuh_agent_installer::netbird::{
    netbird_fallback_candidates, netbird_state_from_fields, netbird_state_from_status,
    netbird_status_command, StatusFields,
};
use wazuh_agent_installer::platform::Os;

#[test]
fn status_failed_is_offline() {
    let s = netbird_state_from_status(false, "{\"daemonStatus\":\"Connected\"}").ok().unwrap();
    assert_eq!(s.daemon_status, None);
    assert_eq!(s.netbird_ip, None);
    assert!(!s.management_connected);
}

#[test]
fn status_report_read() {
    let json = r#"{"daemonStatus":"Connected","netbirdIp":"100.64.0.1/16","management":{"connected":true}}"#;
    let s = netbird_state_from_status(true, json).ok().unwrap();
    assert_eq!(s.daemon_status, Some("Connected".to_string()));
    assert_eq!(s.netbird_ip, Some("100.64.0.1/16".to_string()));
    assert!(s.management_connected);
}

#[test]
fn status_report_empty_ip_and_missing_flags() {
    let s = netbird_state_from_status(true, r#"{"netbirdIp":"","management":{"connected":"yes"}}"#)
        .ok()
        .unwrap();
    assert_eq!(s.daemon_status, None);
    assert_eq!(s.netbird_ip, None);
    assert!(!s.management_connected);
}

#[test]
fn status_report_not_json() {
    let e = netbird_state_from_status(true, "not json").err().unwrap();
    assert!(!e.is_empty());
}

#[test]
fn state_from_fields() {
    let s = netbird_state_from_fields(StatusFields {
        daemon_status: Some("Idle".to_string()),
        netbird_ip: Some(String::new()),
        management_connected: None,
    });
    assert_eq!(s.daemon_status, Some("Idle".to_string()));
    assert_eq!(s.netbird_ip, None);
    assert!(!s.management_connected);
}

#[test]
fn status_program_fallback() {
    assert_eq!(netbird_status_command(Os::Linux, false, &vec![false, true]).program, "/usr/local/bin/netbird");
    assert_eq!(netbird_status_command(Os::Linux, true, &vec![true, true]).program, "netbird");
    assert_eq!(netbird_status_command(Os::Linux, false, &vec![false, false]).program, "netbird");
    let c = netbird_status_command(Os::Windows, false, &vec![true, false]);
    assert_eq!(c.program, "C:\\Program Files\\Netbird\\netbird.exe");
    assert_eq!(c.args, vec!["status", "-j"]);
    assert_eq!(c.stdin, Stdio::Null);
    assert_eq!(c.stdout, Stdio::Piped);
    assert_eq!(c.stderr, Stdio::Piped);
    assert_eq!(netbird_fallback_candidates(Os::MacOs), vec!["/usr/bin/netbird", "/usr/local/bin/netbird"]);
}
