use wazuh_agent_installer::enrollment::{
    client_keys_path, enrollment_state, ossec_conf_path, parse_enrollment_agent_name,
    parse_enrollment_manager,
};
use wazuh_agent_installer::platform::Os;

const CONF: &str = "<ossec_config>\n  <client>\n    <server>\n      <address> manager.example.com </address>\n    </server>\n";

#[test]
fn agent_name_from_keys() {
    assert_eq!(
        parse_enrollment_agent_name("\n  \n001 my-host any 0123abcd\n002 other any k\n"),
        Some("my-host".to_string())
    );
}

#[test]
fn agent_name_missing() {
    assert_eq!(parse_enrollment_agent_name("001\n002 late any k\n"), None);
    assert_eq!(parse_enrollment_agent_name(""), None);
    assert_eq!(parse_enrollment_agent_name("\n \t\n"), None);
}

#[test]
fn manager_from_conf() {
    assert_eq!(parse_enrollment_manager(CONF), Some("manager.example.com".to_string()));
    assert_eq!(parse_enrollment_manager("  <address></address>  "), Some(String::new()));
}

#[test]
fn manager_unclosed_tag() {
    assert_eq!(parse_enrollment_manager("<address>x\n<address>y</address>"), None);
    assert_eq!(parse_enrollment_manager("<server>\n</server>"), None);
}

#[test]
fn enrollment_state_enrolled() {
    let s = enrollment_state("001 host any k\n", &Some(CONF.to_string()));
    assert!(s.enrolled);
    assert_eq!(s.agent_name, Some("host".to_string()));
    assert_eq!(s.manager, Some("manager.example.com".to_string()));
    let t = enrollment_state("001 host any k\n", &None);
    assert!(t.enrolled);
    assert_eq!(t.manager, None);
}

#[test]
fn enrollment_state_not_enrolled() {
    let s = enrollment_state("", &Some(CONF.to_string()));
    assert!(!s.enrolled);
    assert_eq!(s.agent_name, None);
    assert_eq!(s.manager, None);
}

#[test]
fn enrollment_files() {
    assert_eq!(client_keys_path(Os::Linux), "/var/ossec/etc/client.keys");
    assert_eq!(ossec_conf_path(Os::MacOs), "/Library/Ossec/etc/ossec.conf");
    assert_eq!(client_keys_path(Os::Windows), "C:\\Program Files (x86)\\ossec-agent\\client.keys");
}
