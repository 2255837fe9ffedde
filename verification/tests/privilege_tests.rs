use wazuh_agent_installer::platform::Os;
use wazuh_agent_installer::privilege::{after_sudo_validation, authorize, Authorization};

fn pw(p: &str) -> Option<String> {
    Some(p.to_string())
}

#[test]
fn no_sudo_on_windows_or_as_root() {
    assert!(matches!(authorize(Os::Windows, false, &None), Authorization::RunDirectly));
    assert!(matches!(authorize(Os::Linux, true, &None), Authorization::RunDirectly));
    assert!(matches!(authorize(Os::MacOs, true, &pw("x")), Authorization::RunDirectly));
}

#[test]
fn password_required_without_root() {
    for p in [None, pw("")] {
        match authorize(Os::Linux, false, &p) {
            Authorization::Refuse(m) => assert_eq!(m, "An administrator password is required"),
            _ => panic!("expected a refusal"),
        }
    }
    assert!(matches!(authorize(Os::MacOs, false, &None), Authorization::Refuse(_)));
}

#[test]
fn password_checked_first() {
    match authorize(Os::Linux, false, &pw("secret")) {
        Authorization::ValidateSudo(c) => {
            assert_eq!(c.program, "sudo");
            assert_eq!(c.args, vec!["-k", "-S", "-p", "", "-v"]);
            assert!(!c.args.iter().any(|a| a.contains("secret")));
        }
        _ => panic!("expected the password check"),
    }
}

#[test]
fn after_password_check() {
    assert!(matches!(after_sudo_validation(true), Authorization::RunWithSudo));
    match after_sudo_validation(false) {
        Authorization::Refuse(m) => assert_eq!(m, "Sudo authentication failed"),
        _ => panic!("expected a refusal"),
    }
}
