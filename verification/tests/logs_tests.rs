use wazuh_agent_installer::logs::{
    classify_line, connected_in_lowercase, enroll_line_action, install_line_done,
    level_of_lowercase, make_log_line, netbird_line_action,
};
use wazuh_agent_installer::outcome::{task_reached_goal, task_result, Task};

#[test]
fn classify_ignores_case() {
    assert_eq!(classify_line("ERROR: disk full"), "error");
    assert_eq!(classify_line("Installation Completed"), "success");
    assert_eq!(classify_line("bash: foo: Command Not Found"), "error");
}

#[test]
fn classify_error_wins_over_success() {
    assert_eq!(classify_line("[SUCCESS] step done, then it failed"), "error");
}

#[test]
fn classify_plain_line_is_info() {
    assert_eq!(classify_line("Downloading package"), "info");
    assert_eq!(classify_line("successfully"), "success");
}

#[test]
fn blank_lines_are_not_shown() {
    assert!(make_log_line("   \t").is_none());
    assert!(make_log_line("").is_none());
}

#[test]
fn shown_line_keeps_text_and_level() {
    let l = make_log_line("  [ERROR] boom ").unwrap();
    assert_eq!(l.line, "  [ERROR] boom ");
    assert_eq!(l.level, "error");
}

#[test]
fn install_done_line() {
    assert!(install_line_done("[INFO] Wazuh setup has been completed successfully!"));
    assert!(!install_line_done("Wazuh setup has been completed"));
}

#[test]
fn enroll_browser_line() {
    let a = enroll_line_action("Opened your default browser to: https://login/realms/x  ");
    assert_eq!(a.open_url, Some("https://login/realms/x".to_string()));
    assert!(!a.finished);
    let b = enroll_line_action("Opened your default browser to:    ");
    assert_eq!(b.open_url, None);
}

#[test]
fn enroll_realm_address_line() {
    let a = enroll_line_action("  https://idp.example/realms/adorsys/auth  ");
    assert_eq!(a.open_url, Some("https://idp.example/realms/adorsys/auth".to_string()));
    let b = enroll_line_action("https://example.com/other");
    assert_eq!(b.open_url, None);
}

#[test]
fn enroll_done_lines() {
    assert!(enroll_line_action("[2024-05-01] Done!").finished);
    assert!(enroll_line_action("  Done!  ").finished);
    assert!(!enroll_line_action("Done").finished);
}

#[test]
fn netbird_connected_lines() {
    assert!(netbird_line_action("  Connected ").finished);
    assert!(netbird_line_action("Management: CONNECTED").finished);
    assert!(!netbird_line_action("Disconnected").finished);
    assert!(!netbird_line_action("connecting").finished);
}

#[test]
fn netbird_login_address() {
    let a = netbird_line_action("  https://login.example/realms/r/device  ");
    assert_eq!(a.open_url, Some("https://login.example/realms/r/device".to_string()));
    assert!(!a.finished);
}

#[test]
fn outcome_messages() {
    let r = task_result(Task::Install, true, Some(0));
    assert!(r.success);
    assert_eq!(r.exit_code, 0);
    assert_eq!(r.message, "Installation complete");
    let r = task_result(Task::Enroll, false, None);
    assert!(!r.success);
    assert_eq!(r.exit_code, -1);
    assert_eq!(r.message, "Enrollment failed");
    let r = task_result(Task::NetbirdUp, false, Some(2));
    assert_eq!(r.exit_code, 2);
    assert_eq!(r.message, "NetBird connection failed");
    let r = task_result(Task::Install, false, Some(1));
    assert_eq!(r.message, "Installation failed");
}

#[test]
fn outcome_goal_reached() {
    let r = task_reached_goal(Task::NetbirdUp);
    assert!(r.success);
    assert_eq!(r.exit_code, 0);
    assert_eq!(r.message, "NetBird connected successfully");
    assert_eq!(task_reached_goal(Task::Enroll).message, "Enrollment complete");
}

#[test]
fn level_of_lowercased_text() {
    assert_eq!(level_of_lowercase("[error] x"), "error");
    assert_eq!(level_of_lowercase("all completed"), "success");
    assert_eq!(level_of_lowercase("plain"), "info");
    // the marks are matched as given: upper case is not lowered again
    assert_eq!(level_of_lowercase("FAILED"), "info");
    assert_eq!(level_of_lowercase("COMPLETED"), "info");
}

#[test]
fn connection_in_lowercased_text() {
    assert!(connected_in_lowercase("connected"));
    assert!(!connected_in_lowercase("disconnected"));
    assert!(!connected_in_lowercase("CONNECTED"));
    assert!(!connected_in_lowercase(""));
}
