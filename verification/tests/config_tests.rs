use wazuh_agent_installer::config::{log_file_name, user_config_dir, AppConfig};
use wazuh_agent_installer::platform::Os;
use wazuh_agent_installer::text::{decimal_chars, lowercase_string, str_eq, string_of_all};
use wazuh_agent_installer::tray::{tray_click_action, tray_menu_action, TrayAction};

#[test]
fn default_app_config() {
    let c = AppConfig::default();
    assert_eq!(c.wazuh_manager_url, "manager.wazuh.adorsys.team");
    assert_eq!(c.wazuh_oauth_issuer, "https://login.wazuh.adorsys.team/realms/adorsys");
    assert_eq!(c.wazuh_cert_endpoint, "https://cert.wazuh.adorsys.team/api/register-agent");
    assert_eq!(c.netbird_management_url, "https://netbird.guard.adorsys.com");
}

#[test]
fn user_config_directory() {
    assert_eq!(
        user_config_dir(Os::Linux, "/home/u"),
        Some("/home/u/.config/com.adorsys.wazuh-agent-installer".to_string())
    );
    assert_eq!(
        user_config_dir(Os::MacOs, "/Users/u/"),
        Some("/Users/u/Library/Application Support/com.adorsys.wazuh-agent-installer".to_string())
    );
    assert_eq!(user_config_dir(Os::Linux, ""), None);
}

#[test]
fn saved_log_file_name() {
    assert_eq!(log_file_name("install"), "wazuh-install-logs.txt");
    assert_eq!(log_file_name(""), "wazuh--logs.txt");
}

#[test]
fn tray_menu() {
    assert_eq!(tray_menu_action("show"), TrayAction::ShowWindow);
    assert_eq!(tray_menu_action("quit"), TrayAction::Quit);
    assert_eq!(tray_menu_action("Show"), TrayAction::Nothing);
}

#[test]
fn tray_click() {
    assert_eq!(tray_click_action(true, true, true), TrayAction::HideWindow);
    assert_eq!(tray_click_action(true, true, false), TrayAction::ShowWindow);
    assert_eq!(tray_click_action(true, false, false), TrayAction::Nothing);
    assert_eq!(tray_click_action(false, true, true), TrayAction::Nothing);
}

#[test]
fn decimal_text() {
    assert_eq!(string_of_all(&decimal_chars(0)), "0");
    assert_eq!(string_of_all(&decimal_chars(4294967295)), "4294967295");
    assert_eq!(string_of_all(&decimal_chars(100)), "100");
}

#[test]
fn lowercase_and_equality() {
    assert_eq!(lowercase_string("\u{c0}B\u{23a}"), "\u{e0}b\u{2c65}");
    assert!(str_eq("abc", "abc"));
    assert!(!str_eq("abc", "abd"));
}
