use wazuh_agent_installer::platform::Os;
use wazuh_agent_installer::version::{
    parse_component_version, parse_default_version, parse_netbird_version,
    parse_suricata_version, parse_wazuh_agent_version, parse_yara_version,
    suricata_version_given_lowercase, try_parse_component_version, try_parse_suricata_version,
};

fn s(x: &str) -> Option<String> {
    Some(x.to_string())
}

#[test]
fn yara_first_line_trimmed() {
    assert_eq!(parse_yara_version("4.5.0\n"), s("4.5.0"));
    assert_eq!(parse_yara_version("  4.3.2  \r\nmore text\n"), s("4.3.2"));
}

#[test]
fn yara_empty_output_is_empty_version() {
    assert_eq!(parse_yara_version(""), s(""));
    assert_eq!(parse_yara_version("\n"), s(""));
}

#[test]
fn suricata_word_after_version() {
    assert_eq!(parse_suricata_version("This is Suricata version 7.0.2 RELEASE\n"), s("7.0.2"));
}

#[test]
fn suricata_version_marker_ignores_case() {
    assert_eq!(parse_suricata_version("SURICATA VERSION (7.0.1)"), s("7.0.1"));
}

#[test]
fn suricata_word_after_name() {
    assert_eq!(parse_suricata_version("Suricata 6.0.10\n"), s("6.0.10"));
}

#[test]
fn suricata_name_followed_by_version_word_falls_back() {
    assert_eq!(parse_suricata_version("Suricata version"), s("Suricata version"));
}

#[test]
fn suricata_unknown_output_is_trimmed_text() {
    assert_eq!(parse_suricata_version("  something else  \n"), s("something else"));
}

#[test]
fn suricata_offsets_come_from_the_lowercased_bytes() {
    // U+023A lowercases to U+2C65, one byte longer, so the cut falls one
    // byte per such character further into the given text.
    assert_eq!(parse_suricata_version("\u{23a}\u{23a}version 1.0"), s("0"));
}

#[test]
fn suricata_cut_inside_a_character_is_refused() {
    assert_eq!(try_parse_suricata_version("\u{23a}version \u{e9}\u{e9}\u{e9}"), None);
    assert_eq!(try_parse_suricata_version("Suricata version 7.0.2"), Some(s("7.0.2")));
    assert_eq!(
        try_parse_component_version("Suricata", "\u{23a}version \u{e9}\u{e9}\u{e9}", Os::Linux),
        None
    );
}

#[test]
fn wazuh_version_from_control_info() {
    let out = "WAZUH_VERSION=\"v4.7.2\"\nWAZUH_REVISION=\"40720\"\nWAZUH_TYPE=\"agent\"\n";
    assert_eq!(parse_wazuh_agent_version(out, Os::Linux), s("v4.7.2"));
}

#[test]
fn wazuh_version_from_banner() {
    assert_eq!(parse_wazuh_agent_version("Wazuh v4.8.0 (agent)", Os::Linux), s("4.8.0"));
    assert_eq!(parse_wazuh_agent_version("Wazuh v", Os::MacOs), s(""));
}

#[test]
fn wazuh_version_unterminated_quote() {
    assert_eq!(parse_wazuh_agent_version("WAZUH_VERSION=\"4.7", Os::Windows), None);
}

#[test]
fn wazuh_version_windows_product_version() {
    assert_eq!(parse_wazuh_agent_version("4.7.2.0\r\n", Os::Windows), s("4.7.2.0"));
    assert_eq!(parse_wazuh_agent_version("4.7.2.0\r\n", Os::Linux), None);
    assert_eq!(parse_wazuh_agent_version("   ", Os::Windows), None);
}

#[test]
fn netbird_version_first_line() {
    assert_eq!(parse_netbird_version("\n 0.28.4 \nmore\n"), s("0.28.4"));
    assert_eq!(parse_netbird_version("   \n "), None);
}

#[test]
fn default_version_picks_version_token() {
    assert_eq!(
        parse_default_version("wazuh-agent-status version 1.2.3\n"),
        s("1.2.3")
    );
}

#[test]
fn default_version_falls_back_to_line() {
    assert_eq!(
        parse_default_version("no digits here\nbuilt 2024-01-15 v2\n"),
        s("built 2024-01-15 v2")
    );
}

#[test]
fn default_version_skips_dates_and_paths() {
    assert_eq!(
        parse_default_version("tool 1.0-rc-1.2 /usr/lib/x.1"),
        s("tool 1.0-rc-1.2 /usr/lib/x.1")
    );
    assert_eq!(parse_default_version("tool 2024-01-15.1 v3.2"), s("v3.2"));
    assert_eq!(parse_default_version("tool 1-2.3"), s("1-2.3"));
}

#[test]
fn default_version_without_digits() {
    assert_eq!(parse_default_version("abc\ndef"), None);
    assert_eq!(parse_default_version(""), None);
}

#[test]
fn component_version_dispatch() {
    assert_eq!(parse_component_version("YARA", "4.5.0\n", Os::Linux), s("4.5.0"));
    assert_eq!(
        parse_component_version("OAuth2 Client", "wazuh-cert-oauth2-client 0.2.15", Os::Linux),
        s("0.2.15")
    );
    assert_eq!(parse_component_version("NetBird", "0.30.1\n", Os::MacOs), s("0.30.1"));
    assert_eq!(
        parse_component_version("Wazuh Agent", "12.3.4", Os::Windows),
        s("12.3.4")
    );
    assert_eq!(
        try_parse_component_version("Suricata", "Suricata 7.0.0", Os::Linux),
        Some(s("7.0.0"))
    );
}

#[test]
fn suricata_reading_given_its_lowercase_form() {
    let out = "This is Suricata version 7.0.2 RELEASE";
    assert_eq!(
        suricata_version_given_lowercase(out, "this is suricata version 7.0.2 release"),
        Some(s("7.0.2"))
    );
    // markers are searched in the lowercase form only
    assert_eq!(
        suricata_version_given_lowercase(" Suricata VERSION 7 ", " Suricata VERSION 7 "),
        Some(s("Suricata VERSION 7"))
    );
    assert_eq!(suricata_version_given_lowercase("Suricata 6.0.1", "suricata 6.0.1"), Some(s("6.0.1")));
    assert_eq!(suricata_version_given_lowercase("xxxxxxxxq", "version q"), Some(s("q")));
    assert_eq!(suricata_version_given_lowercase("\u{e9}", "version "), None);
}

#[test]
fn default_version_none_exactly_without_digits() {
    assert_eq!(parse_default_version("no digits here\nnone at all"), None);
    assert_eq!(parse_default_version(""), None);
    assert_eq!(parse_default_version("tool\r\nbuild 7\r\n"), s("build 7"));
    assert_eq!(parse_default_version("name\n  v 1.2.3 (x)\nother 9.9"), s("1.2.3"));
}
