//! The installer's own settings and where it keeps its files.
use vstd::prelude::*;
use crate::platform::Os;
use crate::text::{concat, ends_with};

verus! {

broadcast use vstd::string::group_string_axioms;

/// The endpoints the installer offers by default.
pub struct AppConfig {
    pub wazuh_manager_url: String,
    pub wazuh_oauth_issuer: String,
    pub wazuh_cert_endpoint: String,
    pub netbird_management_url: String,
}

impl Default for AppConfig {
    fn default() -> (r: Self)
        ensures
            r.wazuh_manager_url@ == "manager.wazuh.adorsys.team"@,
            r.wazuh_oauth_issuer@ == "https://login.wazuh.adorsys.team/realms/adorsys"@,
            r.wazuh_cert_endpoint@ == "https://cert.wazuh.adorsys.team/api/register-agent"@,
            r.netbird_management_url@ == "https://netbird.guard.adorsys.com"@,
    {
        AppConfig {
            wazuh_manager_url: "manager.wazuh.adorsys.team".to_owned(),
            wazuh_oauth_issuer: "https://login.wazuh.adorsys.team/realms/adorsys".to_owned(),
            wazuh_cert_endpoint: "https://cert.wazuh.adorsys.team/api/register-agent".to_owned(),
            netbird_management_url: "https://netbird.guard.adorsys.com".to_owned(),
        }
    }
}

/// `base` joined with the relative path `rel`, as `PathBuf::push` does on
/// Unix: a `/` is put between them unless `base` already ends with one.
pub open spec fn path_join(base: Seq<char>, rel: Seq<char>) -> Seq<char> {
    if ends_with(base, seq!['/']) {
        base + rel
    } else {
        base + seq!['/'] + rel
    }
}

/// Where the user's configuration directory lies inside their home.
pub open spec fn user_config_subdir(os: Os) -> Seq<char> {
    if os == Os::MacOs {
        "Library/Application Support/com.adorsys.wazuh-agent-installer"@
    } else {
        ".config/com.adorsys.wazuh-agent-installer"@
    }
}

/// The directory in which the installer keeps `config.json` for the user
/// whose home is `home` (on Unix), or none when `home` is empty.
pub fn user_config_dir(os: Os, home: &str) -> (r: Option<String>)
    ensures
        r.deep_view() == if home@.len() == 0 {
            None
        } else {
            Some(path_join(home@, user_config_subdir(os)))
        },
{
    if home.is_empty() {
        return None;
    }
    let rel = if os == Os::MacOs {
        "Library/Application Support/com.adorsys.wazuh-agent-installer"
    } else {
        ".config/com.adorsys.wazuh-agent-installer"
    };
    let h = crate::text::chars_of(home);
    let slash = vec!['/'];
    assert(slash@ =~= seq!['/']);
    assert(h@.subrange(0, h.len() as int) =~= h@);
    if crate::text::range_ends_with(&h, 0, h.len(), &slash) {
        Some(concat(home, rel))
    } else {
        let with_slash = concat(home, "/");
        proof {
            reveal_strlit("/");
            assert("/"@ =~= seq!['/']);
        }
        Some(concat(with_slash.as_str(), rel))
    }
}

/// The user's configuration directory lies in their home: under
/// `Library/Application Support` on macOS and under `.config` elsewhere, in
/// the installer's own `com.adorsys.wazuh-agent-installer` directory, with
/// one `/` after the home directory.
pub proof fn law_user_config_dir(os: Os, home: Seq<char>)
    ensures
        (!ends_with(home, seq!['/']) && os == Os::MacOs) ==> path_join(home, user_config_subdir(os))
            == home + "/Library/Application Support/com.adorsys.wazuh-agent-installer"@,
        (!ends_with(home, seq!['/']) && os != Os::MacOs) ==> path_join(home, user_config_subdir(os))
            == home + "/.config/com.adorsys.wazuh-agent-installer"@,
        ends_with(home, seq!['/']) ==> path_join(home, user_config_subdir(os)) == home
            + user_config_subdir(os),
{
    reveal_strlit("/Library/Application Support/com.adorsys.wazuh-agent-installer");
    reveal_strlit("Library/Application Support/com.adorsys.wazuh-agent-installer");
    reveal_strlit("/.config/com.adorsys.wazuh-agent-installer");
    reveal_strlit(".config/com.adorsys.wazuh-agent-installer");
    assert(seq!['/'] + "Library/Application Support/com.adorsys.wazuh-agent-installer"@
        =~= "/Library/Application Support/com.adorsys.wazuh-agent-installer"@);
    assert(seq!['/'] + ".config/com.adorsys.wazuh-agent-installer"@
        =~= "/.config/com.adorsys.wazuh-agent-installer"@);
    assert(home + seq!['/'] + "Library/Application Support/com.adorsys.wazuh-agent-installer"@
        =~= home + "/Library/Application Support/com.adorsys.wazuh-agent-installer"@);
    assert(home + seq!['/'] + ".config/com.adorsys.wazuh-agent-installer"@
        =~= home + "/.config/com.adorsys.wazuh-agent-installer"@);
}

/// The name of the file in which logs with `prefix` are saved.
pub open spec fn log_file(prefix: Seq<char>) -> Seq<char> {
    "wazuh-"@ + prefix + "-logs.txt"@
}

pub fn log_file_name(prefix: &str) -> (r: String)
    ensures
        r@ == log_file(prefix@),
{
    let a = concat("wazuh-", prefix);
    concat(a.as_str(), "-logs.txt")
}

} // verus!
