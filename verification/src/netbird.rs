//! The state of the NetBird client, read from `netbird status -j`.
use vstd::prelude::*;
use crate::command::{push_text, text_pairs, texts, CommandSpec, Stdio};
use crate::component::{first_existing, pick_existing};
use crate::platform::Os;

verus! {

broadcast use vstd::string::group_string_axioms;

/// What the installer reads of NetBird's status report: `daemonStatus`
/// and `netbirdIp` where they are strings, and `management.connected`
/// where it is a boolean.
pub struct StatusFields {
    pub daemon_status: Option<String>,
    pub netbird_ip: Option<String>,
    pub management_connected: Option<bool>,
}

/// The plain values of a status report.
pub open spec fn fields_view(f: StatusFields) -> (Option<Seq<char>>, Option<Seq<char>>, Option<bool>) {
    (f.daemon_status.deep_view(), f.netbird_ip.deep_view(), f.management_connected)
}

/// What `serde_json` reads from a status report `text`: the fields above
/// when `text` is JSON, else the message of its error. The JSON grammar
/// and the messages take pages to state.
pub uninterp spec fn status_json(text: Seq<char>) -> Result<
    (Option<Seq<char>>, Option<Seq<char>>, Option<bool>),
    Seq<char>,
>;

/// `serde_json::from_str::<serde_json::Value>` on the report, then the
/// report's fields by `Value`'s indexing, `as_str` and `as_bool`. Trusted:
/// the result is `status_json` of the text, a function of the text alone.
#[verifier::external_body]
fn read_status_json(text: &str) -> (r: Result<StatusFields, String>)
    ensures
        match r {
            Ok(f) => status_json(text@) == Ok::<
                (Option<Seq<char>>, Option<Seq<char>>, Option<bool>),
                Seq<char>,
            >(fields_view(f)),
            Err(e) => status_json(text@) == Err::<
                (Option<Seq<char>>, Option<Seq<char>>, Option<bool>),
                Seq<char>,
            >(e@),
        },
{
    match serde_json::from_str::<serde_json::Value>(text) {
        Ok(parsed) => Ok(
            StatusFields {
                daemon_status: parsed["daemonStatus"].as_str().map(|s| s.to_string()),
                netbird_ip: parsed["netbirdIp"].as_str().map(|s| s.to_string()),
                management_connected: parsed["management"]["connected"].as_bool(),
            },
        ),
        Err(e) => Err(e.to_string()),
    }
}

/// What the installer reports of NetBird.
pub struct NetbirdState {
    pub daemon_status: Option<String>,
    pub netbird_ip: Option<String>,
    pub management_connected: bool,
}

/// The state reported from the fields of a status report: an empty
/// address counts as none, and a missing connection flag as not connected.
pub open spec fn state_of_fields(f: (Option<Seq<char>>, Option<Seq<char>>, Option<bool>)) -> (
    Option<Seq<char>>,
    Option<Seq<char>>,
    bool,
) {
    (
        f.0,
        match f.1 {
            Some(ip) => if ip.len() > 0 {
                Some(ip)
            } else {
                None
            },
            None => None,
        },
        match f.2 {
            Some(b) => b,
            None => false,
        },
    )
}

/// The plain values of a state.
pub open spec fn state_view(s: NetbirdState) -> (Option<Seq<char>>, Option<Seq<char>>, bool) {
    (s.daemon_status.deep_view(), s.netbird_ip.deep_view(), s.management_connected)
}

pub fn netbird_state_from_fields(f: StatusFields) -> (r: NetbirdState)
    ensures
        state_view(r) == state_of_fields(fields_view(f)),
{
    let netbird_ip = match f.netbird_ip {
        Some(ip) => if ip.as_str().is_empty() {
            None
        } else {
            Some(ip)
        },
        None => None,
    };
    let management_connected = match f.management_connected {
        Some(b) => b,
        None => false,
    };
    NetbirdState { daemon_status: f.daemon_status, netbird_ip, management_connected }
}

/// The state when `netbird status` did not succeed.
pub fn netbird_offline() -> (r: NetbirdState)
    ensures
        state_view(r) == (None::<Seq<char>>, None::<Seq<char>>, false),
{
    NetbirdState { daemon_status: None, netbird_ip: None, management_connected: false }
}

/// NetBird's state from whether `netbird status -j` succeeded and what it
/// printed: offline when it failed, else the state of its JSON report, or
/// the JSON error's message.
pub fn netbird_state_from_status(success: bool, stdout: &str) -> (r: Result<NetbirdState, String>)
    ensures
        !success ==> (r matches Ok(s) && state_view(s) == (None::<Seq<char>>, None::<Seq<char>>, false)),
        success ==> match status_json(stdout@) {
            Ok(f) => (r matches Ok(s) && state_view(s) == state_of_fields(f)),
            Err(e) => (r matches Err(m) && m@ == e),
        },
{
    if !success {
        return Ok(netbird_offline());
    }
    match read_status_json(stdout) {
        Ok(f) => Ok(netbird_state_from_fields(f)),
        Err(e) => Err(e),
    }
}

/// Where `netbird` is looked for when it cannot be run by name.
pub open spec fn netbird_fallbacks(os: Os) -> Seq<Seq<char>> {
    if os == Os::Windows {
        seq!["C:\\Program Files\\Netbird\\netbird.exe"@, "C:\\Program Files (x86)\\Netbird\\netbird.exe"@]
    } else {
        seq!["/usr/bin/netbird"@, "/usr/local/bin/netbird"@]
    }
}

pub fn netbird_fallback_candidates(os: Os) -> (r: Vec<String>)
    ensures
        texts(r) == netbird_fallbacks(os),
{
    let mut r: Vec<String> = Vec::new();
    if os == Os::Windows {
        push_text(&mut r, "C:\\Program Files\\Netbird\\netbird.exe");
        push_text(&mut r, "C:\\Program Files (x86)\\Netbird\\netbird.exe");
    } else {
        push_text(&mut r, "/usr/bin/netbird");
        push_text(&mut r, "/usr/local/bin/netbird");
    }
    assert(texts(r) =~= netbird_fallbacks(os));
    r
}

/// The program that reports NetBird's status: `netbird`, unless it could
/// not be started, in which case the first of `netbird_fallbacks(os)` that
/// exists (`exists[i]` tells whether the `i`-th does), if any.
pub open spec fn netbird_status_program(os: Os, netbird_starts: bool, exists: Seq<bool>) -> Seq<char> {
    let found = first_existing(netbird_fallbacks(os), exists, "netbird"@);
    if !netbird_starts && found.0 {
        found.1
    } else {
        "netbird"@
    }
}

/// The command `netbird status -j`, run as `netbird_status_program`, whose
/// output is read: no input, the standard output and error captured.
pub fn netbird_status_command(os: Os, netbird_starts: bool, exists: &Vec<bool>) -> (r: CommandSpec)
    requires
        exists.len() == 2,
    ensures
        r.program@ == netbird_status_program(os, netbird_starts, exists@),
        texts(r.args) == seq!["status"@, "-j"@],
        text_pairs(r.envs).len() == 0,
        r.stdin == Stdio::Null,
        r.stdout == Stdio::Piped,
        r.stderr == Stdio::Piped,
{
    let cands = netbird_fallback_candidates(os);
    assert(texts(cands).len() == cands@.len());
    let found = pick_existing(&cands, exists, "netbird");
    let program = if !netbird_starts && found.0 {
        found.1
    } else {
        "netbird".to_owned()
    };
    let mut args: Vec<String> = Vec::new();
    push_text(&mut args, "status");
    push_text(&mut args, "-j");
    assert(texts(args) =~= seq!["status"@, "-j"@]);
    let envs: Vec<(String, String)> = Vec::new();
    assert(text_pairs(envs).len() == 0);
    CommandSpec {
        program,
        args,
        envs,
        stdin: Stdio::Null,
        stdout: Stdio::Piped,
        stderr: Stdio::Piped,
    }
}

/// The daemon's status is reported as it came; the address as it came
/// unless it is empty; the management connection only when the report
/// says `true`.
pub proof fn law_state_from_fields(f: (Option<Seq<char>>, Option<Seq<char>>, Option<bool>))
    ensures
        state_of_fields(f).0 == f.0,
        (f.1 matches Some(ip) && ip.len() > 0) ==> state_of_fields(f).1 == f.1,
        (f.1 matches Some(ip) && ip.len() == 0) ==> state_of_fields(f).1 is None,
        f.1 is None ==> state_of_fields(f).1 is None,
        state_of_fields(f).2 <==> f.2 == Some(true),
{
}

/// `netbird` is run by name when it can be started; otherwise the first of
/// its usual locations that exists (`/usr/bin`, then `/usr/local/bin` on
/// Unix; `C:\Program Files\Netbird`, then `C:\Program Files (x86)\Netbird`
/// on Windows), and by name again when neither does.
pub proof fn law_status_program(os: Os, netbird_starts: bool, exists: Seq<bool>)
    requires
        exists.len() == 2,
    ensures
        netbird_starts ==> netbird_status_program(os, netbird_starts, exists) == "netbird"@,
        (!netbird_starts && exists[0]) ==> netbird_status_program(os, netbird_starts, exists)
            == if os == Os::Windows {
            "C:\\Program Files\\Netbird\\netbird.exe"@
        } else {
            "/usr/bin/netbird"@
        },
        (!netbird_starts && !exists[0] && exists[1]) ==> netbird_status_program(
            os,
            netbird_starts,
            exists,
        ) == if os == Os::Windows {
            "C:\\Program Files (x86)\\Netbird\\netbird.exe"@
        } else {
            "/usr/local/bin/netbird"@
        },
        (!exists[0] && !exists[1]) ==> netbird_status_program(os, netbird_starts, exists)
            == "netbird"@,
{
    reveal_with_fuel(first_existing, 3);
    let c = netbird_fallbacks(os);
    assert(c.drop_first()[0] == c[1]);
    assert(exists.drop_first()[0] == exists[1]);
    assert(c.drop_first().drop_first().len() == 0);
}

/// The reported NetBird address is never empty: an empty one is reported
/// as none.
pub proof fn law_reported_ip_not_empty(f: (Option<Seq<char>>, Option<Seq<char>>, Option<bool>))
    ensures
        state_of_fields(f).1 matches Some(ip) ==> ip.len() > 0,
{
}

} // verus!
