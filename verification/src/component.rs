//! The security components the installer audits: where each is expected,
//! where else it may be found, and how its version is asked for.
use vstd::prelude::*;
use crate::command::{push_text, text_pairs, texts, CommandSpec, Stdio};
use crate::platform::Os;
use crate::text::{
    chars_of, concat, contains, ends_with, find, range_ends_with, replace, replace_chars, str_eq,
    string_of_all,
};

verus! {

broadcast use vstd::string::group_string_axioms;

// ---------------------------------------------------------------------
// The audited components
// ---------------------------------------------------------------------

/// The components and the paths where they are expected.
pub open spec fn components(os: Os) -> Seq<(Seq<char>, Seq<char>)> {
    match os {
        Os::Windows => seq![
            ("Wazuh Agent"@, "C:\\Program Files (x86)\\ossec-agent\\wazuh-agent.exe"@),
            ("OAuth2 Client"@, "C:\\Program Files (x86)\\ossec-agent\\wazuh-cert-oauth2-client.exe"@),
            ("Agent Status Monitor"@, "C:\\Program Files\\wazuh-agent-status\\wazuh-agent-status.exe"@),
            ("YARA"@, "yara64.exe"@),
            ("Suricata"@, "suricata.exe"@),
            ("NetBird"@, "netbird.exe"@),
        ],
        Os::MacOs => seq![
            ("Wazuh Agent"@, "/Library/Ossec/bin/wazuh-agentd"@),
            ("OAuth2 Client"@, "/Library/Ossec/bin/wazuh-cert-oauth2-client"@),
            ("Agent Status Monitor"@, "/usr/local/bin/wazuh-agent-status"@),
            ("YARA"@, "/usr/local/bin/yara"@),
            ("Suricata"@, "/usr/local/bin/suricata"@),
            ("NetBird"@, "/usr/local/bin/netbird"@),
        ],
        Os::Linux => seq![
            ("Wazuh Agent"@, "/var/ossec/bin/wazuh-agentd"@),
            ("OAuth2 Client"@, "/var/ossec/bin/wazuh-cert-oauth2-client"@),
            ("Agent Status Monitor"@, "/usr/local/bin/wazuh-agent-status"@),
            ("YARA"@, "/usr/local/bin/yara"@),
            ("Suricata"@, "/usr/bin/suricata"@),
            ("NetBird"@, "/usr/bin/netbird"@),
        ],
    }
}

pub fn component_list(os: Os) -> (r: Vec<(String, String)>)
    ensures
        text_pairs(r) == components(os),
{
    let mut r: Vec<(String, String)> = Vec::new();
    match os {
        Os::Windows => {
            crate::command::push_pair(&mut r, "Wazuh Agent", "C:\\Program Files (x86)\\ossec-agent\\wazuh-agent.exe");
            crate::command::push_pair(&mut r, "OAuth2 Client", "C:\\Program Files (x86)\\ossec-agent\\wazuh-cert-oauth2-client.exe");
            crate::command::push_pair(&mut r, "Agent Status Monitor", "C:\\Program Files\\wazuh-agent-status\\wazuh-agent-status.exe");
            crate::command::push_pair(&mut r, "YARA", "yara64.exe");
            crate::command::push_pair(&mut r, "Suricata", "suricata.exe");
            crate::command::push_pair(&mut r, "NetBird", "netbird.exe");
        },
        Os::MacOs => {
            crate::command::push_pair(&mut r, "Wazuh Agent", "/Library/Ossec/bin/wazuh-agentd");
            crate::command::push_pair(&mut r, "OAuth2 Client", "/Library/Ossec/bin/wazuh-cert-oauth2-client");
            crate::command::push_pair(&mut r, "Agent Status Monitor", "/usr/local/bin/wazuh-agent-status");
            crate::command::push_pair(&mut r, "YARA", "/usr/local/bin/yara");
            crate::command::push_pair(&mut r, "Suricata", "/usr/local/bin/suricata");
            crate::command::push_pair(&mut r, "NetBird", "/usr/local/bin/netbird");
        },
        Os::Linux => {
            crate::command::push_pair(&mut r, "Wazuh Agent", "/var/ossec/bin/wazuh-agentd");
            crate::command::push_pair(&mut r, "OAuth2 Client", "/var/ossec/bin/wazuh-cert-oauth2-client");
            crate::command::push_pair(&mut r, "Agent Status Monitor", "/usr/local/bin/wazuh-agent-status");
            crate::command::push_pair(&mut r, "YARA", "/usr/local/bin/yara");
            crate::command::push_pair(&mut r, "Suricata", "/usr/bin/suricata");
            crate::command::push_pair(&mut r, "NetBird", "/usr/bin/netbird");
        },
    }
    assert(text_pairs(r) =~= components(os));
    r
}

// ---------------------------------------------------------------------
// Where a component may be found
// ---------------------------------------------------------------------

/// The first candidate that exists, as `(true, path)`, or `(false,
/// fallback)` when none does.
pub open spec fn first_existing(cands: Seq<Seq<char>>, exists: Seq<bool>, fallback: Seq<char>) -> (
    bool,
    Seq<char>,
)
    decreases cands.len(),
{
    if cands.len() == 0 || exists.len() == 0 {
        (false, fallback)
    } else if exists[0] {
        (true, cands[0])
    } else {
        first_existing(cands.drop_first(), exists.drop_first(), fallback)
    }
}

/// `first_existing` on concrete lists.
pub fn pick_existing(cands: &Vec<String>, exists: &Vec<bool>, fallback: &str) -> (r: (bool, String))
    requires
        cands.len() == exists.len(),
    ensures
        (r.0, r.1@) == first_existing(texts(*cands), exists@, fallback@),
{
    let mut i: usize = 0;
    assert(texts(*cands).skip(0) =~= texts(*cands));
    assert(exists@.skip(0) =~= exists@);
    while i < cands.len()
        invariant
            i <= cands.len() == exists.len(),
            first_existing(texts(*cands), exists@, fallback@) == first_existing(
                texts(*cands).skip(i as int),
                exists@.skip(i as int),
                fallback@,
            ),
        decreases cands.len() - i,
    {
        assert(texts(*cands).skip(i as int).drop_first() =~= texts(*cands).skip(i + 1));
        assert(exists@.skip(i as int).drop_first() =~= exists@.skip(i + 1));
        assert(texts(*cands).skip(i as int)[0] == cands@[i as int]@);
        if exists[i] {
            return (true, cands[i].clone());
        }
        i += 1;
    }
    assert(texts(*cands).skip(i as int).len() == 0);
    (false, fallback.to_owned())
}

/// Where NetBird may be found on Unix, in the order they are tried.
pub open spec fn netbird_unix_candidates(path: Seq<char>) -> Seq<Seq<char>> {
    seq![path, "/usr/bin/netbird"@, "/usr/local/bin/netbird"@]
}

/// Where Suricata may be found on Unix, in the order they are tried.
pub open spec fn suricata_unix_candidates(path: Seq<char>) -> Seq<Seq<char>> {
    seq![path, "/usr/bin/suricata"@, "/usr/local/bin/suricata"@, "/opt/homebrew/bin/suricata"@]
}

/// Where component `name`, expected at `path`, may be found on Unix.
pub open spec fn unix_candidates_of(name: Seq<char>, path: Seq<char>) -> Seq<Seq<char>> {
    if name == "NetBird"@ {
        netbird_unix_candidates(path)
    } else if name == "Suricata"@ {
        suricata_unix_candidates(path)
    } else {
        seq![path]
    }
}

pub fn unix_candidates(name: &str, path: &str) -> (r: Vec<String>)
    ensures
        texts(r) == unix_candidates_of(name@, path@),
{
    let mut r: Vec<String> = Vec::new();
    push_text(&mut r, path);
    if str_eq(name, "NetBird") {
        push_text(&mut r, "/usr/bin/netbird");
        push_text(&mut r, "/usr/local/bin/netbird");
    } else if str_eq(name, "Suricata") {
        push_text(&mut r, "/usr/bin/suricata");
        push_text(&mut r, "/usr/local/bin/suricata");
        push_text(&mut r, "/opt/homebrew/bin/suricata");
    }
    assert(texts(r) =~= unix_candidates_of(name@, path@));
    r
}

/// Whether NetBird is installed, and where: `exists[i]` tells whether the
/// `i`-th of `netbird_unix_candidates(path)` exists.
pub fn check_netbird_unix(path: &str, exists: &Vec<bool>) -> (r: (bool, String))
    requires
        exists.len() == 3,
    ensures
        (r.0, r.1@) == first_existing(netbird_unix_candidates(path@), exists@, path@),
{
    let cands = unix_candidates("NetBird", path);
    assert(unix_candidates_of("NetBird"@, path@) == netbird_unix_candidates(path@));
    assert(texts(cands).len() == cands@.len());
    pick_existing(&cands, exists, path)
}

/// Whether Suricata is installed, and where: `exists[i]` tells whether the
/// `i`-th of `suricata_unix_candidates(path)` exists.
pub fn check_suricata_unix(path: &str, exists: &Vec<bool>) -> (r: (bool, String))
    requires
        exists.len() == 4,
    ensures
        (r.0, r.1@) == first_existing(suricata_unix_candidates(path@), exists@, path@),
{
    let cands = unix_candidates("Suricata", path);
    proof {
        reveal_strlit("NetBird");
        reveal_strlit("Suricata");
        assert("NetBird"@ != "Suricata"@) by {
            assert("NetBird"@[0] != "Suricata"@[0]);
        }
    }
    assert(unix_candidates_of("Suricata"@, path@) == suricata_unix_candidates(path@));
    assert(texts(cands).len() == cands@.len());
    pick_existing(&cands, exists, path)
}

/// Whether component `name` is installed, and where: `exists[i]` tells
/// whether the `i`-th of `unix_candidates_of(name, path)` exists.
pub fn check_component_unix(name: &str, path: &str, exists: &Vec<bool>) -> (r: (bool, String))
    requires
        exists@.len() == unix_candidates_of(name@, path@).len(),
    ensures
        (r.0, r.1@) == first_existing(unix_candidates_of(name@, path@), exists@, path@),
{
    let cands = unix_candidates(name, path);
    assert(texts(cands).len() == cands@.len());
    pick_existing(&cands, exists, path)
}

// ---------------------------------------------------------------------
// Windows
// ---------------------------------------------------------------------

/// What a Windows check looks at.
pub open spec fn windows_kind(name: Seq<char>, path: Seq<char>) -> int {
    if name == "NetBird"@ {
        0
    } else if name == "Suricata"@ {
        1
    } else if name == "YARA"@ {
        2
    } else if ends_with(path, "wazuh-agent.exe"@) {
        3
    } else {
        4
    }
}

/// Where component `name`, expected at `path`, may be found on Windows.
pub open spec fn windows_candidates_of(name: Seq<char>, path: Seq<char>) -> Seq<Seq<char>> {
    let k = windows_kind(name, path);
    if k == 0 {
        seq!["C:\\Program Files\\Netbird\\netbird.exe"@, "C:\\Program Files (x86)\\Netbird\\netbird.exe"@]
    } else if k == 1 {
        seq![
            "C:\\Program Files\\Suricata\\suricata.exe"@,
            "C:\\Program Files (x86)\\Suricata\\suricata.exe"@,
            "C:\\Suricata\\suricata.exe"@,
        ]
    } else if k == 2 {
        seq![
            "C:\\Program Files\\YARA\\yara64.exe"@,
            "C:\\Program Files (x86)\\YARA\\yara64.exe"@,
            "C:\\YARA\\yara64.exe"@,
        ]
    } else if k == 3 {
        seq![path, replace(path, "wazuh-agent.exe"@, "ossec-agent.exe"@)]
    } else {
        seq![path]
    }
}

pub fn windows_candidates(name: &str, path: &str) -> (r: Vec<String>)
    ensures
        texts(r) == windows_candidates_of(name@, path@),
{
    let mut r: Vec<String> = Vec::new();
    if str_eq(name, "NetBird") {
        push_text(&mut r, "C:\\Program Files\\Netbird\\netbird.exe");
        push_text(&mut r, "C:\\Program Files (x86)\\Netbird\\netbird.exe");
    } else if str_eq(name, "Suricata") {
        push_text(&mut r, "C:\\Program Files\\Suricata\\suricata.exe");
        push_text(&mut r, "C:\\Program Files (x86)\\Suricata\\suricata.exe");
        push_text(&mut r, "C:\\Suricata\\suricata.exe");
    } else if str_eq(name, "YARA") {
        push_text(&mut r, "C:\\Program Files\\YARA\\yara64.exe");
        push_text(&mut r, "C:\\Program Files (x86)\\YARA\\yara64.exe");
        push_text(&mut r, "C:\\YARA\\yara64.exe");
    } else if path_is_wazuh_agent(path) {
        push_text(&mut r, path);
        let p = chars_of(path);
        let from = chars_of("wazuh-agent.exe");
        let to = chars_of("ossec-agent.exe");
        proof {
            reveal_strlit("wazuh-agent.exe");
        }
        let other = replace_chars(&p, &from, &to);
        let other_s = string_of_all(&other);
        push_text(&mut r, other_s.as_str());
    } else {
        push_text(&mut r, path);
    }
    assert(texts(r) =~= windows_candidates_of(name@, path@));
    r
}

/// Whether `path` names the Wazuh agent's executable.
fn path_is_wazuh_agent(path: &str) -> (r: bool)
    ensures
        r == ends_with(path@, "wazuh-agent.exe"@),
{
    let p = chars_of(path);
    let suffix = chars_of("wazuh-agent.exe");
    assert(p@.subrange(0, p.len() as int) =~= p@);
    range_ends_with(&p, 0, p.len(), &suffix)
}

/// The command run on Windows when no candidate exists: `path --help` for
/// NetBird, Suricata and YARA, and a query of the `WazuhSvc` service for
/// the Wazuh agent.
pub open spec fn windows_probe_of(name: Seq<char>, path: Seq<char>) -> Option<(Seq<char>, Seq<Seq<char>>)> {
    let k = windows_kind(name, path);
    if k <= 2 {
        Some((path, seq!["--help"@]))
    } else if k == 3 {
        Some(("sc"@, seq!["query"@, "WazuhSvc"@]))
    } else {
        None
    }
}

pub fn windows_probe(name: &str, path: &str) -> (r: Option<CommandSpec>)
    ensures
        r is Some <==> windows_probe_of(name@, path@) is Some,
        r matches Some(c) ==> {
            &&& windows_probe_of(name@, path@) == Some((c.program@, texts(c.args)))
            &&& text_pairs(c.envs).len() == 0
            &&& c.stdin == Stdio::Inherit
            &&& c.stdout == Stdio::Null
            &&& c.stderr == Stdio::Null
        },
{
    let mut args: Vec<String> = Vec::new();
    let envs: Vec<(String, String)> = Vec::new();
    assert(text_pairs(envs).len() == 0);
    let program;
    if str_eq(name, "NetBird") || str_eq(name, "Suricata") || str_eq(name, "YARA") {
        program = path.to_owned();
        push_text(&mut args, "--help");
        assert(texts(args) =~= seq!["--help"@]);
    } else if path_is_wazuh_agent(path) {
        program = "sc".to_owned();
        push_text(&mut args, "query");
        push_text(&mut args, "WazuhSvc");
        assert(texts(args) =~= seq!["query"@, "WazuhSvc"@]);
    } else {
        return None;
    }
    Some(
        CommandSpec {
            program,
            args,
            envs,
            stdin: Stdio::Inherit,
            stdout: Stdio::Null,
            stderr: Stdio::Null,
        },
    )
}

/// The result of a Windows check: the first candidate that exists; the
/// Wazuh agent is reported at `path` whichever of its candidates exists,
/// or when its service answers; when no candidate exists, the probe's
/// success decides.
pub open spec fn windows_check(name: Seq<char>, path: Seq<char>, exists: Seq<bool>, probe_ok: bool) -> (
    bool,
    Seq<char>,
) {
    let found = first_existing(windows_candidates_of(name, path), exists, path);
    let k = windows_kind(name, path);
    if k == 3 {
        (found.0 || probe_ok, path)
    } else if k <= 2 {
        if found.0 {
            found
        } else {
            (probe_ok, path)
        }
    } else {
        found
    }
}

/// Whether component `name` is installed on Windows, and where: `exists[i]`
/// tells whether the `i`-th of `windows_candidates_of(name, path)` exists,
/// and `probe_ok` whether `windows_probe_of(name, path)` succeeded (false
/// when it was not run).
pub fn check_component_windows(name: &str, path: &str, exists: &Vec<bool>, probe_ok: bool) -> (r: (
    bool,
    String,
))
    requires
        exists@.len() == windows_candidates_of(name@, path@).len(),
    ensures
        (r.0, r.1@) == windows_check(name@, path@, exists@, probe_ok),
{
    let cands = windows_candidates(name, path);
    assert(texts(cands).len() == cands@.len());
    let found = pick_existing(&cands, exists, path);
    if str_eq(name, "NetBird") || str_eq(name, "Suricata") || str_eq(name, "YARA") {
        if found.0 {
            found
        } else {
            (probe_ok, path.to_owned())
        }
    } else if path_is_wazuh_agent(path) {
        (found.0 || probe_ok, path.to_owned())
    } else {
        found
    }
}

// ---------------------------------------------------------------------
// Asking for a version
// ---------------------------------------------------------------------

/// The program and arguments that print the version of component `name`
/// found at `path`.
pub open spec fn version_command_of(name: Seq<char>, path: Seq<char>, os: Os) -> (Seq<char>, Seq<Seq<char>>) {
    if name == "Wazuh Agent"@ {
        if os == Os::Windows {
            (
                "powershell"@,
                seq![
                    "-NoProfile"@,
                    "-Command"@,
                    "(Get-Item '"@ + path + "').VersionInfo.ProductVersion"@,
                ],
            )
        } else {
            (
                replace(replace(path, "wazuh-agentd"@, "wazuh-control"@), "ossec-agentd"@, "wazuh-control"@),
                seq!["info"@],
            )
        }
    } else if name == "Suricata"@ {
        (path, seq!["-V"@])
    } else if name == "NetBird"@ {
        (path, seq!["version"@])
    } else {
        (path, seq!["--version"@])
    }
}

/// The command that prints the version of component `name` found at
/// `path`.
pub fn component_version_command(name: &str, path: &str, os: Os) -> (r: CommandSpec)
    ensures
        (r.program@, texts(r.args)) == version_command_of(name@, path@, os),
        text_pairs(r.envs).len() == 0,
        r.stdin == Stdio::Null,
        r.stdout == Stdio::Piped,
        r.stderr == Stdio::Piped,
{
    let mut args: Vec<String> = Vec::new();
    let program: String;
    if str_eq(name, "Wazuh Agent") {
        if os == Os::Windows {
            program = "powershell".to_owned();
            push_text(&mut args, "-NoProfile");
            push_text(&mut args, "-Command");
            let a = concat("(Get-Item '", path);
            let b = concat(a.as_str(), "').VersionInfo.ProductVersion");
            push_text(&mut args, b.as_str());
            assert(texts(args) =~= seq![
                "-NoProfile"@,
                "-Command"@,
                "(Get-Item '"@ + path@ + "').VersionInfo.ProductVersion"@,
            ]);
        } else {
            let p = chars_of(path);
            let agentd = chars_of("wazuh-agentd");
            let ossec = chars_of("ossec-agentd");
            let control = chars_of("wazuh-control");
            proof {
                reveal_strlit("wazuh-agentd");
                reveal_strlit("ossec-agentd");
            }
            let once = replace_chars(&p, &agentd, &control);
            let twice = replace_chars(&once, &ossec, &control);
            program = string_of_all(&twice);
            push_text(&mut args, "info");
            assert(texts(args) =~= seq!["info"@]);
        }
    } else if str_eq(name, "Suricata") {
        program = path.to_owned();
        push_text(&mut args, "-V");
        assert(texts(args) =~= seq!["-V"@]);
    } else if str_eq(name, "NetBird") {
        program = path.to_owned();
        push_text(&mut args, "version");
        assert(texts(args) =~= seq!["version"@]);
    } else {
        program = path.to_owned();
        push_text(&mut args, "--version");
        assert(texts(args) =~= seq!["--version"@]);
    }
    let envs: Vec<(String, String)> = Vec::new();
    assert(text_pairs(envs).len() == 0);
    CommandSpec {
        program,
        args,
        envs,
        stdin: Stdio::Null,
        stdout: Stdio::Piped,
        stderr: Stdio::Piped,
    }
}

/// The command that reads the version of component `name` after the
/// search for it reported `check`, whether it was found and where: none
/// when it was not found, else the command for the path that was found.
pub fn version_command_if_installed(name: &str, check: &(bool, String), os: Os) -> (r: Option<
    CommandSpec,
>)
    ensures
        r is None <==> !check.0,
        r matches Some(c) ==> {
            &&& (c.program@, texts(c.args)) == version_command_of(name@, check.1@, os)
            &&& text_pairs(c.envs).len() == 0
            &&& c.stdin == Stdio::Null
            &&& c.stdout == Stdio::Piped
            &&& c.stderr == Stdio::Piped
        },
{
    if check.0 {
        Some(component_version_command(name, check.1.as_str(), os))
    } else {
        None
    }
}

// ---------------------------------------------------------------------
// Laws
// ---------------------------------------------------------------------

proof fn lemma_component_names_differ()
    ensures
        "NetBird"@ != "Suricata"@,
        "NetBird"@ != "YARA"@,
        "Suricata"@ != "YARA"@,
{
    reveal_strlit("NetBird");
    reveal_strlit("Suricata");
    reveal_strlit("YARA");
    assert("NetBird"@.len() == 7);
    assert("Suricata"@.len() == 8);
    assert("YARA"@.len() == 4);
}

/// On Windows, Suricata is looked for in its default locations, in this
/// order: `C:\Program Files\Suricata`, `C:\Program Files (x86)\Suricata`,
/// `C:\Suricata`. It is reported at the first that exists; when none
/// does, at the expected path, installed exactly when the probe succeeded.
pub proof fn law_suricata_windows_locations(path: Seq<char>, exists: Seq<bool>, probe_ok: bool)
    requires
        exists.len() == 3,
    ensures
        windows_candidates_of("Suricata"@, path) == seq![
            "C:\\Program Files\\Suricata\\suricata.exe"@,
            "C:\\Program Files (x86)\\Suricata\\suricata.exe"@,
            "C:\\Suricata\\suricata.exe"@,
        ],
        exists[0] ==> windows_check("Suricata"@, path, exists, probe_ok) == (
            true,
            "C:\\Program Files\\Suricata\\suricata.exe"@,
        ),
        !exists[0] && exists[1] ==> windows_check("Suricata"@, path, exists, probe_ok) == (
            true,
            "C:\\Program Files (x86)\\Suricata\\suricata.exe"@,
        ),
        !exists[0] && !exists[1] && exists[2] ==> windows_check("Suricata"@, path, exists, probe_ok)
            == (true, "C:\\Suricata\\suricata.exe"@),
        !exists[0] && !exists[1] && !exists[2] ==> windows_check("Suricata"@, path, exists, probe_ok)
            == (probe_ok, path),
{
    lemma_component_names_differ();
    reveal_with_fuel(first_existing, 4);
    let c = windows_candidates_of("Suricata"@, path);
    assert(c.drop_first()[0] == c[1]);
    assert(c.drop_first().drop_first()[0] == c[2]);
    assert(exists.drop_first()[0] == exists[1]);
    assert(exists.drop_first().drop_first()[0] == exists[2]);
    assert(c.drop_first().drop_first().drop_first().len() == 0);
}

/// On Windows, YARA is looked for in its default locations, in this order:
/// `C:\Program Files\YARA`, `C:\Program Files (x86)\YARA`, `C:\YARA`. It
/// is reported at the first that exists; when none does, at the expected
/// path, installed exactly when the probe succeeded.
pub proof fn law_yara_windows_locations(path: Seq<char>, exists: Seq<bool>, probe_ok: bool)
    requires
        exists.len() == 3,
    ensures
        windows_candidates_of("YARA"@, path) == seq![
            "C:\\Program Files\\YARA\\yara64.exe"@,
            "C:\\Program Files (x86)\\YARA\\yara64.exe"@,
            "C:\\YARA\\yara64.exe"@,
        ],
        exists[0] ==> windows_check("YARA"@, path, exists, probe_ok) == (
            true,
            "C:\\Program Files\\YARA\\yara64.exe"@,
        ),
        !exists[0] && exists[1] ==> windows_check("YARA"@, path, exists, probe_ok) == (
            true,
            "C:\\Program Files (x86)\\YARA\\yara64.exe"@,
        ),
        !exists[0] && !exists[1] && exists[2] ==> windows_check("YARA"@, path, exists, probe_ok)
            == (true, "C:\\YARA\\yara64.exe"@),
        !exists[0] && !exists[1] && !exists[2] ==> windows_check("YARA"@, path, exists, probe_ok)
            == (probe_ok, path),
{
    lemma_component_names_differ();
    reveal_with_fuel(first_existing, 4);
    let c = windows_candidates_of("YARA"@, path);
    assert(c.drop_first()[0] == c[1]);
    assert(c.drop_first().drop_first()[0] == c[2]);
    assert(exists.drop_first()[0] == exists[1]);
    assert(exists.drop_first().drop_first()[0] == exists[2]);
    assert(c.drop_first().drop_first().drop_first().len() == 0);
}

/// On Windows, NetBird is looked for in `C:\Program Files\Netbird` and then
/// `C:\Program Files (x86)\Netbird`. It is reported at the first that
/// exists; when neither does, at the expected path, installed exactly when
/// the probe succeeded.
pub proof fn law_netbird_windows_locations(path: Seq<char>, exists: Seq<bool>, probe_ok: bool)
    requires
        exists.len() == 2,
    ensures
        windows_candidates_of("NetBird"@, path) == seq![
            "C:\\Program Files\\Netbird\\netbird.exe"@,
            "C:\\Program Files (x86)\\Netbird\\netbird.exe"@,
        ],
        exists[0] ==> windows_check("NetBird"@, path, exists, probe_ok) == (
            true,
            "C:\\Program Files\\Netbird\\netbird.exe"@,
        ),
        !exists[0] && exists[1] ==> windows_check("NetBird"@, path, exists, probe_ok) == (
            true,
            "C:\\Program Files (x86)\\Netbird\\netbird.exe"@,
        ),
        !exists[0] && !exists[1] ==> windows_check("NetBird"@, path, exists, probe_ok) == (
            probe_ok,
            path,
        ),
{
    reveal_with_fuel(first_existing, 3);
    let c = windows_candidates_of("NetBird"@, path);
    assert(c.drop_first()[0] == c[1]);
    assert(exists.drop_first()[0] == exists[1]);
    assert(c.drop_first().drop_first().len() == 0);
}

/// On macOS and Linux, Suricata is looked for at the expected path, then in
/// `/usr/bin`, `/usr/local/bin` and `/opt/homebrew/bin`, and NetBird at the
/// expected path, then in `/usr/bin` and `/usr/local/bin`; any other
/// component only at its expected path.
pub proof fn law_unix_locations(name: Seq<char>, path: Seq<char>)
    ensures
        name == "Suricata"@ ==> unix_candidates_of(name, path) == seq![
            path,
            "/usr/bin/suricata"@,
            "/usr/local/bin/suricata"@,
            "/opt/homebrew/bin/suricata"@,
        ],
        name == "NetBird"@ ==> unix_candidates_of(name, path) == seq![
            path,
            "/usr/bin/netbird"@,
            "/usr/local/bin/netbird"@,
        ],
        (name != "Suricata"@ && name != "NetBird"@) ==> unix_candidates_of(name, path) == seq![path],
{
    lemma_component_names_differ();
}

/// The version is asked with `-V` of Suricata, `version` of NetBird,
/// `--version` of any other component but the Wazuh agent, each run from
/// where it was found; of the Wazuh agent on Windows, PowerShell reads the
/// product version of the file found.
pub proof fn law_version_commands(name: Seq<char>, path: Seq<char>, os: Os)
    ensures
        name == "Suricata"@ ==> version_command_of(name, path, os) == (path, seq!["-V"@]),
        name == "NetBird"@ ==> version_command_of(name, path, os) == (path, seq!["version"@]),
        (name != "Suricata"@ && name != "NetBird"@ && name != "Wazuh Agent"@) ==> version_command_of(
            name,
            path,
            os,
        ) == (path, seq!["--version"@]),
        (name == "Wazuh Agent"@ && os == Os::Windows) ==> version_command_of(name, path, os) == (
            "powershell"@,
            seq![
                "-NoProfile"@,
                "-Command"@,
                "(Get-Item '"@ + path + "').VersionInfo.ProductVersion"@,
            ],
        ),
{
    lemma_component_names_differ();
    reveal_strlit("Wazuh Agent");
    reveal_strlit("NetBird");
    reveal_strlit("Suricata");
    assert("Wazuh Agent"@.len() == 11);
}

/// On macOS and Linux the Wazuh agent's version is asked of `wazuh-control
/// info`, next to the agent's daemon: a path `d` + `wazuh-agentd` becomes
/// `d` + `wazuh-control`, and a path that names neither daemon is kept.
pub proof fn law_wazuh_version_command_unix(d: Seq<char>, path: Seq<char>, os: Os)
    requires
        os != Os::Windows,
    ensures
        (find(d + "wazuh-agentd"@, "wazuh-agentd"@) == Some(d.len() as int) && !contains(
            d + "wazuh-control"@,
            "ossec-agentd"@,
        )) ==> version_command_of("Wazuh Agent"@, d + "wazuh-agentd"@, os) == (
            d + "wazuh-control"@,
            seq!["info"@],
        ),
        (!contains(path, "wazuh-agentd"@) && !contains(path, "ossec-agentd"@)) ==> version_command_of(
            "Wazuh Agent"@,
            path,
            os,
        ) == (path, seq!["info"@]),
{
    reveal_strlit("wazuh-agentd");
    reveal_strlit("ossec-agentd");
    let a = "wazuh-agentd"@;
    let o = "ossec-agentd"@;
    let c = "wazuh-control"@;
    assert(a.len() == 12);
    assert(o.len() == 12);
    let p = d + a;
    if find(p, a) == Some(d.len() as int) && !contains(d + c, o) {
        assert(p.take(d.len() as int) =~= d);
        let tail = p.skip((d.len() + a.len()) as int);
        assert(tail =~= Seq::<char>::empty());
        assert(find(tail, a) is None);
        assert(replace(tail, a, c) == tail);
        assert(replace(p, a, c) =~= d + c);
        assert(find(d + c, o) is None);
        assert(replace(d + c, o, c) == d + c);
    }
    if !contains(path, a) && !contains(path, o) {
        assert(replace(path, a, c) == path);
        assert(replace(path, o, c) == path);
    }
}

/// Every system audits the same six components, in the same order; the
/// OAuth2 client audited is the very program that enrollment runs.
pub proof fn law_audited_components(os: Os)
    ensures
        components(os).len() == 6,
        components(os)[0].0 == "Wazuh Agent"@,
        components(os)[1].0 == "OAuth2 Client"@,
        components(os)[2].0 == "Agent Status Monitor"@,
        components(os)[3].0 == "YARA"@,
        components(os)[4].0 == "Suricata"@,
        components(os)[5].0 == "NetBird"@,
        components(os)[1].1 == crate::command::oauth2_client(os),
{
}

/// A component is reported found exactly when one of its candidates
/// exists, and then at the first candidate that exists; otherwise it is
/// reported at the fallback path.
pub proof fn law_found_at_first_existing(cands: Seq<Seq<char>>, exists: Seq<bool>, fallback: Seq<char>)
    requires
        cands.len() == exists.len(),
    ensures
        first_existing(cands, exists, fallback).0 ==> exists|i: int|
            0 <= i < cands.len() && exists[i] && first_existing(cands, exists, fallback).1
                == cands[i] && forall|j: int| 0 <= j < i ==> !exists[j],
        !first_existing(cands, exists, fallback).0 ==> first_existing(cands, exists, fallback).1
            == fallback && forall|j: int| 0 <= j < exists.len() ==> !exists[j],
    decreases cands.len(),
{
    if cands.len() > 0 && !exists[0] {
        law_found_at_first_existing(cands.drop_first(), exists.drop_first(), fallback);
        let r = first_existing(cands, exists, fallback);
        if r.0 {
            let i = choose|i: int|
                0 <= i < cands.drop_first().len() && exists.drop_first()[i] && r.1
                    == cands.drop_first()[i] && forall|j: int|
                    0 <= j < i ==> !exists.drop_first()[j];
            assert(exists[i + 1] && r.1 == cands[i + 1]);
            assert forall|j: int| 0 <= j < i + 1 implies !exists[j] by {
                if j > 0 {
                    assert(exists[j] == exists.drop_first()[j - 1]);
                }
            }
        } else {
            assert forall|j: int| 0 <= j < exists.len() implies !exists[j] by {
                if j > 0 {
                    assert(exists[j] == exists.drop_first()[j - 1]);
                }
            }
        }
    }
}

} // verus!
