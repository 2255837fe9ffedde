//! The commands the installer runs, described as plain values: the
//! program, its arguments, its added environment and how its standard
//! streams are connected.
use vstd::prelude::*;
use crate::platform::Os;
use crate::text::{chars_of, concat, push_str, string_of_all, trim, trim_range};

verus! {

broadcast use vstd::string::group_string_axioms;

/// How a standard stream of a child process is connected.
#[derive(Clone, Copy, Debug, PartialEq, Eq, Structural)]
pub enum Stdio {
    Inherit,
    Null,
    Piped,
}

/// A command to run.
pub struct CommandSpec {
    pub program: String,
    pub args: Vec<String>,
    pub envs: Vec<(String, String)>,
    pub stdin: Stdio,
    pub stdout: Stdio,
    pub stderr: Stdio,
}

/// The texts of a list of strings.
pub open spec fn texts(v: Vec<String>) -> Seq<Seq<char>> {
    v@.map_values(|s: String| s@)
}

/// The texts of a list of pairs of strings.
pub open spec fn text_pairs(v: Vec<(String, String)>) -> Seq<(Seq<char>, Seq<char>)> {
    v@.map_values(|p: (String, String)| (p.0@, p.1@))
}

/// Appends `s` to a list of strings.
pub fn push_text(v: &mut Vec<String>, s: &str)
    ensures
        texts(*final(v)) == texts(*old(v)).push(s@),
{
    v.push(s.to_owned());
    assert(texts(*v) =~= texts(*old(v)).push(s@));
}

/// Appends the pair `(k, val)` to a list of pairs.
pub fn push_pair(v: &mut Vec<(String, String)>, k: &str, val: &str)
    ensures
        text_pairs(*final(v)) == text_pairs(*old(v)).push((k@, val@)),
{
    v.push((k.to_owned(), val.to_owned()));
    assert(text_pairs(*v) =~= text_pairs(*old(v)).push((k@, val@)));
}

/// The plain values of a command: program, arguments, added environment,
/// and how its standard input, output and error are connected.
pub type CommandView = (
    Seq<char>,
    Seq<Seq<char>>,
    Seq<(Seq<char>, Seq<char>)>,
    Stdio,
    Stdio,
    Stdio,
);

pub open spec fn command_view(c: CommandSpec) -> CommandView {
    (c.program@, texts(c.args), text_pairs(c.envs), c.stdin, c.stdout, c.stderr)
}

// ---------------------------------------------------------------------
// Running a command through `sudo -S`
// ---------------------------------------------------------------------

/// `NAME=value` for each variable of an environment.
pub open spec fn env_assignments(envs: Seq<(Seq<char>, Seq<char>)>) -> Seq<Seq<char>> {
    envs.map_values(|p: (Seq<char>, Seq<char>)| p.0 + seq!['='] + p.1)
}

/// The command `v` run as root through `sudo -S`: sudo reads the user's
/// password from the standard input (`-S`) without printing a prompt
/// (`-p ""`), and runs the command through `env` with the command's own
/// variables, which sudo's environment reset would otherwise drop. The
/// password is no argument and no variable: it can only come through the
/// piped standard input.
pub open spec fn sudo_view(v: CommandView) -> CommandView {
    (
        "sudo"@,
        seq!["-S"@, "-p"@, ""@, "env"@] + env_assignments(v.2) + seq![v.0] + v.1,
        Seq::<(Seq<char>, Seq<char>)>::empty(),
        Stdio::Piped,
        v.4,
        v.5,
    )
}

/// `v` through `sudo -S` when `sudo` holds, else `v` itself.
pub open spec fn sudo_if(v: CommandView, sudo: bool) -> CommandView {
    if sudo {
        sudo_view(v)
    } else {
        v
    }
}

/// `c` run as root through `sudo -S`.
pub fn with_sudo(c: CommandSpec) -> (r: CommandSpec)
    ensures
        command_view(r) == sudo_view(command_view(c)),
{
    let ghost v = command_view(c);
    let mut args: Vec<String> = Vec::new();
    push_text(&mut args, "-S");
    push_text(&mut args, "-p");
    push_text(&mut args, "");
    push_text(&mut args, "env");
    let mut i: usize = 0;
    while i < c.envs.len()
        invariant
            i <= c.envs.len(),
            v == command_view(c),
            texts(args) == seq!["-S"@, "-p"@, ""@, "env"@] + env_assignments(v.2.take(i as int)),
        decreases c.envs.len() - i,
    {
        let mut a = chars_of(c.envs[i].0.as_str());
        a.push('=');
        push_str(&mut a, c.envs[i].1.as_str());
        let assignment = string_of_all(&a);
        let ghost before = texts(args);
        push_text(&mut args, assignment.as_str());
        proof {
            assert(v.2[i as int] == (c.envs@[i as int].0@, c.envs@[i as int].1@));
            assert(assignment@ =~= v.2[i as int].0 + seq!['='] + v.2[i as int].1);
            assert(v.2.take(i + 1) =~= v.2.take(i as int).push(v.2[i as int]));
            assert(env_assignments(v.2.take(i + 1)) =~= env_assignments(v.2.take(i as int)).push(
                assignment@,
            ));
        }
        i += 1;
    }
    assert(v.2.take(c.envs.len() as int) =~= v.2);
    push_text(&mut args, c.program.as_str());
    let mut j: usize = 0;
    let ghost head = texts(args);
    while j < c.args.len()
        invariant
            j <= c.args.len(),
            v == command_view(c),
            head == seq!["-S"@, "-p"@, ""@, "env"@] + env_assignments(v.2) + seq![v.0],
            texts(args) == head + v.1.take(j as int),
        decreases c.args.len() - j,
    {
        push_text(&mut args, c.args[j].as_str());
        assert(v.1.take(j + 1) =~= v.1.take(j as int).push(c.args@[j as int]@));
        j += 1;
    }
    assert(v.1.take(c.args.len() as int) =~= v.1);
    assert(texts(args) =~= seq!["-S"@, "-p"@, ""@, "env"@] + env_assignments(v.2) + seq![v.0]
        + v.1);
    let envs: Vec<(String, String)> = Vec::new();
    assert(text_pairs(envs) =~= Seq::<(Seq<char>, Seq<char>)>::empty());
    CommandSpec {
        program: "sudo".to_owned(),
        args,
        envs,
        stdin: Stdio::Piped,
        stdout: c.stdout,
        stderr: c.stderr,
    }
}

/// The command that checks the user's sudo password before any command is
/// run as root: `sudo -k -S -p "" -v` ignores cached credentials (`-k`),
/// reads the password from the standard input and only validates it
/// (`-v`).
pub open spec fn sudo_validate_view() -> CommandView {
    (
        "sudo"@,
        seq!["-k"@, "-S"@, "-p"@, ""@, "-v"@],
        Seq::<(Seq<char>, Seq<char>)>::empty(),
        Stdio::Piped,
        Stdio::Null,
        Stdio::Piped,
    )
}

pub fn sudo_validate_command() -> (r: CommandSpec)
    ensures
        command_view(r) == sudo_validate_view(),
{
    let mut args: Vec<String> = Vec::new();
    push_text(&mut args, "-k");
    push_text(&mut args, "-S");
    push_text(&mut args, "-p");
    push_text(&mut args, "");
    push_text(&mut args, "-v");
    assert(texts(args) =~= seq!["-k"@, "-S"@, "-p"@, ""@, "-v"@]);
    let envs: Vec<(String, String)> = Vec::new();
    assert(text_pairs(envs) =~= Seq::<(Seq<char>, Seq<char>)>::empty());
    CommandSpec {
        program: "sudo".to_owned(),
        args,
        envs,
        stdin: Stdio::Piped,
        stdout: Stdio::Null,
        stderr: Stdio::Piped,
    }
}

/// What is written to the standard input of a `sudo -S` command: the
/// password and the newline that ends it.
pub fn sudo_stdin(password: &str) -> (r: String)
    ensures
        r@ == password@ + seq!['\n'],
{
    let mut v = chars_of(password);
    v.push('\n');
    string_of_all(&v)
}

/// The `PATH` used on macOS and Unix: Homebrew's directories first, then
/// the inherited `PATH`, or a default when there is none.
pub open spec fn homebrew_path(current: Option<Seq<char>>) -> Seq<char> {
    "/opt/homebrew/bin:/usr/local/bin:"@ + match current {
        Some(p) => p,
        None => "/usr/bin:/bin:/usr/sbin:/sbin"@,
    }
}

pub fn homebrew_path_value(current: &Option<String>) -> (r: String)
    ensures
        r@ == homebrew_path(current.deep_view()),
{
    match current {
        Some(p) => concat("/opt/homebrew/bin:/usr/local/bin:", p.as_str()),
        None => concat("/opt/homebrew/bin:/usr/local/bin:", "/usr/bin:/bin:/usr/sbin:/sbin"),
    }
}

// ---------------------------------------------------------------------
// The setup script
// ---------------------------------------------------------------------

/// What the installation asks of the setup script.
pub struct InstallConfig {
    pub wazuh_manager: String,
    pub wazuh_agent_name: String,
    pub log_level: String,
    // reserved for future Snort support; currently always "suricata"
    pub ids_engine: String,
    pub suricata_mode: String,
    pub install_netbird: bool,
    pub oauth_issuer: String,
    pub cert_endpoint: String,
}

/// The file name of the bundled setup script.
pub open spec fn setup_script(os: Os) -> Seq<char> {
    if os == Os::Windows {
        "setup-agent.ps1"@
    } else {
        "setup-agent.sh"@
    }
}

pub fn setup_script_name(os: Os) -> (r: &'static str)
    ensures
        r@ == setup_script(os),
{
    if os == Os::Windows {
        "setup-agent.ps1"
    } else {
        "setup-agent.sh"
    }
}

/// Whether a file with permission bits `mode` can be executed by someone.
pub open spec fn executable_mode(mode: u32) -> bool {
    mode & 0o111u32 != 0
}

pub fn is_executable_mode(mode: u32) -> (r: bool)
    ensures
        r == executable_mode(mode),
{
    mode & 0o111 != 0
}

/// The command that runs the setup script at `resolved_path`, as the
/// current user.
fn plain_install_command(
    config: &InstallConfig,
    resolved_path: &str,
    os: Os,
    current_path: &Option<String>,
) -> (r: CommandSpec)
    ensures
        os == Os::Windows ==> {
            &&& r.program@ == "powershell"@
            &&& texts(r.args) == seq![
                "-NoProfile"@,
                "-ExecutionPolicy"@,
                "Bypass"@,
                "-File"@,
                resolved_path@,
            ] + if config.install_netbird {
                seq!["-InstallNetBird"@]
            } else {
                Seq::<Seq<char>>::empty()
            }
            &&& text_pairs(r.envs) == Seq::<(Seq<char>, Seq<char>)>::empty()
        },
        os != Os::Windows ==> {
            &&& r.program@ == "bash"@
            &&& texts(r.args) == seq![resolved_path@] + if config.install_netbird {
                seq!["-b"@]
            } else {
                Seq::<Seq<char>>::empty()
            }
            &&& text_pairs(r.envs) == seq![
                ("WAZUH_MANAGER"@, config.wazuh_manager@),
                ("WAZUH_AGENT_NAME"@, config.wazuh_agent_name@),
                ("IDS_ENGINE"@, config.ids_engine@),
                ("SURICATA_MODE"@, config.suricata_mode@),
            ] + if os == Os::MacOs {
                seq![("PATH"@, homebrew_path(current_path.deep_view()))]
            } else {
                Seq::<(Seq<char>, Seq<char>)>::empty()
            }
        },
        r.stdin == Stdio::Null,
        r.stdout == Stdio::Piped,
        r.stderr == Stdio::Piped,
{
    let mut args: Vec<String> = Vec::new();
    let mut envs: Vec<(String, String)> = Vec::new();
    let program;
    if os == Os::Windows {
        program = "powershell";
        push_text(&mut args, "-NoProfile");
        push_text(&mut args, "-ExecutionPolicy");
        push_text(&mut args, "Bypass");
        push_text(&mut args, "-File");
        push_text(&mut args, resolved_path);
        if config.install_netbird {
            push_text(&mut args, "-InstallNetBird");
        }
    } else {
        program = "bash";
        push_text(&mut args, resolved_path);
        if config.install_netbird {
            push_text(&mut args, "-b");
        }
        push_pair(&mut envs, "WAZUH_MANAGER", config.wazuh_manager.as_str());
        push_pair(&mut envs, "WAZUH_AGENT_NAME", config.wazuh_agent_name.as_str());
        push_pair(&mut envs, "IDS_ENGINE", config.ids_engine.as_str());
        push_pair(&mut envs, "SURICATA_MODE", config.suricata_mode.as_str());
        if os == Os::MacOs {
            let p = homebrew_path_value(current_path);
            push_pair(&mut envs, "PATH", p.as_str());
        }
    }
    proof {
        if os == Os::Windows {
            if config.install_netbird {
                assert(texts(args) =~= seq![
                    "-NoProfile"@,
                    "-ExecutionPolicy"@,
                    "Bypass"@,
                    "-File"@,
                    resolved_path@,
                ] + seq!["-InstallNetBird"@]);
            } else {
                assert(texts(args) =~= seq![
                    "-NoProfile"@,
                    "-ExecutionPolicy"@,
                    "Bypass"@,
                    "-File"@,
                    resolved_path@,
                ] + Seq::<Seq<char>>::empty());
            }
            assert(text_pairs(envs) =~= Seq::<(Seq<char>, Seq<char>)>::empty());
        } else {
            if config.install_netbird {
                assert(texts(args) =~= seq![resolved_path@] + seq!["-b"@]);
            } else {
                assert(texts(args) =~= seq![resolved_path@] + Seq::<Seq<char>>::empty());
            }
            let base = seq![
                ("WAZUH_MANAGER"@, config.wazuh_manager@),
                ("WAZUH_AGENT_NAME"@, config.wazuh_agent_name@),
                ("IDS_ENGINE"@, config.ids_engine@),
                ("SURICATA_MODE"@, config.suricata_mode@),
            ];
            if os == Os::MacOs {
                assert(text_pairs(envs) =~= base + seq![
                    ("PATH"@, homebrew_path(current_path.deep_view())),
                ]);
            } else {
                assert(text_pairs(envs) =~= base + Seq::<(Seq<char>, Seq<char>)>::empty());
            }
        }
    }
    CommandSpec {
        program: program.to_owned(),
        args,
        envs,
        stdin: Stdio::Null,
        stdout: Stdio::Piped,
        stderr: Stdio::Piped,
    }
}

// ---------------------------------------------------------------------
// Enrollment
// ---------------------------------------------------------------------

/// Where the OAuth2 enrollment client is installed.
pub open spec fn oauth2_client(os: Os) -> Seq<char> {
    match os {
        Os::Windows => "C:\\Program Files (x86)\\ossec-agent\\wazuh-cert-oauth2-client.exe"@,
        Os::Linux => "/var/ossec/bin/wazuh-cert-oauth2-client"@,
        Os::MacOs => "/Library/Ossec/bin/wazuh-cert-oauth2-client"@,
    }
}

/// The arguments of the enrollment client.
pub open spec fn enroll_args(issuer: Seq<char>, endpoint: Seq<char>, overwrite: bool) -> Seq<
    Seq<char>,
> {
    seq!["o-auth2"@, "--issuer"@, issuer, "--endpoint"@, endpoint] + if overwrite {
        seq!["--overwrite"@, "true"@]
    } else {
        Seq::<Seq<char>>::empty()
    }
}

/// The command that enrolls the agent through the OAuth2 client, as the
/// current user.
fn plain_enroll_command(
    issuer: &str,
    endpoint: &str,
    overwrite: bool,
    os: Os,
    current_path: &Option<String>,
) -> (r: CommandSpec)
    ensures
        r.program@ == oauth2_client(os),
        texts(r.args) == enroll_args(issuer@, endpoint@, overwrite),
        text_pairs(r.envs) == if os == Os::MacOs {
            seq![("PATH"@, homebrew_path(current_path.deep_view()))]
        } else {
            Seq::<(Seq<char>, Seq<char>)>::empty()
        },
        r.stdin == Stdio::Null,
        r.stdout == Stdio::Piped,
        r.stderr == Stdio::Piped,
{
    let mut args: Vec<String> = Vec::new();
    push_text(&mut args, "o-auth2");
    push_text(&mut args, "--issuer");
    push_text(&mut args, issuer);
    push_text(&mut args, "--endpoint");
    push_text(&mut args, endpoint);
    if overwrite {
        push_text(&mut args, "--overwrite");
        push_text(&mut args, "true");
    }
    let mut envs: Vec<(String, String)> = Vec::new();
    let program = match os {
        Os::Windows => "C:\\Program Files (x86)\\ossec-agent\\wazuh-cert-oauth2-client.exe",
        Os::Linux => "/var/ossec/bin/wazuh-cert-oauth2-client",
        Os::MacOs => {
            let p = homebrew_path_value(current_path);
            push_pair(&mut envs, "PATH", p.as_str());
            "/Library/Ossec/bin/wazuh-cert-oauth2-client"
        },
    };
    proof {
        if overwrite {
            assert(texts(args) =~= enroll_args(issuer@, endpoint@, overwrite));
        } else {
            assert(texts(args) =~= enroll_args(issuer@, endpoint@, overwrite));
        }
        if os != Os::MacOs {
            assert(text_pairs(envs) =~= Seq::<(Seq<char>, Seq<char>)>::empty());
        } else {
            assert(text_pairs(envs) =~= seq![("PATH"@, homebrew_path(current_path.deep_view()))]);
        }
    }
    CommandSpec {
        program: program.to_owned(),
        args,
        envs,
        stdin: Stdio::Null,
        stdout: Stdio::Piped,
        stderr: Stdio::Piped,
    }
}

// ---------------------------------------------------------------------
// NetBird
// ---------------------------------------------------------------------

/// The management server: the given one, or NetBird's own when it is
/// blank.
pub open spec fn netbird_management(url: Seq<char>) -> Seq<char> {
    if trim(url).len() == 0 {
        "https://api.netbird.io:443"@
    } else {
        url
    }
}

/// The arguments of `netbird up`: the setup key only when it is not blank.
pub open spec fn netbird_up_args(setup_key: Seq<char>, management_url: Seq<char>) -> Seq<
    Seq<char>,
> {
    seq!["up"@, "--management-url"@, netbird_management(management_url)] + if trim(
        setup_key,
    ).len() == 0 {
        Seq::<Seq<char>>::empty()
    } else {
        seq!["--setup-key"@, setup_key]
    }
}

/// Whether `s` is empty or whitespace only.
fn is_blank(s: &str) -> (r: bool)
    ensures
        r == (trim(s@).len() == 0),
{
    let v = chars_of(s);
    let (a, b) = trim_range(&v, 0, v.len());
    assert(v@.subrange(0, v.len() as int) =~= v@);
    a == b
}

/// The command that connects this machine to NetBird, as the current
/// user.
fn plain_netbird_up_command(
    setup_key: &str,
    management_url: &str,
    os: Os,
    current_path: &Option<String>,
) -> (r: CommandSpec)
    ensures
        r.program@ == if os == Os::Windows {
            "netbird.exe"@
        } else {
            "netbird"@
        },
        texts(r.args) == netbird_up_args(setup_key@, management_url@),
        text_pairs(r.envs) == if os == Os::Windows {
            Seq::<(Seq<char>, Seq<char>)>::empty()
        } else {
            seq![("PATH"@, homebrew_path(current_path.deep_view()))]
        },
        r.stdin == Stdio::Inherit,
        r.stdout == Stdio::Piped,
        r.stderr == Stdio::Piped,
{
    let mut args: Vec<String> = Vec::new();
    push_text(&mut args, "up");
    push_text(&mut args, "--management-url");
    if is_blank(management_url) {
        push_text(&mut args, "https://api.netbird.io:443");
    } else {
        push_text(&mut args, management_url);
    }
    if !is_blank(setup_key) {
        push_text(&mut args, "--setup-key");
        push_text(&mut args, setup_key);
    }
    let mut envs: Vec<(String, String)> = Vec::new();
    let program;
    if os == Os::Windows {
        program = "netbird.exe";
    } else {
        program = "netbird";
        let p = homebrew_path_value(current_path);
        push_pair(&mut envs, "PATH", p.as_str());
    }
    proof {
        assert(texts(args) =~= netbird_up_args(setup_key@, management_url@));
        if os == Os::Windows {
            assert(text_pairs(envs) =~= Seq::<(Seq<char>, Seq<char>)>::empty());
        } else {
            assert(text_pairs(envs) =~= seq![("PATH"@, homebrew_path(current_path.deep_view()))]);
        }
    }
    CommandSpec {
        program: program.to_owned(),
        args,
        envs,
        stdin: Stdio::Inherit,
        stdout: Stdio::Piped,
        stderr: Stdio::Piped,
    }
}

// ---------------------------------------------------------------------
// The commands, as the current user or through `sudo -S`
// ---------------------------------------------------------------------

/// The setup script's command, as the current user.
pub open spec fn install_command_of(
    config: InstallConfig,
    path: Seq<char>,
    os: Os,
    current: Option<Seq<char>>,
) -> CommandView {
    if os == Os::Windows {
        (
            "powershell"@,
            seq!["-NoProfile"@, "-ExecutionPolicy"@, "Bypass"@, "-File"@, path] + if config.install_netbird {
                seq!["-InstallNetBird"@]
            } else {
                Seq::<Seq<char>>::empty()
            },
            Seq::<(Seq<char>, Seq<char>)>::empty(),
            Stdio::Null,
            Stdio::Piped,
            Stdio::Piped,
        )
    } else {
        (
            "bash"@,
            seq![path] + if config.install_netbird {
                seq!["-b"@]
            } else {
                Seq::<Seq<char>>::empty()
            },
            seq![
                ("WAZUH_MANAGER"@, config.wazuh_manager@),
                ("WAZUH_AGENT_NAME"@, config.wazuh_agent_name@),
                ("IDS_ENGINE"@, config.ids_engine@),
                ("SURICATA_MODE"@, config.suricata_mode@),
            ] + if os == Os::MacOs {
                seq![("PATH"@, homebrew_path(current))]
            } else {
                Seq::<(Seq<char>, Seq<char>)>::empty()
            },
            Stdio::Null,
            Stdio::Piped,
            Stdio::Piped,
        )
    }
}

/// The command that runs the setup script at `resolved_path`; through
/// `sudo -S` when `sudo` holds, with a piped standard input that carries
/// the password.
pub fn build_install_command(
    config: &InstallConfig,
    resolved_path: &str,
    os: Os,
    current_path: &Option<String>,
    sudo: bool,
) -> (r: CommandSpec)
    ensures
        command_view(r) == sudo_if(
            install_command_of(*config, resolved_path@, os, current_path.deep_view()),
            sudo,
        ),
{
    let c = plain_install_command(config, resolved_path, os, current_path);
    assert(command_view(c) =~= install_command_of(*config, resolved_path@, os, current_path.deep_view()));
    if sudo {
        with_sudo(c)
    } else {
        c
    }
}

/// The enrollment client's command, as the current user.
pub open spec fn enroll_command_of(
    issuer: Seq<char>,
    endpoint: Seq<char>,
    overwrite: bool,
    os: Os,
    current: Option<Seq<char>>,
) -> CommandView {
    (
        oauth2_client(os),
        enroll_args(issuer, endpoint, overwrite),
        if os == Os::MacOs {
            seq![("PATH"@, homebrew_path(current))]
        } else {
            Seq::<(Seq<char>, Seq<char>)>::empty()
        },
        Stdio::Null,
        Stdio::Piped,
        Stdio::Piped,
    )
}

/// The command that enrolls the agent through the OAuth2 client; through
/// `sudo -S` when `sudo` holds.
pub fn build_enroll_command(
    issuer: &str,
    endpoint: &str,
    overwrite: bool,
    os: Os,
    current_path: &Option<String>,
    sudo: bool,
) -> (r: CommandSpec)
    ensures
        command_view(r) == sudo_if(
            enroll_command_of(issuer@, endpoint@, overwrite, os, current_path.deep_view()),
            sudo,
        ),
{
    let c = plain_enroll_command(issuer, endpoint, overwrite, os, current_path);
    assert(command_view(c) =~= enroll_command_of(issuer@, endpoint@, overwrite, os, current_path.deep_view()));
    if sudo {
        with_sudo(c)
    } else {
        c
    }
}

/// `netbird up`'s command, as the current user.
pub open spec fn netbird_up_command_of(
    setup_key: Seq<char>,
    management_url: Seq<char>,
    os: Os,
    current: Option<Seq<char>>,
) -> CommandView {
    (
        if os == Os::Windows {
            "netbird.exe"@
        } else {
            "netbird"@
        },
        netbird_up_args(setup_key, management_url),
        if os == Os::Windows {
            Seq::<(Seq<char>, Seq<char>)>::empty()
        } else {
            seq![("PATH"@, homebrew_path(current))]
        },
        Stdio::Inherit,
        Stdio::Piped,
        Stdio::Piped,
    )
}

/// The command that connects this machine to NetBird; through `sudo -S`
/// when `sudo` holds.
pub fn build_netbird_up_command(
    setup_key: &str,
    management_url: &str,
    os: Os,
    current_path: &Option<String>,
    sudo: bool,
) -> (r: CommandSpec)
    ensures
        command_view(r) == sudo_if(
            netbird_up_command_of(setup_key@, management_url@, os, current_path.deep_view()),
            sudo,
        ),
{
    let c = plain_netbird_up_command(setup_key, management_url, os, current_path);
    assert(command_view(c) =~= netbird_up_command_of(setup_key@, management_url@, os, current_path.deep_view()));
    if sudo {
        with_sudo(c)
    } else {
        c
    }
}

/// The setup script gets the NetBird flag (`-InstallNetBird` on Windows,
/// `-b` elsewhere) exactly when the configuration asks for NetBird: it is
/// then the last argument, after the script's path; otherwise the script's
/// path is the last argument.
pub proof fn law_install_netbird_flag(
    config: InstallConfig,
    path: Seq<char>,
    os: Os,
    current: Option<Seq<char>>,
)
    ensures
        ({
            let args = install_command_of(config, path, os, current).1;
            let flag = if os == Os::Windows {
                "-InstallNetBird"@
            } else {
                "-b"@
            };
            let base = if os == Os::Windows {
                5int
            } else {
                1int
            };
            &&& config.install_netbird ==> args.len() == base + 1 && args.last() == flag
            &&& !config.install_netbird ==> args.len() == base && args.last() == path
            &&& args[base - 1] == path
        }),
{
}

/// The setup script gets the installation's settings: on macOS and Linux
/// the manager, the agent's name, the IDS engine and the Suricata mode in
/// its environment, on every system the script's path as its argument.
pub proof fn law_install_settings_passed(
    config: InstallConfig,
    path: Seq<char>,
    os: Os,
    current: Option<Seq<char>>,
)
    ensures
        ({
            let c = install_command_of(config, path, os, current);
            &&& os != Os::Windows ==> {
                &&& c.0 == "bash"@
                &&& c.1[0] == path
                &&& c.2.len() >= 4
                &&& c.2[0] == ("WAZUH_MANAGER"@, config.wazuh_manager@)
                &&& c.2[1] == ("WAZUH_AGENT_NAME"@, config.wazuh_agent_name@)
                &&& c.2[2] == ("IDS_ENGINE"@, config.ids_engine@)
                &&& c.2[3] == ("SURICATA_MODE"@, config.suricata_mode@)
            }
            &&& os == Os::Windows ==> c.0 == "powershell"@ && c.1[3] == "-File"@ && c.1[4] == path
        }),
{
}

/// `netbird up` is given the management server as it was entered when it
/// is not blank, and NetBird's own server only when it is blank; the setup
/// key follows only when it is not blank. This holds on every system.
pub proof fn law_netbird_up_server_and_key(
    setup_key: Seq<char>,
    management_url: Seq<char>,
    os: Os,
    current: Option<Seq<char>>,
)
    ensures
        ({
            let args = netbird_up_command_of(setup_key, management_url, os, current).1;
            &&& args.len() >= 3
            &&& args[0] == "up"@
            &&& args[1] == "--management-url"@
            &&& trim(management_url).len() > 0 ==> args[2] == management_url
            &&& trim(management_url).len() == 0 ==> args[2] == "https://api.netbird.io:443"@
            &&& trim(setup_key).len() > 0 ==> args.len() == 5 && args[3] == "--setup-key"@
                && args[4] == setup_key
            &&& trim(setup_key).len() == 0 ==> args.len() == 3
        }),
{
}

/// The password reaches a command run through `sudo -S` only through its
/// standard input: the command's arguments and environment are the same
/// whoever's password is written there, sudo is told to read it from the
/// standard input, and that input is piped.
pub proof fn law_password_only_on_stdin(v: CommandView)
    ensures
        sudo_view(v).1[0] == "-S"@,
        sudo_view(v).2.len() == 0,
        sudo_view(v).3 == Stdio::Piped,
        sudo_view(v).1.len() == 4 + v.2.len() + 1 + v.1.len(),
{
}

/// A command run through `sudo -S` is the same command: `sudo` runs
/// `env` with each of the command's variables as `NAME=value`, in order,
/// then the command's program and its arguments, in order; its output and
/// errors go where the command's went.
pub proof fn law_sudo_runs_same_command(v: CommandView)
    ensures
        sudo_view(v).0 == "sudo"@,
        sudo_view(v).1.take(4) == seq!["-S"@, "-p"@, ""@, "env"@],
        forall|i: int|
            0 <= i < v.2.len() ==> #[trigger] sudo_view(v).1[4 + i] == v.2[i].0 + seq!['=']
                + v.2[i].1,
        sudo_view(v).1[4 + v.2.len() as int] == v.0,
        sudo_view(v).1.skip(5 + v.2.len() as int) == v.1,
        sudo_view(v).4 == v.4,
        sudo_view(v).5 == v.5,
        sudo_if(v, false) == v,
        sudo_if(v, true) == sudo_view(v),
{
    let a = sudo_view(v).1;
    let e = env_assignments(v.2);
    assert(a.take(4) =~= seq!["-S"@, "-p"@, ""@, "env"@]);
    assert forall|i: int| 0 <= i < v.2.len() implies #[trigger] a[4 + i] == v.2[i].0 + seq!['=']
        + v.2[i].1 by {
        assert(a[4 + i] == e[i]);
    }
    assert(a.skip(5 + v.2.len() as int) =~= v.1);
}

/// The enrollment client is the one installed with the agent on each
/// system, and it gets the issuer and the endpoint as given; it is asked to
/// overwrite an earlier enrollment exactly when `overwrite` holds.
pub proof fn law_enroll_arguments(
    issuer: Seq<char>,
    endpoint: Seq<char>,
    overwrite: bool,
    os: Os,
    current: Option<Seq<char>>,
)
    ensures
        ({
            let c = enroll_command_of(issuer, endpoint, overwrite, os, current);
            &&& os == Os::Linux ==> c.0 == "/var/ossec/bin/wazuh-cert-oauth2-client"@
            &&& os == Os::MacOs ==> c.0 == "/Library/Ossec/bin/wazuh-cert-oauth2-client"@
            &&& os == Os::Windows ==> c.0
                == "C:\\Program Files (x86)\\ossec-agent\\wazuh-cert-oauth2-client.exe"@
            &&& c.1.take(5) == seq!["o-auth2"@, "--issuer"@, issuer, "--endpoint"@, endpoint]
            &&& overwrite ==> c.1.len() == 7 && c.1[5] == "--overwrite"@ && c.1[6] == "true"@
            &&& !overwrite ==> c.1.len() == 5
            &&& os == Os::MacOs ==> c.2 == seq![("PATH"@, homebrew_path(current))]
            &&& os != Os::MacOs ==> c.2.len() == 0
        }),
{
    let c = enroll_command_of(issuer, endpoint, overwrite, os, current);
    assert(c.1.take(5) =~= seq!["o-auth2"@, "--issuer"@, issuer, "--endpoint"@, endpoint]);
}

/// The `PATH` given on macOS puts Homebrew's directories first and keeps
/// the inherited `PATH` after them, or the system's default one when there
/// is none.
pub proof fn law_homebrew_path_keeps_path(current: Option<Seq<char>>)
    ensures
        homebrew_path(current).take(33) == "/opt/homebrew/bin:/usr/local/bin:"@,
        current matches Some(p) ==> homebrew_path(current).skip(33) == p,
        current is None ==> homebrew_path(current).skip(33) == "/usr/bin:/bin:/usr/sbin:/sbin"@,
{
    reveal_strlit("/opt/homebrew/bin:/usr/local/bin:");
    let h = homebrew_path(current);
    assert("/opt/homebrew/bin:/usr/local/bin:"@.len() == 33);
    assert(h.take(33) =~= "/opt/homebrew/bin:/usr/local/bin:"@);
    match current {
        Some(p) => {
            assert(h.skip(33) =~= p);
        },
        None => {
            assert(h.skip(33) =~= "/usr/bin:/bin:/usr/sbin:/sbin"@);
        },
    }
}

// ---------------------------------------------------------------------
// Opening a browser page
// ---------------------------------------------------------------------

/// How to open a page in the user's browser.
pub enum BrowserLaunch {
    /// Run the command and wait for it.
    Wait(CommandSpec),
    /// Start the command and do not wait for it.
    Spawn(CommandSpec),
    /// Hand the page to the desktop's opener.
    SystemOpener,
}

/// `c` runs `program` with `args`, no added environment, the standard
/// input inherited and the standard output and error connected as `out`.
pub open spec fn runs_plain(c: CommandSpec, program: Seq<char>, args: Seq<Seq<char>>, out: Stdio) -> bool {
    &&& c.program@ == program
    &&& texts(c.args) == args
    &&& text_pairs(c.envs).len() == 0
    &&& c.stdin == Stdio::Inherit
    &&& c.stdout == out
    &&& c.stderr == out
}

/// How to open `url`. On Linux, when the installer runs elevated, the page
/// is opened as the user who elevated it (`PKEXEC_UID`, else `SUDO_USER`);
/// on macOS with `open`; otherwise with the desktop's opener.
pub fn browser_launch(
    os: Os,
    pkexec_uid: &Option<String>,
    sudo_user: &Option<String>,
    url: &str,
) -> (r: BrowserLaunch)
    ensures
        (os == Os::Linux && pkexec_uid is Some) ==> (r matches BrowserLaunch::Wait(c) && runs_plain(
            c,
            "sudo"@,
            seq!["-u"@, "#"@ + pkexec_uid->0@, "xdg-open"@, url@],
            Stdio::Inherit,
        )),
        (os == Os::Linux && pkexec_uid is None && sudo_user is Some) ==> (r matches BrowserLaunch::Wait(
            c,
        ) && runs_plain(c, "sudo"@, seq!["-u"@, sudo_user->0@, "xdg-open"@, url@], Stdio::Inherit)),
        os == Os::MacOs ==> (r matches BrowserLaunch::Spawn(c) && runs_plain(
            c,
            "open"@,
            seq![url@],
            Stdio::Null,
        )),
        (os == Os::Windows || (os == Os::Linux && pkexec_uid is None && sudo_user is None)) ==> r
            is SystemOpener,
{
    match os {
        Os::Linux => {
            let user = match pkexec_uid {
                Some(uid) => concat("#", uid.as_str()),
                None => match sudo_user {
                    Some(u) => u.clone(),
                    None => {
                        return BrowserLaunch::SystemOpener;
                    },
                },
            };
            let mut args: Vec<String> = Vec::new();
            push_text(&mut args, "-u");
            push_text(&mut args, user.as_str());
            push_text(&mut args, "xdg-open");
            push_text(&mut args, url);
            assert(texts(args) =~= seq!["-u"@, user@, "xdg-open"@, url@]);
            let envs: Vec<(String, String)> = Vec::new();
            assert(text_pairs(envs).len() == 0);
            BrowserLaunch::Wait(
                CommandSpec {
                    program: "sudo".to_owned(),
                    args,
                    envs,
                    stdin: Stdio::Inherit,
                    stdout: Stdio::Inherit,
                    stderr: Stdio::Inherit,
                },
            )
        },
        Os::MacOs => {
            let mut args: Vec<String> = Vec::new();
            push_text(&mut args, url);
            assert(texts(args) =~= seq![url@]);
            let envs: Vec<(String, String)> = Vec::new();
            assert(text_pairs(envs).len() == 0);
            BrowserLaunch::Spawn(
                CommandSpec {
                    program: "open".to_owned(),
                    args,
                    envs,
                    stdin: Stdio::Inherit,
                    stdout: Stdio::Null,
                    stderr: Stdio::Null,
                },
            )
        },
        Os::Windows => BrowserLaunch::SystemOpener,
    }
}

} // verus!
