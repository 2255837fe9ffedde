//! How the installer gets the rights its commands need. On Windows the
//! system's own prompt elevated the process before it started, and a
//! process that already runs as root needs nothing more. Otherwise the
//! user's password is checked once with `sudo -S -v` before any command
//! starts, and each command then runs through `sudo -S`, the password
//! written to its standard input: it is never put in an argument, a
//! variable or a file.
use vstd::prelude::*;
use crate::command::{command_view, sudo_validate_command, sudo_validate_view, CommandSpec};
use crate::platform::Os;

verus! {

broadcast use vstd::string::group_string_axioms;

/// The next step before a privileged command may run.
pub enum Authorization {
    /// Run the commands as they are.
    RunDirectly,
    /// Run this command first, with the password written to its standard
    /// input, and hand whether it succeeded to `after_sudo_validation`.
    ValidateSudo(CommandSpec),
    /// Run the commands through `sudo -S`, the password written to their
    /// standard input.
    RunWithSudo,
    /// Run nothing, and report this message.
    Refuse(String),
}

/// Whether the commands must go through `sudo`: on macOS and Linux, when
/// the installer does not already run as root.
pub open spec fn sudo_needed(os: Os, is_root: bool) -> bool {
    os != Os::Windows && !is_root
}

/// Whether the user gave a password: one that is not empty.
pub open spec fn password_given(password: Option<Seq<char>>) -> bool {
    password matches Some(p) && p.len() > 0
}

pub open spec fn password_required_message() -> Seq<char> {
    "An administrator password is required"@
}

pub open spec fn sudo_failed_message() -> Seq<char> {
    "Sudo authentication failed"@
}

/// The first step before a privileged command: run it directly when no
/// `sudo` is needed, refuse when it is needed and no password was given,
/// and else check the password. It never lets a command run through
/// `sudo` before the password was checked.
pub fn authorize(os: Os, is_root: bool, password: &Option<String>) -> (r: Authorization)
    ensures
        !sudo_needed(os, is_root) ==> r is RunDirectly,
        sudo_needed(os, is_root) && !password_given(password.deep_view()) ==> (r matches Authorization::Refuse(
            m,
        ) && m@ == password_required_message()),
        sudo_needed(os, is_root) && password_given(password.deep_view()) ==> (r matches Authorization::ValidateSudo(
            c,
        ) && command_view(c) == sudo_validate_view()),
        !(r is RunWithSudo),
{
    if os == Os::Windows || is_root {
        return Authorization::RunDirectly;
    }
    let given = match password {
        Some(p) => !p.as_str().is_empty(),
        None => false,
    };
    if given {
        Authorization::ValidateSudo(sudo_validate_command())
    } else {
        Authorization::Refuse("An administrator password is required".to_owned())
    }
}

/// The step after the password check: run the commands through `sudo`
/// when it succeeded, refuse when it failed.
pub fn after_sudo_validation(validated: bool) -> (r: Authorization)
    ensures
        validated ==> r is RunWithSudo,
        !validated ==> (r matches Authorization::Refuse(m) && m@ == sudo_failed_message()),
{
    if validated {
        Authorization::RunWithSudo
    } else {
        Authorization::Refuse("Sudo authentication failed".to_owned())
    }
}

} // verus!
