//! The result reported to the user when a child process ends, or when its
//! output showed that it reached its goal.
use vstd::prelude::*;

verus! {

broadcast use vstd::string::group_string_axioms;

/// The processes whose outcome the installer reports.
#[derive(Clone, Copy, Debug, PartialEq, Eq, Structural)]
pub enum Task {
    Install,
    Enroll,
    NetbirdUp,
}

/// The outcome of a task.
pub struct InstallResult {
    pub success: bool,
    pub exit_code: i32,
    pub message: String,
}

pub open spec fn success_message(task: Task) -> Seq<char> {
    match task {
        Task::Install => "Installation complete"@,
        Task::Enroll => "Enrollment complete"@,
        Task::NetbirdUp => "NetBird connected successfully"@,
    }
}

pub open spec fn failure_message(task: Task) -> Seq<char> {
    match task {
        Task::Install => "Installation failed"@,
        Task::Enroll => "Enrollment failed"@,
        Task::NetbirdUp => "NetBird connection failed"@,
    }
}

/// The outcome of `task` from whether it succeeded and its exit code, if
/// it had one (`-1` when it was ended by a signal).
pub fn task_result(task: Task, success: bool, code: Option<i32>) -> (r: InstallResult)
    ensures
        r.success == success,
        r.exit_code == match code {
            Some(c) => c,
            None => -1i32,
        },
        r.message@ == if success {
            success_message(task)
        } else {
            failure_message(task)
        },
{
    let exit_code = match code {
        Some(c) => c,
        None => -1,
    };
    let message = if success {
        match task {
            Task::Install => "Installation complete",
            Task::Enroll => "Enrollment complete",
            Task::NetbirdUp => "NetBird connected successfully",
        }
    } else {
        match task {
            Task::Install => "Installation failed",
            Task::Enroll => "Enrollment failed",
            Task::NetbirdUp => "NetBird connection failed",
        }
    };
    InstallResult { success, exit_code, message: message.to_owned() }
}

/// The outcome of `task` when its output showed that it reached its goal
/// before it exited.
pub fn task_reached_goal(task: Task) -> (r: InstallResult)
    ensures
        r.success,
        r.exit_code == 0,
        r.message@ == success_message(task),
{
    task_result(task, true, Some(0))
}

} // verus!
