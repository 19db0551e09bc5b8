//! The life of a mount: what a press on mount or unmount comes to. The
//! session itself is held by whoever performs the commands.
use vstd::prelude::*;

verus! {

#[derive(Clone, Copy, Debug, PartialEq, Eq, Structural)]
pub enum Status {
    Unmounting,
    Unmounted,
    Mounting,
    Mounted,
}

/// What stands in the way of a request.
#[derive(Clone, Copy, Debug, PartialEq, Eq, Structural)]
pub enum Problem {
    MountpointNotDirectory,
    SourceNotDirectory,
    NothingMounted,
}

/// What is to be done outside.
#[derive(Clone, Copy, Debug, PartialEq, Eq, Structural)]
pub enum Command {
    Nothing,
    /// Attach the mount, then report with `mount_finished`.
    Mount,
    /// Wait until the background session has ended.
    Join,
}

#[derive(Clone, Copy, Debug, PartialEq, Eq, Structural)]
pub struct Outcome {
    pub status: Status,
    pub command: Command,
    /// The problem to show, where there is a new one.
    pub problem: Option<Problem>,
}

impl Problem {
    /// The message that is shown for this problem.
    pub fn text(&self) -> (text: String)
        ensures
            text@ == match *self {
                Problem::MountpointNotDirectory => "Mountpoint is not a directory."@,
                Problem::SourceNotDirectory => "Source is not a directory."@,
                Problem::NothingMounted =>
                    "Somehow unmount was pressed, even though nothing was mounted...? Oh well."@,
            },
    {
        match self {
            Problem::MountpointNotDirectory => "Mountpoint is not a directory.".to_owned(),
            Problem::SourceNotDirectory => "Source is not a directory.".to_owned(),
            Problem::NothingMounted =>
                "Somehow unmount was pressed, even though nothing was mounted...? Oh well.".to_owned(),
        }
    }
}

/// Mount was pressed. Where both paths are directories the mount is to be
/// attached; else the status stays and the problem is named, the source's
/// before the mountpoint's.
pub fn mount_pressed(status: Status, source_valid: bool, mountpoint_valid: bool) -> (outcome: Outcome)
    ensures
        outcome == if source_valid && mountpoint_valid {
            (Outcome { status: Status::Mounting, command: Command::Mount, problem: None })
        } else if !source_valid {
            (Outcome { status, command: Command::Nothing, problem: Some(Problem::SourceNotDirectory) })
        } else {
            (Outcome {
                status,
                command: Command::Nothing,
                problem: Some(Problem::MountpointNotDirectory),
            })
        },
{
    if mountpoint_valid && source_valid {
        Outcome { status: Status::Mounting, command: Command::Mount, problem: None }
    } else {
        let mut problem = None;
        if !mountpoint_valid {
            problem = Some(Problem::MountpointNotDirectory);
        }
        if !source_valid {
            problem = Some(Problem::SourceNotDirectory);
        }
        Outcome { status, command: Command::Nothing, problem }
    }
}

/// The attempt to attach the mount has ended.
pub fn mount_finished(attached: bool) -> (status: Status)
    ensures
        status == if attached {
            Status::Mounted
        } else {
            Status::Unmounted
        },
{
    if attached {
        Status::Mounted
    } else {
        Status::Unmounted
    }
}

/// Unmount was pressed. A mounted session is to be joined; without one
/// the problem is named. Either way nothing is mounted afterwards.
pub fn unmount_pressed(status: Status) -> (outcome: Outcome)
    ensures
        outcome.status == Status::Unmounted,
        status == Status::Mounted ==> outcome.command == Command::Join && outcome.problem is None,
        status != Status::Mounted ==> outcome.command == Command::Nothing && outcome.problem
            == Some(Problem::NothingMounted),
{
    match status {
        Status::Mounted => Outcome {
            status: Status::Unmounted,
            command: Command::Join,
            problem: None,
        },
        _ => Outcome {
            status: Status::Unmounted,
            command: Command::Nothing,
            problem: Some(Problem::NothingMounted),
        },
    }
}

} // verus!
