//! The child supervisor: what the waiting parent does about each change in
//! the state of its child.

use vstd::prelude::*;

verus! {

/// The exit status of a supervisor that has no status of its child to pass
/// on.
pub const FAILURE: i32 = 1;

/// A signal, as far as the supervisor tells signals apart.
#[derive(Clone, Copy, Debug, PartialEq, Eq, Structural)]
pub enum Signal {
    /// The signal that stops a process and cannot be caught.
    Stop,
    /// The signal that lets a stopped process go on.
    Continue,
    /// Any other signal, by number.
    Other(i32),
}

/// What a wait for the child reported.
#[derive(Clone, Copy, Debug, PartialEq, Eq, Structural)]
pub enum WaitStatus {
    /// The child exited with this status.
    Exited { pid: i32, code: i32 },
    /// This signal ended the child.
    Signaled { pid: i32, signal: Signal },
    /// This signal stopped the child.
    Stopped { pid: i32, signal: Signal },
    /// Anything else.
    Unexpected,
}

/// One signal to send.
#[derive(Clone, Copy, Debug, PartialEq, Eq, Structural)]
pub struct Kill {
    /// The process to send it to.
    pub pid: i32,
    /// The signal.
    pub signal: Signal,
}

/// What the supervisor does about one report.
#[derive(Debug, PartialEq, Eq)]
pub struct Supervision {
    /// The signals to send, in order.
    pub signals: Vec<Kill>,
    /// Whether to tell the user of an unexpected report.
    pub log: bool,
    /// The status to exit with, after the cleanup; or none, to wait again.
    pub exit: Option<i32>,
}

/// The signals that a report calls for. A child that was stopped stops the
/// supervisor too and is made to go on, so that the two are suspended and
/// resumed as one. A signal that ended the child is passed on to the
/// supervisor itself.
pub open spec fn signals_for(parent: i32, status: WaitStatus) -> Seq<Kill> {
    match status {
        WaitStatus::Stopped { pid, signal: Signal::Stop } => seq![
            Kill { pid: parent, signal: Signal::Stop },
            Kill { pid, signal: Signal::Continue },
        ],
        WaitStatus::Signaled { pid, signal } => seq![Kill { pid: parent, signal }],
        _ => Seq::empty(),
    }
}

/// The status that a report makes the supervisor exit with, if it does: the
/// child's own status where the child exited, else the failure status; none
/// where the child was only stopped.
pub open spec fn exit_for(status: WaitStatus) -> Option<i32> {
    match status {
        WaitStatus::Stopped { pid, signal: Signal::Stop } => None,
        WaitStatus::Exited { pid, code } => Some(code),
        _ => Some(FAILURE),
    }
}

/// Whether a report is one that the supervisor does not expect.
pub open spec fn unexpected(status: WaitStatus) -> bool {
    match status {
        WaitStatus::Stopped { pid, signal: Signal::Stop } => false,
        WaitStatus::Signaled { .. } => false,
        WaitStatus::Exited { .. } => false,
        _ => true,
    }
}

/// Decides what the supervisor with pid `parent` does about `status`.
pub fn supervise(parent: i32, status: WaitStatus) -> (out: Supervision)
    ensures
        out.signals@ == signals_for(parent, status),
        out.exit == exit_for(status),
        out.log == unexpected(status),
{
    let mut signals: Vec<Kill> = Vec::new();
    match status {
        WaitStatus::Stopped { pid, signal: Signal::Stop } => {
            signals.push(Kill { pid: parent, signal: Signal::Stop });
            signals.push(Kill { pid, signal: Signal::Continue });
            assert(signals@ =~= signals_for(parent, status));
            Supervision { signals, log: false, exit: None }
        },
        WaitStatus::Signaled { pid, signal } => {
            signals.push(Kill { pid: parent, signal });
            assert(signals@ =~= signals_for(parent, status));
            Supervision { signals, log: false, exit: Some(FAILURE) }
        },
        WaitStatus::Exited { pid, code } => {
            assert(signals@ =~= signals_for(parent, status));
            Supervision { signals, log: false, exit: Some(code) }
        },
        _ => {
            assert(signals@ =~= signals_for(parent, status));
            Supervision { signals, log: true, exit: Some(FAILURE) }
        },
    }
}

/// A child that exits hands its status to the supervisor, and nothing is
/// signalled.
pub proof fn lemma_exit_code_adopted(parent: i32, pid: i32, code: i32)
    ensures
        exit_for(WaitStatus::Exited { pid, code }) == Some(code),
        signals_for(parent, WaitStatus::Exited { pid, code }) == Seq::<Kill>::empty(),
{
}

/// The supervisor goes on waiting only after a stop, and then the child is
/// told to continue.
pub proof fn lemma_waits_on_only_after_stop(parent: i32, status: WaitStatus)
    ensures
        exit_for(status) is None <==> status matches WaitStatus::Stopped {
            pid,
            signal: Signal::Stop,
        },
        exit_for(status) is None ==> signals_for(parent, status).last() == (Kill {
            pid: status->Stopped_pid,
            signal: Signal::Continue,
        }),
{
}

} // verus!
