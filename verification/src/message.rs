//! Messages between the init process and the process that forked it.
use vstd::prelude::*;
use crate::path::RawPath;

verus! {

/// The identifier of a process.
pub type Pid = u32;

/// How a process ended.
#[derive(Clone, Copy, Debug, PartialEq, Eq, Structural)]
pub enum ExitStatus {
    /// The process exited with a code.
    Exit(i32),
    /// The process was ended by a signal.
    Signalled(u8),
}

/// Message from the forker to init and response
#[derive(Debug)]
pub enum Message {
    /// The init process forked a new child with `pid`
    Forked { pid: Pid },
    /// A child of init exited with `exit_status`
    Exit { pid: Pid, exit_status: ExitStatus },
    /// Exec a new process
    Exec { path: RawPath, args: Vec<String>, env: Vec<String> },
}

/// What a [`Message`] holds.
#[verifier::ext_equal]
pub enum MessageView {
    Forked { pid: Pid },
    Exit { pid: Pid, exit_status: ExitStatus },
    Exec { path: Seq<u8>, args: Seq<Seq<char>>, env: Seq<Seq<char>> },
}

/// The contents of texts.
pub open spec fn texts(s: Seq<String>) -> Seq<Seq<char>> {
    s.map_values(|t: String| t@)
}

impl View for Message {
    type V = MessageView;

    open spec fn view(&self) -> MessageView {
        match self {
            Message::Forked { pid } => MessageView::Forked { pid: *pid },
            Message::Exit { pid, exit_status } => MessageView::Exit {
                pid: *pid,
                exit_status: *exit_status,
            },
            Message::Exec { path, args, env } => MessageView::Exec {
                path: path@,
                args: texts(args@),
                env: texts(env@),
            },
        }
    }
}

} // verus!
