//! What the init process asks of the operating system, and the answers.
use vstd::prelude::*;
use vstd::string::StringExecFns;
use crate::capability::{Capability, CapabilitySet};
use crate::limits::RLimitResource;
use crate::message::{Message, Pid};
use crate::message::MessageView;
use crate::message::texts;
use crate::mount::Mount;
use crate::mount::MountView;
use crate::path::RawPath;
use crate::text::{decimal_text, owned};
use crate::text::decimal;

verus! {

/// A standard stream of a process.
#[derive(Clone, Copy, Debug, PartialEq, Eq, Structural)]
pub enum Stream {
    Stdin,
    Stdout,
    Stderr,
}

/// A set of capabilities of a thread that can be given a new value as a whole.
#[derive(Clone, Copy, Debug, PartialEq, Eq, Structural)]
pub enum CapSet {
    Effective,
    Permitted,
    Inheritable,
    Ambient,
}

/// One instruction of a seccomp filter program.
#[derive(Clone, Copy, Debug, PartialEq, Eq, Structural)]
pub struct SockFilter {
    pub code: u16,
    pub jt: u8,
    pub jf: u8,
    pub k: u32,
}

/// The seccomp filter of a container: the system calls that it may use.
#[derive(Debug)]
pub struct AllowList {
    pub list: Vec<SockFilter>,
}

impl View for AllowList {
    type V = Seq<SockFilter>;

    open spec fn view(&self) -> Seq<SockFilter> {
        self.list@
    }
}

impl Clone for AllowList {
    fn clone(&self) -> (r: Self)
        ensures
            r@ == self@,
    {
        let list = self.list.clone();
        assert(list@ =~= self.list@);
        AllowList { list }
    }
}

/// One step of the forked child on its way to the application.
#[derive(Debug)]
pub enum ChildStep {
    /// Log under the given target.
    SetLogTarget(String),
    /// Be killed when the parent dies.
    KillOnParentDeath,
    /// Make a stream refer to what the descriptor refers to.
    Dup2(i32, Stream),
    /// Close the descriptor that a stream was received as.
    Close(Stream, i32),
    /// Apply the filter.
    ApplySeccomp(AllowList),
    /// Become the application.
    Execve { path: String, args: Vec<String>, env: Vec<String> },
    /// Panic with a message.
    Panic(String),
}

/// What a [`ChildStep`] holds.
#[verifier::ext_equal]
pub enum ChildStepView {
    SetLogTarget(Seq<char>),
    KillOnParentDeath,
    Dup2(i32, Stream),
    Close(Stream, i32),
    ApplySeccomp(Seq<SockFilter>),
    Execve { path: Seq<char>, args: Seq<Seq<char>>, env: Seq<Seq<char>> },
    Panic(Seq<char>),
}

impl View for ChildStep {
    type V = ChildStepView;

    open spec fn view(&self) -> ChildStepView {
        match self {
            ChildStep::SetLogTarget(target) => ChildStepView::SetLogTarget(target@),
            ChildStep::KillOnParentDeath => ChildStepView::KillOnParentDeath,
            ChildStep::Dup2(fd, stream) => ChildStepView::Dup2(*fd, *stream),
            ChildStep::Close(stream, fd) => ChildStepView::Close(*stream, *fd),
            ChildStep::ApplySeccomp(filter) => ChildStepView::ApplySeccomp(filter@),
            ChildStep::Execve { path, args, env } => ChildStepView::Execve {
                path: path@,
                args: texts(args@),
                env: texts(env@),
            },
            ChildStep::Panic(text) => ChildStepView::Panic(text@),
        }
    }
}

/// What steps of the child hold.
pub open spec fn step_views(s: Seq<ChildStep>) -> Seq<ChildStepView> {
    s.map_values(|step: ChildStep| step@)
}

/// An operation that the init process asks for.
#[derive(Debug)]
pub enum Action {
    /// Log under the given target.
    SetLogTarget(String),
    /// Adopt orphaned descendants, or stop to.
    SetChildSubreaper(bool),
    /// Give the process a name.
    SetProcessName(String),
    /// Become a session group leader.
    SetSid,
    /// Enter a mount namespace of its own.
    UnshareMountNamespace,
    /// Perform a mount call.
    Mount(Mount),
    /// Change the root directory.
    Chroot(RawPath),
    /// Change the current working directory.
    SetCurrentDir(RawPath),
    /// Tell the effective user id.
    GetEuid,
    /// Keep the capabilities across a change of the user id, or stop to.
    SetKeepCaps(bool),
    /// Set the real, effective and saved group id.
    SetResGid(u32),
    /// Set the real, effective and saved user id.
    SetResUid(u32),
    /// Set the effective capabilities back to the most possible set.
    ResetEffectiveCaps(CapabilitySet),
    /// Set the supplementary groups.
    SetGroups(Vec<u32>),
    /// Set the limits of a resource.
    SetRLimit { resource: RLimitResource, soft: u64, hard: u64 },
    /// Set whether `execve(2)` grants no new privileges.
    SetNoNewPrivs(bool),
    /// Tell the bounding set of capabilities.
    ReadBoundingCaps,
    /// Drop a capability from the bounding set.
    DropBoundingCap(Capability),
    /// Set a set of capabilities to a new value.
    SetCaps(CapSet, CapabilitySet),
    /// Receive a message.
    Receive,
    /// Be killed when the parent dies.
    KillOnParentDeath,
    /// Receive the descriptors of the standard streams.
    ReceiveIo,
    /// Fork a child that takes the given steps.
    Fork(Vec<ChildStep>),
    /// Drop the console descriptor.
    DropConsole,
    /// Close the descriptor that a stream was received as.
    Close(Stream, i32),
    /// Send a message.
    Send(Message),
    /// Wait for a change of state of the child.
    WaitPid(Pid),
    /// Wait for the child, which has ended, once more. The answer is that there
    /// is no such child, or a failure with the result of the wait.
    Reap(Pid),
    /// Exit the process with a code.
    Exit(i32),
    /// Panic with a message.
    Panic(String),
    /// Panic as the assertion that `left` equals `right` does.
    FailAssertion { left: String, right: String },
}

/// What an [`Action`] holds.
#[verifier::ext_equal]
pub enum ActionView {
    SetLogTarget(Seq<char>),
    SetChildSubreaper(bool),
    SetProcessName(Seq<char>),
    SetSid,
    UnshareMountNamespace,
    Mount(MountView),
    Chroot(Seq<u8>),
    SetCurrentDir(Seq<u8>),
    GetEuid,
    SetKeepCaps(bool),
    SetResGid(u32),
    SetResUid(u32),
    ResetEffectiveCaps(Set<Capability>),
    SetGroups(Seq<u32>),
    SetRLimit { resource: RLimitResource, soft: u64, hard: u64 },
    SetNoNewPrivs(bool),
    ReadBoundingCaps,
    DropBoundingCap(Capability),
    SetCaps(CapSet, Set<Capability>),
    Receive,
    KillOnParentDeath,
    ReceiveIo,
    Fork(Seq<ChildStepView>),
    DropConsole,
    Close(Stream, i32),
    Send(MessageView),
    WaitPid(Pid),
    Reap(Pid),
    Exit(i32),
    Panic(Seq<char>),
    FailAssertion { left: Seq<char>, right: Seq<char> },
}

impl View for Action {
    type V = ActionView;

    open spec fn view(&self) -> ActionView {
        match self {
            Action::SetLogTarget(target) => ActionView::SetLogTarget(target@),
            Action::SetChildSubreaper(value) => ActionView::SetChildSubreaper(*value),
            Action::SetProcessName(name) => ActionView::SetProcessName(name@),
            Action::SetSid => ActionView::SetSid,
            Action::UnshareMountNamespace => ActionView::UnshareMountNamespace,
            Action::Mount(mount) => ActionView::Mount(mount@),
            Action::Chroot(path) => ActionView::Chroot(path@),
            Action::SetCurrentDir(path) => ActionView::SetCurrentDir(path@),
            Action::GetEuid => ActionView::GetEuid,
            Action::SetKeepCaps(value) => ActionView::SetKeepCaps(*value),
            Action::SetResGid(gid) => ActionView::SetResGid(*gid),
            Action::SetResUid(uid) => ActionView::SetResUid(*uid),
            Action::ResetEffectiveCaps(set) => ActionView::ResetEffectiveCaps(set@.to_set()),
            Action::SetGroups(groups) => ActionView::SetGroups(groups@),
            Action::SetRLimit { resource, soft, hard } => ActionView::SetRLimit {
                resource: *resource,
                soft: *soft,
                hard: *hard,
            },
            Action::SetNoNewPrivs(value) => ActionView::SetNoNewPrivs(*value),
            Action::ReadBoundingCaps => ActionView::ReadBoundingCaps,
            Action::DropBoundingCap(cap) => ActionView::DropBoundingCap(*cap),
            Action::SetCaps(which, set) => ActionView::SetCaps(*which, set@.to_set()),
            Action::Receive => ActionView::Receive,
            Action::KillOnParentDeath => ActionView::KillOnParentDeath,
            Action::ReceiveIo => ActionView::ReceiveIo,
            Action::Fork(steps) => ActionView::Fork(step_views(steps@)),
            Action::DropConsole => ActionView::DropConsole,
            Action::Close(stream, fd) => ActionView::Close(*stream, *fd),
            Action::Send(message) => ActionView::Send(message@),
            Action::WaitPid(pid) => ActionView::WaitPid(*pid),
            Action::Reap(pid) => ActionView::Reap(*pid),
            Action::Exit(code) => ActionView::Exit(*code),
            Action::Panic(text) => ActionView::Panic(text@),
            Action::FailAssertion { left, right } => ActionView::FailAssertion {
                left: left@,
                right: right@,
            },
        }
    }
}

/// What actions hold.
pub open spec fn action_views(s: Seq<Action>) -> Seq<ActionView> {
    s.map_values(|a: Action| a@)
}

/// The answer to an action.
#[derive(Debug)]
pub enum Event {
    /// The operation succeeded.
    Done,
    /// The operation failed, with the text of the error.
    Failed(String),
    /// The effective user id.
    Euid(u32),
    /// The bounding set of capabilities.
    BoundingCaps(CapabilitySet),
    /// A message was received.
    Received(Message),
    /// The channel is closed.
    Closed,
    /// The descriptors of the standard streams were received.
    Io { stdin: i32, stdout: i32, stderr: i32 },
    /// The child was forked.
    Forked(Pid),
    /// The child exited with a code.
    Exited(i32),
    /// The child was ended by a signal.
    Signaled(i32),
    /// The child was stopped.
    Stopped,
    /// The child was continued.
    Continued,
    /// Waiting was interrupted.
    Interrupted,
    /// There is no such child.
    NoChild,
}

/// What an [`Event`] holds.
#[verifier::ext_equal]
pub enum EventView {
    Done,
    Failed(Seq<char>),
    Euid(u32),
    BoundingCaps(Seq<Capability>),
    Received(MessageView),
    Closed,
    Io { stdin: i32, stdout: i32, stderr: i32 },
    Forked(Pid),
    Exited(i32),
    Signaled(i32),
    Stopped,
    Continued,
    Interrupted,
    NoChild,
}

impl View for Event {
    type V = EventView;

    open spec fn view(&self) -> EventView {
        match self {
            Event::Done => EventView::Done,
            Event::Failed(error) => EventView::Failed(error@),
            Event::Euid(uid) => EventView::Euid(*uid),
            Event::BoundingCaps(set) => EventView::BoundingCaps(set@),
            Event::Received(message) => EventView::Received(message@),
            Event::Closed => EventView::Closed,
            Event::Io { stdin, stdout, stderr } => EventView::Io {
                stdin: *stdin,
                stdout: *stdout,
                stderr: *stderr,
            },
            Event::Forked(pid) => EventView::Forked(*pid),
            Event::Exited(code) => EventView::Exited(*code),
            Event::Signaled(signal) => EventView::Signaled(*signal),
            Event::Stopped => EventView::Stopped,
            Event::Continued => EventView::Continued,
            Event::Interrupted => EventView::Interrupted,
            Event::NoChild => EventView::NoChild,
        }
    }
}

impl ActionView {
    /// The message for the failure of the operation, up to the error.
    pub open spec fn failure(self) -> Seq<char> {
        match self {
            ActionView::SetLogTarget(_) => "Failed to set log target"@,
            ActionView::SetChildSubreaper(_) => "Failed to set child subreaper"@,
            ActionView::SetProcessName(_) => "Failed to set process name"@,
            ActionView::SetSid => "Failed to call setsid"@,
            ActionView::UnshareMountNamespace => "Failed to unshare NEWNS"@,
            ActionView::Mount(mount) => mount.error_msg,
            ActionView::Chroot(_) => "Failed to chroot"@,
            ActionView::SetCurrentDir(_) => "Failed to set cwd to /"@,
            ActionView::GetEuid => "Failed to get effective uid"@,
            ActionView::SetKeepCaps(_) => "Failed to set keep caps"@,
            ActionView::SetResGid(_) => "Failed to set resgid"@,
            ActionView::SetResUid(_) => "Failed to set resuid"@,
            ActionView::ResetEffectiveCaps(_) => "Failed to reset effective caps"@,
            ActionView::SetGroups(_) => "Failed to set supplementary groups"@,
            ActionView::SetRLimit { .. } => "Failed to set rlimit"@,
            ActionView::SetNoNewPrivs(_) => "Failed to set PR_SET_NO_NEW_PRIVS"@,
            ActionView::ReadBoundingCaps => "Failed to read bounding caps"@,
            ActionView::DropBoundingCap(_) => "Failed to drop bounding cap"@,
            ActionView::SetCaps(CapSet::Effective, _) => "Failed to set effective caps"@,
            ActionView::SetCaps(CapSet::Permitted, _) => "Failed to set permitted caps"@,
            ActionView::SetCaps(CapSet::Inheritable, _) => "Failed to set inheritable caps"@,
            ActionView::SetCaps(CapSet::Ambient, _) => "Failed to set ambient caps"@,
            ActionView::Receive => "Failed to receive message"@,
            ActionView::KillOnParentDeath => "Failed to set parent death signal"@,
            ActionView::ReceiveIo => "Failed to receive io"@,
            ActionView::Fork(_) => "Failed to spawn child process"@,
            ActionView::DropConsole => "Failed to drop console"@,
            ActionView::Close(Stream::Stdin, _) => "Failed to close stdout"@,
            ActionView::Close(Stream::Stdout, _) => "Failed to close stdout"@,
            ActionView::Close(Stream::Stderr, _) => "Failed to close stderr"@,
            ActionView::Send(MessageView::Forked { .. }) => "Failed to send fork result"@,
            ActionView::Send(_) => "Channel error"@,
            ActionView::WaitPid(pid) => "Failed to waitpid on "@ + decimal(pid as int),
            ActionView::Reap(pid) => "Failed to waitpid on "@ + decimal(pid as int),
            ActionView::Exit(_) => "Failed to exit"@,
            ActionView::Panic(text) => text,
            ActionView::FailAssertion { .. } => "Failed assertion"@,
        }
    }

    /// The panic of the init process when the operation fails with `error`.
    /// A child that has ended is asserted to be gone.
    pub open spec fn panic(self, error: Seq<char>) -> ActionView {
        match self {
            ActionView::Reap(_) => ActionView::FailAssertion {
                left: error,
                right: "Err(ECHILD)"@,
            },
            _ => ActionView::Panic(self.failure() + ": "@ + error),
        }
    }
}

impl Action {
    /// The message for the failure of the operation, up to the error.
    pub fn failure(&self) -> (r: String)
        ensures
            r@ == self@.failure(),
    {
        match self {
            Action::SetLogTarget(_) => owned("Failed to set log target"),
            Action::SetChildSubreaper(_) => owned("Failed to set child subreaper"),
            Action::SetProcessName(_) => owned("Failed to set process name"),
            Action::SetSid => owned("Failed to call setsid"),
            Action::UnshareMountNamespace => owned("Failed to unshare NEWNS"),
            Action::Mount(mount) => mount.error_msg.clone(),
            Action::Chroot(_) => owned("Failed to chroot"),
            Action::SetCurrentDir(_) => owned("Failed to set cwd to /"),
            Action::GetEuid => owned("Failed to get effective uid"),
            Action::SetKeepCaps(_) => owned("Failed to set keep caps"),
            Action::SetResGid(_) => owned("Failed to set resgid"),
            Action::SetResUid(_) => owned("Failed to set resuid"),
            Action::ResetEffectiveCaps(_) => owned("Failed to reset effective caps"),
            Action::SetGroups(_) => owned("Failed to set supplementary groups"),
            Action::SetRLimit { .. } => owned("Failed to set rlimit"),
            Action::SetNoNewPrivs(_) => owned("Failed to set PR_SET_NO_NEW_PRIVS"),
            Action::ReadBoundingCaps => owned("Failed to read bounding caps"),
            Action::DropBoundingCap(_) => owned("Failed to drop bounding cap"),
            Action::SetCaps(CapSet::Effective, _) => owned("Failed to set effective caps"),
            Action::SetCaps(CapSet::Permitted, _) => owned("Failed to set permitted caps"),
            Action::SetCaps(CapSet::Inheritable, _) => owned("Failed to set inheritable caps"),
            Action::SetCaps(CapSet::Ambient, _) => owned("Failed to set ambient caps"),
            Action::Receive => owned("Failed to receive message"),
            Action::KillOnParentDeath => owned("Failed to set parent death signal"),
            Action::ReceiveIo => owned("Failed to receive io"),
            Action::Fork(_) => owned("Failed to spawn child process"),
            Action::DropConsole => owned("Failed to drop console"),
            Action::Close(Stream::Stdin, _) => owned("Failed to close stdout"),
            Action::Close(Stream::Stdout, _) => owned("Failed to close stdout"),
            Action::Close(Stream::Stderr, _) => owned("Failed to close stderr"),
            Action::Send(Message::Forked { .. }) => owned("Failed to send fork result"),
            Action::Send(_) => owned("Channel error"),
            Action::WaitPid(pid) | Action::Reap(pid) => {
                let mut text = owned("Failed to waitpid on ");
                let number = decimal_text(*pid as i64);
                text.append(number.as_str());
                text
            },
            Action::Exit(_) => owned("Failed to exit"),
            Action::Panic(text) => text.clone(),
            Action::FailAssertion { .. } => owned("Failed assertion"),
        }
    }

    /// The panic of the init process when the operation fails with `error`.
    /// A child that has ended is asserted to be gone.
    pub fn panic(&self, error: &String) -> (r: Action)
        ensures
            r@ == self@.panic(error@),
    {
        match self {
            Action::Reap(_) => Action::FailAssertion {
                left: error.clone(),
                right: owned("Err(ECHILD)"),
            },
            _ => {
                let mut text = self.failure();
                text.append(": ");
                text.append(error.as_str());
                Action::Panic(text)
            },
        }
    }
}

impl ChildStepView {
    /// The message for the failure of the step, up to the error.
    pub open spec fn failure(self) -> Seq<char> {
        match self {
            ChildStepView::SetLogTarget(_) => "Failed to set log target"@,
            ChildStepView::KillOnParentDeath => "Failed to set parent death signal"@,
            ChildStepView::Dup2(_, _) => "Failed to dup2"@,
            ChildStepView::Close(Stream::Stdin, _) => "Failed to close stdout after dup2"@,
            ChildStepView::Close(Stream::Stdout, _) => "Failed to close stdout after dup2"@,
            ChildStepView::Close(Stream::Stderr, _) => "Failed to close stderr after dup2"@,
            ChildStepView::ApplySeccomp(_) => "Failed to apply seccomp filter."@,
            ChildStepView::Execve { .. } => "Execve"@,
            ChildStepView::Panic(text) => text,
        }
    }
}

impl ChildStep {
    /// The message for the failure of the step, up to the error.
    pub fn failure(&self) -> (r: String)
        ensures
            r@ == self@.failure(),
    {
        match self {
            ChildStep::SetLogTarget(_) => owned("Failed to set log target"),
            ChildStep::KillOnParentDeath => owned("Failed to set parent death signal"),
            ChildStep::Dup2(_, _) => owned("Failed to dup2"),
            ChildStep::Close(Stream::Stdin, _) => owned("Failed to close stdout after dup2"),
            ChildStep::Close(Stream::Stdout, _) => owned("Failed to close stdout after dup2"),
            ChildStep::Close(Stream::Stderr, _) => owned("Failed to close stderr after dup2"),
            ChildStep::ApplySeccomp(_) => owned("Failed to apply seccomp filter."),
            ChildStep::Execve { .. } => owned("Execve"),
            ChildStep::Panic(text) => text.clone(),
        }
    }
}

/// Whether two actions are the same operation, on whatever it is performed. The
/// streams to close, the sets of capabilities and the messages on a fork and on
/// an end are different operations.
pub open spec fn same_operation(a: ActionView, b: ActionView) -> bool {
    match (a, b) {
        (ActionView::SetLogTarget(_), ActionView::SetLogTarget(_)) => true,
        (ActionView::SetChildSubreaper(_), ActionView::SetChildSubreaper(_)) => true,
        (ActionView::SetProcessName(_), ActionView::SetProcessName(_)) => true,
        (ActionView::Chroot(_), ActionView::Chroot(_)) => true,
        (ActionView::SetCurrentDir(_), ActionView::SetCurrentDir(_)) => true,
        (ActionView::SetKeepCaps(_), ActionView::SetKeepCaps(_)) => true,
        (ActionView::SetResGid(_), ActionView::SetResGid(_)) => true,
        (ActionView::SetResUid(_), ActionView::SetResUid(_)) => true,
        (ActionView::ResetEffectiveCaps(_), ActionView::ResetEffectiveCaps(_)) => true,
        (ActionView::SetGroups(_), ActionView::SetGroups(_)) => true,
        (ActionView::SetRLimit { .. }, ActionView::SetRLimit { .. }) => true,
        (ActionView::SetNoNewPrivs(_), ActionView::SetNoNewPrivs(_)) => true,
        (ActionView::DropBoundingCap(_), ActionView::DropBoundingCap(_)) => true,
        (ActionView::SetCaps(x, _), ActionView::SetCaps(y, _)) => x == y,
        (ActionView::Fork(_), ActionView::Fork(_)) => true,
        (ActionView::Close(x, _), ActionView::Close(y, _)) => x == y,
        (ActionView::Send(x), ActionView::Send(y)) => x is Forked <==> y is Forked,
        _ => a == b,
    }
}

/// The message for a failure tells the operation: it is the same for the same
/// operation, on whatever it was performed. Only a mount has the message that it
/// was given, and a wait tells the child.
pub proof fn law_failure_tells_the_operation(a: ActionView, b: ActionView)
    ensures
        same_operation(a, b) ==> a.failure() == b.failure(),
        a matches ActionView::Mount(mount) ==> a.failure() == mount.error_msg,
        a matches ActionView::WaitPid(pid) ==> a.failure() == "Failed to waitpid on "@ + decimal(
            pid as int,
        ),
{
}

/// Whether two steps of the child are the same operation, on whatever it is
/// performed.
pub open spec fn same_step(a: ChildStepView, b: ChildStepView) -> bool {
    match (a, b) {
        (ChildStepView::SetLogTarget(_), ChildStepView::SetLogTarget(_)) => true,
        (ChildStepView::Dup2(_, _), ChildStepView::Dup2(_, _)) => true,
        (ChildStepView::Close(x, _), ChildStepView::Close(y, _)) => x == y,
        (ChildStepView::ApplySeccomp(_), ChildStepView::ApplySeccomp(_)) => true,
        (ChildStepView::Execve { .. }, ChildStepView::Execve { .. }) => true,
        _ => a == b,
    }
}

/// The message for a failed step of the child tells the operation, on whatever
/// it was performed.
pub proof fn law_failure_tells_the_step(a: ChildStepView, b: ChildStepView)
    ensures
        same_step(a, b) ==> a.failure() == b.failure(),
{
}

} // verus!
