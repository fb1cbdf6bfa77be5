//! What is said of the values of this crate is said of all that they hold.
use vstd::prelude::*;
use crate::action::{Action, ChildStep, Event};
use crate::action::{ActionView, ChildStepView, EventView, action_views, step_views};
use crate::init::{Init, mount_views};
use crate::message::{Message, MessageView, texts};
use crate::mount::Mount;

verus! {

/// A view of several values has one view for each value, in their order.
pub proof fn law_views_of_many(
    strings: Seq<String>,
    actions: Seq<Action>,
    steps: Seq<ChildStep>,
    mounts: Seq<Mount>,
    i: int,
)
    ensures
        texts(strings).len() == strings.len(),
        0 <= i < strings.len() ==> texts(strings)[i] == strings[i]@,
        action_views(actions).len() == actions.len(),
        0 <= i < actions.len() ==> action_views(actions)[i] == actions[i]@,
        step_views(steps).len() == steps.len(),
        0 <= i < steps.len() ==> step_views(steps)[i] == steps[i]@,
        mount_views(mounts).len() == mounts.len(),
        0 <= i < mounts.len() ==> mount_views(mounts)[i] == mounts[i]@,
{
}

/// The view of a configuration tells every part of it.
pub proof fn law_view_of_init(init: Init, i: int)
    ensures
        init@.container == init.container@,
        init@.root == init.root.bytes@,
        init@.uid == init.uid,
        init@.gid == init.gid,
        init@.mounts.len() == init.mounts@.len(),
        0 <= i < init.mounts@.len() ==> init@.mounts[i] == init.mounts@[i]@,
        init@.groups == init.groups@,
        init@.capabilities is Some <==> init.capabilities is Some,
        init.capabilities matches Some(set) ==> init@.capabilities->0 == set@,
        init@.rlimits is Some <==> init.rlimits is Some,
        init.rlimits matches Some(limits) ==> init@.rlimits->0 == limits@,
        init@.seccomp is Some <==> init.seccomp is Some,
        init.seccomp matches Some(filter) ==> init@.seccomp->0 == filter.list@,
        init@.console == init.console,
{
}

/// The view of a mount tells every part of it.
pub proof fn law_view_of_mount(mount: Mount)
    ensures
        mount@.source is Some <==> mount.source is Some,
        mount.source matches Some(path) ==> mount@.source->0 == path.bytes@,
        mount@.target == mount.target.bytes@,
        mount@.fstype is Some <==> mount.fstype is Some,
        mount.fstype matches Some(text) ==> mount@.fstype->0 == text@,
        mount@.flags == mount.flags@,
        mount@.data is Some <==> mount.data is Some,
        mount.data matches Some(text) ==> mount@.data->0 == text@,
        mount@.error_msg == mount.error_msg@,
{
}

/// The view of a message tells which message it is, and every part of it.
pub proof fn law_view_of_message(message: Message, i: int)
    ensures
        message matches Message::Forked { pid } ==> message@ == (MessageView::Forked { pid }),
        message matches Message::Exit { pid, exit_status } ==> message@ == (MessageView::Exit {
            pid,
            exit_status,
        }),
        message matches Message::Exec { path, args, env } ==> {
            &&& message@ is Exec
            &&& message@->path == path.bytes@
            &&& message@->args.len() == args@.len()
            &&& 0 <= i < args@.len() ==> message@->args[i] == args@[i]@
            &&& message@->env.len() == env@.len()
            &&& 0 <= i < env@.len() ==> message@->env[i] == env@[i]@
        },
{
}

/// The view of an answer tells which answer it is, and every part of it.
pub proof fn law_view_of_event(event: Event)
    ensures
        event is Done <==> event@ is Done,
        event matches Event::Failed(error) ==> event@ == EventView::Failed(error@),
        event matches Event::Euid(uid) ==> event@ == EventView::Euid(uid),
        event matches Event::BoundingCaps(set) ==> event@ == EventView::BoundingCaps(set@),
        event matches Event::Received(message) ==> event@ == EventView::Received(message@),
        event is Closed <==> event@ is Closed,
        event matches Event::Io { stdin, stdout, stderr } ==> event@ == (EventView::Io {
            stdin,
            stdout,
            stderr,
        }),
        event matches Event::Forked(pid) ==> event@ == EventView::Forked(pid),
        event matches Event::Exited(code) ==> event@ == EventView::Exited(code),
        event matches Event::Signaled(signal) ==> event@ == EventView::Signaled(signal),
        event is Stopped <==> event@ is Stopped,
        event is Continued <==> event@ is Continued,
        event is Interrupted <==> event@ is Interrupted,
        event is NoChild <==> event@ is NoChild,
{
}

/// The view of a step of the child tells which step it is, and every part of it.
pub proof fn law_view_of_step(step: ChildStep, i: int)
    ensures
        step matches ChildStep::SetLogTarget(target) ==> step@ == ChildStepView::SetLogTarget(
            target@,
        ),
        step is KillOnParentDeath <==> step@ is KillOnParentDeath,
        step matches ChildStep::Dup2(fd, stream) ==> step@ == ChildStepView::Dup2(fd, stream),
        step matches ChildStep::Close(stream, fd) ==> step@ == ChildStepView::Close(stream, fd),
        step matches ChildStep::ApplySeccomp(filter) ==> step@ == ChildStepView::ApplySeccomp(
            filter.list@,
        ),
        step matches ChildStep::Execve { path, args, env } ==> {
            &&& step@ is Execve
            &&& step@->path == path@
            &&& step@->args.len() == args@.len()
            &&& 0 <= i < args@.len() ==> step@->args[i] == args@[i]@
            &&& step@->env.len() == env@.len()
            &&& 0 <= i < env@.len() ==> step@->env[i] == env@[i]@
        },
        step matches ChildStep::Panic(text) ==> step@ == ChildStepView::Panic(text@),
{
}

/// The view of an action tells which action it is, and every part of it. Of a
/// set of capabilities it tells the members.
pub proof fn law_view_of_action(action: Action, i: int)
    ensures
        action matches Action::SetLogTarget(text) ==> action@ == ActionView::SetLogTarget(text@),
        action matches Action::SetChildSubreaper(value) ==> action@
            == ActionView::SetChildSubreaper(value),
        action matches Action::SetProcessName(text) ==> action@ == ActionView::SetProcessName(
            text@,
        ),
        action is SetSid <==> action@ is SetSid,
        action is UnshareMountNamespace <==> action@ is UnshareMountNamespace,
        action matches Action::Mount(mount) ==> action@ == ActionView::Mount(mount@),
        action matches Action::Chroot(path) ==> action@ == ActionView::Chroot(path.bytes@),
        action matches Action::SetCurrentDir(path) ==> action@ == ActionView::SetCurrentDir(
            path.bytes@,
        ),
        action is GetEuid <==> action@ is GetEuid,
        action matches Action::SetKeepCaps(value) ==> action@ == ActionView::SetKeepCaps(value),
        action matches Action::SetResGid(gid) ==> action@ == ActionView::SetResGid(gid),
        action matches Action::SetResUid(uid) ==> action@ == ActionView::SetResUid(uid),
        action matches Action::ResetEffectiveCaps(set) ==> action@
            == ActionView::ResetEffectiveCaps(set@.to_set()),
        action matches Action::SetGroups(groups) ==> action@ == ActionView::SetGroups(groups@),
        action matches Action::SetRLimit { resource, soft, hard } ==> action@ == (
        ActionView::SetRLimit { resource, soft, hard }),
        action matches Action::SetNoNewPrivs(value) ==> action@ == ActionView::SetNoNewPrivs(
            value,
        ),
        action is ReadBoundingCaps <==> action@ is ReadBoundingCaps,
        action matches Action::DropBoundingCap(cap) ==> action@ == ActionView::DropBoundingCap(
            cap,
        ),
        action matches Action::SetCaps(which, set) ==> action@ == ActionView::SetCaps(
            which,
            set@.to_set(),
        ),
        action is Receive <==> action@ is Receive,
        action is KillOnParentDeath <==> action@ is KillOnParentDeath,
        action is ReceiveIo <==> action@ is ReceiveIo,
        action matches Action::Fork(steps) ==> {
            &&& action@ is Fork
            &&& action@->Fork_0.len() == steps@.len()
            &&& 0 <= i < steps@.len() ==> action@->Fork_0[i] == steps@[i]@
        },
        action is DropConsole <==> action@ is DropConsole,
        action matches Action::Close(stream, fd) ==> action@ == ActionView::Close(stream, fd),
        action matches Action::Send(message) ==> action@ == ActionView::Send(message@),
        action matches Action::WaitPid(pid) ==> action@ == ActionView::WaitPid(pid),
        action matches Action::Reap(pid) ==> action@ == ActionView::Reap(pid),
        action matches Action::Exit(code) ==> action@ == ActionView::Exit(code),
        action matches Action::Panic(text) ==> action@ == ActionView::Panic(text@),
        action matches Action::FailAssertion { left, right } ==> action@ == (
        ActionView::FailAssertion { left: left@, right: right@ }),
{
}

} // verus!
