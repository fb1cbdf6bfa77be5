//! How an init process serves a request, from the answers that it gets.
use vstd::prelude::*;
use vstd::utf8::{decode_utf8, encode_utf8, is_ascii_chars, is_ascii_chars_encode_utf8, valid_utf8};
use crate::action::{ActionView, ChildStepView, EventView, Stream};
use crate::application::{law_panic_is_over_the_first_hindrance, received};
use crate::child::{all_c_strings, law_application_comes_last};
use crate::course::{after, asked, is_end, lemma_answered_step};
use crate::message::{ExitStatus, MessageView, Pid};
use crate::init::InitView;
use crate::preparation::ordered;
use crate::run::{PhaseView, RunnerView, application_env};
use crate::text::{decimal, law_decimal_is_read_back};

verus! {

/// Whether a request can be handed to `execve(2)`: its path is text, and no
/// text of it has a zero byte.
pub open spec fn executable(path: Seq<u8>, args: Seq<Seq<char>>, env: Seq<Seq<char>>) -> bool {
    &&& valid_utf8(path)
    &&& !path.contains(0u8)
    &&& forall|i: int| 0 <= i < args.len() ==> !encode_utf8(#[trigger] args[i]).contains(0u8)
    &&& forall|i: int| 0 <= i < env.len() ==> !encode_utf8(#[trigger] env[i]).contains(0u8)
}

/// The variable that tells the console descriptor can be a C string.
proof fn lemma_console_variable(fd: i32)
    ensures
        !encode_utf8("NORTHSTAR_CONSOLE="@ + decimal(fd as int)).contains(0u8),
{
    let text = "NORTHSTAR_CONSOLE="@ + decimal(fd as int);
    reveal_strlit("NORTHSTAR_CONSOLE=");
    law_decimal_is_read_back(fd as int);
    let number = decimal(fd as int);
    assert forall|i: int| 0 <= i < text.len() implies '\0' < #[trigger] text[i] <= '\u{7f}' by {
        if i >= 18 {
            assert(text[i] == number[i - 18]);
            if fd < 0 && i > 18 {
                assert(number[i - 18] == number.drop_first()[i - 19]);
            }
        }
    }
    assert(is_ascii_chars(text));
    is_ascii_chars_encode_utf8(text);
    let bytes = encode_utf8(text);
    if bytes.contains(0u8) {
        let k = bytes.index_of(0u8);
        assert(text[k] as u8 == 0);
        assert(false);
    }
}

/// A request is served, whatever its path, arguments and environment are: once
/// the process is tied to its parent and has the streams, it forks a child for
/// the request. The child becomes the application at the path, with the
/// arguments as they are and the environment as it is, and with the console
/// descriptor after it if there is a console, unless the request cannot be
/// handed on, and then it panics.
pub proof fn law_request_is_served(
    r: RunnerView,
    path: Seq<u8>,
    args: Seq<Seq<char>>,
    env: Seq<Seq<char>>,
    stdin: i32,
    stdout: i32,
    stderr: i32,
) -> (given: Seq<Seq<char>>)
    requires
        r.phase is Receiving,
        r.asking(),
    ensures
        r.console is None ==> given == env,
        r.console matches Some(fd) ==> {
            &&& given.len() == env.len() + 1
            &&& given.drop_last() == env
            &&& given.last() == "NORTHSTAR_CONSOLE="@ + decimal(fd as int)
        },
        ({
            let tied = r.next(EventView::Received(MessageView::Exec { path, args, env }));
            let ready = tied.next(EventView::Done);
            let forking = ready.next(EventView::Io { stdin, stdout, stderr });
            &&& tied.action() == ActionView::KillOnParentDeath
            &&& ready.action() == ActionView::ReceiveIo
            &&& forking.action() is Fork
            &&& forking.action()->Fork_0 == r.init.child_steps(
                path,
                args,
                given,
                stdin,
                stdout,
                stderr,
            )
            &&& forking.action()->Fork_0.len() > 0
            &&& executable(path, args, env) ==> forking.action()->Fork_0.last() == (
            ChildStepView::Execve { path: decode_utf8(path), args, env: given })
            &&& !executable(path, args, env) ==> forking.action()->Fork_0.last() is Panic
        }),
{
    let given = application_env(env, r.console);
    let tied = r.next(EventView::Received(MessageView::Exec { path, args, env }));
    let ready = tied.next(EventView::Done);
    let forking = ready.next(EventView::Io { stdin, stdout, stderr });
    assert(ready.batch =~= seq![ActionView::ReceiveIo]);
    law_application_comes_last(r.init, path, args, given, stdin, stdout, stderr);
    law_panic_is_over_the_first_hindrance(path, args, given, 0);
    assert(given.take(env.len() as int) =~= env);
    match r.console {
        Some(fd) => {
            lemma_console_variable(fd);
            assert(given.drop_last() =~= env);
        },
        None => {},
    }
    assert(forall|i: int| 0 <= i < env.len() ==> #[trigger] env[i] == given[i]);
    if all_c_strings(env) {
        assert forall|i: int| 0 <= i < given.len() implies !encode_utf8(
            #[trigger] given[i],
        ).contains(0u8) by {
            if i < env.len() {
                assert(given[i] == env[i]);
            }
        }
    }
    if all_c_strings(given) {
        assert forall|i: int| 0 <= i < env.len() implies !encode_utf8(
            #[trigger] env[i],
        ).contains(0u8) by {
            assert(given[i] == env[i]);
        }
    }
    given
}

/// Once the child is forked, the console is dropped if there is one, each
/// descriptor that was received is closed, the fork of that child is reported,
/// and then that child is waited for. Each is done once, and nothing else.
pub proof fn law_fork_is_reported(
    r: RunnerView,
    stdin: i32,
    stdout: i32,
    stderr: i32,
    pid: Pid,
    action: ActionView,
)
    requires
        r.phase == (PhaseView::Forking { stdin, stdout, stderr }),
        r.asking(),
    ensures
        ({
            let next = r.next(EventView::Forked(pid));
            &&& next.phase == (PhaseView::Waiting { pid })
            &&& ordered(next.batch)
            &&& next.batch.len() == (if r.console is Some { 6int } else { 5int })
            &&& next.batch.contains(action) <==> match action {
                ActionView::DropConsole => r.console is Some,
                ActionView::Close(stream, fd) => fd == received(stream, stdin, stdout, stderr),
                ActionView::Send(message) => message == (MessageView::Forked { pid }),
                ActionView::WaitPid(child) => child == pid,
                _ => false,
            }
        }),
{
    let batch = r.next(EventView::Forked(pid)).batch;
    let n: int = if r.console is Some { 1 } else { 0 };
    assert(batch[n] == ActionView::Close(Stream::Stdin, stdin));
    assert(batch[n + 1] == ActionView::Close(Stream::Stdout, stdout));
    assert(batch[n + 2] == ActionView::Close(Stream::Stderr, stderr));
    assert(batch[n + 3] == ActionView::Send(MessageView::Forked { pid }));
    assert(batch[n + 4] == ActionView::WaitPid(pid));
    assert(n == 1 ==> batch[0] == ActionView::DropConsole);
    assert(batch.len() == n + 5);
}

/// An operation that is done is followed by the next one of its batch, and
/// nothing else changes.
pub proof fn law_done_moves_on(r: RunnerView, i: int)
    requires
        r.batch.len() > 1,
    ensures
        ({
            let next = r.next(EventView::Done);
            &&& next.init == r.init
            &&& next.console == r.console
            &&& next.phase == r.phase
            &&& next.batch.len() == r.batch.len() - 1
            &&& 0 <= i < next.batch.len() ==> next.batch[i] == r.batch[i + 1]
            &&& next.action() == r.batch[1]
        }),
{
}

/// While the process waits for a message, the end of the channel makes it exit
/// with success, and a message that is no request makes it panic.
pub proof fn law_no_request_ends_the_process(
    r: RunnerView,
    pid: Pid,
    exit_status: ExitStatus,
)
    requires
        r.phase is Receiving,
        r.asking(),
    ensures
        r.next(EventView::Closed).action() == ActionView::Exit(0),
        r.next(EventView::Received(MessageView::Forked { pid })).action() == ActionView::Panic(
            "not implemented: Unimplemented message"@,
        ),
        r.next(EventView::Received(MessageView::Exit { pid, exit_status })).action()
            == ActionView::Panic("not implemented: Unimplemented message"@),
{
}

/// A child that is gone before its end was told is a failed wait.
pub proof fn law_lost_child_is_a_failure(r: RunnerView, pid: Pid)
    requires
        r.phase == (PhaseView::Waiting { pid }),
        r.asking(),
        r.action() == ActionView::WaitPid(pid),
    ensures
        r.next(EventView::NoChild).action() == ActionView::Panic(
            "Failed to waitpid on "@ + decimal(pid as int) + ": "@ + "Err(ECHILD)"@,
        ),
{
}

/// Whether an answer is one that an action can have when it does not fail.
pub open spec fn fits(action: ActionView, event: EventView) -> bool {
    match action {
        ActionView::GetEuid => event is Euid,
        ActionView::ReadBoundingCaps => event is BoundingCaps,
        ActionView::Receive => event is Received || event is Closed,
        ActionView::ReceiveIo => event is Io,
        ActionView::Fork(_) => event is Forked,
        ActionView::WaitPid(_) => {
            ||| event is Exited
            ||| event is Signaled
            ||| event is Stopped
            ||| event is Continued
            ||| event is Interrupted
        },
        ActionView::Reap(_) => event is NoChild,
        _ => event is Done,
    }
}

/// Whether an answer to an action is a reason to panic: it does not fit, as a
/// failure does not, or it is a message that is no request.
pub open spec fn is_reason_to_panic(action: ActionView, event: EventView) -> bool {
    ||| !fits(action, event)
    ||| event is Received && event->Received_0 !is Exec
}

/// Whether an action is the question of a phase.
pub open spec fn asks_for(phase: PhaseView, action: ActionView) -> bool {
    match phase {
        PhaseView::Identity => action is GetEuid,
        PhaseView::Bounding => action is ReadBoundingCaps,
        PhaseView::Receiving => action is Receive,
        PhaseView::Io { .. } => action is ReceiveIo,
        PhaseView::Forking { .. } => action is Fork,
        PhaseView::Waiting { .. } => action is WaitPid,
        PhaseView::Reaping { .. } => action is Reap,
        PhaseView::Halted => is_end(action),
    }
}

/// Whether an action is the question of no phase.
pub open spec fn is_plain(action: ActionView) -> bool {
    forall|phase: PhaseView| !#[trigger] asks_for(phase, action)
}

/// Whether the batch of a process ends with the question of its phase, and with
/// no question before it.
pub open spec fn asks_last(r: RunnerView) -> bool {
    &&& r.batch.len() > 0
    &&& asks_for(r.phase, r.batch.last())
    &&& forall|i: int| 0 <= i < r.batch.len() - 1 ==> is_plain(#[trigger] r.batch[i])
}

/// An answer keeps the question at the end, and leads to a panic if and only if
/// it is a reason to.
proof fn lemma_answer(r: RunnerView, event: EventView)
    requires
        asks_last(r),
        r.phase !is Halted,
    ensures
        asks_last(r.next(event)),
        is_reason_to_panic(r.action(), event) <==> r.next(event).action() is Panic || r.next(
            event,
        ).action() is FailAssertion,
        r.next(event).action() is Panic || r.next(event).action() is FailAssertion ==> r.next(
            event,
        ).phase is Halted,
{
    let next = r.next(event);
    if r.asking() {
        assert(r.action() == r.batch.last());
        match (r.phase, event) {
            (PhaseView::Identity, EventView::Euid(euid)) => {
                assert(next.batch == r.init.confine(euid));
                assert forall|i: int| 0 <= i < next.batch.len() - 1 implies is_plain(
                    #[trigger] next.batch[i],
                ) by {
                    let ids = r.init.set_ids(euid);
                    let limits = r.init.set_rlimits();
                    if i > ids.len() && i < ids.len() + 1 + limits.len() {
                        assert(next.batch[i] == limits[i - ids.len() - 1]);
                    } else if i < ids.len() {
                        assert(next.batch[i] == ids[i]);
                    }
                }
            },
            (PhaseView::Bounding, EventView::BoundingCaps(bounded)) => {
                assert(next.batch == r.init.unprivilege(bounded));
            },
            _ => {},
        }
    } else {
        assert(is_plain(r.batch[0]));
        assert(!asks_for(PhaseView::Identity, r.batch[0]));
        assert(!asks_for(PhaseView::Bounding, r.batch[0]));
        assert(!asks_for(PhaseView::Receiving, r.batch[0]));
        assert(!asks_for(
            PhaseView::Io { path: Seq::empty(), args: Seq::empty(), env: Seq::empty() },
            r.batch[0],
        ));
        assert(!asks_for(PhaseView::Forking { stdin: 0, stdout: 0, stderr: 0 }, r.batch[0]));
        assert(!asks_for(PhaseView::Waiting { pid: 0 }, r.batch[0]));
        assert(!asks_for(PhaseView::Reaping { pid: 0 }, r.batch[0]));
        assert(!asks_for(PhaseView::Halted, r.batch[0]));
        match event {
            EventView::Done => {
                assert(next.batch =~= r.batch.drop_first());
                assert(next.batch[0] == r.batch[1]);
                assert(next.batch.last() == r.batch.last());
                assert forall|i: int| 0 <= i < next.batch.len() - 1 implies is_plain(
                    #[trigger] next.batch[i],
                ) by {
                    assert(next.batch[i] == r.batch[i + 1]);
                }
                if r.batch.len() > 2 {
                    assert(is_plain(r.batch[1]));
                    assert(!asks_for(PhaseView::Halted, r.batch[1]));
                }
            },
            _ => {},
        }
    }
    if next.phase !is Halted && next.batch.len() > 1 {
        assert(is_plain(next.batch[0]));
        assert(!asks_for(PhaseView::Halted, next.batch[0]));
    }
}

/// The start of a process has its question at the end.
proof fn lemma_start_asks_last(init: InitView, console: Option<i32>)
    ensures
        asks_last(RunnerView::start(init, console)),
{
    let batch = RunnerView::start(init, console).batch;
    let n = init.mounts.len() as int;
    assert forall|i: int| 0 <= i < batch.len() - 1 implies is_plain(#[trigger] batch[i]) by {
        if 5 <= i < 5 + n {
            assert(batch[i] == init.mount()[i - 5]);
        }
    }
}

/// Whether one of the answers was a reason to panic.
pub open spec fn had_reason_to_panic(asked: Seq<ActionView>, events: Seq<EventView>) -> bool {
    exists|i: int|
        0 <= i < events.len() && is_reason_to_panic(asked[i], #[trigger] events[i])
}

/// Whatever the configuration, the requests and the answers are, an init process
/// panics only if one of the answers was a reason to, and as long as it goes on,
/// none of them was.
pub proof fn law_panic_needs_a_reason(
    init: InitView,
    console: Option<i32>,
    events: Seq<EventView>,
)
    ensures
        asks_last(after(RunnerView::start(init, console), events)),
        after(RunnerView::start(init, console), events).action() is Panic || after(
            RunnerView::start(init, console),
            events,
        ).action() is FailAssertion ==> had_reason_to_panic(
            asked(RunnerView::start(init, console), events),
            events,
        ),
        after(RunnerView::start(init, console), events).phase !is Halted ==> !had_reason_to_panic(
            asked(RunnerView::start(init, console), events),
            events,
        ),
    decreases events.len(),
{
    let start = RunnerView::start(init, console);
    let now = after(start, events);
    let asked_now = asked(start, events);
    if events.len() == 0 {
        lemma_start_asks_last(init, console);
        let n = init.mounts.len();
        assert(now.action() is SetLogTarget);
    } else {
        let before = events.drop_last();
        let r = after(start, before);
        let asked_before = asked(start, before);
        law_panic_needs_a_reason(init, console, before);
        lemma_answered_step(start, events);
        assert(forall|i: int| 0 <= i < before.len() ==> #[trigger] events[i] == before[i]);
        assert(forall|i: int|
            0 <= i < events.len() ==> asked_now[i] == #[trigger] asked_before[i]);
        assert(asked_now[before.len() as int] == r.action());
        if r.phase is Halted {
            if had_reason_to_panic(asked_before, before) {
                let i = choose|i: int|
                    0 <= i < before.len() && is_reason_to_panic(
                        asked_before[i],
                        #[trigger] before[i],
                    );
                assert(asked_now[i] == asked_before[i]);
                assert(is_reason_to_panic(asked_now[i], events[i]));
            }
            if !r.asking() {
                assert(is_plain(r.batch[0]));
                assert(!asks_for(PhaseView::Halted, r.batch[0]));
                lemma_halted_has_one_action(init, console, before);
            }
        } else {
            let last = events.last();
            lemma_answer(r, last);
            assert(events[before.len() as int] == last);
            if is_reason_to_panic(r.action(), last) {
                assert(is_reason_to_panic(
                    asked_now[before.len() as int],
                    events[before.len() as int],
                ));
            }
            if now.phase !is Halted && had_reason_to_panic(asked_now, events) {
                let i = choose|i: int|
                    0 <= i < events.len() && is_reason_to_panic(
                        asked_now[i],
                        #[trigger] events[i],
                    );
                if i < before.len() {
                    assert(asked_now[i] == asked_before[i]);
                    assert(is_reason_to_panic(asked_before[i], before[i]));
                }
            }
        }
    }
}

/// A process that has ended asks for one action.
proof fn lemma_halted_has_one_action(init: InitView, console: Option<i32>, events: Seq<EventView>)
    ensures
        after(RunnerView::start(init, console), events).phase is Halted ==> after(
            RunnerView::start(init, console),
            events,
        ).batch.len() == 1,
    decreases events.len(),
{
    if events.len() > 0 {
        lemma_halted_has_one_action(init, console, events.drop_last());
    }
}

} // verus!
