//! The course of an init process as a whole: which actions it asks for,
//! whatever the answers are.
use vstd::prelude::*;
use crate::action::{ActionView, ChildStepView, EventView};
use crate::capability::Capability;
use crate::init::InitView;
use crate::message::{ExitStatus, MessageView, Pid};
use crate::mount::{MountView, flags_known};
use crate::run::{PhaseView, RunnerView};
use crate::run::{application_env, report_exit, report_fork};
use crate::sequence::lemma_push_contains;

verus! {

/// The process after the answers `events`, one after the other.
pub open spec fn after(r: RunnerView, events: Seq<EventView>) -> RunnerView
    decreases events.len(),
{
    if events.len() == 0 {
        r
    } else {
        after(r, events.drop_last()).next(events.last())
    }
}

/// The actions that the answers `events` belong to.
pub open spec fn answered(r: RunnerView, events: Seq<EventView>) -> Seq<ActionView> {
    Seq::new(events.len(), |k: int| after(r, events.take(k)).action())
}

/// What the actions of an init process depend on, beside its configuration.
pub struct Answers {
    pub euid: u32,
    pub bounded: Seq<Capability>,
    pub path: Seq<u8>,
    pub args: Seq<Seq<char>>,
    pub env: Seq<Seq<char>>,
    pub stdin: i32,
    pub stdout: i32,
    pub stderr: i32,
    pub pid: Pid,
    /// How often the child was waited for in vain.
    pub waits: nat,
    pub exit_status: ExitStatus,
    /// How many actions were answered when the process asked for its end.
    pub end: nat,
    /// The phase in which it did.
    pub last: PhaseView,
}

/// The actions before the first message.
pub open spec fn setup(init: InitView, euid: u32, bounded: Seq<Capability>) -> Seq<ActionView> {
    init.enter() + init.confine(euid) + init.unprivilege(bounded)
}

/// The actions from the request for an application to the fork.
pub open spec fn launch(init: InitView, console: Option<i32>, a: Answers) -> Seq<ActionView> {
    let env = application_env(a.env, console);
    seq![
        ActionView::KillOnParentDeath,
        ActionView::ReceiveIo,
        ActionView::Fork(
            init.child_steps(a.path, a.args, env, a.stdin, a.stdout, a.stderr),
        ),
    ]
}

/// The actions from the fork to the last time that the child is waited for.
pub open spec fn supervise(console: Option<i32>, a: Answers) -> Seq<ActionView> {
    report_fork(console, a.stdin, a.stdout, a.stderr, a.pid) + Seq::new(
        a.waits,
        |k: int| ActionView::WaitPid(a.pid),
    )
}

/// The actions from the start to the question of a phase.
pub open spec fn script(
    init: InitView,
    console: Option<i32>,
    a: Answers,
    phase: PhaseView,
) -> Seq<ActionView> {
    let ready = setup(init, a.euid, a.bounded);
    let launched = ready + launch(init, console, a);
    match phase {
        PhaseView::Identity => init.enter(),
        PhaseView::Bounding => init.enter() + init.confine(a.euid),
        PhaseView::Receiving => ready,
        PhaseView::Io { .. } => ready + launch(init, console, a).take(2),
        PhaseView::Forking { .. } => launched,
        PhaseView::Waiting { .. } => launched + supervise(console, a),
        _ => launched + supervise(console, a) + report_exit(a.pid, a.exit_status),
    }
}

/// Whether a phase speaks of the answers in `a`.
pub open spec fn phase_of(console: Option<i32>, phase: PhaseView, a: Answers) -> bool {
    match phase {
        PhaseView::Io { path, args, env } => {
            &&& path == a.path
            &&& args == a.args
            &&& env == application_env(a.env, console)
        },
        PhaseView::Forking { stdin, stdout, stderr } => {
            &&& stdin == a.stdin
            &&& stdout == a.stdout
            &&& stderr == a.stderr
        },
        PhaseView::Waiting { pid } => pid == a.pid,
        PhaseView::Reaping { pid } => pid == a.pid,
        _ => true,
    }
}

/// How far a phase is on the way.
pub open spec fn rank(phase: PhaseView) -> int {
    match phase {
        PhaseView::Identity => 0,
        PhaseView::Bounding => 1,
        PhaseView::Receiving => 2,
        PhaseView::Io { .. } => 3,
        PhaseView::Forking { .. } => 4,
        PhaseView::Waiting { .. } => 5,
        _ => 6,
    }
}

/// Whether an answer says that the child ended in the given way.
pub open spec fn tells_end(event: EventView, exit_status: ExitStatus) -> bool {
    match event {
        EventView::Exited(code) => exit_status == ExitStatus::Exit(code),
        EventView::Signaled(signal) => exit_status == ExitStatus::Signalled(signal as u8),
        _ => false,
    }
}

/// Whether one of the answers says that the child ended in the given way.
pub open spec fn end_told(events: Seq<EventView>, exit_status: ExitStatus) -> bool {
    exists|i: int| 0 <= i < events.len() && tells_end(#[trigger] events[i], exit_status)
}

/// Whether what `a` says up to a phase was answered.
pub open spec fn given(events: Seq<EventView>, a: Answers, phase: PhaseView) -> bool {
    let request = MessageView::Exec { path: a.path, args: a.args, env: a.env };
    let io = EventView::Io { stdin: a.stdin, stdout: a.stdout, stderr: a.stderr };
    &&& rank(phase) >= 1 ==> events.contains(EventView::Euid(a.euid))
    &&& rank(phase) >= 2 ==> events.contains(EventView::BoundingCaps(a.bounded))
    &&& rank(phase) >= 3 ==> events.contains(EventView::Received(request))
    &&& rank(phase) >= 4 ==> events.contains(io)
    &&& rank(phase) >= 5 ==> events.contains(EventView::Forked(a.pid))
    &&& rank(phase) >= 6 ==> end_told(events, a.exit_status)
}

/// Whether an action is the end of the process.
pub open spec fn is_end(action: ActionView) -> bool {
    action is Panic || action is FailAssertion || action == ActionView::Exit(0)
}

/// Whether a process `r` that asked for the actions `done`, and got the answers
/// `events` to them, is on the course that `a` gives.
pub open spec fn on_course(
    init: InitView,
    console: Option<i32>,
    events: Seq<EventView>,
    done: Seq<ActionView>,
    r: RunnerView,
    a: Answers,
) -> bool {
    &&& r.init == init
    &&& r.console == console
    &&& r.batch.len() > 0
    &&& events.len() == done.len()
    &&& phase_of(console, r.phase, a)
    &&& if r.phase is Halted {
        &&& r.batch.len() == 1
        &&& is_end(r.batch[0])
        &&& a.last !is Halted
        &&& given(events, a, a.last)
        &&& 0 < a.end <= done.len()
        &&& done.take(a.end as int).is_prefix_of(script(init, console, a, a.last))
        &&& forall|k: int| a.end <= k < done.len() ==> done[k] == r.batch[0]
        &&& r.batch[0] is Exit ==> {
            &&& a.last is Receiving || a.last is Reaping
            &&& a.last is Receiving ==> events[a.end - 1] is Closed
            &&& a.last is Reaping ==> events[a.end - 1] is NoChild
            &&& done.take(a.end as int) == script(init, console, a, a.last)
        }
    } else {
        &&& given(events, a, r.phase)
        &&& done + r.batch == script(init, console, a, r.phase)
    }
}

/// What was answered stays answered, and so is what is answered last.
proof fn lemma_given_later(events: Seq<EventView>, event: EventView)
    ensures
        forall|a: Answers, phase: PhaseView| #[trigger]
            given(events, a, phase) ==> given(events.push(event), a, phase),
        events.push(event).contains(event),
        forall|exit_status: ExitStatus| #[trigger]
            tells_end(event, exit_status) ==> end_told(events.push(event), exit_status),
        forall|x: EventView| events.contains(x) ==> #[trigger] events.push(event).contains(x),
        forall|exit_status: ExitStatus|
            end_told(events, exit_status) ==> #[trigger] end_told(events.push(event), exit_status),
{
    let later = events.push(event);
    assert(later[events.len() as int] == event);
    assert forall|x: EventView| events.contains(x) implies #[trigger] later.contains(x) by {
        lemma_push_contains(events, event, x);
    }
    assert forall|exit_status: ExitStatus|
        end_told(events, exit_status) implies #[trigger] end_told(later, exit_status) by {
        let i = choose|i: int|
            0 <= i < events.len() && tells_end(#[trigger] events[i], exit_status);
        assert(later[i] == events[i]);
    }
}

/// One answer keeps a process on course.
#[verifier::rlimit(40)]
#[verifier::spinoff_prover]
proof fn lemma_stays_on_course(
    init: InitView,
    console: Option<i32>,
    events: Seq<EventView>,
    done: Seq<ActionView>,
    r: RunnerView,
    a: Answers,
    event: EventView,
) -> (b: Answers)
    requires
        on_course(init, console, events, done, r, a),
    ensures
        on_course(init, console, events.push(event), done.push(r.action()), r.next(event), b),
{
    lemma_given_later(events, event);
    let next = r.next(event);
    let now = done.push(r.action());
    if r.phase is Halted {
        assert(now.take(a.end as int) =~= done.take(a.end as int));
        a
    } else if next.phase is Halted {
        let b = Answers { end: now.len(), last: r.phase, ..a };
        assert(script(init, console, b, r.phase) == script(init, console, a, r.phase));
        assert(now.take(now.len() as int) =~= now);
        assert(now =~= (done + r.batch).subrange(0, now.len() as int));
        if next.batch[0] is Exit {
            assert(now =~= done + r.batch);
        }
        b
    } else if !r.asking() {
        assert(now + next.batch =~= done + r.batch);
        a
    } else {
        assert(now =~= done + r.batch);
        match (r.phase, event) {
            (PhaseView::Identity, EventView::Euid(euid)) => {
                let b = Answers { euid, ..a };
                assert(now + next.batch =~= script(init, console, b, next.phase));
                b
            },
            (PhaseView::Bounding, EventView::BoundingCaps(bounded)) => {
                let b = Answers { bounded, ..a };
                assert(now + next.batch =~= script(init, console, b, next.phase));
                b
            },
            (
                PhaseView::Receiving,
                EventView::Received(MessageView::Exec { path, args, env }),
            ) => {
                let b = Answers { path, args, env, ..a };
                assert(now + next.batch =~= script(init, console, b, next.phase));
                b
            },
            (PhaseView::Io { path, args, env }, EventView::Io { stdin, stdout, stderr }) => {
                let b = Answers { stdin, stdout, stderr, ..a };
                assert(launch(init, console, b).take(2) =~= launch(init, console, a).take(2));
                assert(now + next.batch =~= script(init, console, b, next.phase));
                b
            },
            (PhaseView::Forking { .. }, EventView::Forked(pid)) => {
                let b = Answers { pid, waits: 0, ..a };
                assert(now + next.batch =~= script(init, console, b, next.phase));
                b
            },
            (PhaseView::Waiting { pid }, EventView::Exited(code)) => {
                let b = Answers { exit_status: ExitStatus::Exit(code), ..a };
                assert(now + next.batch =~= script(init, console, b, next.phase));
                b
            },
            (PhaseView::Waiting { pid }, EventView::Signaled(signal)) => {
                let b = Answers { exit_status: ExitStatus::Signalled(signal as u8), ..a };
                assert(now + next.batch =~= script(init, console, b, next.phase));
                b
            },
            _ => {
                let b = Answers { waits: a.waits + 1, ..a };
                lemma_waiting_batch(init, console, events, done, r, a);
                assert(now + next.batch =~= script(init, console, b, next.phase));
                b
            },
        }
    }
}

/// The last action of the script up to the question of the waiting phase.
proof fn lemma_waiting_batch(
    init: InitView,
    console: Option<i32>,
    events: Seq<EventView>,
    done: Seq<ActionView>,
    r: RunnerView,
    a: Answers,
)
    requires
        on_course(init, console, events, done, r, a),
        r.phase is Waiting,
        r.asking(),
    ensures
        r.batch == seq![ActionView::WaitPid(a.pid)],
{
    let all = script(init, console, a, r.phase);
    assert((done + r.batch).last() == r.batch[0]);
    assert(all.last() == ActionView::WaitPid(a.pid));
    assert(r.batch =~= seq![ActionView::WaitPid(a.pid)]);
}

/// `answered`, one answer later.
pub proof fn lemma_answered_step(r: RunnerView, events: Seq<EventView>)
    requires
        events.len() > 0,
    ensures
        answered(r, events) == answered(r, events.drop_last()).push(
            after(r, events.drop_last()).action(),
        ),
{
    let before = events.drop_last();
    assert(events.take(before.len() as int) =~= before);
    assert forall|k: int| 0 <= k < before.len() implies events.take(k) == #[trigger] before.take(
        k,
    ) by {
        assert(events.take(k) =~= before.take(k));
    }
    assert(answered(r, events) =~= answered(r, before).push(after(r, before).action()));
}

/// Whatever the answers are, the actions that an init process asks for are
/// those of its script, in the order of the script, up to the question of the
/// phase that it is in or up to the action at which it decided to end. After
/// that decision it asks for nothing but its end.
pub proof fn law_course_follows_the_script(
    init: InitView,
    console: Option<i32>,
    events: Seq<EventView>,
)
    ensures
        exists|a: Answers|
            on_course(
                init,
                console,
                events,
                answered(RunnerView::start(init, console), events),
                after(RunnerView::start(init, console), events),
                a,
            ),
    decreases events.len(),
{
    let start = RunnerView::start(init, console);
    if events.len() == 0 {
        let a = arbitrary::<Answers>();
        assert(answered(start, events) + start.batch =~= init.enter());
        assert(on_course(init, console, events, answered(start, events), after(start, events), a));
    } else {
        let before = events.drop_last();
        law_course_follows_the_script(init, console, before);
        let a = choose|a: Answers|
            on_course(init, console, before, answered(start, before), after(start, before), a);
        lemma_answered_step(start, events);
        assert(events =~= before.push(events.last()));
        let b = lemma_stays_on_course(
            init,
            console,
            before,
            answered(start, before),
            after(start, before),
            a,
            events.last(),
        );
    }
}

/// The actions that were asked for, with the one that is under way.
pub open spec fn asked(r: RunnerView, events: Seq<EventView>) -> Seq<ActionView> {
    answered(r, events).push(after(r, events).action())
}

/// The actions of an init process that goes all the way.
pub open spec fn full_script(init: InitView, console: Option<i32>, a: Answers) -> Seq<ActionView> {
    setup(init, a.euid, a.bounded) + launch(init, console, a) + supervise(console, a)
        + report_exit(a.pid, a.exit_status)
}

/// Whether an action belongs to the service of a request, and not to the
/// preparation for it.
pub open spec fn serves(action: ActionView) -> bool {
    match action {
        ActionView::Receive
        | ActionView::KillOnParentDeath
        | ActionView::ReceiveIo
        | ActionView::Fork(_)
        | ActionView::DropConsole
        | ActionView::Close(_, _)
        | ActionView::Send(_)
        | ActionView::WaitPid(_)
        | ActionView::Reap(_) => true,
        _ => false,
    }
}

/// The script of every phase is the beginning of the full script.
proof fn lemma_script_is_prefix(
    init: InitView,
    console: Option<i32>,
    a: Answers,
    phase: PhaseView,
)
    ensures
        script(init, console, a, phase).is_prefix_of(full_script(init, console, a)),
{
    let part = script(init, console, a, phase);
    let full = full_script(init, console, a);
    assert(part =~= full.subrange(0, part.len() as int));
}

/// What was asked for is a beginning of the script of some phase, and then the
/// end.
pub proof fn lemma_asked(init: InitView, console: Option<i32>, events: Seq<EventView>) -> (r: (
    Answers,
    PhaseView,
    int,
))
    ensures
        ({
            let (a, phase, n) = r;
            let asked = asked(RunnerView::start(init, console), events);
            let full = full_script(init, console, a);
            &&& given(events, a, phase)
            &&& 0 < n <= asked.len()
            &&& n <= script(init, console, a, phase).len() <= full.len()
            &&& asked.take(n) == full.take(n)
            &&& forall|k: int| n <= k < asked.len() ==> is_end(#[trigger] asked[k])
        }),
{
    let start = RunnerView::start(init, console);
    law_course_follows_the_script(init, console, events);
    let done = answered(start, events);
    let now = after(start, events);
    let a = choose|a: Answers| on_course(init, console, events, done, now, a);
    let full = full_script(init, console, a);
    let asked = asked(start, events);
    if now.phase is Halted {
        let part = script(init, console, a, a.last);
        lemma_script_is_prefix(init, console, a, a.last);
        let head = done.take(a.end as int);
        assert(asked.take(a.end as int) =~= head);
        assert(head == part.subrange(0, head.len() as int));
        assert(part == full.subrange(0, part.len() as int));
        assert(head =~= full.take(a.end as int));
        (a, a.last, a.end as int)
    } else {
        let part = script(init, console, a, now.phase);
        lemma_script_is_prefix(init, console, a, now.phase);
        assert(part == full.subrange(0, part.len() as int));
        assert(asked =~= part.take(asked.len() as int));
        assert(asked.take(asked.len() as int) =~= full.take(asked.len() as int));
        (a, now.phase, asked.len() as int)
    }
}

/// Nothing before the last action of the preparation serves a request.
proof fn lemma_setup_does_not_serve(init: InitView, euid: u32, bounded: Seq<Capability>)
    ensures
        setup(init, euid, bounded).len() > 0,
        setup(init, euid, bounded).last() == ActionView::Receive,
        forall|k: int|
            0 <= k < setup(init, euid, bounded).len() - 1 ==> !serves(
                #[trigger] setup(init, euid, bounded)[k],
            ),
{
    let all = setup(init, euid, bounded);
    let enter = init.enter();
    let confine = init.confine(euid);
    let drop = init.drop_privileges(bounded);
    assert(forall|k: int| 0 <= k < enter.len() ==> !serves(#[trigger] enter[k]));
    assert(forall|k: int|
        0 <= k < init.set_ids(euid).len() ==> !serves(#[trigger] init.set_ids(euid)[k]));
    assert(forall|k: int|
        0 <= k < init.set_rlimits().len() ==> !serves(#[trigger] init.set_rlimits()[k]));
    assert(forall|k: int| 0 <= k < confine.len() ==> !serves(#[trigger] confine[k]));
    assert(forall|k: int| 0 <= k < drop.len() ==> !serves(#[trigger] drop[k]));
    assert forall|k: int| 0 <= k < all.len() - 1 implies !serves(#[trigger] all[k]) by {
        if k < enter.len() {
            assert(all[k] == enter[k]);
        } else if k < enter.len() + confine.len() {
            assert(all[k] == confine[k - enter.len()]);
        } else {
            assert(all[k] == drop[k - enter.len() - confine.len()]);
        }
    }
}

/// An init process serves no request before it has entered its namespace,
/// performed the mounts, changed its root and ids, set its limits and dropped
/// its privileges: all that precedes the first message comes first, in order
/// and with nothing in between, for the user id and the bounding set that were
/// answered.
pub proof fn law_setup_comes_first(
    init: InitView,
    console: Option<i32>,
    events: Seq<EventView>,
    k: int,
)
    requires
        0 <= k < asked(RunnerView::start(init, console), events).len(),
        serves(asked(RunnerView::start(init, console), events)[k]),
    ensures
        exists|euid: u32, bounded: Seq<Capability>|
            {
                &&& events.contains(EventView::Euid(euid))
                &&& events.contains(EventView::BoundingCaps(bounded))
                &&& (#[trigger] setup(init, euid, bounded)).len() <= k + 1
                &&& setup(init, euid, bounded).is_prefix_of(
                    asked(RunnerView::start(init, console), events),
                )
            },
{
    let asked = asked(RunnerView::start(init, console), events);
    let (a, phase, n) = lemma_asked(init, console, events);
    let full = full_script(init, console, a);
    let ready = setup(init, a.euid, a.bounded);
    lemma_setup_does_not_serve(init, a.euid, a.bounded);
    assert(k < n);
    assert(asked.take(n)[k] == full.take(n)[k]);
    if k < ready.len() - 1 {
        assert(full[k] == ready[k]);
    }
    assert(init.unprivilege(a.bounded).len() > 0);
    assert(rank(phase) >= 2);
    assert(asked.take(n).subrange(0, ready.len() as int) =~= full.take(n).subrange(
        0,
        ready.len() as int,
    ));
    assert(asked.subrange(0, ready.len() as int) =~= asked.take(n).subrange(
        0,
        ready.len() as int,
    ));
    assert(full.take(n).subrange(0, ready.len() as int) =~= ready);
}

/// Where the actions of one kind stand in the full script.
proof fn lemma_full_script(init: InitView, console: Option<i32>, a: Answers, k: int)
    requires
        0 <= k < full_script(init, console, a).len(),
    ensures
        ({
            let full = full_script(init, console, a);
            let ready = setup(init, a.euid, a.bounded).len();
            let told = full.len() - 2;
            let forked = full.len() - 4 - a.waits;
            &&& full[k] is Fork <==> k == ready + 2
            &&& full[k] is Send ==> k == told || k == forked
            &&& ready + 2 < forked < told
            &&& full[forked] == ActionView::Send(MessageView::Forked { pid: a.pid })
            &&& full[told] == ActionView::Send(
                MessageView::Exit { pid: a.pid, exit_status: a.exit_status },
            )
        }),
{
    let full = full_script(init, console, a);
    let ready = setup(init, a.euid, a.bounded);
    let start = launch(init, console, a);
    let watch = supervise(console, a);
    let report = report_exit(a.pid, a.exit_status);
    lemma_setup_does_not_serve(init, a.euid, a.bounded);
    assert(report.len() == 2 && start.len() == 3);
    let fork = report_fork(console, a.stdin, a.stdout, a.stderr, a.pid);
    assert(fork.len() >= 5 && fork[fork.len() - 2] == ActionView::Send(
        MessageView::Forked { pid: a.pid },
    ));
    assert(forall|i: int| 0 <= i < fork.len() && i != fork.len() - 2 ==> (#[trigger] fork[i]) !is Send);
    assert(forall|i: int| 0 <= i < fork.len() ==> (#[trigger] fork[i]) !is Fork);
    assert(watch.len() == fork.len() + a.waits);
    assert(full.len() == ready.len() + 3 + watch.len() + 2);
    if k < ready.len() {
        assert(full[k] == ready[k]);
        assert(k == ready.len() - 1 || !serves(ready[k]));
    } else if k < ready.len() + 3 {
        assert(full[k] == start[k - ready.len()]);
    } else if k < ready.len() + 3 + watch.len() {
        assert(full[k] == watch[k - ready.len() - 3]);
    } else {
        assert(full[k] == report[k - ready.len() - 3 - watch.len()]);
    }
    let forked = full.len() - 4 - a.waits;
    assert(full[forked] == watch[forked - ready.len() - 3]);
    assert(full[full.len() - 2] == report[0]);
}

/// An init process forks at most one child.
pub proof fn law_forks_at_most_once(
    init: InitView,
    console: Option<i32>,
    events: Seq<EventView>,
    i: int,
    j: int,
)
    requires
        0 <= i < asked(RunnerView::start(init, console), events).len(),
        0 <= j < asked(RunnerView::start(init, console), events).len(),
        asked(RunnerView::start(init, console), events)[i] is Fork,
        asked(RunnerView::start(init, console), events)[j] is Fork,
    ensures
        i == j,
{
    let asked = asked(RunnerView::start(init, console), events);
    let (a, phase, n) = lemma_asked(init, console, events);
    let full = full_script(init, console, a);
    assert(asked.take(n)[i] == full.take(n)[i]);
    assert(asked.take(n)[j] == full.take(n)[j]);
    lemma_full_script(init, console, a, i);
    lemma_full_script(init, console, a, j);
}

/// Whether the steps of a child are those of a request that was received, with
/// streams that were received.
pub open spec fn requested(
    init: InitView,
    console: Option<i32>,
    events: Seq<EventView>,
    steps: Seq<ChildStepView>,
) -> bool {
    exists|a: Answers|
        {
            &&& events.contains(
                EventView::Received(
                    MessageView::Exec { path: a.path, args: a.args, env: a.env },
                ),
            )
            &&& events.contains(
                EventView::Io { stdin: a.stdin, stdout: a.stdout, stderr: a.stderr },
            )
            &&& #[trigger] launch(init, console, a)[2] == ActionView::Fork(steps)
        }
}

/// A child is forked only for a request that was received, and takes the steps
/// of that request.
pub proof fn law_fork_follows_a_request(
    init: InitView,
    console: Option<i32>,
    events: Seq<EventView>,
    k: int,
    steps: Seq<ChildStepView>,
)
    requires
        0 <= k < asked(RunnerView::start(init, console), events).len(),
        asked(RunnerView::start(init, console), events)[k] == ActionView::Fork(steps),
    ensures
        requested(init, console, events, steps),
{
    let asked = asked(RunnerView::start(init, console), events);
    let (a, phase, n) = lemma_asked(init, console, events);
    let full = full_script(init, console, a);
    assert(asked.take(n)[k] == full.take(n)[k]);
    lemma_full_script(init, console, a, k);
    assert(full[k] == launch(init, console, a)[2]);
    assert(rank(phase) >= 4);
}

/// Between the preparation and the fork stand two actions: the one that ties
/// the process to its parent and the one that receives the streams.
#[verifier::rlimit(40)]
#[verifier::spinoff_prover]
pub proof fn law_fork_follows_setup(
    init: InitView,
    console: Option<i32>,
    events: Seq<EventView>,
    k: int,
) -> (r: (u32, Seq<Capability>))
    requires
        0 <= k < asked(RunnerView::start(init, console), events).len(),
        asked(RunnerView::start(init, console), events)[k] is Fork,
    ensures
        events.contains(EventView::Euid(r.0)),
        events.contains(EventView::BoundingCaps(r.1)),
        asked(RunnerView::start(init, console), events).take(k) == setup(init, r.0, r.1) + seq![
            ActionView::KillOnParentDeath,
            ActionView::ReceiveIo,
        ],
{
    let asked = asked(RunnerView::start(init, console), events);
    let (a, phase, n) = lemma_asked(init, console, events);
    let full = full_script(init, console, a);
    assert(asked.take(n)[k] == full.take(n)[k]);
    lemma_full_script(init, console, a, k);
    assert(rank(phase) >= 4);
    assert(asked.take(k) =~= asked.take(n).take(k));
    assert(full.take(n).take(k) =~= setup(init, a.euid, a.bounded) + seq![
        ActionView::KillOnParentDeath,
        ActionView::ReceiveIo,
    ]);
    (a.euid, a.bounded)
}

/// Whether the fork of the child `pid` was reported before the action at `k`.
pub open spec fn fork_reported(asked: Seq<ActionView>, k: int, pid: Pid) -> bool {
    exists|i: int, j: int|
        0 <= i < j < k && (#[trigger] asked[i]) is Fork && #[trigger] asked[j]
            == ActionView::Send(MessageView::Forked { pid })
}

/// Whether an action reports the end of a child.
pub open spec fn reports_exit(action: ActionView) -> bool {
    action is Send && action->Send_0 is Exit
}

/// The end of a child is reported at most once, and only of the child whose
/// fork was reported before, with an end that was answered.
pub proof fn law_exit_report_is_of_the_forked_child(
    init: InitView,
    console: Option<i32>,
    events: Seq<EventView>,
    k: int,
    pid: Pid,
    exit_status: ExitStatus,
)
    requires
        0 <= k < asked(RunnerView::start(init, console), events).len(),
        asked(RunnerView::start(init, console), events)[k] == ActionView::Send(
            MessageView::Exit { pid, exit_status },
        ),
    ensures
        fork_reported(asked(RunnerView::start(init, console), events), k, pid),
        events.contains(EventView::Forked(pid)),
        end_told(events, exit_status),
        forall|i: int|
            0 <= i < asked(RunnerView::start(init, console), events).len() && reports_exit(
                #[trigger] asked(RunnerView::start(init, console), events)[i],
            ) ==> i == k,
{
    let asked = asked(RunnerView::start(init, console), events);
    let (a, phase, n) = lemma_asked(init, console, events);
    let full = full_script(init, console, a);
    assert(asked.take(n)[k] == full.take(n)[k]);
    lemma_full_script(init, console, a, k);
    let told = full.len() - 2;
    let forked = full.len() - 4 - a.waits;
    let fork = setup(init, a.euid, a.bounded).len() + 2;
    assert(k == told);
    assert(rank(phase) >= 6) by {
        assert(script(init, console, a, phase).len() > told);
        assert(full == setup(init, a.euid, a.bounded) + launch(init, console, a) + supervise(
            console,
            a,
        ) + report_exit(a.pid, a.exit_status));
    }
    lemma_full_script(init, console, a, fork as int);
    assert(asked.take(n)[forked] == full.take(n)[forked]);
    assert(asked.take(n)[fork as int] == full.take(n)[fork as int]);
    assert(asked[fork as int] is Fork);
    assert(asked[forked] == ActionView::Send(MessageView::Forked { pid }));
    assert forall|i: int|
        0 <= i < asked.len() && reports_exit(#[trigger] asked[i]) implies i == k by {
        assert(asked.take(n)[i] == full.take(n)[i]);
        lemma_full_script(init, console, a, i);
    }
}

/// Whether no child was forked.
pub open spec fn never_forked(asked: Seq<ActionView>) -> bool {
    forall|i: int| 0 <= i < asked.len() ==> (#[trigger] asked[i]) !is Fork
}

/// Whether the question for a message was answered with the end of the channel.
pub open spec fn channel_closed(asked: Seq<ActionView>, events: Seq<EventView>) -> bool {
    exists|i: int|
        0 <= i < events.len() && (#[trigger] asked[i]) is Receive && events[i] is Closed
}

/// Whether the end of a child was reported, and the last question for that
/// child was then answered with its being gone.
pub open spec fn child_gone(asked: Seq<ActionView>, events: Seq<EventView>) -> bool {
    exists|i: int, j: int|
        {
            &&& 0 <= i < j < events.len()
            &&& reports_exit(#[trigger] asked[i])
            &&& #[trigger] asked[j] == ActionView::Reap(asked[i]->Send_0->Exit_pid)
            &&& events[j] is NoChild
        }
}

/// An init process exits only with code 0, and only in two cases: no child was
/// forked and its channel was closed, or it reported the end of its child and
/// was then answered that the child is gone.
#[verifier::rlimit(60)]
#[verifier::spinoff_prover]
pub proof fn law_exit_needs_a_reason(
    init: InitView,
    console: Option<i32>,
    events: Seq<EventView>,
    code: i32,
)
    requires
        after(RunnerView::start(init, console), events).action() == ActionView::Exit(code),
    ensures
        code == 0,
        never_forked(asked(RunnerView::start(init, console), events)) ==> channel_closed(
            asked(RunnerView::start(init, console), events),
            events,
        ),
        !never_forked(asked(RunnerView::start(init, console), events)) ==> child_gone(
            asked(RunnerView::start(init, console), events),
            events,
        ),
{
    let start = RunnerView::start(init, console);
    law_course_follows_the_script(init, console, events);
    let done = answered(start, events);
    let now = after(start, events);
    let a = choose|a: Answers| on_course(init, console, events, done, now, a);
    let asked = asked(start, events);
    lemma_setup_does_not_serve(init, a.euid, a.bounded);
    if now.phase !is Halted {
        let part = script(init, console, a, now.phase);
        let full = full_script(init, console, a);
        lemma_script_is_prefix(init, console, a, now.phase);
        assert(part[done.len() as int] == now.batch[0]);
        assert(part == full.subrange(0, part.len() as int));
        lemma_full_script_does_not_end(init, console, a, done.len() as int);
        assert(false);
    }
    let end = a.end as int;
    let head = done.take(end);
    if a.last is Receiving {
        assert forall|i: int| 0 <= i < asked.len() implies (#[trigger] asked[i]) !is Fork by {
            if i < end {
                assert(head[i] == setup(init, a.euid, a.bounded)[i]);
            }
        }
        assert(head[end - 1] == setup(init, a.euid, a.bounded).last());
        assert(asked[end - 1] is Receive);
    } else {
        let report = ActionView::Send(
            MessageView::Exit { pid: a.pid, exit_status: a.exit_status },
        );
        assert(head == full_script(init, console, a));
        lemma_full_script(init, console, a, end - 2);
        assert(head[end - 2] == report);
        assert(asked[end - 2] == report);
        assert(head[end - 1] == ActionView::Reap(a.pid));
        assert(asked[end - 1] == ActionView::Reap(a.pid));
        let fork = setup(init, a.euid, a.bounded).len() + 2;
        lemma_full_script(init, console, a, fork as int);
        assert(head[fork as int] is Fork);
        assert(asked[fork as int] is Fork);
    }
}

/// No action of the full script is the end of the process.
proof fn lemma_full_script_does_not_end(
    init: InitView,
    console: Option<i32>,
    a: Answers,
    k: int,
)
    requires
        0 <= k < full_script(init, console, a).len(),
    ensures
        full_script(init, console, a)[k] !is Exit,
        full_script(init, console, a)[k] !is Panic,
        full_script(init, console, a)[k] !is FailAssertion,
{
    let full = full_script(init, console, a);
    let ready = setup(init, a.euid, a.bounded);
    let enter = init.enter();
    let confine = init.confine(a.euid);
    let drop = init.unprivilege(a.bounded);
    let start = launch(init, console, a);
    let watch = supervise(console, a);
    if k < enter.len() {
        assert(full[k] == enter[k]);
    } else if k < enter.len() + confine.len() {
        assert(full[k] == confine[k - enter.len()]);
    } else if k < ready.len() {
        assert(full[k] == drop[k - enter.len() - confine.len()]);
    } else if k < ready.len() + 3 {
        assert(full[k] == start[k - ready.len()]);
    } else if k < ready.len() + 3 + watch.len() {
        assert(full[k] == watch[k - ready.len() - 3]);
    }
}

/// A failed operation ends the process with a panic, whatever the operation.
/// The panic names the operation and the error. Only where a child that has
/// ended must be gone, it shows what was answered and what should have been.
pub proof fn law_failure_panics(r: RunnerView, error: Seq<char>)
    requires
        r.batch.len() > 0,
        r.phase !is Halted,
    ensures
        r.next(EventView::Failed(error)).phase is Halted,
        r.next(EventView::Failed(error)).action() == r.action().panic(error),
        match r.action() {
            ActionView::Reap(_) => r.next(EventView::Failed(error)).action()
                == (ActionView::FailAssertion { left: error, right: "Err(ECHILD)"@ }),
            action => r.next(EventView::Failed(error)).action() == ActionView::Panic(
                action.failure() + ": "@ + error,
            ),
        },
{
}

/// The mounts of the full script are those of the configuration.
proof fn lemma_full_script_mounts(
    init: InitView,
    console: Option<i32>,
    a: Answers,
    k: int,
    mount: MountView,
)
    requires
        0 <= k < full_script(init, console, a).len(),
        full_script(init, console, a)[k] == ActionView::Mount(mount),
    ensures
        init.mounts.contains(mount),
{
    let full = full_script(init, console, a);
    let ready = setup(init, a.euid, a.bounded);
    let enter = init.enter();
    let confine = init.confine(a.euid);
    let drop = init.unprivilege(a.bounded);
    let start = launch(init, console, a);
    let watch = supervise(console, a);
    if k < enter.len() {
        assert(full[k] == enter[k]);
        assert(enter[k] == init.mount()[k - 5]);
        assert(init.mounts[k - 5] == mount);
    } else if k < enter.len() + confine.len() {
        assert(full[k] == confine[k - enter.len()]);
    } else if k < ready.len() {
        assert(full[k] == drop[k - enter.len() - confine.len()]);
    } else if k < ready.len() + 3 {
        assert(full[k] == start[k - ready.len()]);
    } else if k < ready.len() + 3 + watch.len() {
        assert(full[k] == watch[k - ready.len() - 3]);
    }
}

/// An init process performs no mount but those of its configuration. Where the
/// platform has all flags of those, as it has for every [`crate::init::Init`],
/// the process asks for no flags that the platform does not have.
pub proof fn law_mounts_are_configured(
    init: InitView,
    console: Option<i32>,
    events: Seq<EventView>,
    k: int,
    mount: MountView,
)
    requires
        0 <= k < asked(RunnerView::start(init, console), events).len(),
        asked(RunnerView::start(init, console), events)[k] == ActionView::Mount(mount),
    ensures
        init.mounts.contains(mount),
        init.mount_flags_known() ==> flags_known(mount.flags),
{
    let asked = asked(RunnerView::start(init, console), events);
    let (a, phase, n) = lemma_asked(init, console, events);
    let full = full_script(init, console, a);
    assert(asked.take(n)[k] == full.take(n)[k]);
    lemma_full_script_mounts(init, console, a, k, mount);
}

/// What has ended stays ended.
pub proof fn law_end_is_final(r: RunnerView, events: Seq<EventView>)
    requires
        r.phase is Halted,
        r.batch.len() == 1,
    ensures
        after(r, events) == r,
    decreases events.len(),
{
    if events.len() > 0 {
        law_end_is_final(r, events.drop_last());
    }
}

/// A child that is stopped or continued, or a wait that is interrupted, makes
/// the process wait again, as often as it happens.
pub proof fn law_waits_until_the_child_ends(r: RunnerView, events: Seq<EventView>)
    requires
        r.phase is Waiting,
        r.asking(),
        forall|i: int|
            0 <= i < events.len() ==> {
                ||| (#[trigger] events[i]) is Stopped
                ||| events[i] is Continued
                ||| events[i] is Interrupted
            },
    ensures
        after(r, events) == r,
    decreases events.len(),
{
    if events.len() > 0 {
        let before = events.drop_last();
        assert(forall|i: int| 0 <= i < before.len() ==> before[i] == #[trigger] events[i]);
        law_waits_until_the_child_ends(r, before);
    }
}

/// How the child ended is what is reported: the code that it exited with, or
/// the number of the signal that ended it. Once the report is sent, the same
/// child is asked for again, and when it is gone, the process exits.
pub proof fn law_end_of_the_child_is_reported(r: RunnerView, pid: Pid, number: i32)
    requires
        r.phase == (PhaseView::Waiting { pid }),
        r.asking(),
    ensures
        r.next(EventView::Exited(number)).action() == ActionView::Send(
            MessageView::Exit { pid, exit_status: ExitStatus::Exit(number) },
        ),
        0 <= number <= u8::MAX ==> r.next(EventView::Signaled(number)).action()
            == ActionView::Send(
            MessageView::Exit { pid, exit_status: ExitStatus::Signalled(number as u8) },
        ),
        r.next(EventView::Exited(number)).next(EventView::Done).action() == ActionView::Reap(pid),
        r.next(EventView::Signaled(number)).next(EventView::Done).action() == ActionView::Reap(pid),
        r.next(EventView::Exited(number)).next(EventView::Done).next(EventView::NoChild).action()
            == ActionView::Exit(0),
        r.next(EventView::Signaled(number)).next(EventView::Done).next(EventView::NoChild).action()
            == ActionView::Exit(0),
{
}

/// The application gets the environment that was asked for, unchanged, and
/// the console descriptor after it, if and only if there is a console.
pub proof fn law_environment_is_kept(env: Seq<Seq<char>>, console: Option<i32>)
    ensures
        env.is_prefix_of(application_env(env, console)),
        console is None ==> application_env(env, console) == env,
        console matches Some(fd) ==> {
            &&& application_env(env, console).len() == env.len() + 1
            &&& application_env(env, console).last() == "NORTHSTAR_CONSOLE="@
                + crate::text::decimal(fd as int)
        },
{
    assert(env =~= application_env(env, console).subrange(0, env.len() as int));
}

} // verus!
