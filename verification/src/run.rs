//! The course of an init process, from one answer to the next action.
use vstd::prelude::*;
use vstd::string::StringExecFns;
use crate::action::{Action, Event, Stream};
use crate::action::{ActionView, EventView};
use crate::action::action_views;
use crate::capability::Capability;
use crate::init::Init;
use crate::init::InitView;
use crate::init::lemma_action_views_push;
use crate::message::{ExitStatus, Message, Pid};
use crate::message::{MessageView, texts};
use crate::path::RawPath;
use crate::text::{decimal_text, owned, prefixed};
use crate::text::decimal;

verus! {

/// What the init process asks for last in a batch of actions, and with what it
/// goes on from the answer.
#[derive(Debug)]
pub enum Phase {
    /// It asks for the effective user id.
    Identity,
    /// It asks for the bounding set of capabilities.
    Bounding,
    /// It asks for a message.
    Receiving,
    /// It asks for the standard streams of the application.
    Io { path: RawPath, args: Vec<String>, env: Vec<String> },
    /// It asks for the child.
    Forking { stdin: i32, stdout: i32, stderr: i32 },
    /// It asks how the child fares.
    Waiting { pid: Pid },
    /// It asks whether the child, which has ended, is gone.
    Reaping { pid: Pid },
    /// It asks for its own end.
    Halted,
}

/// What a [`Phase`] holds.
#[verifier::ext_equal]
pub enum PhaseView {
    Identity,
    Bounding,
    Receiving,
    Io { path: Seq<u8>, args: Seq<Seq<char>>, env: Seq<Seq<char>> },
    Forking { stdin: i32, stdout: i32, stderr: i32 },
    Waiting { pid: Pid },
    Reaping { pid: Pid },
    Halted,
}

impl View for Phase {
    type V = PhaseView;

    open spec fn view(&self) -> PhaseView {
        match self {
            Phase::Identity => PhaseView::Identity,
            Phase::Bounding => PhaseView::Bounding,
            Phase::Receiving => PhaseView::Receiving,
            Phase::Io { path, args, env } => PhaseView::Io {
                path: path@,
                args: texts(args@),
                env: texts(env@),
            },
            Phase::Forking { stdin, stdout, stderr } => PhaseView::Forking {
                stdin: *stdin,
                stdout: *stdout,
                stderr: *stderr,
            },
            Phase::Waiting { pid } => PhaseView::Waiting { pid: *pid },
            Phase::Reaping { pid } => PhaseView::Reaping { pid: *pid },
            Phase::Halted => PhaseView::Halted,
        }
    }
}

/// An init process on its way.
#[derive(Debug)]
pub struct Runner {
    init: Init,
    console: Option<i32>,
    batch: Vec<Action>,
    phase: Phase,
}

/// What a [`Runner`] holds.
#[verifier::ext_equal]
pub struct RunnerView {
    pub init: InitView,
    /// The console descriptor of the application.
    pub console: Option<i32>,
    /// The actions up to the next question, the first of them being under way.
    pub batch: Seq<ActionView>,
    /// The question, which is the last action of the batch.
    pub phase: PhaseView,
}

/// The path of the root directory.
pub open spec fn root_directory() -> Seq<u8> {
    seq![0x2fu8]
}

impl InitView {
    /// From the start to the question for the effective user id.
    pub open spec fn enter(self) -> Seq<ActionView> {
        seq![
            ActionView::SetLogTarget("northstar::init::"@ + self.container),
            ActionView::SetChildSubreaper(true),
            ActionView::SetProcessName("init-"@ + self.container),
            ActionView::SetSid,
            ActionView::UnshareMountNamespace,
        ] + self.mount() + seq![
            ActionView::Chroot(self.root),
            ActionView::SetCurrentDir(root_directory()),
            ActionView::GetEuid,
        ]
    }

    /// From the effective user id to the question for the bounding set.
    pub open spec fn confine(self, euid: u32) -> Seq<ActionView> {
        self.set_ids(euid) + seq![ActionView::SetGroups(self.groups)] + self.set_rlimits() + seq![
            ActionView::SetNoNewPrivs(true),
            ActionView::ReadBoundingCaps,
        ]
    }

    /// From the bounding set to the question for a message.
    pub open spec fn unprivilege(self, bounded: Seq<Capability>) -> Seq<ActionView> {
        self.drop_privileges(bounded).push(ActionView::Receive)
    }
}

/// The environment of the application: what was asked for, and the console.
pub open spec fn application_env(env: Seq<Seq<char>>, console: Option<i32>) -> Seq<Seq<char>> {
    match console {
        Some(fd) => env.push("NORTHSTAR_CONSOLE="@ + decimal(fd as int)),
        None => env,
    }
}

/// From the forked child to the question how it fares.
pub open spec fn report_fork(
    console: Option<i32>,
    stdin: i32,
    stdout: i32,
    stderr: i32,
    pid: Pid,
) -> Seq<ActionView> {
    (match console {
        Some(_) => seq![ActionView::DropConsole],
        None => Seq::empty(),
    }) + seq![
        ActionView::Close(Stream::Stdin, stdin),
        ActionView::Close(Stream::Stdout, stdout),
        ActionView::Close(Stream::Stderr, stderr),
        ActionView::Send(MessageView::Forked { pid }),
        ActionView::WaitPid(pid),
    ]
}

/// From the end of the child to the question whether it is gone.
pub open spec fn report_exit(pid: Pid, exit_status: ExitStatus) -> Seq<ActionView> {
    seq![
        ActionView::Send(MessageView::Exit { pid, exit_status }),
        ActionView::Reap(pid),
    ]
}

impl RunnerView {
    /// The init process at its start.
    pub open spec fn start(init: InitView, console: Option<i32>) -> RunnerView {
        RunnerView { init, console, batch: init.enter(), phase: PhaseView::Identity }
    }

    /// The action that is under way.
    pub open spec fn action(self) -> ActionView {
        self.batch[0]
    }

    /// Whether the action that is under way is the question of the phase.
    pub open spec fn asking(self) -> bool {
        self.batch.len() == 1
    }

    /// The process with a new batch of actions before it.
    pub open spec fn go(self, batch: Seq<ActionView>, phase: PhaseView) -> RunnerView {
        RunnerView { batch, phase, ..self }
    }

    /// The process that ends with `action`.
    pub open spec fn halt(self, action: ActionView) -> RunnerView {
        self.go(seq![action], PhaseView::Halted)
    }

    /// The process that panics over a failed operation.
    pub open spec fn fail(self, error: Seq<char>) -> RunnerView {
        self.halt(self.action().panic(error))
    }

    /// The process that panics over an answer to some other action.
    pub open spec fn unexpected(self) -> RunnerView {
        self.halt(ActionView::Panic("Unexpected answer"@))
    }

    /// The process after the answer `event` to the question of its phase.
    pub open spec fn answer(self, event: EventView) -> RunnerView {
        match (self.phase, event) {
            (PhaseView::Halted, _) => self,
            (PhaseView::Reaping { .. }, EventView::NoChild) => self.halt(ActionView::Exit(0)),
            (_, EventView::Failed(error)) => self.fail(error),
            (PhaseView::Identity, EventView::Euid(euid)) => self.go(
                self.init.confine(euid),
                PhaseView::Bounding,
            ),
            (PhaseView::Bounding, EventView::BoundingCaps(bounded)) => self.go(
                self.init.unprivilege(bounded),
                PhaseView::Receiving,
            ),
            (PhaseView::Receiving, EventView::Closed) => self.halt(ActionView::Exit(0)),
            (
                PhaseView::Receiving,
                EventView::Received(MessageView::Exec { path, args, env }),
            ) => self.go(
                seq![ActionView::KillOnParentDeath, ActionView::ReceiveIo],
                PhaseView::Io { path, args, env: application_env(env, self.console) },
            ),
            (PhaseView::Receiving, EventView::Received(_)) => self.halt(
                ActionView::Panic("not implemented: Unimplemented message"@),
            ),
            (PhaseView::Io { path, args, env }, EventView::Io { stdin, stdout, stderr }) => self.go(
                seq![
                    ActionView::Fork(
                        self.init.child_steps(path, args, env, stdin, stdout, stderr),
                    ),
                ],
                PhaseView::Forking { stdin, stdout, stderr },
            ),
            (PhaseView::Forking { stdin, stdout, stderr }, EventView::Forked(pid)) => self.go(
                report_fork(self.console, stdin, stdout, stderr, pid),
                PhaseView::Waiting { pid },
            ),
            (PhaseView::Waiting { pid }, EventView::Exited(code)) => self.go(
                report_exit(pid, ExitStatus::Exit(code)),
                PhaseView::Reaping { pid },
            ),
            (PhaseView::Waiting { pid }, EventView::Signaled(signal)) => self.go(
                report_exit(pid, ExitStatus::Signalled(signal as u8)),
                PhaseView::Reaping { pid },
            ),
            (PhaseView::Waiting { .. }, EventView::Stopped) => self,
            (PhaseView::Waiting { .. }, EventView::Continued) => self,
            (PhaseView::Waiting { .. }, EventView::Interrupted) => self,
            (PhaseView::Waiting { .. }, EventView::NoChild) => self.fail("Err(ECHILD)"@),
            _ => self.unexpected(),
        }
    }

    /// The process after the answer `event` to the action that is under way.
    pub open spec fn next(self, event: EventView) -> RunnerView {
        if self.asking() {
            self.answer(event)
        } else {
            match event {
                EventView::Done => self.go(self.batch.drop_first(), self.phase),
                EventView::Failed(error) => self.fail(error),
                _ => self.unexpected(),
            }
        }
    }
}

impl View for Runner {
    type V = RunnerView;

    closed spec fn view(&self) -> RunnerView {
        RunnerView {
            init: self.init@,
            console: self.console,
            batch: action_views(self.batch@),
            phase: self.phase@,
        }
    }
}

impl Init {
    /// From the start to the question for the effective user id.
    fn enter(&self) -> (r: Vec<Action>)
        ensures
            action_views(r@) == self@.enter(),
            self@.mount_flags_known(),
    {
        let mut batch: Vec<Action> = Vec::new();
        batch.push(Action::SetLogTarget(prefixed("northstar::init::", &self.container)));

        // Become a subreaper
        batch.push(Action::SetChildSubreaper(true));

        // Set the process name to init. This process inherited the process name
        // from the runtime
        batch.push(Action::SetProcessName(prefixed("init-", &self.container)));

        // Become a session group leader
        batch.push(Action::SetSid);

        // Enter mount namespace
        batch.push(Action::UnshareMountNamespace);

        // Perform all mounts passed in mounts
        let mut mounts = self.mount();
        batch.append(&mut mounts);

        // Set the chroot to the containers root mount point
        batch.push(Action::Chroot(self.root.clone()));

        // Set current working directory to root
        let directory = RawPath::new(vec![0x2fu8]);
        assert(directory@ =~= root_directory());
        batch.push(Action::SetCurrentDir(directory));

        batch.push(Action::GetEuid);
        assert(action_views(batch@) =~= self@.enter());
        batch
    }

    /// From the effective user id to the question for the bounding set.
    fn confine(&self, euid: u32) -> (r: Vec<Action>)
        ensures
            action_views(r@) == self@.confine(euid),
    {
        // UID / GID
        let mut batch = self.set_ids(euid);

        // Supplementary groups
        batch.push(self.set_groups());

        // Apply resource limits
        let mut limits = self.set_rlimits();
        batch.append(&mut limits);

        // No new privileges
        batch.push(Init::set_no_new_privs(true));

        batch.push(Action::ReadBoundingCaps);
        assert(action_views(batch@) =~= self@.confine(euid));
        batch
    }

    /// The init process of the container, with the console descriptor of the
    /// application.
    pub fn run(self, console: Option<i32>) -> (r: Runner)
        ensures
            r@ == RunnerView::start(self@, console),
            self@.mount_flags_known(),
    {
        let batch = self.enter();
        assert(batch@.len() == action_views(batch@).len());
        Runner { init: self, console, batch, phase: Phase::Identity }
    }
}

/// The environment of the application: what was asked for, and the console.
fn console_env(env: Vec<String>, console: Option<i32>) -> (r: Vec<String>)
    ensures
        texts(r@) == application_env(texts(env@), console),
{
    let ghost asked = env@;
    let mut env = env;
    match console {
        Some(fd) => {
            // Add the fd number to the environment of the application
            let mut variable = owned("NORTHSTAR_CONSOLE=");
            let number = decimal_text(fd as i64);
            variable.append(number.as_str());
            env.push(variable);
        },
        None => {},
    }
    assert(texts(env@) =~= application_env(texts(asked), console));
    env
}

/// From the forked child to the question how it fares.
fn fork_report(
    console: Option<i32>,
    stdin: i32,
    stdout: i32,
    stderr: i32,
    pid: Pid,
) -> (r: Vec<Action>)
    ensures
        action_views(r@) == report_fork(console, stdin, stdout, stderr, pid),
{
    let mut batch: Vec<Action> = Vec::new();
    // close fds
    match console {
        Some(_) => {
            batch.push(Action::DropConsole);
        },
        None => {},
    }
    batch.push(Action::Close(Stream::Stdin, stdin));
    batch.push(Action::Close(Stream::Stdout, stdout));
    batch.push(Action::Close(Stream::Stderr, stderr));
    batch.push(Action::Send(Message::Forked { pid }));

    // Wait for the child to exit
    batch.push(Action::WaitPid(pid));
    assert(action_views(batch@) =~= report_fork(console, stdin, stdout, stderr, pid));
    batch
}

/// From the end of the child to the question whether it is gone.
fn exit_report(pid: Pid, exit_status: ExitStatus) -> (r: Vec<Action>)
    ensures
        action_views(r@) == report_exit(pid, exit_status),
{
    let mut batch: Vec<Action> = Vec::new();
    batch.push(Action::Send(Message::Exit { pid, exit_status }));
    batch.push(Action::Reap(pid));
    assert(action_views(batch@) =~= report_exit(pid, exit_status));
    batch
}

/// A batch of one action.
fn single(action: Action) -> (r: Vec<Action>)
    ensures
        action_views(r@) == seq![action@],
{
    let mut batch: Vec<Action> = Vec::new();
    batch.push(action);
    assert(action_views(batch@) =~= seq![action@]);
    batch
}

impl Runner {
    #[verifier::type_invariant]
    closed spec fn has_action(self) -> bool {
        self.batch@.len() > 0
    }

    /// The action that is under way.
    pub fn action(&self) -> (r: &Action)
        ensures
            r@ == self@.action(),
            self@.batch.len() > 0,
    {
        proof {
            use_type_invariant(self);
        }
        &self.batch[0]
    }

    /// The process with a new batch of actions before it.
    fn go(self, batch: Vec<Action>, phase: Phase) -> (r: Runner)
        requires
            batch@.len() > 0,
        ensures
            r@ == self@.go(action_views(batch@), phase@),
    {
        Runner { init: self.init, console: self.console, batch, phase }
    }

    /// The process that ends with `action`.
    fn halt(self, action: Action) -> (r: Runner)
        ensures
            r@ == self@.halt(action@),
    {
        let batch = single(action);
        assert(batch@.len() == action_views(batch@).len());
        self.go(batch, Phase::Halted)
    }

    /// The process that panics over a failed operation.
    fn fail(self, error: &String) -> (r: Runner)
        ensures
            r@ == self@.fail(error@),
    {
        let action = self.action().panic(error);
        self.halt(action)
    }

    /// The process that panics over an answer to some other action.
    fn unexpected(self) -> (r: Runner)
        ensures
            r@ == self@.unexpected(),
    {
        self.halt(Action::Panic(owned("Unexpected answer")))
    }

    /// The process after the answer to the question for the standard streams.
    fn answer_io(self, event: Event) -> (r: Runner)
        requires
            self@.phase is Io,
        ensures
            r@ == self@.answer(event@),
    {
        match event {
            Event::Failed(error) => self.fail(&error),
            Event::Io { stdin, stdout, stderr } => {
                let Runner { init, console, batch, phase } = self;
                match phase {
                    Phase::Io { path, args, env } => {
                        let steps = init.child_steps(&path, args, env, stdin, stdout, stderr);
                        let fork = single(Action::Fork(steps));
                        assert(fork@.len() == action_views(fork@).len());
                        let phase = Phase::Forking { stdin, stdout, stderr };
                        Runner { init, console, batch: fork, phase }
                    },
                    phase => Runner { init, console, batch, phase },
                }
            },
            _ => self.unexpected(),
        }
    }

    /// The process after the answer to the question for a message.
    fn answer_message(self, event: Event) -> (r: Runner)
        requires
            self@.phase is Receiving,
        ensures
            r@ == self@.answer(event@),
    {
        match event {
            Event::Failed(error) => self.fail(&error),
            Event::Closed => self.halt(Action::Exit(0)),
            Event::Received(Message::Exec { path, args, env }) => {
                // The init process got adopted by the forker after the trampoline exited. It is
                // safe to set the parent death signal now.
                let mut batch = single(Action::KillOnParentDeath);
                proof {
                    lemma_action_views_push(batch@, Action::ReceiveIo);
                }
                batch.push(Action::ReceiveIo);
                assert(action_views(batch@) =~= seq![
                    ActionView::KillOnParentDeath,
                    ActionView::ReceiveIo,
                ]);
                let env = console_env(env, self.console);
                self.go(batch, Phase::Io { path, args, env })
            },
            Event::Received(_) => self.halt(
                Action::Panic(owned("not implemented: Unimplemented message")),
            ),
            _ => self.unexpected(),
        }
    }

    /// The process after the answer to the question how the child fares.
    fn answer_wait(self, pid: Pid, event: Event) -> (r: Runner)
        requires
            self@.phase == (PhaseView::Waiting { pid }),
        ensures
            r@ == self@.answer(event@),
    {
        match event {
            Event::Failed(error) => self.fail(&error),
            Event::Exited(code) => {
                let batch = exit_report(pid, ExitStatus::Exit(code));
                assert(batch@.len() == action_views(batch@).len());
                self.go(batch, Phase::Reaping { pid })
            },
            Event::Signaled(signal) => {
                let number = #[verifier::truncate] (signal as u8);
                let batch = exit_report(pid, ExitStatus::Signalled(number));
                assert(batch@.len() == action_views(batch@).len());
                self.go(batch, Phase::Reaping { pid })
            },
            Event::Stopped | Event::Continued | Event::Interrupted => self,
            Event::NoChild => {
                let error = owned("Err(ECHILD)");
                self.fail(&error)
            },
            _ => self.unexpected(),
        }
    }

    /// The process after the answer `event` to the question of its phase.
    fn answer(self, event: Event) -> (r: Runner)
        ensures
            r@ == self@.answer(event@),
    {
        match &self.phase {
            Phase::Identity => match event {
                Event::Failed(error) => self.fail(&error),
                Event::Euid(euid) => {
                    let batch = self.init.confine(euid);
                    assert(batch@.len() == action_views(batch@).len());
                    self.go(batch, Phase::Bounding)
                },
                _ => self.unexpected(),
            },
            Phase::Bounding => match event {
                Event::Failed(error) => self.fail(&error),
                Event::BoundingCaps(bounded) => {
                    // Capabilities
                    let mut batch = self.init.drop_privileges(&bounded);
                    proof {
                        lemma_action_views_push(batch@, Action::Receive);
                    }
                    batch.push(Action::Receive);
                    self.go(batch, Phase::Receiving)
                },
                _ => self.unexpected(),
            },
            Phase::Receiving => self.answer_message(event),
            Phase::Io { .. } => self.answer_io(event),
            Phase::Forking { stdin, stdout, stderr } => {
                let (stdin, stdout, stderr) = (*stdin, *stdout, *stderr);
                match event {
                    Event::Failed(error) => self.fail(&error),
                    Event::Forked(pid) => {
                        let batch = fork_report(self.console, stdin, stdout, stderr, pid);
                        assert(batch@.len() == action_views(batch@).len());
                        self.go(batch, Phase::Waiting { pid })
                    },
                    _ => self.unexpected(),
                }
            },
            Phase::Waiting { pid } => {
                let pid: Pid = *pid;
                self.answer_wait(pid, event)
            },
            Phase::Reaping { .. } => match event {
                Event::Failed(error) => self.fail(&error),
                Event::NoChild => self.halt(Action::Exit(0)),
                _ => self.unexpected(),
            },
            Phase::Halted => self,
        }
    }

    /// The process after the answer `event` to the action that is under way.
    pub fn step(self, event: Event) -> (r: Runner)
        ensures
            r@ == self@.next(event@),
    {
        proof {
            use_type_invariant(&self);
            assert(self.batch@.len() == self@.batch.len());
        }
        if self.batch.len() == 1 {
            self.answer(event)
        } else {
            match event {
                Event::Done => {
                    let ghost before = self.batch@;
                    let Runner { init, console, batch, phase } = self;
                    let mut batch = batch;
                    let _ = batch.remove(0);
                    assert(action_views(batch@) =~= action_views(before).drop_first());
                    Runner { init, console, batch, phase }
                },
                Event::Failed(error) => self.fail(&error),
                _ => self.unexpected(),
            }
        }
    }
}

} // verus!
