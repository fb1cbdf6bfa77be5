use northstar_init::action::{
    Action, AllowList, CapSet, ChildStep, Event, SockFilter, Stream,
};
use northstar_init::capability::{Capability, CapabilitySet};
use northstar_init::child::{child_next, ChildNext};
use northstar_init::init::Init;
use northstar_init::limits::{RLimitResource, RLimitValue, RLimits};
use northstar_init::message::{ExitStatus, Message};
use northstar_init::mount::{Mount, MountFlags};
use northstar_init::path::RawPath;
use northstar_init::run::Runner;

fn path(text: &str) -> RawPath {
    RawPath::new(text.as_bytes().to_vec())
}

fn flags(bits: u64) -> MountFlags {
    MountFlags::from_bits(bits).unwrap()
}

fn mounts() -> Vec<Mount> {
    vec![
        Mount::new(None, path("/root/proc"), Some("proc"), flags(0), None),
        Mount::new(Some(path("/src")), path("/root/src"), None, flags(4096), None),
    ]
}

fn configuration() -> Init {
    Init {
        container: "hello:0.1.0".to_string(),
        root: path("/root"),
        uid: 1000,
        gid: 1001,
        mounts: mounts(),
        groups: vec![5, 6],
        capabilities: Some(
            CapabilitySet::new().with(Capability::CAP_KILL).with(Capability::CAP_NET_RAW),
        ),
        rlimits: Some(
            RLimits::new()
                .with(RLimitResource::CPU, RLimitValue { soft: Some(1), hard: Some(2) })
                .with(RLimitResource::NOFILE, RLimitValue { soft: None, hard: Some(9) }),
        ),
        seccomp: Some(AllowList { list: vec![SockFilter { code: 6, jt: 0, jf: 0, k: 1 }] }),
        console: true,
    }
}

fn bare() -> Init {
    Init {
        container: "bare".to_string(),
        root: path("/r"),
        uid: 1,
        gid: 2,
        mounts: vec![],
        groups: vec![],
        capabilities: None,
        rlimits: None,
        seccomp: None,
        console: false,
    }
}

fn show(actions: &[Action]) -> Vec<String> {
    actions.iter().map(|a| format!("{:?}", a)).collect()
}

fn now(runner: &Runner) -> String {
    format!("{:?}", runner.action())
}

/// Answers `Done` until the action for which `stop` holds is under way.
fn until(mut runner: Runner, stop: fn(&Action) -> bool) -> (Runner, Vec<String>) {
    let mut seen = vec![];
    while !stop(runner.action()) {
        seen.push(now(&runner));
        runner = runner.step(Event::Done);
    }
    (runner, seen)
}

fn bounding() -> CapabilitySet {
    CapabilitySet::new()
        .with(Capability::CAP_CHOWN)
        .with(Capability::CAP_KILL)
        .with(Capability::CAP_BPF)
}

/// The init process when it waits for a message.
fn receiving(init: Init, console: Option<i32>) -> Runner {
    let (runner, _) = until(init.run(console), |a| matches!(a, Action::GetEuid));
    let (runner, _) = until(runner.step(Event::Euid(0)), |a| matches!(a, Action::ReadBoundingCaps));
    let (runner, _) =
        until(runner.step(Event::BoundingCaps(bounding())), |a| matches!(a, Action::Receive));
    runner
}

fn request() -> Event {
    Event::Received(Message::Exec {
        path: path("/bin/app"),
        args: vec!["app".to_string(), "-v".to_string()],
        env: vec!["A=1".to_string()],
    })
}

/// The init process when it waits for the child.
fn waiting(console: Option<i32>) -> Runner {
    let runner = receiving(configuration(), console).step(request());
    let (runner, _) = until(runner, |a| matches!(a, Action::ReceiveIo));
    let runner = runner.step(Event::Io { stdin: 10, stdout: 11, stderr: 12 });
    let (runner, _) = until(runner.step(Event::Forked(42)), |a| matches!(a, Action::WaitPid(_)));
    runner
}

#[test]
fn preparation_is_in_order() {
    let (runner, enter) = until(configuration().run(None), |a| matches!(a, Action::GetEuid));
    let mounts = mounts();
    assert_eq!(
        enter,
        show(&[
            Action::SetLogTarget("northstar::init::hello:0.1.0".to_string()),
            Action::SetChildSubreaper(true),
            Action::SetProcessName("init-hello:0.1.0".to_string()),
            Action::SetSid,
            Action::UnshareMountNamespace,
            Action::Mount(mounts[0].clone()),
            Action::Mount(mounts[1].clone()),
            Action::Chroot(path("/root")),
            Action::SetCurrentDir(path("/")),
        ])
    );
    let (runner, confine) =
        until(runner.step(Event::Euid(1000)), |a| matches!(a, Action::ReadBoundingCaps));
    assert_eq!(
        confine,
        show(&[
            Action::SetResGid(1001),
            Action::SetResUid(1000),
            Action::SetGroups(vec![5, 6]),
            Action::SetRLimit { resource: RLimitResource::CPU, soft: 1, hard: 2 },
            Action::SetRLimit { resource: RLimitResource::NOFILE, soft: u64::MAX, hard: 9 },
            Action::SetNoNewPrivs(true),
        ])
    );
    let set = || CapabilitySet::new().with(Capability::CAP_KILL).with(Capability::CAP_NET_RAW);
    let (_, drop) =
        until(runner.step(Event::BoundingCaps(bounding())), |a| matches!(a, Action::Receive));
    assert_eq!(
        drop,
        show(&[
            Action::DropBoundingCap(Capability::CAP_CHOWN),
            Action::DropBoundingCap(Capability::CAP_BPF),
            Action::SetCaps(CapSet::Effective, set()),
            Action::SetCaps(CapSet::Permitted, set()),
            Action::SetCaps(CapSet::Inheritable, set()),
            Action::SetCaps(CapSet::Ambient, set()),
        ])
    );
}

#[test]
fn root_keeps_capabilities_while_ids_change() {
    let actions = configuration().set_ids(0);
    assert_eq!(actions.len(), 5);
    assert_eq!(
        show(&actions[..3]),
        show(&[Action::SetKeepCaps(true), Action::SetResGid(1001), Action::SetResUid(1000)])
    );
    match &actions[3] {
        Action::ResetEffectiveCaps(set) => assert_eq!(set.members().len(), 41),
        other => panic!("unexpected action {:?}", other),
    }
    assert_eq!(show(&actions[4..]), show(&[Action::SetKeepCaps(false)]));
}

#[test]
fn effective_capabilities_are_reset_to_all() {
    match bare().reset_effective_caps() {
        Action::ResetEffectiveCaps(set) => {
            assert!(set.contains(Capability::CAP_SYS_ADMIN));
            assert_eq!(set.members().len(), caps::all().len());
        }
        other => panic!("unexpected action {:?}", other),
    }
}

#[test]
fn other_users_only_change_ids() {
    assert_eq!(
        show(&bare().set_ids(1)),
        show(&[Action::SetResGid(2), Action::SetResUid(1)])
    );
}

#[test]
fn no_configured_capability_drops_all() {
    let actions = bare().drop_privileges(&bounding());
    assert_eq!(
        show(&actions),
        show(&[
            Action::DropBoundingCap(Capability::CAP_CHOWN),
            Action::DropBoundingCap(Capability::CAP_KILL),
            Action::DropBoundingCap(Capability::CAP_BPF),
            Action::SetCaps(CapSet::Effective, CapabilitySet::new()),
            Action::SetCaps(CapSet::Permitted, CapabilitySet::new()),
            Action::SetCaps(CapSet::Inheritable, CapabilitySet::new()),
            Action::SetCaps(CapSet::Ambient, CapabilitySet::new()),
        ])
    );
}

#[test]
fn empty_configuration_asks_for_little() {
    let init = bare();
    assert!(init.mount().is_empty());
    assert!(init.set_rlimits().is_empty());
    assert_eq!(show(&[init.set_groups()]), show(&[Action::SetGroups(vec![])]));
    assert_eq!(show(&[Init::set_no_new_privs(false)]), show(&[Action::SetNoNewPrivs(false)]));
}

#[test]
fn mounts_are_executed_in_order() {
    let actions = configuration().mount();
    assert_eq!(
        show(&actions),
        show(&[Action::Mount(mounts()[0].clone()), Action::Mount(mounts()[1].clone())])
    );
}

#[test]
fn configuration_is_cloned_as_it_is() {
    let init = configuration();
    assert_eq!(format!("{:?}", init.clone()), format!("{:?}", init));
}

#[test]
fn request_leads_to_the_application() {
    let runner = receiving(configuration(), Some(7)).step(request());
    assert_eq!(now(&runner), "KillOnParentDeath");
    let runner = runner.step(Event::Done);
    assert_eq!(now(&runner), "ReceiveIo");
    let runner = runner.step(Event::Io { stdin: 10, stdout: 11, stderr: 12 });
    let steps = match runner.action() {
        Action::Fork(steps) => format!("{:?}", steps),
        other => panic!("unexpected action {:?}", other),
    };
    let expected = vec![
        ChildStep::SetLogTarget("northstar::hello:0.1.0".to_string()),
        ChildStep::KillOnParentDeath,
        ChildStep::Dup2(10, Stream::Stdin),
        ChildStep::Dup2(11, Stream::Stdout),
        ChildStep::Dup2(12, Stream::Stderr),
        ChildStep::Close(Stream::Stdin, 10),
        ChildStep::Close(Stream::Stdout, 11),
        ChildStep::Close(Stream::Stderr, 12),
        ChildStep::ApplySeccomp(AllowList {
            list: vec![SockFilter { code: 6, jt: 0, jf: 0, k: 1 }],
        }),
        ChildStep::Execve {
            path: "/bin/app".to_string(),
            args: vec!["app".to_string(), "-v".to_string()],
            env: vec!["A=1".to_string(), "NORTHSTAR_CONSOLE=7".to_string()],
        },
    ];
    assert_eq!(steps, format!("{:?}", expected));
    let (runner, report) =
        until(runner.step(Event::Forked(42)), |a| matches!(a, Action::WaitPid(42)));
    assert_eq!(
        report,
        show(&[
            Action::DropConsole,
            Action::Close(Stream::Stdin, 10),
            Action::Close(Stream::Stdout, 11),
            Action::Close(Stream::Stderr, 12),
            Action::Send(Message::Forked { pid: 42 }),
        ])
    );
    assert_eq!(now(&runner), "WaitPid(42)");
}

#[test]
fn without_a_console_the_environment_is_unchanged() {
    let runner = receiving(bare(), None).step(request()).step(Event::Done);
    let runner = runner.step(Event::Io { stdin: 3, stdout: 4, stderr: 5 });
    match runner.action() {
        Action::Fork(steps) => {
            assert_eq!(steps.len(), 9);
            match &steps[8] {
                ChildStep::Execve { env, .. } => assert_eq!(env, &vec!["A=1".to_string()]),
                other => panic!("unexpected step {:?}", other),
            }
        }
        other => panic!("unexpected action {:?}", other),
    }
    let runner = runner.step(Event::Forked(9));
    assert_eq!(now(&runner), "Close(Stdin, 3)");
}

#[test]
fn exit_code_is_reported() {
    let runner = waiting(None).step(Event::Exited(3));
    let report = Message::Exit { pid: 42, exit_status: ExitStatus::Exit(3) };
    assert_eq!(now(&runner), format!("{:?}", Action::Send(report)));
    let runner = runner.step(Event::Done);
    assert_eq!(now(&runner), "Reap(42)");
    let runner = runner.step(Event::NoChild);
    assert_eq!(now(&runner), "Exit(0)");
}

#[test]
fn signal_is_reported() {
    let runner = waiting(Some(3)).step(Event::Signaled(9));
    let report = Message::Exit { pid: 42, exit_status: ExitStatus::Signalled(9) };
    assert_eq!(now(&runner), format!("{:?}", Action::Send(report)));
}

#[test]
fn stopped_child_is_waited_for_again() {
    let runner = waiting(None)
        .step(Event::Stopped)
        .step(Event::Continued)
        .step(Event::Interrupted)
        .step(Event::Stopped);
    assert_eq!(now(&runner), "WaitPid(42)");
    let runner = runner.step(Event::Exited(0));
    assert!(matches!(runner.action(), Action::Send(_)));
}

#[test]
fn vanished_child_is_a_failure() {
    let runner = waiting(None).step(Event::NoChild);
    assert_eq!(now(&runner), "Panic(\"Failed to waitpid on 42: Err(ECHILD)\")");
    let runner = waiting(None).step(Event::Failed("Err(EINVAL)".to_string()));
    assert_eq!(now(&runner), "Panic(\"Failed to waitpid on 42: Err(EINVAL)\")");
}

#[test]
fn child_must_be_gone_after_its_end() {
    for left in vec!["Ok(Exited(Pid(42), 0))", "Err(EINTR)", "Ok(Continued(Pid(42)))"] {
        let runner = waiting(None).step(Event::Signaled(9)).step(Event::Done);
        let runner = runner.step(Event::Failed(left.to_string()));
        let panic = Action::FailAssertion {
            left: left.to_string(),
            right: "Err(ECHILD)".to_string(),
        };
        assert_eq!(now(&runner), format!("{:?}", panic));
        assert_eq!(now(&runner.step(Event::NoChild)), format!("{:?}", panic));
    }
    let runner = waiting(None).step(Event::Exited(0)).step(Event::Done).step(Event::Done);
    assert_eq!(now(&runner), "Panic(\"Unexpected answer\")");
}

#[test]
fn closed_channel_ends_the_process() {
    let runner = receiving(bare(), None).step(Event::Closed);
    assert_eq!(now(&runner), "Exit(0)");
    let runner = runner.step(Event::Done).step(request());
    assert_eq!(now(&runner), "Exit(0)");
}

#[test]
fn other_messages_are_not_implemented() {
    let message = Message::Forked { pid: 1 };
    let runner = receiving(bare(), None).step(Event::Received(message));
    assert_eq!(now(&runner), "Panic(\"not implemented: Unimplemented message\")");
    let message = Message::Exit { pid: 1, exit_status: ExitStatus::Exit(0) };
    let runner = receiving(bare(), None).step(Event::Received(message));
    assert_eq!(now(&runner), "Panic(\"not implemented: Unimplemented message\")");
}

#[test]
fn failed_receive_panics() {
    let runner = receiving(bare(), None).step(Event::Failed("broken pipe".to_string()));
    assert_eq!(now(&runner), "Panic(\"Failed to receive message: broken pipe\")");
}

#[test]
fn failure_panics_with_its_message() {
    let (runner, _) = until(bare().run(None), |a| matches!(a, Action::Chroot(_)));
    let runner = runner.step(Event::Failed("EPERM".to_string()));
    assert_eq!(now(&runner), "Panic(\"Failed to chroot: EPERM\")");
    let runner = runner.step(Event::Done);
    assert_eq!(now(&runner), "Panic(\"Failed to chroot: EPERM\")");

    let runner = receiving(bare(), None).step(request()).step(Event::Done);
    let runner = runner.step(Event::Failed("EIO".to_string()));
    assert_eq!(now(&runner), "Panic(\"Failed to receive io: EIO\")");
}

#[test]
fn failed_mount_panics_with_its_own_message() {
    let (runner, _) = until(configuration().run(None), |a| matches!(a, Action::Mount(_)));
    let runner = runner.step(Event::Failed("ENOENT".to_string()));
    assert_eq!(
        now(&runner),
        "Panic(\"Failed to mount '' of type 'proc' on '/root/proc' with flags '(empty)' and \
         data '': ENOENT\")"
    );
}

#[test]
fn failure_messages() {
    let set = CapabilitySet::new;
    let cases = vec![
        (Action::SetLogTarget(String::new()), "Failed to set log target"),
        (Action::SetChildSubreaper(true), "Failed to set child subreaper"),
        (Action::SetProcessName(String::new()), "Failed to set process name"),
        (Action::SetSid, "Failed to call setsid"),
        (Action::UnshareMountNamespace, "Failed to unshare NEWNS"),
        (Action::Chroot(path("/")), "Failed to chroot"),
        (Action::SetCurrentDir(path("/")), "Failed to set cwd to /"),
        (Action::GetEuid, "Failed to get effective uid"),
        (Action::SetKeepCaps(true), "Failed to set keep caps"),
        (Action::SetResGid(0), "Failed to set resgid"),
        (Action::SetResUid(0), "Failed to set resuid"),
        (Action::ResetEffectiveCaps(set()), "Failed to reset effective caps"),
        (Action::SetGroups(vec![]), "Failed to set supplementary groups"),
        (
            Action::SetRLimit { resource: RLimitResource::AS, soft: 0, hard: 0 },
            "Failed to set rlimit",
        ),
        (Action::SetNoNewPrivs(true), "Failed to set PR_SET_NO_NEW_PRIVS"),
        (Action::ReadBoundingCaps, "Failed to read bounding caps"),
        (Action::DropBoundingCap(Capability::CAP_BPF), "Failed to drop bounding cap"),
        (Action::SetCaps(CapSet::Effective, set()), "Failed to set effective caps"),
        (Action::SetCaps(CapSet::Permitted, set()), "Failed to set permitted caps"),
        (Action::SetCaps(CapSet::Inheritable, set()), "Failed to set inheritable caps"),
        (Action::SetCaps(CapSet::Ambient, set()), "Failed to set ambient caps"),
        (Action::Receive, "Failed to receive message"),
        (Action::KillOnParentDeath, "Failed to set parent death signal"),
        (Action::ReceiveIo, "Failed to receive io"),
        (Action::Fork(vec![]), "Failed to spawn child process"),
        (Action::DropConsole, "Failed to drop console"),
        (Action::Close(Stream::Stdin, 1), "Failed to close stdout"),
        (Action::Close(Stream::Stdout, 1), "Failed to close stdout"),
        (Action::Close(Stream::Stderr, 1), "Failed to close stderr"),
        (Action::Send(Message::Forked { pid: 1 }), "Failed to send fork result"),
        (
            Action::Send(Message::Exit { pid: 1, exit_status: ExitStatus::Exit(0) }),
            "Channel error",
        ),
        (Action::WaitPid(77), "Failed to waitpid on 77"),
        (Action::Exit(0), "Failed to exit"),
        (Action::Panic("lost".to_string()), "lost"),
    ];
    for (action, text) in cases {
        assert_eq!(action.failure(), text);
        let panic = Action::Panic(format!("{}: EPERM", text));
        assert_eq!(format!("{:?}", action.panic(&"EPERM".to_string())), format!("{:?}", panic));
    }
}

#[test]
fn failure_messages_of_the_child() {
    let cases = vec![
        (ChildStep::SetLogTarget(String::new()), "Failed to set log target"),
        (ChildStep::KillOnParentDeath, "Failed to set parent death signal"),
        (ChildStep::Dup2(1, Stream::Stdin), "Failed to dup2"),
        (ChildStep::Close(Stream::Stdin, 1), "Failed to close stdout after dup2"),
        (ChildStep::Close(Stream::Stdout, 1), "Failed to close stdout after dup2"),
        (ChildStep::Close(Stream::Stderr, 1), "Failed to close stderr after dup2"),
        (ChildStep::ApplySeccomp(AllowList { list: vec![] }), "Failed to apply seccomp filter."),
        (
            ChildStep::Execve { path: String::new(), args: vec![], env: vec![] },
            "Execve",
        ),
        (ChildStep::Panic("lost".to_string()), "lost"),
    ];
    for (step, text) in cases {
        assert_eq!(step.failure(), text);
    }
}

#[test]
fn answer_to_another_action_panics() {
    let runner = bare().run(None).step(Event::Euid(0));
    assert_eq!(now(&runner), "Panic(\"Unexpected answer\")");
    let runner = receiving(bare(), None).step(Event::Done);
    assert_eq!(now(&runner), "Panic(\"Unexpected answer\")");
}

fn last_step(path: RawPath, args: Vec<String>, env: Vec<String>) -> String {
    let steps = bare().child_steps(&path, args, env, 3, 4, 5);
    format!("{:?}", steps[steps.len() - 1])
}

#[test]
fn request_that_cannot_be_executed_is_given_up() {
    let nul = || vec!["a".to_string(), "b\0c".to_string()];
    let show = |text: &str| format!("{:?}", ChildStep::Panic(text.to_string()));
    assert_eq!(
        last_step(RawPath::new(vec![0x80]), nul(), nul()),
        show("called `Option::unwrap()` on a `None` value")
    );
    let error = "called `Result::unwrap()` on an `Err` value: NulError";
    assert_eq!(
        last_step(path("/a\0"), nul(), nul()),
        show(&format!("{}(2, [47, 97, 0])", error))
    );
    assert_eq!(
        last_step(path("/a"), nul(), vec!["\0".to_string()]),
        show(&format!("{}(1, [98, 0, 99])", error))
    );
    assert_eq!(
        last_step(path("/a"), vec!["a".to_string()], vec!["\u{fc}=\0\0".to_string()]),
        show(&format!("{}(3, [195, 188, 61, 0, 0])", error))
    );
    assert_eq!(
        last_step(path("/a"), vec!["\0".to_string()], nul()),
        show(&format!("{}(0, [0])", error))
    );
    assert!(last_step(path("/a"), vec![String::new()], vec![]).starts_with("Execve"));
}

fn steps_of(init: Init, path: RawPath) -> Vec<ChildStep> {
    init.child_steps(&path, vec!["app".to_string()], vec![], 3, 4, 5)
}

/// The numbers of the steps that the child takes if step `fails` fails, and the
/// panic that it ends with.
fn taken(steps: &Vec<ChildStep>, fails: usize) -> (Vec<usize>, Option<String>) {
    let mut seen = vec![];
    let mut k = 0;
    while k < steps.len() {
        seen.push(k);
        let failed = if k == fails { Some("EINVAL".to_string()) } else { None };
        match child_next(steps, k, failed) {
            ChildNext::Step(next) => k = next,
            ChildNext::Panic(text) => return (seen, Some(text)),
        }
    }
    (seen, None)
}

#[test]
fn failed_step_of_the_child_is_its_last() {
    let steps = steps_of(configuration(), path("/bin/app"));
    assert_eq!(steps.len(), 10);
    for fails in 0..steps.len() {
        let (seen, panic) = taken(&steps, fails);
        assert_eq!(seen, (0..fails + 1).collect::<Vec<usize>>());
        assert_eq!(panic, Some(format!("{}: EINVAL", steps[fails].failure())));
    }
    let (seen, panic) = taken(&steps, steps.len());
    assert_eq!(seen.len(), steps.len());
    assert_eq!(panic, None);
}

#[test]
fn application_is_not_started_without_its_filter() {
    let steps = steps_of(configuration(), path("/bin/app"));
    assert!(matches!(steps[8], ChildStep::ApplySeccomp(_)));
    assert!(matches!(steps[9], ChildStep::Execve { .. }));
    let (seen, panic) = taken(&steps, 8);
    assert!(!seen.contains(&9));
    assert_eq!(panic, Some("Failed to apply seccomp filter.: EINVAL".to_string()));
}

#[test]
fn child_panics_over_a_request_that_cannot_be_executed() {
    let steps = steps_of(bare(), RawPath::new(vec![0xff]));
    let (seen, panic) = taken(&steps, steps.len());
    assert_eq!(seen.len(), 9);
    assert_eq!(panic, Some("called `Option::unwrap()` on a `None` value".to_string()));
}

#[test]
fn whole_course_forks_and_reports_once() {
    let runner = receiving(configuration(), Some(5)).step(request()).step(Event::Done);
    let mut runner = runner.step(Event::Io { stdin: 10, stdout: 11, stderr: 12 });
    let mut seen = vec![now(&runner)];
    let mut events = vec![
        Event::Forked(8),
        Event::Done,
        Event::Done,
        Event::Done,
        Event::Done,
        Event::Done,
        Event::Stopped,
        Event::Signaled(15),
        Event::Done,
        Event::NoChild,
    ];
    for event in events.drain(..) {
        runner = runner.step(event);
        seen.push(now(&runner));
    }
    assert_eq!(seen.iter().filter(|a| a.starts_with("Fork(")).count(), 1);
    let sent: Vec<&String> = seen.iter().filter(|a| a.starts_with("Send(")).collect();
    assert_eq!(
        sent,
        vec![
            "Send(Forked { pid: 8 })",
            "Send(Exit { pid: 8, exit_status: Signalled(15) })",
        ]
    );
    assert_eq!(seen[seen.len() - 1], "Exit(0)");
}
