//! What the forked child makes of itself for the application.
use vstd::prelude::*;
use vstd::utf8::{decode_utf8, encode_utf8, valid_utf8};
use crate::action::{ChildStepView, Stream};
use crate::child::{ChildNextView, after_step, child_course, lemma_success_leads_on};
use crate::child::{all_c_strings, byte_list, first_panic, last_step, nul_panic, nul_position};
use crate::child::{lemma_first_panic, lemma_has_nul};
use crate::init::InitView;
use crate::text::digits;

verus! {

/// The descriptor of a standard stream.
pub open spec fn number(stream: Stream) -> i32 {
    match stream {
        Stream::Stdin => 0,
        Stream::Stdout => 1,
        Stream::Stderr => 2,
    }
}

/// What the open descriptors of a process refer to, after a step of the child.
pub open spec fn after_child_step(table: Map<i32, int>, step: ChildStepView) -> Map<i32, int> {
    match step {
        ChildStepView::Dup2(fd, stream) => table.insert(number(stream), table[fd]),
        ChildStepView::Close(_, fd) => table.remove(fd),
        _ => table,
    }
}

/// What the open descriptors refer to, after the first `n` steps of the child.
pub open spec fn table_after(table: Map<i32, int>, steps: Seq<ChildStepView>, n: nat) -> Map<
    i32,
    int,
>
    decreases n,
{
    if n == 0 {
        table
    } else {
        after_child_step(table_after(table, steps, (n - 1) as nat), steps[n - 1])
    }
}

/// Whether a step needs no descriptor but open ones.
pub open spec fn finds_its_descriptor(table: Map<i32, int>, step: ChildStepView) -> bool {
    match step {
        ChildStepView::Dup2(fd, _) => table.dom().contains(fd),
        ChildStepView::Close(_, fd) => table.dom().contains(fd),
        _ => true,
    }
}

/// When the child becomes the application, the standard streams refer to what
/// was received for each of them, what was received is closed, and every other
/// descriptor is as it was. No step on the way lacks its descriptor. That the
/// received descriptors are three, and none of them that of a standard stream,
/// is what a process with open standard streams receives.
pub proof fn law_streams_are_in_place(
    init: InitView,
    path: Seq<u8>,
    args: Seq<Seq<char>>,
    env: Seq<Seq<char>>,
    stdin: i32,
    stdout: i32,
    stderr: i32,
    table: Map<i32, int>,
)
    requires
        stdin > 2 && stdout > 2 && stderr > 2,
        stdin != stdout && stdin != stderr && stdout != stderr,
        table.dom().contains(stdin),
        table.dom().contains(stdout),
        table.dom().contains(stderr),
    ensures
        ({
            let steps = init.child_steps(path, args, env, stdin, stdout, stderr);
            let end = (steps.len() - 1) as nat;
            let last = table_after(table, steps, end);
            &&& last.dom().contains(0) && last[0] == table[stdin]
            &&& last.dom().contains(1) && last[1] == table[stdout]
            &&& last.dom().contains(2) && last[2] == table[stderr]
            &&& !last.dom().contains(stdin)
            &&& !last.dom().contains(stdout)
            &&& !last.dom().contains(stderr)
            &&& forall|fd: i32|
                !(0 <= fd <= 2) && fd != stdin && fd != stdout && fd != stderr ==> (
                #[trigger] last.dom().contains(fd) <==> table.dom().contains(fd)) && last[fd]
                    == table[fd]
            &&& forall|k: nat|
                k < steps.len() ==> finds_its_descriptor(
                    #[trigger] table_after(table, steps, k),
                    steps[k as int],
                )
        }),
{
    let steps = init.child_steps(path, args, env, stdin, stdout, stderr);
    let end = (steps.len() - 1) as nat;
    let t0 = table_after(table, steps, 0);
    let t1 = table_after(table, steps, 1);
    let t2 = table_after(table, steps, 2);
    let t3 = table_after(table, steps, 3);
    let t4 = table_after(table, steps, 4);
    let t5 = table_after(table, steps, 5);
    let t6 = table_after(table, steps, 6);
    let t7 = table_after(table, steps, 7);
    let t8 = table_after(table, steps, 8);
    let t9 = table_after(table, steps, 9);
    assert(t1 == after_child_step(t0, steps[0]));
    assert(t2 == after_child_step(t1, steps[1]));
    assert(t2 == table);
    assert(t3 == after_child_step(t2, steps[2]));
    assert(t4 == after_child_step(t3, steps[3]));
    assert(t5 == after_child_step(t4, steps[4]));
    assert(t6 == after_child_step(t5, steps[5]));
    assert(t7 == after_child_step(t6, steps[6]));
    assert(t8 == after_child_step(t7, steps[7]));
    assert(end == 8 || end == 9);
    assert(end == 9 ==> t9 == after_child_step(t8, steps[8]) && t9 == t8);
    assert forall|k: nat| k < steps.len() implies finds_its_descriptor(
        #[trigger] table_after(table, steps, k),
        steps[k as int],
    ) by {
        assert(k <= 9);
        assert(k == 0 || k == 1 || k == 2 || k == 3 || k == 4 || k == 5 || k == 6 || k == 7 || k
            == 8 || k == 9);
    }
}

/// The descriptor that was received for a stream.
pub open spec fn received(stream: Stream, stdin: i32, stdout: i32, stderr: i32) -> i32 {
    match stream {
        Stream::Stdin => stdin,
        Stream::Stdout => stdout,
        Stream::Stderr => stderr,
    }
}

/// Where a step has its place among the steps of the child.
pub open spec fn step_stage(step: ChildStepView) -> int {
    match step {
        ChildStepView::SetLogTarget(_) => 0,
        ChildStepView::KillOnParentDeath => 1,
        ChildStepView::Dup2(_, Stream::Stdin) => 2,
        ChildStepView::Dup2(_, Stream::Stdout) => 3,
        ChildStepView::Dup2(_, Stream::Stderr) => 4,
        ChildStepView::Close(Stream::Stdin, _) => 5,
        ChildStepView::Close(Stream::Stdout, _) => 6,
        ChildStepView::Close(Stream::Stderr, _) => 7,
        ChildStepView::ApplySeccomp(_) => 8,
        ChildStepView::Execve { .. } => 9,
        ChildStepView::Panic(_) => 9,
    }
}

/// The child takes each step once and in its place: it logs under the name of
/// the container, is tied to its parent, puts each stream in place of the
/// standard one and closes what it was received as, and applies the filter of
/// the container, if there is one and only then. A last step follows, and
/// nothing else is done, whatever the container and the request are.
pub proof fn law_child_takes_each_step_once(
    init: InitView,
    path: Seq<u8>,
    args: Seq<Seq<char>>,
    env: Seq<Seq<char>>,
    stdin: i32,
    stdout: i32,
    stderr: i32,
    step: ChildStepView,
)
    ensures
        ({
            let steps = init.child_steps(path, args, env, stdin, stdout, stderr);
            &&& forall|i: int, j: int|
                0 <= i < j < steps.len() ==> step_stage(#[trigger] steps[i]) < step_stage(
                    #[trigger] steps[j],
                )
            &&& steps.len() > 0 && step_stage(steps.last()) == 9
            &&& step_stage(step) < 9 ==> (steps.contains(step) <==> match step {
                ChildStepView::SetLogTarget(target) => target == "northstar::"@ + init.container,
                ChildStepView::KillOnParentDeath => true,
                ChildStepView::Dup2(fd, stream) => fd == received(stream, stdin, stdout, stderr),
                ChildStepView::Close(stream, fd) => fd == received(stream, stdin, stdout, stderr),
                ChildStepView::ApplySeccomp(filter) => init.seccomp == Some(filter),
                _ => false,
            })
        }),
{
    let steps = init.child_steps(path, args, env, stdin, stdout, stderr);
    assert(step_stage(last_step(path, args, env)) == 9);
    assert(steps.len() == 9 || steps.len() == 10);
    assert(steps.last() == last_step(path, args, env));
    match step {
        ChildStepView::SetLogTarget(target) => {
            if target == "northstar::"@ + init.container {
                assert(steps[0] == step);
            }
        },
        ChildStepView::KillOnParentDeath => assert(steps[1] == step),
        ChildStepView::Dup2(fd, stream) => {
            if fd == received(stream, stdin, stdout, stderr) {
                assert(steps[2 + number(stream)] == step);
            }
        },
        ChildStepView::Close(stream, fd) => {
            if fd == received(stream, stdin, stdout, stderr) {
                assert(steps[5 + number(stream)] == step);
            }
        },
        ChildStepView::ApplySeccomp(filter) => {
            if init.seccomp == Some(filter) {
                assert(steps[8] == step);
            }
        },
        _ => {},
    }
}

/// The zero byte that a panic speaks of is the first one, and the panic shows
/// its position and all the bytes.
pub proof fn law_panic_shows_the_first_zero_byte(bytes: Seq<u8>)
    requires
        bytes.contains(0u8),
    ensures
        nul_position(bytes) < bytes.len(),
        bytes[nul_position(bytes) as int] == 0,
        forall|i: int| 0 <= i < nul_position(bytes) ==> (#[trigger] bytes[i]) != 0,
        nul_panic(bytes) == "called `Result::unwrap()` on an `Err` value: NulError("@ + digits(
            nul_position(bytes),
        ) + ", ["@ + byte_list(bytes) + "])"@,
    decreases bytes.len(),
{
    lemma_has_nul(bytes);
    if bytes[0] != 0 {
        let rest = bytes.drop_first();
        let k = bytes.index_of(0u8);
        assert(rest[k - 1] == 0);
        law_panic_shows_the_first_zero_byte(rest);
        assert forall|i: int| 0 <= i < nul_position(bytes) implies (#[trigger] bytes[i]) != 0 by {
            if i > 0 {
                assert(rest[i - 1] != 0);
            }
        }
    }
}

/// The bytes of a list are shown one after the other: that of two lists is the
/// one, a comma and the other, and that of one byte is its number.
pub proof fn law_byte_list_shows_every_byte(a: Seq<u8>, b: Seq<u8>, byte: u8)
    ensures
        byte_list(Seq::empty()) == Seq::<char>::empty(),
        byte_list(seq![byte]) == digits(byte as nat),
        a.len() > 0 && b.len() > 0 ==> byte_list(a + b) == byte_list(a) + ", "@ + byte_list(b),
    decreases b.len(),
{
    if a.len() > 0 && b.len() > 0 {
        let all = a + b;
        assert(all.last() == b.last());
        if b.len() == 1 {
            assert(all.drop_last() =~= a);
            assert(byte_list(b) == digits(b[0] as nat));
        } else {
            let front = b.drop_last();
            assert(all.drop_last() =~= a + front);
            law_byte_list_shows_every_byte(a, front, byte);
            let comma = ", "@;
            let last = digits(b.last() as nat);
            assert(byte_list(a) + comma + byte_list(front) + comma + last =~= byte_list(a) + comma
                + (byte_list(front) + comma + last));
        }
    }
}

/// A request that cannot be handed on makes the child panic over the first
/// thing that cannot: the path, if it is no text or no C string, then the first
/// such argument, then the first such variable of the environment.
pub proof fn law_panic_is_over_the_first_hindrance(
    path: Seq<u8>,
    args: Seq<Seq<char>>,
    env: Seq<Seq<char>>,
    i: int,
)
    ensures
        !valid_utf8(path) ==> last_step(path, args, env) == ChildStepView::Panic(
            "called `Option::unwrap()` on a `None` value"@,
        ),
        valid_utf8(path) && path.contains(0u8) ==> last_step(path, args, env)
            == ChildStepView::Panic(nul_panic(path)),
        valid_utf8(path) && !path.contains(0u8) && 0 <= i < args.len() && encode_utf8(
            args[i],
        ).contains(0u8) && all_c_strings(args.take(i)) ==> last_step(path, args, env)
            == ChildStepView::Panic(nul_panic(encode_utf8(args[i]))),
        valid_utf8(path) && !path.contains(0u8) && all_c_strings(args) && 0 <= i < env.len()
            && encode_utf8(env[i]).contains(0u8) && all_c_strings(env.take(i)) ==> last_step(
            path,
            args,
            env,
        ) == ChildStepView::Panic(nul_panic(encode_utf8(env[i]))),
        valid_utf8(path) && !path.contains(0u8) && all_c_strings(args) && all_c_strings(env)
            ==> last_step(path, args, env) == (ChildStepView::Execve {
            path: decode_utf8(path),
            args,
            env,
        }),
{
    lemma_has_nul(path);
    lemma_first_panic(args);
    lemma_first_panic(env);
    if 0 <= i < args.len() && encode_utf8(args[i]).contains(0u8) && all_c_strings(args.take(i)) {
        lemma_first_panic_at(args, i);
    }
    if 0 <= i < env.len() && encode_utf8(env[i]).contains(0u8) && all_c_strings(env.take(i)) {
        lemma_first_panic_at(env, i);
    }
}

/// The first text that cannot be a C string gives the panic.
proof fn lemma_first_panic_at(s: Seq<Seq<char>>, i: int)
    requires
        0 <= i < s.len(),
        encode_utf8(s[i]).contains(0u8),
        all_c_strings(s.take(i)),
    ensures
        first_panic(s) == Some(nul_panic(encode_utf8(s[i]))),
    decreases i,
{
    lemma_has_nul(encode_utf8(s[0]));
    if i > 0 {
        assert(s.take(i)[0] == s[0]);
        let rest = s.drop_first();
        assert forall|j: int| 0 <= j < i - 1 implies !encode_utf8(
            #[trigger] rest.take(i - 1)[j],
        ).contains(0u8) by {
            assert(rest.take(i - 1)[j] == s.take(i)[j + 1]);
        }
        lemma_first_panic_at(rest, i - 1);
    }
}

/// Steps that succeed lead on, one by one, and a step that is a panic ends the
/// child with its message, whatever is answered to it.
pub proof fn law_success_leads_on(
    steps: Seq<ChildStepView>,
    answers: Seq<Option<Seq<char>>>,
    k: int,
    failed: Option<Seq<char>>,
    text: Seq<char>,
)
    ensures
        (forall|i: int|
            0 <= i < answers.len() ==> (#[trigger] answers[i]) is None && steps[i] !is Panic)
            ==> child_course(steps, answers) == ChildNextView::Step(answers.len() as int),
        steps[k] == ChildStepView::Panic(text) ==> after_step(steps, k, failed)
            == ChildNextView::Panic(text),
{
    if forall|i: int|
        0 <= i < answers.len() ==> (#[trigger] answers[i]) is None && steps[i] !is Panic {
        assert forall|i: int| 0 <= i < answers.len() implies (#[trigger] steps[i]) !is Panic by {
            assert(answers[i] is None);
        }
        lemma_success_leads_on(steps, answers);
    }
}

} // verus!
