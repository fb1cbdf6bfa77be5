//! The steps of the forked child on its way to the application.
use vstd::prelude::*;
use vstd::string::StringExecFns;
use vstd::utf8::{decode_utf8, encode_utf8, valid_utf8};
use crate::action::{ChildStep, Stream};
use crate::action::ChildStepView;
use crate::action::step_views;
use crate::init::Init;
use crate::init::InitView;
use crate::message::texts;
use crate::mount::option_view;
use crate::path::RawPath;
use crate::text::{digits_text, owned, prefixed};
use crate::text::digits;

verus! {

/// The position of the first zero byte, or the length where there is none.
pub open spec fn nul_position(bytes: Seq<u8>) -> nat
    decreases bytes.len(),
{
    if bytes.len() == 0 || bytes[0] == 0 {
        0
    } else {
        1 + nul_position(bytes.drop_first())
    }
}

/// Whether bytes cannot be a C string, because the end of one stands in them.
pub open spec fn has_nul(bytes: Seq<u8>) -> bool {
    nul_position(bytes) < bytes.len()
}

/// The bytes as a list of numbers.
pub open spec fn byte_list(bytes: Seq<u8>) -> Seq<char>
    decreases bytes.len(),
{
    if bytes.len() == 0 {
        Seq::empty()
    } else if bytes.len() == 1 {
        digits(bytes[0] as nat)
    } else {
        byte_list(bytes.drop_last()) + ", "@ + digits(bytes.last() as nat)
    }
}

/// The panic over bytes that cannot be a C string.
pub open spec fn nul_panic(bytes: Seq<u8>) -> Seq<char> {
    "called `Result::unwrap()` on an `Err` value: NulError("@ + digits(nul_position(bytes))
        + ", ["@ + byte_list(bytes) + "])"@
}

/// The panic over the first of the texts that cannot be a C string.
pub open spec fn first_panic(s: Seq<Seq<char>>) -> Option<Seq<char>>
    decreases s.len(),
{
    if s.len() == 0 {
        None
    } else if has_nul(encode_utf8(s[0])) {
        Some(nul_panic(encode_utf8(s[0])))
    } else {
        first_panic(s.drop_first())
    }
}

/// The last step of the child: the application, if the request can be handed
/// to `execve(2)`, and otherwise a panic over the first thing that cannot.
pub open spec fn last_step(
    path: Seq<u8>,
    args: Seq<Seq<char>>,
    env: Seq<Seq<char>>,
) -> ChildStepView {
    if !valid_utf8(path) {
        ChildStepView::Panic("called `Option::unwrap()` on a `None` value"@)
    } else if has_nul(path) {
        ChildStepView::Panic(nul_panic(path))
    } else {
        match (first_panic(args), first_panic(env)) {
            (Some(text), _) => ChildStepView::Panic(text),
            (None, Some(text)) => ChildStepView::Panic(text),
            (None, None) => ChildStepView::Execve { path: decode_utf8(path), args, env },
        }
    }
}

impl InitView {
    /// The application of the seccomp filter, where there is one.
    pub open spec fn seccomp_step(self) -> Seq<ChildStepView> {
        match self.seccomp {
            Some(filter) => seq![ChildStepView::ApplySeccomp(filter)],
            None => Seq::empty(),
        }
    }

    /// The steps of the child that becomes the application at `path`.
    pub open spec fn child_steps(
        self,
        path: Seq<u8>,
        args: Seq<Seq<char>>,
        env: Seq<Seq<char>>,
        stdin: i32,
        stdout: i32,
        stderr: i32,
    ) -> Seq<ChildStepView> {
        seq![
            ChildStepView::SetLogTarget("northstar::"@ + self.container),
            ChildStepView::KillOnParentDeath,
            ChildStepView::Dup2(stdin, Stream::Stdin),
            ChildStepView::Dup2(stdout, Stream::Stdout),
            ChildStepView::Dup2(stderr, Stream::Stderr),
            ChildStepView::Close(Stream::Stdin, stdin),
            ChildStepView::Close(Stream::Stdout, stdout),
            ChildStepView::Close(Stream::Stderr, stderr),
        ] + self.seccomp_step() + seq![last_step(path, args, env)]
    }
}

/// The first zero byte stands where none stands before it.
proof fn lemma_nul_position(bytes: Seq<u8>, k: int)
    requires
        0 <= k <= bytes.len(),
        k < bytes.len() ==> bytes[k] == 0,
        forall|j: int| 0 <= j < k ==> bytes[j] != 0,
    ensures
        nul_position(bytes) == k,
    decreases k,
{
    if k > 0 {
        let rest = bytes.drop_first();
        assert(forall|j: int| 0 <= j < rest.len() ==> rest[j] == bytes[j + 1]);
        lemma_nul_position(rest, k - 1);
    }
}

/// Bytes without a zero byte can be a C string, and no others can.
pub proof fn lemma_has_nul(bytes: Seq<u8>)
    ensures
        has_nul(bytes) <==> bytes.contains(0u8),
    decreases bytes.len(),
{
    if bytes.len() > 0 && bytes[0] != 0 {
        let rest = bytes.drop_first();
        lemma_has_nul(rest);
        if rest.contains(0u8) {
            let j = rest.index_of(0u8);
            assert(bytes[j + 1] == 0);
        }
        if bytes.contains(0u8) {
            let j = bytes.index_of(0u8);
            assert(rest[j - 1] == 0);
        }
    }
}

/// The bytes as a list of numbers.
fn byte_list_text(bytes: &[u8]) -> (r: String)
    ensures
        r@ == byte_list(bytes@),
{
    let mut text = String::new();
    let mut i: usize = 0;
    assert(bytes@.take(0) =~= Seq::empty());
    while i < bytes.len()
        invariant
            i <= bytes.len(),
            text@ == byte_list(bytes@.take(i as int)),
        decreases bytes.len() - i,
    {
        proof {
            let next = bytes@.take(i + 1);
            assert(next.drop_last() =~= bytes@.take(i as int));
            assert(next.last() == bytes@[i as int]);
        }
        if i > 0 {
            text.append(", ");
        }
        let number = digits_text(bytes[i] as u64);
        text.append(number.as_str());
        proof {
            if i == 0 {
                assert(bytes@.take(i as int) =~= Seq::empty());
                assert(text@ =~= number@);
            }
        }
        i += 1;
    }
    assert(bytes@.take(i as int) =~= bytes@);
    text
}

/// The panic over bytes that cannot be a C string, if they cannot.
fn c_string_panic(bytes: &[u8]) -> (r: Option<String>)
    ensures
        r is Some <==> has_nul(bytes@),
        r matches Some(text) ==> text@ == nul_panic(bytes@),
{
    let mut k: usize = 0;
    while k < bytes.len() && bytes[k] != 0
        invariant
            k <= bytes.len(),
            forall|j: int| 0 <= j < k ==> bytes@[j] != 0,
        decreases bytes.len() - k,
    {
        k += 1;
    }
    proof {
        lemma_nul_position(bytes@, k as int);
    }
    if k < bytes.len() {
        let mut text = owned("called `Result::unwrap()` on an `Err` value: NulError(");
        let position = digits_text(k as u64);
        text.append(position.as_str());
        text.append(", [");
        let list = byte_list_text(bytes);
        text.append(list.as_str());
        text.append("])");
        Some(text)
    } else {
        None
    }
}

/// The panic over the first of the texts that cannot be a C string.
fn first_c_string_panic(v: &Vec<String>) -> (r: Option<String>)
    ensures
        option_view(r) == first_panic(texts(v@)),
{
    let ghost all = texts(v@);
    let mut i: usize = 0;
    assert(all.skip(0) =~= all);
    while i < v.len()
        invariant
            i <= v.len(),
            all == texts(v@),
            first_panic(all) == first_panic(all.skip(i as int)),
        decreases v.len() - i,
    {
        assert(all.skip(i as int)[0] == v@[i as int]@);
        assert(all.skip(i as int).drop_first() =~= all.skip(i + 1));
        let found = c_string_panic(v[i].as_str().as_bytes());
        if found.is_some() {
            return found;
        }
        i += 1;
    }
    assert(all.skip(i as int) =~= Seq::empty());
    None
}

/// The last step of the child.
fn exec_step(path: &RawPath, args: Vec<String>, env: Vec<String>) -> (r: ChildStep)
    ensures
        r@ == last_step(path@, texts(args@), texts(env@)),
{
    match path.to_str() {
        None => ChildStep::Panic(owned("called `Option::unwrap()` on a `None` value")),
        Some(text) => {
            if let Some(panic) = c_string_panic(path.bytes.as_slice()) {
                ChildStep::Panic(panic)
            } else if let Some(panic) = first_c_string_panic(&args) {
                ChildStep::Panic(panic)
            } else if let Some(panic) = first_c_string_panic(&env) {
                ChildStep::Panic(panic)
            } else {
                ChildStep::Execve { path: text, args, env }
            }
        },
    }
}

impl Init {
    /// The steps of the child that becomes the application at `path`.
    pub fn child_steps(
        &self,
        path: &RawPath,
        args: Vec<String>,
        env: Vec<String>,
        stdin: i32,
        stdout: i32,
        stderr: i32,
    ) -> (r: Vec<ChildStep>)
        ensures
            step_views(r@) == self@.child_steps(
                path@,
                texts(args@),
                texts(env@),
                stdin,
                stdout,
                stderr,
            ),
    {
        let ghost expected = self@.child_steps(
            path@,
            texts(args@),
            texts(env@),
            stdin,
            stdout,
            stderr,
        );
        let mut steps: Vec<ChildStep> = Vec::new();
        steps.push(ChildStep::SetLogTarget(prefixed("northstar::", &self.container)));
        steps.push(ChildStep::KillOnParentDeath);
        steps.push(ChildStep::Dup2(stdin, Stream::Stdin));
        steps.push(ChildStep::Dup2(stdout, Stream::Stdout));
        steps.push(ChildStep::Dup2(stderr, Stream::Stderr));
        steps.push(ChildStep::Close(Stream::Stdin, stdin));
        steps.push(ChildStep::Close(Stream::Stdout, stdout));
        steps.push(ChildStep::Close(Stream::Stderr, stderr));
        match &self.seccomp {
            Some(filter) => {
                steps.push(ChildStep::ApplySeccomp(filter.clone()));
            },
            None => {},
        }
        steps.push(exec_step(path, args, env));
        assert(step_views(steps@) =~= expected);
        steps
    }
}

/// Whether every one of the texts can be a C string.
pub open spec fn all_c_strings(s: Seq<Seq<char>>) -> bool {
    forall|i: int| 0 <= i < s.len() ==> !encode_utf8(#[trigger] s[i]).contains(0u8)
}

/// Texts give no panic if and only if all of them can be C strings.
pub proof fn lemma_first_panic(s: Seq<Seq<char>>)
    ensures
        first_panic(s) is None <==> all_c_strings(s),
    decreases s.len(),
{
    if s.len() > 0 {
        let rest = s.drop_first();
        lemma_first_panic(rest);
        lemma_has_nul(encode_utf8(s[0]));
        if all_c_strings(s) {
            assert(forall|i: int| 0 <= i < rest.len() ==> #[trigger] rest[i] == s[i + 1]);
        }
        if all_c_strings(rest) && !encode_utf8(s[0]).contains(0u8) {
            assert forall|i: int| 0 <= i < s.len() implies !encode_utf8(
                #[trigger] s[i],
            ).contains(0u8) by {
                if i > 0 {
                    assert(rest[i - 1] == s[i]);
                }
            }
        }
    }
}

/// The child becomes the application in its last step and in no other, with
/// the request as it was made, or panics there if the request cannot be handed
/// on. Its streams are in place by then, and the filter
/// is applied right before it, if and only if there is one.
pub proof fn law_application_comes_last(
    init: InitView,
    path: Seq<u8>,
    args: Seq<Seq<char>>,
    env: Seq<Seq<char>>,
    stdin: i32,
    stdout: i32,
    stderr: i32,
)
    ensures
        ({
            let steps = init.child_steps(path, args, env, stdin, stdout, stderr);
            let end = steps.len() - 1;
            &&& end >= 8
            &&& steps[end] == last_step(path, args, env)
            &&& forall|k: int|
                0 <= k < end ==> (#[trigger] steps[k]) !is Execve && steps[k] !is Panic
            &&& steps.subrange(2, 5) == seq![
                ChildStepView::Dup2(stdin, Stream::Stdin),
                ChildStepView::Dup2(stdout, Stream::Stdout),
                ChildStepView::Dup2(stderr, Stream::Stderr),
            ]
            &&& init.seccomp matches Some(filter) ==> steps[end - 1]
                == ChildStepView::ApplySeccomp(filter)
            &&& init.seccomp is None ==> forall|k: int|
                0 <= k <= end ==> (#[trigger] steps[k]) !is ApplySeccomp
        }),
        last_step(path, args, env) is Execve <==> {
            &&& valid_utf8(path)
            &&& !path.contains(0u8)
            &&& all_c_strings(args)
            &&& all_c_strings(env)
        },
        last_step(path, args, env) matches ChildStepView::Execve { path: p, args: a, env: e }
            ==> p == decode_utf8(path) && a == args && e == env,
{
    lemma_has_nul(path);
    lemma_first_panic(args);
    lemma_first_panic(env);
    let steps = init.child_steps(path, args, env, stdin, stdout, stderr);
    assert(steps.subrange(2, 5) =~= seq![
        ChildStepView::Dup2(stdin, Stream::Stdin),
        ChildStepView::Dup2(stdout, Stream::Stdout),
        ChildStepView::Dup2(stderr, Stream::Stderr),
    ]);
}

/// How the child goes on from the answer to a step.
#[derive(Debug)]
pub enum ChildNext {
    /// It takes the step with this number.
    Step(usize),
    /// It panics with a message.
    Panic(String),
}

/// What a [`ChildNext`] holds.
#[verifier::ext_equal]
pub enum ChildNextView {
    Step(int),
    Panic(Seq<char>),
}

impl View for ChildNext {
    type V = ChildNextView;

    open spec fn view(&self) -> ChildNextView {
        match self {
            ChildNext::Step(k) => ChildNextView::Step(*k as int),
            ChildNext::Panic(text) => ChildNextView::Panic(text@),
        }
    }
}

/// How the child goes on from step `k`, which failed with an error or did not.
/// A step that is a panic ends it in any case.
pub open spec fn after_step(
    steps: Seq<ChildStepView>,
    k: int,
    failed: Option<Seq<char>>,
) -> ChildNextView {
    match (steps[k], failed) {
        (ChildStepView::Panic(text), _) => ChildNextView::Panic(text),
        (step, Some(error)) => ChildNextView::Panic(step.failure() + ": "@ + error),
        (_, None) => ChildNextView::Step(k + 1),
    }
}

/// How the child goes on from step `k`, which failed with an error or did not.
/// A step that is a panic ends it in any case.
pub fn child_next(steps: &Vec<ChildStep>, k: usize, failed: Option<String>) -> (r: ChildNext)
    requires
        k < steps@.len(),
    ensures
        r@ == after_step(step_views(steps@), k as int, option_view(failed)),
{
    assert(k < steps.len());
    match (&steps[k], failed) {
        (ChildStep::Panic(text), _) => ChildNext::Panic(text.clone()),
        (step, Some(error)) => {
            let mut text = step.failure();
            text.append(": ");
            text.append(error.as_str());
            ChildNext::Panic(text)
        },
        (_, None) => ChildNext::Step(k + 1),
    }
}

/// Where the child is after the answers to its steps, one after the other.
pub open spec fn child_course(
    steps: Seq<ChildStepView>,
    answers: Seq<Option<Seq<char>>>,
) -> ChildNextView
    decreases answers.len(),
{
    if answers.len() == 0 {
        ChildNextView::Step(0)
    } else {
        match child_course(steps, answers.drop_last()) {
            ChildNextView::Step(k) => after_step(steps, k, answers.last()),
            ended => ended,
        }
    }
}

/// The child takes a step only if every step before it succeeded.
pub proof fn law_steps_need_success(
    steps: Seq<ChildStepView>,
    answers: Seq<Option<Seq<char>>>,
    k: int,
)
    requires
        child_course(steps, answers) == ChildNextView::Step(k),
    ensures
        k == answers.len(),
        forall|i: int| 0 <= i < k ==> (#[trigger] answers[i]) is None,
    decreases answers.len(),
{
    if answers.len() > 0 {
        let before = answers.drop_last();
        law_steps_need_success(steps, before, k - 1);
        assert(forall|i: int| 0 <= i < before.len() ==> before[i] == #[trigger] answers[i]);
    }
}

/// The first step that fails ends the child with a panic over it, and no later
/// step is taken, whatever else is answered.
pub proof fn law_failed_step_is_the_last(
    steps: Seq<ChildStepView>,
    answers: Seq<Option<Seq<char>>>,
    k: int,
    error: Seq<char>,
)
    requires
        0 <= k < steps.len(),
        k < answers.len(),
        forall|i: int| 0 <= i <= k ==> (#[trigger] steps[i]) !is Panic,
        forall|i: int| 0 <= i < k ==> (#[trigger] answers[i]) is None,
        answers[k] == Some(error),
    ensures
        child_course(steps, answers) == ChildNextView::Panic(
            steps[k].failure() + ": "@ + error,
        ),
    decreases answers.len(),
{
    let before = answers.drop_last();
    if k < before.len() {
        law_failed_step_is_the_last(steps, before, k, error);
    } else {
        lemma_success_leads_on(steps, before);
    }
}

/// Steps that succeed lead to the next one.
pub proof fn lemma_success_leads_on(
    steps: Seq<ChildStepView>,
    answers: Seq<Option<Seq<char>>>,
)
    requires
        forall|i: int| 0 <= i < answers.len() ==> (#[trigger] steps[i]) !is Panic,
        forall|i: int| 0 <= i < answers.len() ==> (#[trigger] answers[i]) is None,
    ensures
        child_course(steps, answers) == ChildNextView::Step(answers.len() as int),
    decreases answers.len(),
{
    if answers.len() > 0 {
        let before = answers.drop_last();
        assert(forall|i: int| 0 <= i < before.len() ==> before[i] == #[trigger] answers[i]);
        lemma_success_leads_on(steps, before);
    }
}

/// Where there is a filter, the child does not become the application unless
/// the filter was applied. If applying it fails, the child panics over that.
pub proof fn law_application_needs_its_filter(
    init: InitView,
    path: Seq<u8>,
    args: Seq<Seq<char>>,
    env: Seq<Seq<char>>,
    stdin: i32,
    stdout: i32,
    stderr: i32,
    answers: Seq<Option<Seq<char>>>,
    k: int,
)
    requires
        init.seccomp is Some,
    ensures
        ({
            let steps = init.child_steps(path, args, env, stdin, stdout, stderr);
            let filter = steps.len() - 2;
            &&& child_course(steps, answers) == ChildNextView::Step(k) && 0 <= k < steps.len()
                && steps[k] is Execve ==> k == filter + 1 && k == answers.len()
                && answers[filter] is None
            &&& filter < answers.len() && answers[filter] is Some && (forall|i: int|
                0 <= i < filter ==> (#[trigger] answers[i]) is None) ==> child_course(steps, answers)
                == ChildNextView::Panic("Failed to apply seccomp filter."@ + ": "@ + answers[filter]->0)
        }),
{
    let steps = init.child_steps(path, args, env, stdin, stdout, stderr);
    let filter = steps.len() - 2;
    law_application_comes_last(init, path, args, env, stdin, stdout, stderr);
    if child_course(steps, answers) == ChildNextView::Step(k) {
        law_steps_need_success(steps, answers, k);
    }
    if filter < answers.len() && answers[filter] is Some && (forall|i: int|
        0 <= i < filter ==> (#[trigger] answers[i]) is None) {
        law_failed_step_is_the_last(steps, answers, filter, answers[filter]->0);
    }
}

} // verus!
