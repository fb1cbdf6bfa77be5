//! What the operations of this crate give, said of their arguments and results.
use vstd::prelude::*;
use vstd::utf8::{decode_utf8, valid_utf8};
use caps::Capability as KernelCapability;
use crate::action::{Action, ChildStep, Event};
use crate::action::{ActionView, CapSet, action_views, step_views};
use crate::capability::{Capability, CapabilitySet};
use crate::child::{ChildNext, child_next};
use crate::init::Init;
use crate::limits::{RLimitResource, RLimitValue, RLimits};
use crate::limits::{distinct_resources, kernel_name};
use crate::message::texts;
use crate::mount::{Mount, MountFlags, mount_error_text};
use crate::mount::{flags_known, flags_text, option_view};
use crate::path::RawPath;
use crate::path::{display_text, lossy_text};
use crate::preparation::{all_listed, law_every_limit_is_applied, law_group_id_changes_first};
use crate::preparation::{law_only_listed_capabilities_stay, listed};
use crate::run::Runner;
use crate::run::RunnerView;
use crate::sequence::lemma_push_contains;
use crate::text::{decimal_text, digits_text, owned, prefixed};
use crate::text::{is_number, law_decimal_is_read_back, law_digits_are_read_back, number_read};

verus! {

/// A mount keeps what it is made of, and a mount call is that of its mount.
pub proof fn law_mount_keeps_its_parts(
    source: Option<RawPath>,
    target: RawPath,
    fstype: Option<&'static str>,
    flags: MountFlags,
    data: Option<String>,
    made: Mount,
    call: Action,
)
    ensures
        call_ensures(Mount::new, (source, target, fstype, flags, data), made) ==> {
            &&& made.source is Some <==> source is Some
            &&& source is Some ==> made.source->0.bytes@ == source->0.bytes@
            &&& made.target.bytes@ == target.bytes@
            &&& made.fstype is Some <==> fstype is Some
            &&& fstype is Some ==> made.fstype->0@ == fstype->0@
            &&& made.flags@ == flags@
            &&& made.data is Some <==> data is Some
            &&& data is Some ==> made.data->0@ == data->0@
            &&& made.error_msg@ == "Failed to mount '"@ + (if source is Some {
                display_text(source->0.bytes@)
            } else {
                Seq::empty()
            }) + "' of type '"@ + (if fstype is Some {
                fstype->0@
            } else {
                Seq::empty()
            }) + "' on '"@ + display_text(target.bytes@) + "' with flags '"@ + flags_text(flags@)
                + "' and data '"@ + (if data is Some {
                data->0@
            } else {
                Seq::empty()
            }) + "'"@
        },
        call_ensures(Mount::mount, (&made,), call) ==> {
            &&& call is Mount
            &&& call->Mount_0@ == made@
            &&& flags_known(made.flags@)
        },
{
    if call_ensures(Mount::new, (source, target, fstype, flags, data), made) {
        let v = made@;
        assert(v.source == option_view(source));
    }
}

/// Flags are had for bits that are flags, and for no others, and have those bits.
/// The bits that are flags everywhere are among the former, each and together,
/// and the two that are no flags are among the latter.
pub proof fn law_flags_have_their_bits(
    bits: u64,
    flags: MountFlags,
    made: Option<MountFlags>,
    told: u64,
)
    ensures
        call_ensures(MountFlags::from_bits, (bits,), made) ==> {
            &&& made is Some <==> flags_known(bits)
            &&& made is Some ==> made->0@ == bits
            &&& bits & 0xffff_ffff_0000_0300 == 0 ==> made is Some
            &&& bits & 0x300 != 0 ==> made is None
        },
        call_ensures(MountFlags::bits, (&flags,), told) ==> told == flags@ && flags_known(told),
{
}

/// The message for a failed mount shows the given texts, each in its place.
pub proof fn law_mount_error_shows_its_texts(
    source: &str,
    fstype: &str,
    target: &str,
    flags: &str,
    data: &str,
    text: String,
)
    ensures
        call_ensures(mount_error_text, (source, fstype, target, flags, data), text) ==> text@
            == "Failed to mount '"@ + source@ + "' of type '"@ + fstype@ + "' on '"@ + target@
            + "' with flags '"@ + flags@ + "' and data '"@ + data@ + "'"@,
{
}

/// A path keeps its bytes, is text if and only if they are UTF-8, and is then
/// shown as that text.
pub proof fn law_path_keeps_its_bytes(
    bytes: Vec<u8>,
    path: RawPath,
    made: RawPath,
    text: Option<String>,
    shown: String,
)
    ensures
        call_ensures(RawPath::new, (bytes,), made) ==> made.bytes@ == bytes@,
        call_ensures(RawPath::clone, (&path,), made) ==> made.bytes@ == path.bytes@,
        call_ensures(RawPath::to_str, (&path,), text) ==> {
            &&& text is Some <==> valid_utf8(path.bytes@)
            &&& text is Some ==> text->0@ == decode_utf8(path.bytes@)
        },
        call_ensures(RawPath::display, (&path,), shown) ==> {
            &&& valid_utf8(path.bytes@) ==> shown@ == decode_utf8(path.bytes@)
            &&& !valid_utf8(path.bytes@) ==> shown@ == lossy_text(path.bytes@)
        },
{
}

/// A set has the members that were added to it, and no others.
pub proof fn law_set_has_what_was_added(
    set: CapabilitySet,
    cap: Capability,
    other: Capability,
    made: CapabilitySet,
    found: bool,
    members: &Vec<Capability>,
)
    ensures
        call_ensures(CapabilitySet::new, (), made) ==> !made@.contains(other),
        call_ensures(CapabilitySet::all, (), made) ==> made@.contains(other)
            && made@.no_duplicates(),
        call_ensures(CapabilitySet::with, (set, cap), made) ==> (made@.contains(other)
            <==> set@.contains(other) || other == cap),
        call_ensures(CapabilitySet::with, (set, cap), made) && set@.no_duplicates()
            ==> made@.no_duplicates(),
        call_ensures(CapabilitySet::clone, (&set,), made) ==> made@ == set@,
        call_ensures(CapabilitySet::contains, (&set, cap), found) ==> found == set@.contains(cap),
        call_ensures(CapabilitySet::members, (&set,), members) ==> members@ == set@
            && members@.no_duplicates(),
{
    lemma_push_contains(set@, cap, other);
}

/// A set in the terms of the `caps` crate has one value for each member, and a
/// set from those terms has the members that the values stand for.
pub proof fn law_set_is_the_same_in_other_terms(
    set: CapabilitySet,
    kernel: Vec<KernelCapability>,
    values: Vec<KernelCapability>,
    made: CapabilitySet,
    cap: Capability,
    value: KernelCapability,
    found: Option<Capability>,
    i: int,
)
    ensures
        call_ensures(CapabilitySet::to_kernel, (&set,), values) ==> {
            &&& values@.len() == set@.len()
            &&& 0 <= i < set@.len() ==> values@[i] == set@[i].kernel()
        },
        call_ensures(CapabilitySet::from_kernel, (&kernel,), made) ==> {
            &&& made@.contains(cap) <==> kernel@.contains(cap.kernel())
            &&& made@.no_duplicates()
        },
        call_ensures(Capability::from_kernel, (value,), found) ==> {
            &&& found is None <==> value is __Nonexhaustive
            &&& found is Some ==> found->0.kernel() == value
        },
{
}

/// The limits of a resource are those that were given last, and those of other
/// resources stay.
pub proof fn law_last_limits_count(
    limits: RLimits,
    resource: RLimitResource,
    value: RLimitValue,
    made: RLimits,
    other: RLimitResource,
    of_other: RLimitValue,
    entries: &Vec<(RLimitResource, RLimitValue)>,
)
    requires
        distinct_resources(limits@),
    ensures
        call_ensures(RLimits::new, (), made) ==> !made@.contains((other, of_other)),
        call_ensures(RLimits::with, (limits, resource, value), made) ==> (made@.contains(
            (other, of_other),
        ) <==> (if other == resource {
            of_other == value
        } else {
            limits@.contains((other, of_other))
        })),
        call_ensures(RLimits::entries, (&limits,), entries) ==> entries@ == limits@,
        call_ensures(RLimits::clone, (&limits,), made) ==> made@ == limits@,
{
    if call_ensures(RLimits::with, (limits, resource, value), made) {
        let old = limits@;
        let new = made@;
        if limits.limits_resource(resource) {
            let k = choose|k: int| 0 <= k < old.len() && (#[trigger] old[k]).0 == resource;
            assert(new == old.update(k, (resource, value)));
            assert(new[k] == (resource, value));
            if old.contains((other, of_other)) && other != resource {
                let j = old.index_of((other, of_other));
                assert(new[j] == (other, of_other));
            }
            if new.contains((other, of_other)) {
                let j = new.index_of((other, of_other));
                assert(j != k ==> old[j] == (other, of_other) && old[j].0 != old[k].0);
            }
        } else {
            lemma_push_contains(old, (resource, value), (other, of_other));
            assert(old.contains((other, of_other)) ==> other != resource) by {
                if old.contains((other, of_other)) {
                    let j = old.index_of((other, of_other));
                    assert(old[j].0 == other);
                }
            }
        }
    }
}

/// A limit that is given is the one that is set, and one that is not given is no
/// limit. A resource is the one of its own name.
pub proof fn law_limits_are_as_given(
    value: RLimitValue,
    pair: (u64, u64),
    resource: RLimitResource,
    made: rlimit::Resource,
    name: &'static str,
)
    ensures
        call_ensures(RLimitValue::limits, (&value,), pair) ==> {
            &&& pair.0 == (if value.soft is Some { value.soft->0 } else { u64::MAX })
            &&& pair.1 == (if value.hard is Some { value.hard->0 } else { u64::MAX })
        },
        call_ensures(RLimitResource::resource, (&resource,), made) && call_ensures(
            RLimitResource::as_name,
            (&resource,),
            name,
        ) ==> kernel_name(made) == name@,
{
}

/// The mount calls are those of all mounts of the configuration, in their order.
pub proof fn law_all_mounts_are_called(init: Init, calls: Vec<Action>, i: int)
    ensures
        call_ensures(Init::mount, (&init,), calls) ==> {
            &&& calls@.len() == init.mounts@.len()
            &&& 0 <= i < calls@.len() ==> calls@[i] is Mount && calls@[i]->Mount_0@
                == init.mounts@[i]@
        },
{
    if call_ensures(Init::mount, (&init,), calls) && 0 <= i < calls@.len() {
        assert(calls@[i]@ == ActionView::Mount(init.mounts@[i]@));
    }
}

/// The ids are changed to those of the configuration, that of the group first.
/// Under the user id of root, and only then, the capabilities are kept from
/// before these changes to after them and all made effective in between.
pub proof fn law_ids_are_changed_in_order(init: Init, euid: u32, calls: Vec<Action>)
    ensures
        call_ensures(Init::set_ids, (&init, euid), calls) ==> {
            let n: int = if euid == 0 {
                1
            } else {
                0
            };
            &&& calls@.len() == 2 + 3 * n
            &&& calls@[n] == Action::SetResGid(init.gid as u32)
            &&& calls@[n + 1] == Action::SetResUid(init.uid as u32)
            &&& euid == 0 ==> {
                &&& calls@[0] == Action::SetKeepCaps(true)
                &&& calls@[3] is ResetEffectiveCaps
                &&& forall|cap: Capability| #[trigger]
                    calls@[3]->ResetEffectiveCaps_0@.contains(cap)
                &&& calls@[4] == Action::SetKeepCaps(false)
            }
        },
{
    if call_ensures(Init::set_ids, (&init, euid), calls) {
        let views = action_views(calls@);
        assert(views == init@.set_ids(euid));
        assert(views.len() == calls@.len());
        assert(forall|k: int| 0 <= k < views.len() ==> #[trigger] views[k] == calls@[k]@);
        law_group_id_changes_first(init@, euid);
        if euid == 0 {
            assert(views[0] == calls@[0]@ && views[1] == calls@[1]@ && views[2] == calls@[2]@);
            assert(views[3] == calls@[3]@ && views[4] == calls@[4]@);
            let set = calls@[3]->ResetEffectiveCaps_0;
            assert(set@.to_set() == Set::<Capability>::full());
            assert forall|cap: Capability| #[trigger] set@.contains(cap) by {
                assert(set@.to_set().contains(cap));
            }
        } else {
            assert(views[0] == calls@[0]@ && views[1] == calls@[1]@);
        }
    }
}

/// The groups are those of the configuration, the effective capabilities are
/// reset to all there are, and the ban on new privileges is as asked for.
pub proof fn law_single_calls_are_as_given(init: Init, value: bool, call: Action, cap: Capability)
    ensures
        call_ensures(Init::set_groups, (&init,), call) ==> call is SetGroups
            && call->SetGroups_0@ == init.groups@,
        call_ensures(Init::reset_effective_caps, (&init,), call) ==> call is ResetEffectiveCaps
            && call->ResetEffectiveCaps_0@.contains(cap),
        call_ensures(Init::set_no_new_privs, (value,), call) ==> call == Action::SetNoNewPrivs(
            value,
        ),
{
    if call_ensures(Init::reset_effective_caps, (&init,), call) {
        assert(call->ResetEffectiveCaps_0@.to_set().contains(cap));
    }
}

/// Every entry of the limits is applied, with what it gives.
pub proof fn law_all_limits_are_called(init: Init, calls: Vec<Action>, i: int)
    ensures
        call_ensures(Init::set_rlimits, (&init,), calls) ==> match init.rlimits {
            None => calls@.len() == 0,
            Some(limits) => {
                &&& calls@.len() == limits@.len()
                &&& 0 <= i < calls@.len() ==> calls@[i] == (Action::SetRLimit {
                    resource: limits@[i].0,
                    soft: if limits@[i].1.soft is Some {
                        limits@[i].1.soft->0
                    } else {
                        u64::MAX
                    },
                    hard: if limits@[i].1.hard is Some {
                        limits@[i].1.hard->0
                    } else {
                        u64::MAX
                    },
                })
            },
        },
{
    if call_ensures(Init::set_rlimits, (&init,), calls) {
        let views = action_views(calls@);
        assert(views.len() == calls@.len());
        law_every_limit_is_applied(init@, i);
        if 0 <= i < calls@.len() {
            assert(views[i] == calls@[i]@);
        }
    }
}

/// What is dropped from the bounding set is what is in it and not on the list of
/// the configuration, and what the other sets become is that list.
pub proof fn law_listed_capabilities_are_called(
    init: Init,
    bounded: CapabilitySet,
    calls: Vec<Action>,
    cap: Capability,
    i: int,
)
    ensures
        call_ensures(Init::drop_privileges, (&init, &bounded), calls) ==> {
            let on_list = init.capabilities is Some && init.capabilities->0@.contains(cap);
            &&& action_views(calls@).contains(ActionView::DropBoundingCap(cap))
                <==> bounded@.contains(cap) && !on_list
            &&& 0 <= i < calls@.len() && calls@[i] is SetCaps ==> (
            calls@[i]->SetCaps_1@.contains(cap) <==> on_list)
            &&& calls@.len() >= 4
            &&& calls@[calls@.len() - 4] is SetCaps
            &&& calls@[calls@.len() - 4]->SetCaps_0 == CapSet::Effective
            &&& calls@[calls@.len() - 3] is SetCaps
            &&& calls@[calls@.len() - 3]->SetCaps_0 == CapSet::Permitted
            &&& calls@[calls@.len() - 2] is SetCaps
            &&& calls@[calls@.len() - 2]->SetCaps_0 == CapSet::Inheritable
            &&& calls@[calls@.len() - 1] is SetCaps
            &&& calls@[calls@.len() - 1]->SetCaps_0 == CapSet::Ambient
            &&& 0 <= i < calls@.len() - 4 ==> calls@[i] is DropBoundingCap
        },
{
    if call_ensures(Init::drop_privileges, (&init, &bounded), calls) {
        let views = action_views(calls@);
        let n = calls@.len() as int;
        assert(views == init@.drop_privileges(bounded@));
        assert(views.len() == n);
        law_only_listed_capabilities_stay(init@, bounded@, cap, CapSet::Effective, Set::empty());
        assert(listed(init@, cap) <==> init.capabilities is Some
            && init.capabilities->0@.contains(cap));
        assert(views[n - 4] == calls@[n - 4]@ && views[n - 3] == calls@[n - 3]@);
        assert(views[n - 2] == calls@[n - 2]@ && views[n - 1] == calls@[n - 1]@);
        if 0 <= i < n {
            assert(views[i] == calls@[i]@);
            if calls@[i] is SetCaps {
                let which = calls@[i]->SetCaps_0;
                let set = calls@[i]->SetCaps_1@;
                assert(views.contains(views[i]));
                law_only_listed_capabilities_stay(init@, bounded@, cap, which, set.to_set());
                assert(all_listed(init@, set.to_set()));
                assert(set.to_set().contains(cap) <==> set.contains(cap));
            }
        }
    }
}

/// The steps of the child, the start of the process, its steps from one answer
/// to the next and its action are those that the laws of this crate speak of. A
/// configuration is cloned as it is.
pub proof fn law_process_is_the_one_spoken_of(
    init: Init,
    copy: Init,
    path: RawPath,
    args: Vec<String>,
    env: Vec<String>,
    stdin: i32,
    stdout: i32,
    stderr: i32,
    steps: Vec<ChildStep>,
    console: Option<i32>,
    event: Event,
    runner: Runner,
    next: Runner,
    action: &Action,
)
    ensures
        call_ensures(Init::clone, (&init,), copy) ==> copy@ == init@,
        call_ensures(
            Init::child_steps,
            (&init, &path, args, env, stdin, stdout, stderr),
            steps,
        ) ==> step_views(steps@) == init@.child_steps(
            path.bytes@,
            texts(args@),
            texts(env@),
            stdin,
            stdout,
            stderr,
        ),
        call_ensures(Init::run, (init, console), next) ==> {
            &&& next@.init == init@
            &&& next@.console == console
            &&& next@ == RunnerView::start(init@, console)
        },
        call_ensures(Runner::step, (runner, event), next) ==> next@ == runner@.next(event@),
        call_ensures(Runner::action, (&runner,), action) ==> runner@.batch.len() > 0 && action@
            == runner@.batch[0],
{
}

/// A step of the child that fails makes it panic over that step and the error,
/// one that succeeds leads to the next, and one that is a panic is one.
pub proof fn law_child_goes_on_or_panics(
    steps: Vec<ChildStep>,
    k: usize,
    failed: Option<String>,
    next: ChildNext,
    text: String,
)
    requires
        k < steps@.len(),
    ensures
        call_ensures(child_next, (&steps, k, failed), next) ==> {
            &&& steps@[k as int] is Panic ==> next is Panic && next->Panic_0@
                == steps@[k as int]->Panic_0@
            &&& steps@[k as int] !is Panic && failed is None ==> next is Step && next->Step_0 == k
                + 1
            &&& steps@[k as int] !is Panic && failed is Some && call_ensures(
                ChildStep::failure,
                (&steps@[k as int],),
                text,
            ) ==> next is Panic && next->Panic_0@ == text@ + ": "@ + failed->0@
        },
{
    assert(step_views(steps@)[k as int] == steps@[k as int]@);
}

/// The panic over a failed operation shows its message and the error. Only where
/// a child that has ended must be gone, it shows what the wait gave and what it
/// should have given.
pub proof fn law_panic_shows_the_error(
    action: Action,
    error: String,
    panic: Action,
    text: String,
)
    ensures
        call_ensures(Action::panic, (&action, &error), panic) && call_ensures(
            Action::failure,
            (&action,),
            text,
        ) ==> if action is Reap {
            &&& panic is FailAssertion
            &&& panic->left@ == error@
            &&& panic->right@ == "Err(ECHILD)"@
        } else {
            panic is Panic && panic->Panic_0@ == text@ + ": "@ + error@
        },
{
}

/// The decimal notation of a number is read as that number, and texts are put
/// together as they are.
pub proof fn law_texts_are_as_given(
    n: i64,
    m: u64,
    number: String,
    prefix: &str,
    rest: String,
    text: String,
)
    ensures
        call_ensures(decimal_text, (n,), number) ==> {
            &&& n >= 0 ==> is_number(number@) && number_read(number@) == n
            &&& n < 0 ==> {
                &&& number@.len() > 0 && number@[0] == '-'
                &&& is_number(number@.drop_first())
                &&& number_read(number@.drop_first()) == -n
            }
        },
        call_ensures(digits_text, (m,), number) ==> is_number(number@) && number_read(number@)
            == m,
        call_ensures(owned, (prefix,), text) ==> text@ == prefix@,
        call_ensures(prefixed, (prefix, &rest), text) ==> text@ == prefix@ + rest@,
{
    law_decimal_is_read_back(n as int);
    law_digits_are_read_back(m as nat);
}

} // verus!
