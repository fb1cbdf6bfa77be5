//! What an init process owes its container before it serves a request.
use vstd::prelude::*;
use crate::action::{ActionView, CapSet, EventView, Stream};
use crate::capability::Capability;
use crate::confinement::lemma_filter_members;
use crate::course::{Answers, asked, full_script, is_end, launch, lemma_asked, setup, supervise};
use crate::init::InitView;
use crate::limits::{RLimitResource, RLimitValue};
use crate::message::MessageView;
use crate::run::{RunnerView, report_exit, report_fork};

verus! {

/// Whether the configuration has a list of capabilities with `cap` on it.
pub open spec fn listed(init: InitView, cap: Capability) -> bool {
    init.capabilities is Some && init.capabilities->0.contains(cap)
}

/// Whether `set` has the listed capabilities as members, and no others.
pub open spec fn all_listed(init: InitView, set: Set<Capability>) -> bool {
    forall|cap: Capability| #[trigger] set.contains(cap) <==> listed(init, cap)
}

/// Whether the configuration has an entry for a resource with limits that come
/// to `soft` and `hard`. A limit that is not given comes to the largest number.
pub open spec fn limit_given(
    init: InitView,
    resource: RLimitResource,
    soft: u64,
    hard: u64,
) -> bool {
    init.rlimits is Some && exists|value: RLimitValue|
        {
            &&& #[trigger] init.rlimits->0.contains((resource, value))
            &&& soft == (if value.soft is Some { value.soft->0 } else { u64::MAX })
            &&& hard == (if value.hard is Some { value.hard->0 } else { u64::MAX })
        }
}

/// Whether an action is owed to a container before the first message, when the
/// user id is `euid` and the bounding set is `bounded`.
pub open spec fn due(
    init: InitView,
    euid: u32,
    bounded: Seq<Capability>,
    action: ActionView,
) -> bool {
    match action {
        ActionView::SetLogTarget(target) => target == "northstar::init::"@ + init.container,
        ActionView::SetChildSubreaper(value) => value,
        ActionView::SetProcessName(name) => name == "init-"@ + init.container,
        ActionView::SetSid => true,
        ActionView::UnshareMountNamespace => true,
        ActionView::Mount(mount) => init.mounts.contains(mount),
        ActionView::Chroot(path) => path == init.root,
        ActionView::SetCurrentDir(path) => path == seq![0x2fu8],
        ActionView::GetEuid => true,
        ActionView::SetKeepCaps(_) => euid == 0,
        ActionView::SetResGid(gid) => gid == init.gid,
        ActionView::SetResUid(uid) => uid == init.uid,
        ActionView::ResetEffectiveCaps(set) => euid == 0 && forall|cap: Capability|
            #[trigger] set.contains(cap),
        ActionView::SetGroups(groups) => groups == init.groups,
        ActionView::SetRLimit { resource, soft, hard } => limit_given(init, resource, soft, hard),
        ActionView::SetNoNewPrivs(value) => value,
        ActionView::ReadBoundingCaps => true,
        ActionView::DropBoundingCap(cap) => bounded.contains(cap) && !listed(init, cap),
        ActionView::SetCaps(_, set) => all_listed(init, set),
        ActionView::Receive => true,
        _ => false,
    }
}

/// Where an action has its place among the actions of an init process.
pub open spec fn stage(action: ActionView) -> int {
    match action {
        ActionView::SetLogTarget(_) => 0,
        ActionView::SetChildSubreaper(_) => 1,
        ActionView::SetProcessName(_) => 2,
        ActionView::SetSid => 3,
        ActionView::UnshareMountNamespace => 4,
        ActionView::Mount(_) => 5,
        ActionView::Chroot(_) => 6,
        ActionView::SetCurrentDir(_) => 7,
        ActionView::GetEuid => 8,
        ActionView::SetKeepCaps(true) => 9,
        ActionView::SetResGid(_) => 10,
        ActionView::SetResUid(_) => 11,
        ActionView::ResetEffectiveCaps(_) => 12,
        ActionView::SetKeepCaps(false) => 13,
        ActionView::SetGroups(_) => 14,
        ActionView::SetRLimit { .. } => 15,
        ActionView::SetNoNewPrivs(_) => 16,
        ActionView::ReadBoundingCaps => 17,
        ActionView::DropBoundingCap(_) => 18,
        ActionView::SetCaps(CapSet::Effective, _) => 19,
        ActionView::SetCaps(CapSet::Permitted, _) => 20,
        ActionView::SetCaps(CapSet::Inheritable, _) => 21,
        ActionView::SetCaps(CapSet::Ambient, _) => 22,
        ActionView::Receive => 23,
        ActionView::KillOnParentDeath => 24,
        ActionView::ReceiveIo => 25,
        ActionView::Fork(_) => 26,
        ActionView::DropConsole => 27,
        ActionView::Close(Stream::Stdin, _) => 28,
        ActionView::Close(Stream::Stdout, _) => 29,
        ActionView::Close(Stream::Stderr, _) => 30,
        ActionView::Send(MessageView::Forked { .. }) => 31,
        ActionView::WaitPid(_) => 32,
        ActionView::Send(_) => 33,
        ActionView::Reap(_) => 34,
        ActionView::Exit(_) => 35,
        ActionView::Panic(_) => 35,
        ActionView::FailAssertion { .. } => 35,
    }
}

/// Whether there can be more than one action at the place of this one.
pub open spec fn repeats(action: ActionView) -> bool {
    match action {
        ActionView::Mount(_)
        | ActionView::SetRLimit { .. }
        | ActionView::DropBoundingCap(_)
        | ActionView::WaitPid(_)
        | ActionView::Exit(_)
        | ActionView::Panic(_)
        | ActionView::FailAssertion { .. } => true,
        _ => false,
    }
}

/// Whether every action stands after those that have their place before it.
pub open spec fn ordered(actions: Seq<ActionView>) -> bool {
    forall|i: int, j: int|
        0 <= i < j < actions.len() ==> {
            ||| stage(#[trigger] actions[i]) < stage(#[trigger] actions[j])
            ||| repeats(actions[i]) && stage(actions[i]) == stage(actions[j])
        }
}

/// Whether every action has its place from `low` to below `high`.
pub open spec fn within(actions: Seq<ActionView>, low: int, high: int) -> bool {
    forall|i: int| 0 <= i < actions.len() ==> low <= stage(#[trigger] actions[i]) < high
}

/// Actions in order, followed by others in order that belong behind them.
proof fn lemma_ordered_add(a: Seq<ActionView>, b: Seq<ActionView>, low: int, mid: int, high: int)
    requires
        ordered(a),
        ordered(b),
        within(a, low, mid),
        within(b, mid, high),
        low <= mid <= high,
    ensures
        ordered(a + b),
        within(a + b, low, high),
{
    let all = a + b;
    assert forall|i: int, j: int| 0 <= i < j < all.len() implies {
        ||| stage(#[trigger] all[i]) < stage(#[trigger] all[j])
        ||| repeats(all[i]) && stage(all[i]) == stage(all[j])
    } by {
        if j < a.len() {
            assert(all[i] == a[i] && all[j] == a[j]);
        } else if i >= a.len() {
            assert(all[i] == b[i - a.len()] && all[j] == b[j - a.len()]);
        } else {
            assert(all[i] == a[i] && all[j] == b[j - a.len()]);
        }
    }
}

/// All the mounts are made, in the order in which they are given.
pub proof fn law_every_mount_is_made(init: InitView, i: int)
    ensures
        init.mount().len() == init.mounts.len(),
        0 <= i < init.mounts.len() ==> init.mount()[i] == ActionView::Mount(init.mounts[i]),
{
}

/// The group id is changed before the user id, to the configured ones. Under
/// the user id of root, the capabilities are kept from before the first change
/// to after the second, and all of them are made effective in between.
pub proof fn law_group_id_changes_first(init: InitView, euid: u32)
    ensures
        ({
            let ids = init.set_ids(euid);
            &&& ordered(ids)
            &&& ids.contains(ActionView::SetResGid(init.gid as u32))
            &&& ids.contains(ActionView::SetResUid(init.uid as u32))
            &&& ids.contains(ActionView::SetKeepCaps(true)) <==> euid == 0
            &&& ids.contains(ActionView::SetKeepCaps(false)) <==> euid == 0
            &&& ids.contains(ActionView::ResetEffectiveCaps(Set::full())) <==> euid == 0
            &&& ids.len() == (if euid == 0 { 5int } else { 2int })
        }),
{
    let ids = init.set_ids(euid);
    if euid == 0 {
        assert(ids[0] == ActionView::SetKeepCaps(true));
        assert(ids[1] == ActionView::SetResGid(init.gid as u32));
        assert(ids[2] == ActionView::SetResUid(init.uid as u32));
        assert(ids[3] == ActionView::ResetEffectiveCaps(Set::full()));
        assert(ids[4] == ActionView::SetKeepCaps(false));
    } else {
        assert(ids[0] == ActionView::SetResGid(init.gid as u32));
        assert(ids[1] == ActionView::SetResUid(init.uid as u32));
    }
}

/// Every entry of the configured limits is applied, once and in its order, with
/// the given soft and hard limit. Where one is not given, there is no limit.
pub proof fn law_every_limit_is_applied(init: InitView, i: int)
    ensures
        init.rlimits is None ==> init.set_rlimits().len() == 0,
        init.rlimits matches Some(entries) ==> {
            &&& init.set_rlimits().len() == entries.len()
            &&& 0 <= i < entries.len() ==> {
                &&& init.set_rlimits()[i] is SetRLimit
                &&& init.set_rlimits()[i]->SetRLimit_resource == entries[i].0
                &&& init.set_rlimits()[i]->SetRLimit_soft == (match entries[i].1.soft {
                    Some(limit) => limit,
                    None => u64::MAX,
                })
                &&& init.set_rlimits()[i]->SetRLimit_hard == (match entries[i].1.hard {
                    Some(limit) => limit,
                    None => u64::MAX,
                })
            }
        },
{
}

/// The application gets the capabilities on the list of the configuration, and
/// none that is not on it: those in the bounding set that are not listed are
/// dropped from it, each once, and the other four sets become what is listed.
pub proof fn law_only_listed_capabilities_stay(
    init: InitView,
    bounded: Seq<Capability>,
    cap: Capability,
    which: CapSet,
    set: Set<Capability>,
)
    ensures
        init.capability_set().contains(cap) <==> listed(init, cap),
        init.drop_privileges(bounded).contains(ActionView::DropBoundingCap(cap))
            <==> bounded.contains(cap) && !listed(init, cap),
        init.drop_privileges(bounded).contains(ActionView::SetCaps(which, set)) <==> all_listed(
            init,
            set,
        ),
        ordered(init.drop_privileges(bounded)),
        within(init.drop_privileges(bounded), 18, 23),
        bounded.no_duplicates() ==> init.drop_privileges(bounded).no_duplicates(),
{
    let mine = init.capability_set();
    let barred = |c: Capability| !init.capability_set().contains(c);
    let make = |c: Capability| ActionView::DropBoundingCap(c);
    let kept = bounded.filter(barred);
    let drops = kept.map_values(make);
    let sets = seq![
        ActionView::SetCaps(CapSet::Effective, mine),
        ActionView::SetCaps(CapSet::Permitted, mine),
        ActionView::SetCaps(CapSet::Inheritable, mine),
        ActionView::SetCaps(CapSet::Ambient, mine),
    ];
    let all = init.drop_privileges(bounded);
    assert(all == drops + sets);
    assert forall|c: Capability| #[trigger] mine.contains(c) <==> listed(init, c) by {}
    lemma_filter_members(bounded, barred, cap);
    if kept.contains(cap) {
        let k = kept.index_of(cap);
        assert(all[k] == ActionView::DropBoundingCap(cap));
    }
    if all.contains(ActionView::DropBoundingCap(cap)) {
        let k = all.index_of(ActionView::DropBoundingCap(cap));
        assert(k < drops.len()) by {
            if k >= drops.len() {
                assert(all[k] == sets[k - drops.len()]);
            }
        }
        assert(kept[k] == cap);
    }
    if all_listed(init, set) {
        assert(set =~= mine);
        let n = drops.len() as int;
        match which {
            CapSet::Effective => assert(all[n] == sets[0]),
            CapSet::Permitted => assert(all[n + 1] == sets[1]),
            CapSet::Inheritable => assert(all[n + 2] == sets[2]),
            CapSet::Ambient => assert(all[n + 3] == sets[3]),
        }
    }
    if all.contains(ActionView::SetCaps(which, set)) {
        let k = all.index_of(ActionView::SetCaps(which, set));
        assert(k >= drops.len());
        assert(all[k] == sets[k - drops.len()]);
        assert(set == mine);
    }
    assert(ordered(sets) && within(sets, 19, 23));
    assert(ordered(drops) && within(drops, 18, 19));
    lemma_ordered_add(drops, sets, 18, 19, 23);
    if bounded.no_duplicates() {
        lemma_filter_keeps_once(bounded, barred);
        assert forall|i: int, j: int| 0 <= i < j < all.len() implies all[i] != all[j] by {
            if j < drops.len() {
                assert(all[i] == make(kept[i]) && all[j] == make(kept[j]));
            } else if i >= drops.len() {
                assert(all[i] == sets[i - drops.len()] && all[j] == sets[j - drops.len()]);
            }
        }
    }
}

/// What occurs once occurs at most once among what is filtered out.
proof fn lemma_filter_keeps_once(s: Seq<Capability>, pred: spec_fn(Capability) -> bool)
    requires
        s.no_duplicates(),
    ensures
        s.filter(pred).no_duplicates(),
    decreases s.len(),
{
    reveal(Seq::filter);
    if s.len() > 0 {
        let before = s.drop_last();
        lemma_filter_keeps_once(before, pred);
        lemma_filter_members(before, pred, s.last());
        assert(!before.contains(s.last()));
    }
}

/// The blocks that the preparation is made of are in order, one behind the
/// other.
proof fn lemma_setup_is_ordered(init: InitView, euid: u32, bounded: Seq<Capability>)
    ensures
        ordered(setup(init, euid, bounded)),
        within(setup(init, euid, bounded), 0, 24),
        ordered(init.enter()) && within(init.enter(), 0, 9),
        ordered(init.confine(euid)) && within(init.confine(euid), 9, 18),
        ordered(init.unprivilege(bounded)) && within(init.unprivilege(bounded), 18, 24),
{
    let start = init.enter().take(5);
    let mounts = init.mount();
    let end = seq![
        ActionView::Chroot(init.root),
        ActionView::SetCurrentDir(seq![0x2fu8]),
        ActionView::GetEuid,
    ];
    assert(ordered(start) && within(start, 0, 5));
    assert(ordered(mounts) && within(mounts, 5, 6));
    assert(ordered(end) && within(end, 6, 9));
    lemma_ordered_add(start, mounts, 0, 5, 6);
    lemma_ordered_add(start + mounts, end, 0, 6, 9);
    assert(init.enter() =~= start + mounts + end);

    let ids = init.set_ids(euid);
    let groups = seq![ActionView::SetGroups(init.groups)];
    let limits = init.set_rlimits();
    let rest = seq![ActionView::SetNoNewPrivs(true), ActionView::ReadBoundingCaps];
    assert(ordered(ids) && within(ids, 9, 14));
    assert(ordered(groups) && within(groups, 14, 15));
    assert(ordered(limits) && within(limits, 15, 16));
    assert(ordered(rest) && within(rest, 16, 18));
    lemma_ordered_add(ids, groups, 9, 14, 15);
    lemma_ordered_add(ids + groups, limits, 9, 15, 16);
    lemma_ordered_add(ids + groups + limits, rest, 9, 16, 18);
    assert(init.confine(euid) =~= ids + groups + limits + rest);

    let drop = init.drop_privileges(bounded);
    let receive = seq![ActionView::Receive];
    law_only_listed_capabilities_stay(
        init,
        bounded,
        Capability::CAP_CHOWN,
        CapSet::Effective,
        Set::empty(),
    );
    lemma_ordered_add(drop, receive, 18, 23, 24);
    assert(init.unprivilege(bounded) =~= drop + receive);
    lemma_ordered_add(init.enter(), init.confine(euid), 0, 9, 18);
    lemma_ordered_add(init.enter() + init.confine(euid), init.unprivilege(bounded), 0, 18, 24);
}

/// What is asked for before the first message is what is due to the container:
/// all of it, and nothing else.
pub proof fn law_what_is_due_is_done(
    init: InitView,
    euid: u32,
    bounded: Seq<Capability>,
    action: ActionView,
)
    ensures
        setup(init, euid, bounded).contains(action) <==> due(init, euid, bounded, action),
{
    let all = setup(init, euid, bounded);
    if all.contains(action) {
        let k = all.index_of(action);
        lemma_setup_is_due(init, euid, bounded, k);
    }
    if due(init, euid, bounded, action) {
        lemma_due_is_in_setup(init, euid, bounded, action);
    }
}

/// Every action of the preparation is due.
proof fn lemma_setup_is_due(init: InitView, euid: u32, bounded: Seq<Capability>, k: int)
    requires
        0 <= k < setup(init, euid, bounded).len(),
    ensures
        due(init, euid, bounded, setup(init, euid, bounded)[k]),
{
    let all = setup(init, euid, bounded);
    let enter = init.enter();
    let confine = init.confine(euid);
    let drop = init.drop_privileges(bounded);
    let n = init.mounts.len() as int;
    if k < enter.len() {
        assert(all[k] == enter[k]);
        if 5 <= k < 5 + n {
            law_every_mount_is_made(init, k - 5);
            assert(enter[k] == init.mount()[k - 5]);
            assert(init.mounts.contains(init.mounts[k - 5]));
        }
    } else if k < enter.len() + confine.len() {
        let ids = init.set_ids(euid);
        let limits = init.set_rlimits();
        let i = k - enter.len();
        assert(all[k] == confine[i]);
        law_group_id_changes_first(init, euid);
        if i < ids.len() {
            assert(confine[i] == ids[i]);
        } else if i == ids.len() {
            assert(confine[i] == ActionView::SetGroups(init.groups));
        } else if i < ids.len() + 1 + limits.len() {
            let j = i - ids.len() - 1;
            assert(confine[i] == limits[j]);
            law_every_limit_is_applied(init, j);
            let entries = init.rlimits->0;
            assert(entries.contains((entries[j].0, entries[j].1)));
        }
    } else {
        let i = k - enter.len() - confine.len();
        if i < drop.len() {
            assert(all[k] == drop[i]);
            assert(drop.contains(drop[i]));
            let cap = drop[i]->DropBoundingCap_0;
            let which = drop[i]->SetCaps_0;
            let set = drop[i]->SetCaps_1;
            law_only_listed_capabilities_stay(init, bounded, cap, which, set);
        } else {
            assert(all[k] == ActionView::Receive);
        }
    }
}

/// Every action that is due is in the preparation.
proof fn lemma_due_is_in_setup(
    init: InitView,
    euid: u32,
    bounded: Seq<Capability>,
    action: ActionView,
)
    requires
        due(init, euid, bounded, action),
    ensures
        setup(init, euid, bounded).contains(action),
{
    let all = setup(init, euid, bounded);
    let enter = init.enter();
    let confine = init.confine(euid);
    let drop = init.drop_privileges(bounded);
    let ids = init.set_ids(euid);
    let limits = init.set_rlimits();
    let n = init.mounts.len() as int;
    let e = enter.len() as int;
    let c = confine.len() as int;
    assert(e == n + 8);
    assert(c == ids.len() + limits.len() + 3);
    assert(forall|k: int| 0 <= k < e ==> #[trigger] all[k] == enter[k]);
    assert(forall|k: int| e <= k < e + c ==> #[trigger] all[k] == confine[k - e]);
    law_group_id_changes_first(init, euid);
    if ids.contains(action) {
        let k = ids.index_of(action);
        assert(all[e + k] == ids[k]);
    }
    law_only_listed_capabilities_stay(
        init,
        bounded,
        action->DropBoundingCap_0,
        action->SetCaps_0,
        action->SetCaps_1,
    );
    if drop.contains(action) {
        let k = drop.index_of(action);
        assert(all[e + c + k] == drop[k]);
    }
    match action {
        ActionView::SetLogTarget(_) => assert(all[0] == action),
        ActionView::SetChildSubreaper(_) => assert(all[1] == action),
        ActionView::SetProcessName(_) => assert(all[2] == action),
        ActionView::SetSid => assert(all[3] == action),
        ActionView::UnshareMountNamespace => assert(all[4] == action),
        ActionView::Mount(mount) => {
            let i = init.mounts.index_of(mount);
            law_every_mount_is_made(init, i);
            assert(enter[5 + i] == init.mount()[i]);
            assert(all[5 + i] == action);
        },
        ActionView::Chroot(_) => assert(all[5 + n] == action),
        ActionView::SetCurrentDir(path) => {
            assert(path =~= seq![0x2fu8]);
            assert(all[6 + n] == action);
        },
        ActionView::GetEuid => assert(all[7 + n] == action),
        ActionView::ResetEffectiveCaps(set) => {
            assert(set =~= Set::full());
        },
        ActionView::SetGroups(_) => assert(all[e + ids.len()] == action),
        ActionView::SetRLimit { resource, soft, hard } => {
            let entries = init.rlimits->0;
            let value = choose|value: RLimitValue|
                {
                    &&& #[trigger] entries.contains((resource, value))
                    &&& soft == (if value.soft is Some { value.soft->0 } else { u64::MAX })
                    &&& hard == (if value.hard is Some { value.hard->0 } else { u64::MAX })
                };
            let i = entries.index_of((resource, value));
            law_every_limit_is_applied(init, i);
            assert(confine[ids.len() + 1 + i] == limits[i]);
            assert(all[e + ids.len() + 1 + i] == limits[i]);
        },
        ActionView::SetNoNewPrivs(_) => assert(all[e + c - 2] == action),
        ActionView::ReadBoundingCaps => assert(all[e + c - 1] == action),
        ActionView::Receive => assert(all[e + c + drop.len()] == action),
        _ => {},
    }
}

/// What is due comes in three parts, each in order: the process starts with what
/// does not depend on who it is, the user id that it is told makes it ask for
/// the ids, groups and limits, and the bounding set that it is told makes it ask
/// for the capabilities. Each part is all that is due of its kind, and nothing
/// else, whatever is told.
pub proof fn law_answers_lead_to_what_is_due(
    init: InitView,
    console: Option<i32>,
    r: RunnerView,
    euid: u32,
    bounded: Seq<Capability>,
    action: ActionView,
)
    ensures
        ({
            let start = RunnerView::start(init, console);
            &&& start.init == init
            &&& start.console == console
            &&& start.phase is Identity
            &&& ordered(start.batch)
            &&& start.batch.contains(action) <==> due(init, euid, bounded, action) && stage(action)
                < 9
        }),
        r.phase is Identity && r.asking() ==> {
            let next = r.next(EventView::Euid(euid));
            &&& next.phase is Bounding
            &&& ordered(next.batch)
            &&& next.batch.contains(action) <==> due(r.init, euid, bounded, action) && 9 <= stage(
                action,
            ) < 18
        },
        r.phase is Bounding && r.asking() ==> {
            let next = r.next(EventView::BoundingCaps(bounded));
            &&& next.phase is Receiving
            &&& ordered(next.batch)
            &&& next.batch.contains(action) <==> due(r.init, euid, bounded, action) && 18 <= stage(
                action,
            ) < 24
        },
{
    lemma_parts_of_setup(init, euid, bounded, action);
    lemma_parts_of_setup(r.init, euid, bounded, action);
}

/// An action of the preparation is in the part where it has its place.
proof fn lemma_parts_of_setup(
    init: InitView,
    euid: u32,
    bounded: Seq<Capability>,
    action: ActionView,
)
    ensures
        init.enter().contains(action) <==> due(init, euid, bounded, action) && stage(action) < 9,
        init.confine(euid).contains(action) <==> due(init, euid, bounded, action) && 9 <= stage(
            action,
        ) < 18,
        init.unprivilege(bounded).contains(action) <==> due(init, euid, bounded, action) && 18
            <= stage(action) < 24,
        ordered(init.enter()),
        ordered(init.confine(euid)),
        ordered(init.unprivilege(bounded)),
{
    let all = setup(init, euid, bounded);
    let a = init.enter();
    let b = init.confine(euid);
    let c = init.unprivilege(bounded);
    lemma_setup_is_ordered(init, euid, bounded);
    law_what_is_due_is_done(init, euid, bounded, action);
    if a.contains(action) {
        let k = a.index_of(action);
        assert(all[k] == action && stage(a[k]) < 9);
    }
    if b.contains(action) {
        let k = b.index_of(action);
        assert(all[a.len() + k] == action && 9 <= stage(b[k]) < 18);
    }
    if c.contains(action) {
        let k = c.index_of(action);
        assert(all[a.len() + b.len() + k] == action && 18 <= stage(c[k]) < 24);
    }
    if all.contains(action) {
        let k = all.index_of(action);
        if k < a.len() {
            assert(a[k] == action);
        } else if k < a.len() + b.len() {
            assert(b[k - a.len()] == action);
        } else {
            assert(c[k - a.len() - b.len()] == action);
        }
    }
}

/// Nothing is asked for twice before the first message: one action for each
/// mount, for each entry of the limits and for each capability to be dropped,
/// and a fixed number of others, which only the user id of root adds to.
pub proof fn law_preparation_has_nothing_twice(
    init: InitView,
    euid: u32,
    bounded: Seq<Capability>,
)
    ensures
        setup(init, euid, bounded).len() == init.mounts.len() + (match init.rlimits {
            Some(entries) => entries.len(),
            None => 0,
        }) + bounded.filter(|cap: Capability| !listed(init, cap)).len() + (if euid == 0 {
            21int
        } else {
            18int
        }),
        setup(init, euid, bounded).last() == ActionView::Receive,
{
    let unlisted = |cap: Capability| !listed(init, cap);
    let barred = |cap: Capability| !init.capability_set().contains(cap);
    assert forall|cap: Capability| #[trigger] unlisted(cap) == barred(cap) by {
        law_only_listed_capabilities_stay(init, bounded, cap, CapSet::Effective, Set::empty());
    }
    assert(unlisted =~= barred);
    law_every_mount_is_made(init, 0);
    law_every_limit_is_applied(init, 0);
    law_group_id_changes_first(init, euid);
}

/// The full script is in order.
proof fn lemma_full_script_is_ordered(init: InitView, console: Option<i32>, a: Answers)
    ensures
        ordered(full_script(init, console, a)),
        within(full_script(init, console, a), 0, 35),
{
    let ready = setup(init, a.euid, a.bounded);
    let start = launch(init, console, a);
    let report = report_fork(console, a.stdin, a.stdout, a.stderr, a.pid);
    let waits = Seq::new(a.waits, |k: int| ActionView::WaitPid(a.pid));
    let watch = supervise(console, a);
    let end = report_exit(a.pid, a.exit_status);
    lemma_setup_is_ordered(init, a.euid, a.bounded);
    assert(ordered(start) && within(start, 24, 27));
    assert(ordered(report) && within(report, 27, 33));
    assert(ordered(watch)) by {
        assert(report.last() is WaitPid);
        assert forall|i: int, j: int| 0 <= i < j < watch.len() implies {
            ||| stage(#[trigger] watch[i]) < stage(#[trigger] watch[j])
            ||| repeats(watch[i]) && stage(watch[i]) == stage(watch[j])
        } by {
            if i < report.len() {
                assert(watch[i] == report[i]);
                if i < report.len() - 1 {
                    assert(stage(report[i]) < stage(report[report.len() - 1]));
                }
            }
            if j < report.len() {
                assert(watch[j] == report[j]);
            }
        }
    }
    assert(within(watch, 27, 33)) by {
        assert forall|i: int| 0 <= i < watch.len() implies 27 <= stage(#[trigger] watch[i]) < 33 by {
            if i < report.len() {
                assert(watch[i] == report[i]);
            }
        }
    }
    assert(ordered(end) && within(end, 33, 35));
    lemma_ordered_add(ready, start, 0, 24, 27);
    lemma_ordered_add(ready + start, watch, 0, 27, 33);
    lemma_ordered_add(ready + start + watch, end, 0, 33, 35);
}

/// Whatever the answers are, an init process asks for its actions in their
/// order: each has its place after those before it, and but for mounts, limits,
/// dropped capabilities and waits, none comes twice before the end.
pub proof fn law_actions_come_in_order(
    init: InitView,
    console: Option<i32>,
    events: Seq<EventView>,
)
    ensures
        ordered(asked(RunnerView::start(init, console), events)),
{
    let asked = asked(RunnerView::start(init, console), events);
    let (a, phase, n) = lemma_asked(init, console, events);
    let full = full_script(init, console, a);
    lemma_full_script_is_ordered(init, console, a);
    assert forall|i: int, j: int| 0 <= i < j < asked.len() implies {
        ||| stage(#[trigger] asked[i]) < stage(#[trigger] asked[j])
        ||| repeats(asked[i]) && stage(asked[i]) == stage(asked[j])
    } by {
        if i < n {
            assert(asked.take(n)[i] == full.take(n)[i]);
            assert(asked[i] == full[i]);
        } else {
            assert(is_end(asked[i]));
        }
        if j < n {
            assert(asked.take(n)[j] == full.take(n)[j]);
            assert(asked[j] == full[j]);
        } else {
            assert(is_end(asked[j]));
        }
    }
}

/// Whenever the root directory is changed, every configured mount was asked for
/// right before it, once and in the order in which the mounts are given, and no
/// other mount was.
pub proof fn law_mounts_precede_the_root(
    init: InitView,
    console: Option<i32>,
    events: Seq<EventView>,
    k: int,
)
    requires
        0 <= k < asked(RunnerView::start(init, console), events).len(),
        asked(RunnerView::start(init, console), events)[k] is Chroot,
    ensures
        ({
            let asked = asked(RunnerView::start(init, console), events);
            let count = init.mounts.len();
            &&& asked[k] == ActionView::Chroot(init.root)
            &&& count <= k
            &&& forall|i: int|
                0 <= i < count ==> asked[k - count + i] == ActionView::Mount(
                    #[trigger] init.mounts[i],
                )
            &&& forall|j: int| 0 <= j < k - count ==> (#[trigger] asked[j]) !is Mount
        }),
{
    let asked = asked(RunnerView::start(init, console), events);
    let (a, phase, n) = lemma_asked(init, console, events);
    let full = full_script(init, console, a);
    let count = init.mounts.len() as int;
    lemma_full_script_is_ordered(init, console, a);
    assert(k < n);
    assert(asked.take(n)[k] == full.take(n)[k]);
    assert(full[k] is Chroot);
    let enter = init.enter();
    assert(full[5 + count] == enter[5 + count]);
    assert(stage(full[5 + count]) == stage(full[k]));
    assert(k == 5 + count);
    assert forall|i: int| 0 <= i < count implies asked[k - count + i] == ActionView::Mount(
        #[trigger] init.mounts[i],
    ) by {
        law_every_mount_is_made(init, i);
        assert(full[5 + i] == enter[5 + i]);
        assert(enter[5 + i] == init.mount()[i]);
        assert(asked.take(n)[5 + i] == full.take(n)[5 + i]);
    }
    assert forall|j: int| 0 <= j < k - count implies (#[trigger] asked[j]) !is Mount by {
        assert(asked.take(n)[j] == full.take(n)[j]);
        assert(full[j] == enter[j]);
    }
}

} // verus!
