//! What an init process makes of itself before it serves a request.
use vstd::prelude::*;
use crate::action::{ActionView, CapSet, EventView};
use crate::capability::Capability;
use crate::course::{asked, law_fork_follows_setup, setup};
use crate::init::InitView;
use crate::limits::{RLimitResource, RLimitValue};
use crate::limits::distinct_resources;
use crate::preparation::{all_listed, law_only_listed_capabilities_stay, listed};
use crate::run::RunnerView;
use crate::sequence::lemma_push_contains;

verus! {

/// What a process may do.
#[verifier::ext_equal]
pub struct Credentials {
    pub keep_caps: bool,
    pub gid: u32,
    pub uid: u32,
    pub groups: Seq<u32>,
    pub limits: Map<RLimitResource, (u64, u64)>,
    pub no_new_privs: bool,
    pub bounding: Set<Capability>,
    pub effective: Set<Capability>,
    pub permitted: Set<Capability>,
    pub inheritable: Set<Capability>,
    pub ambient: Set<Capability>,
}

impl Credentials {
    /// The credentials with what `action` asks for. What the operating system
    /// changes along with it is not part of this.
    pub open spec fn with(self, action: ActionView) -> Credentials {
        match action {
            ActionView::SetKeepCaps(keep_caps) => Credentials { keep_caps, ..self },
            ActionView::SetResGid(gid) => Credentials { gid, ..self },
            ActionView::SetResUid(uid) => Credentials { uid, ..self },
            ActionView::SetGroups(groups) => Credentials { groups, ..self },
            ActionView::SetRLimit { resource, soft, hard } => Credentials {
                limits: self.limits.insert(resource, (soft, hard)),
                ..self
            },
            ActionView::SetNoNewPrivs(no_new_privs) => Credentials { no_new_privs, ..self },
            ActionView::DropBoundingCap(cap) => Credentials {
                bounding: self.bounding.remove(cap),
                ..self
            },
            ActionView::ResetEffectiveCaps(effective) => Credentials { effective, ..self },
            ActionView::SetCaps(CapSet::Effective, effective) => Credentials { effective, ..self },
            ActionView::SetCaps(CapSet::Permitted, permitted) => Credentials { permitted, ..self },
            ActionView::SetCaps(CapSet::Inheritable, inheritable) => Credentials {
                inheritable,
                ..self
            },
            ActionView::SetCaps(CapSet::Ambient, ambient) => Credentials { ambient, ..self },
            _ => self,
        }
    }

    /// The credentials with what `actions` ask for, one after the other.
    pub open spec fn with_all(self, actions: Seq<ActionView>) -> Credentials
        decreases actions.len(),
    {
        if actions.len() == 0 {
            self
        } else {
            self.with_all(actions.drop_last()).with(actions.last())
        }
    }
}

/// `with_all` of two sequences, one after the other.
proof fn lemma_with_all_add(c: Credentials, s: Seq<ActionView>, t: Seq<ActionView>)
    ensures
        c.with_all(s + t) == c.with_all(s).with_all(t),
    decreases t.len(),
{
    if t.len() == 0 {
        assert(s + t =~= s);
    } else {
        assert((s + t).drop_last() =~= s + t.drop_last());
        lemma_with_all_add(c, s, t.drop_last());
    }
}

/// Actions that ask for no credentials change none.
proof fn lemma_with_all_other(c: Credentials, s: Seq<ActionView>)
    requires
        forall|k: int, d: Credentials| 0 <= k < s.len() ==> #[trigger] d.with(s[k]) == d,
    ensures
        c.with_all(s) == c,
    decreases s.len(),
{
    if s.len() > 0 {
        let before = s.drop_last();
        assert forall|k: int, d: Credentials| 0 <= k < before.len() implies #[trigger] d.with(
            before[k],
        ) == d by {
            assert(before[k] == s[k]);
            assert(d.with(s[k]) == d);
        }
        lemma_with_all_other(c, before);
        assert(s.last() == s[s.len() - 1]);
        assert(c.with(s[s.len() - 1]) == c);
    }
}

/// The limits after the changes for `entries`.
proof fn lemma_limits(
    c: Credentials,
    init: InitView,
    entries: Seq<(RLimitResource, RLimitValue)>,
)
    requires
        init.rlimits == Some(entries),
        distinct_resources(entries),
    ensures
        ({
            let d = c.with_all(init.set_rlimits());
            &&& d == (Credentials { limits: d.limits, ..c })
            &&& forall|i: int| #![trigger entries[i]]
                0 <= i < entries.len() ==> d.limits.dom().contains(entries[i].0)
                    && d.limits[entries[i].0] == (entries[i].1.soft_limit(), entries[i].1.hard_limit())
            &&& forall|r: RLimitResource| #![trigger d.limits.dom().contains(r)]
                (forall|i: int| 0 <= i < entries.len() ==> (#[trigger] entries[i]).0 != r) ==> (
                d.limits.dom().contains(r) <==> c.limits.dom().contains(r)) && d.limits[r]
                    == c.limits[r]
        }),
    decreases entries.len(),
{
    if entries.len() == 0 {
        assert(init.set_rlimits() =~= Seq::empty());
    } else {
        let before = entries.drop_last();
        let smaller = InitView { rlimits: Some(before), ..init };
        assert(forall|i: int| 0 <= i < before.len() ==> before[i] == #[trigger] entries[i]);
        lemma_limits(c, smaller, before);
        assert(init.set_rlimits().drop_last() =~= smaller.set_rlimits());
        let d = c.with_all(init.set_rlimits());
        let last = entries.last();
        let b = c.with_all(smaller.set_rlimits());
        assert(d.limits == b.limits.insert(last.0, (last.1.soft_limit(), last.1.hard_limit())));
        assert forall|r: RLimitResource| #![trigger d.limits.dom().contains(r)]
            (forall|i: int| 0 <= i < entries.len() ==> (#[trigger] entries[i]).0 != r) implies (
        d.limits.dom().contains(r) <==> c.limits.dom().contains(r)) && d.limits[r]
            == c.limits[r] by {
            assert(entries[entries.len() - 1].0 != r);
            assert forall|i: int| 0 <= i < before.len() implies (#[trigger] before[i]).0 != r by {
                assert(entries[i].0 != r);
            }
            assert(b.limits.dom().contains(r) <==> c.limits.dom().contains(r));
        }
    }
}

/// The bounding set after `drops` were dropped from it.
proof fn lemma_bounding(c: Credentials, drops: Seq<Capability>)
    ensures
        c.with_all(drops.map_values(|x: Capability| ActionView::DropBoundingCap(x))) == (
        Credentials { bounding: c.bounding.difference(drops.to_set()), ..c }),
    decreases drops.len(),
{
    let f = |x: Capability| ActionView::DropBoundingCap(x);
    if drops.len() == 0 {
        assert(c.bounding.difference(drops.to_set()) =~= c.bounding);
    } else {
        let before = drops.drop_last();
        lemma_bounding(c, before);
        assert(drops.map_values(f).drop_last() =~= before.map_values(f));
        assert(drops =~= before.push(drops.last()));
        assert forall|x: Capability| drops.contains(x) <==> before.contains(x) || x
            == drops.last() by {
            lemma_push_contains(before, drops.last(), x);
        }
        assert(c.bounding.difference(before.to_set()).remove(drops.last())
            =~= c.bounding.difference(drops.to_set()));
    }
}

/// What a filtered sequence contains.
pub proof fn lemma_filter_members(s: Seq<Capability>, pred: spec_fn(Capability) -> bool, x: Capability)
    ensures
        s.filter(pred).contains(x) <==> s.contains(x) && pred(x),
    decreases s.len(),
{
    reveal(Seq::filter);
    if s.len() > 0 {
        let before = s.drop_last();
        lemma_filter_members(before, pred, x);
        assert(s =~= before.push(s.last()));
        lemma_push_contains(before, s.last(), x);
        lemma_push_contains(before.filter(pred), s.last(), x);
    }
}

/// What the configured capabilities make of the credentials.
pub proof fn law_privileges_are_dropped(c: Credentials, init: InitView, bounded: Seq<Capability>)
    requires
        bounded.to_set() == c.bounding,
    ensures
        c.with_all(init.drop_privileges(bounded)) == (Credentials {
            bounding: c.bounding.intersect(init.capability_set()),
            effective: init.capability_set(),
            permitted: init.capability_set(),
            inheritable: init.capability_set(),
            ambient: init.capability_set(),
            ..c
        }),
{
    let set = init.capability_set();
    let pred = |x: Capability| !set.contains(x);
    let drops = bounded.filter(pred);
    let f = |x: Capability| ActionView::DropBoundingCap(x);
    let sets = seq![
        ActionView::SetCaps(CapSet::Effective, set),
        ActionView::SetCaps(CapSet::Permitted, set),
        ActionView::SetCaps(CapSet::Inheritable, set),
        ActionView::SetCaps(CapSet::Ambient, set),
    ];
    lemma_with_all_add(c, drops.map_values(f), sets);
    lemma_bounding(c, drops);
    assert forall|x: Capability| drops.contains(x) <==> bounded.contains(x) && !set.contains(x) by {
        lemma_filter_members(bounded, pred, x);
    }
    assert(c.bounding.difference(drops.to_set()) =~= c.bounding.intersect(set)) by {
        assert(forall|x: Capability| c.bounding.contains(x) <==> bounded.contains(x));
    }
    assert(init.drop_privileges(bounded) == drops.map_values(f) + sets);
    reveal_with_fuel(Credentials::with_all, 5);
    assert(sets.drop_last().drop_last().drop_last().drop_last() =~= Seq::empty());
}

/// Under the user id of root the capabilities are kept while the ids change,
/// and no longer; under another user id only the ids change.
pub proof fn law_ids_are_set(c: Credentials, init: InitView, euid: u32)
    ensures
        c.with_all(init.set_ids(euid)) == (if euid == 0 {
            Credentials {
                keep_caps: false,
                gid: init.gid as u32,
                uid: init.uid as u32,
                effective: Set::full(),
                ..c
            }
        } else {
            Credentials { gid: init.gid as u32, uid: init.uid as u32, ..c }
        }),
        euid == 0 ==> c.with_all(init.set_ids(euid).take(2)).keep_caps,
{
    reveal_with_fuel(Credentials::with_all, 6);
    let s = init.set_ids(euid);
    if euid == 0 {
        assert(s.drop_last().drop_last().drop_last() =~= s.take(2));
    }
}

/// Whether a resource is not limited by the configuration.
pub open spec fn unlimited(init: InitView, resource: RLimitResource) -> bool {
    init.rlimits matches Some(entries) ==> forall|i: int|
        0 <= i < entries.len() ==> (#[trigger] entries[i]).0 != resource
}

/// Whatever a process may do at its start, once it has done all that precedes
/// the first message, as `law_setup_comes_first` has it, it has the configured
/// ids, groups and limits, gains no new privileges, and has no capability in
/// any set but the configured ones. The bounding set is that of the start
/// without what is not configured.
pub proof fn law_setup_confines(
    c: Credentials,
    init: InitView,
    euid: u32,
    bounded: Seq<Capability>,
)
    requires
        bounded.to_set() == c.bounding,
        init.rlimits matches Some(entries) ==> distinct_resources(entries),
    ensures
        ({
            let d = c.with_all(setup(init, euid, bounded));
            &&& d.uid == init.uid
            &&& d.gid == init.gid
            &&& d.groups == init.groups
            &&& d.no_new_privs
            &&& d.keep_caps == (c.keep_caps && euid != 0)
            &&& d.bounding == c.bounding.intersect(init.capability_set())
            &&& d.effective == init.capability_set()
            &&& d.permitted == init.capability_set()
            &&& d.inheritable == init.capability_set()
            &&& d.ambient == init.capability_set()
            &&& all_listed(init, d.effective)
            &&& all_listed(init, d.permitted)
            &&& all_listed(init, d.inheritable)
            &&& all_listed(init, d.ambient)
            &&& forall|cap: Capability| #[trigger]
                d.bounding.contains(cap) <==> c.bounding.contains(cap) && listed(init, cap)
            &&& init.rlimits matches Some(entries) ==> forall|i: int| #![trigger entries[i]]
                0 <= i < entries.len() ==> d.limits.dom().contains(entries[i].0)
                    && d.limits[entries[i].0] == (entries[i].1.soft_limit(), entries[i].1.hard_limit())
            &&& forall|r: RLimitResource| #[trigger]
                unlimited(init, r) ==> (d.limits.dom().contains(r) <==> c.limits.dom().contains(r))
                    && d.limits[r] == c.limits[r]
        }),
{
    let enter = init.enter();
    let ids = init.set_ids(euid);
    let groups = seq![ActionView::SetGroups(init.groups)];
    let limits = init.set_rlimits();
    let privs = seq![ActionView::SetNoNewPrivs(true), ActionView::ReadBoundingCaps];
    let confine = init.confine(euid);
    let drop = init.drop_privileges(bounded);
    let receive = seq![ActionView::Receive];

    let c1 = c.with_all(enter);
    lemma_with_all_other(c, enter);
    let c2 = c1.with_all(ids);
    law_ids_are_set(c1, init, euid);
    let c3 = c2.with_all(groups);
    assert(groups.drop_last() =~= Seq::empty());
    let c4 = c3.with_all(limits);
    match init.rlimits {
        Some(entries) => {
            lemma_limits(c3, init, entries);
        },
        None => {},
    }
    let c5 = c4.with_all(privs);
    assert(privs.drop_last() =~= groups.drop_last().push(ActionView::SetNoNewPrivs(true)));
    assert(privs.drop_last().drop_last() =~= Seq::empty());
    reveal_with_fuel(Credentials::with_all, 3);
    assert(c5 == (Credentials { no_new_privs: true, ..c4 }));
    let c6 = c5.with_all(drop);
    law_privileges_are_dropped(c5, init, bounded);
    let c7 = c6.with_all(receive);
    assert(receive.drop_last() =~= Seq::empty());
    assert(c7 == c6);

    lemma_with_all_add(c1, ids, groups);
    lemma_with_all_add(c1, ids + groups, limits);
    lemma_with_all_add(c1, ids + groups + limits, privs);
    assert(confine =~= ids + groups + limits + privs);
    assert(init.unprivilege(bounded) =~= drop + receive);
    lemma_with_all_add(c5, drop, receive);
    lemma_with_all_add(c, enter, confine);
    lemma_with_all_add(c, enter + confine, drop + receive);
    assert(c.with_all(setup(init, euid, bounded)) == c7);
    assert forall|cap: Capability| #[trigger] init.capability_set().contains(cap) <==> listed(
        init,
        cap,
    ) by {
        law_only_listed_capabilities_stay(init, bounded, cap, CapSet::Effective, Set::empty());
    }
    assert forall|r: RLimitResource| #[trigger] unlimited(init, r) implies (
    c7.limits.dom().contains(r) <==> c.limits.dom().contains(r)) && c7.limits[r]
        == c.limits[r] by {
        assert(c4.limits.dom().contains(r) <==> c3.limits.dom().contains(r));
    }
}

/// The application is never started with more than it may have: whenever a
/// child is forked, what was asked for before has given the process the
/// configured ids, groups and limits, the ban on new privileges, and no
/// capability in any set but the configured ones, provided that the bounding
/// set was answered as it is. A resource without a configured limit keeps the
/// limits that it had.
pub proof fn law_application_is_confined(
    c: Credentials,
    init: InitView,
    console: Option<i32>,
    events: Seq<EventView>,
    k: int,
)
    requires
        0 <= k < asked(RunnerView::start(init, console), events).len(),
        asked(RunnerView::start(init, console), events)[k] is Fork,
        init.rlimits matches Some(entries) ==> distinct_resources(entries),
        forall|bounded: Seq<Capability>| #[trigger]
            events.contains(EventView::BoundingCaps(bounded)) ==> bounded.to_set() == c.bounding,
    ensures
        ({
            let d = c.with_all(asked(RunnerView::start(init, console), events).take(k));
            &&& d.uid == init.uid
            &&& d.gid == init.gid
            &&& d.groups == init.groups
            &&& d.no_new_privs
            &&& d.bounding == c.bounding.intersect(init.capability_set())
            &&& d.effective == init.capability_set()
            &&& d.permitted == init.capability_set()
            &&& d.inheritable == init.capability_set()
            &&& d.ambient == init.capability_set()
            &&& all_listed(init, d.effective)
            &&& all_listed(init, d.permitted)
            &&& all_listed(init, d.inheritable)
            &&& all_listed(init, d.ambient)
            &&& forall|cap: Capability| #[trigger]
                d.bounding.contains(cap) <==> c.bounding.contains(cap) && listed(init, cap)
            &&& init.rlimits matches Some(entries) ==> forall|i: int| #![trigger entries[i]]
                0 <= i < entries.len() ==> d.limits.dom().contains(entries[i].0)
                    && d.limits[entries[i].0] == (entries[i].1.soft_limit(), entries[i].1.hard_limit())
            &&& forall|r: RLimitResource| #[trigger]
                unlimited(init, r) ==> (d.limits.dom().contains(r) <==> c.limits.dom().contains(r))
                    && d.limits[r] == c.limits[r]
        }),
{
    let asked = asked(RunnerView::start(init, console), events);
    let (euid, bounded) = law_fork_follows_setup(init, console, events, k);
    let ready = setup(init, euid, bounded);
    let between = seq![ActionView::KillOnParentDeath, ActionView::ReceiveIo];
    assert(asked.take(k) == ready + between);
    lemma_with_all_add(c, ready, between);
    lemma_with_all_other(c.with_all(ready), between);
    law_setup_confines(c, init, euid, bounded);
}

} // verus!
