//! The configuration of an init process, and what it asks for.
use vstd::prelude::*;
use crate::action::{Action, AllowList, CapSet, SockFilter};
use crate::action::ActionView;
use crate::action::action_views;
use crate::capability::{Capability, CapabilitySet};
use crate::limits::{RLimitResource, RLimitValue, RLimits};
use crate::mount::Mount;
use crate::mount::{MountView, flags_known, option_view};
use crate::path::RawPath;

verus! {

/// The configuration of the init process of a container.
#[derive(Debug)]
pub struct Init {
    /// The name and version of the container.
    pub container: String,
    pub root: RawPath,
    pub uid: u16,
    pub gid: u16,
    pub mounts: Vec<Mount>,
    pub groups: Vec<u32>,
    pub capabilities: Option<CapabilitySet>,
    pub rlimits: Option<RLimits>,
    pub seccomp: Option<AllowList>,
    pub console: bool,
}

/// What an [`Init`] holds.
#[verifier::ext_equal]
pub struct InitView {
    pub container: Seq<char>,
    pub root: Seq<u8>,
    pub uid: u16,
    pub gid: u16,
    pub mounts: Seq<MountView>,
    pub groups: Seq<u32>,
    pub capabilities: Option<Seq<Capability>>,
    pub rlimits: Option<Seq<(RLimitResource, RLimitValue)>>,
    pub seccomp: Option<Seq<SockFilter>>,
    pub console: bool,
}

/// What mounts hold.
pub open spec fn mount_views(s: Seq<Mount>) -> Seq<MountView> {
    s.map_values(|m: Mount| m@)
}

impl View for Init {
    type V = InitView;

    open spec fn view(&self) -> InitView {
        InitView {
            container: self.container@,
            root: self.root@,
            uid: self.uid,
            gid: self.gid,
            mounts: mount_views(self.mounts@),
            groups: self.groups@,
            capabilities: option_view(self.capabilities),
            rlimits: option_view(self.rlimits),
            seccomp: option_view(self.seccomp),
            console: self.console,
        }
    }
}

impl Clone for Init {
    fn clone(&self) -> (r: Self)
        ensures
            r@ == self@,
    {
        let mut mounts: Vec<Mount> = Vec::new();
        let mut i: usize = 0;
        while i < self.mounts.len()
            invariant
                i <= self.mounts.len(),
                mount_views(mounts@) == mount_views(self.mounts@).take(i as int),
            decreases self.mounts.len() - i,
        {
            let mount = self.mounts[i].clone();
            let ghost before = mounts@;
            mounts.push(mount);
            assert(mount_views(mounts@) =~= mount_views(before).push(mount@));
            assert(mount_views(self.mounts@).take(i + 1) =~= mount_views(self.mounts@).take(
                i as int,
            ).push(mount@));
            i += 1;
        }
        assert(mount_views(self.mounts@).take(i as int) =~= mount_views(self.mounts@));
        let groups = self.groups.clone();
        assert(groups@ =~= self.groups@);
        Init {
            container: self.container.clone(),
            root: self.root.clone(),
            uid: self.uid,
            gid: self.gid,
            mounts,
            groups,
            capabilities: match &self.capabilities {
                Some(capabilities) => Some(capabilities.clone()),
                None => None,
            },
            rlimits: match &self.rlimits {
                Some(rlimits) => Some(rlimits.clone()),
                None => None,
            },
            seccomp: match &self.seccomp {
                Some(seccomp) => Some(seccomp.clone()),
                None => None,
            },
            console: self.console,
        }
    }
}

impl InitView {
    /// Whether every mount has flags that the platform has.
    pub open spec fn mount_flags_known(self) -> bool {
        forall|i: int| 0 <= i < self.mounts.len() ==> flags_known((#[trigger] self.mounts[i]).flags)
    }

    /// The mount calls, in the order in which the mounts are given.
    pub open spec fn mount(self) -> Seq<ActionView> {
        self.mounts.map_values(|m: MountView| ActionView::Mount(m))
    }

    /// The change to the configured ids. Under the user id of root, the
    /// capabilities are kept across it, and all of them are effective after it.
    pub open spec fn set_ids(self, euid: u32) -> Seq<ActionView> {
        let ids = seq![
            ActionView::SetResGid(self.gid as u32),
            ActionView::SetResUid(self.uid as u32),
        ];
        if euid == 0 {
            seq![ActionView::SetKeepCaps(true)] + ids + seq![
                ActionView::ResetEffectiveCaps(Set::full()),
                ActionView::SetKeepCaps(false),
            ]
        } else {
            ids
        }
    }

    /// One change for each resource that the configuration limits.
    pub open spec fn set_rlimits(self) -> Seq<ActionView> {
        match self.rlimits {
            Some(limits) => limits.map_values(
                |e: (RLimitResource, RLimitValue)|
                    ActionView::SetRLimit {
                        resource: e.0,
                        soft: e.1.soft_limit(),
                        hard: e.1.hard_limit(),
                    },
            ),
            None => Seq::empty(),
        }
    }

    /// The capabilities that the application may have.
    pub open spec fn capability_set(self) -> Set<Capability> {
        match self.capabilities {
            Some(capabilities) => capabilities.to_set(),
            None => Set::empty(),
        }
    }

    /// The bounding set loses what the application may not have, and the
    /// other sets become what it may have.
    pub open spec fn drop_privileges(self, bounded: Seq<Capability>) -> Seq<ActionView> {
        bounded.filter(|c: Capability| !self.capability_set().contains(c)).map_values(
            |c: Capability| ActionView::DropBoundingCap(c),
        ) + seq![
            ActionView::SetCaps(CapSet::Effective, self.capability_set()),
            ActionView::SetCaps(CapSet::Permitted, self.capability_set()),
            ActionView::SetCaps(CapSet::Inheritable, self.capability_set()),
            ActionView::SetCaps(CapSet::Ambient, self.capability_set()),
        ]
    }
}

/// `action_views` of a sequence with one more action.
pub proof fn lemma_action_views_push(s: Seq<Action>, a: Action)
    ensures
        action_views(s.push(a)) == action_views(s).push(a@),
{
    assert(action_views(s.push(a)) =~= action_views(s).push(a@));
}

impl Init {
    /// Execute list of mount calls
    pub fn mount(&self) -> (r: Vec<Action>)
        ensures
            action_views(r@) == self@.mount(),
            self@.mount_flags_known(),
            r@.len() == self.mounts@.len(),
            forall|i: int|
                0 <= i < r@.len() ==> (#[trigger] r@[i])@ == ActionView::Mount(self.mounts@[i]@),
    {
        let mut actions: Vec<Action> = Vec::new();
        let mut i: usize = 0;
        while i < self.mounts.len()
            invariant
                i <= self.mounts.len(),
                action_views(actions@) == self@.mount().take(i as int),
                forall|k: int| 0 <= k < i ==> flags_known((#[trigger] self@.mounts[k]).flags),
                actions@.len() == i,
                forall|k: int|
                    0 <= k < i ==> (#[trigger] actions@[k])@ == ActionView::Mount(
                        self.mounts@[k]@,
                    ),
            decreases self.mounts.len() - i,
        {
            let action = self.mounts[i].mount();
            proof {
                lemma_action_views_push(actions@, action);
                assert(self@.mount().take(i + 1) =~= self@.mount().take(i as int).push(action@));
            }
            actions.push(action);
            i += 1;
        }
        assert(self@.mount().take(i as int) =~= self@.mount());
        actions
    }

    /// Set uid/gid
    pub fn set_ids(&self, euid: u32) -> (r: Vec<Action>)
        ensures
            action_views(r@) == self@.set_ids(euid),
    {
        let mut actions: Vec<Action> = Vec::new();
        let rt_privileged = euid == 0;

        // If running as uid 0 save our caps across the uid/gid drop
        if rt_privileged {
            actions.push(Action::SetKeepCaps(true));
        }
        actions.push(Action::SetResGid(self.gid as u32));
        actions.push(Action::SetResUid(self.uid as u32));
        if rt_privileged {
            actions.push(self.reset_effective_caps());
            actions.push(Action::SetKeepCaps(false));
        }
        assert(action_views(actions@) =~= self@.set_ids(euid));
        actions
    }

    /// Set the supplementary groups
    pub fn set_groups(&self) -> (r: Action)
        ensures
            r@ == ActionView::SetGroups(self@.groups),
    {
        let groups = self.groups.clone();
        assert(groups@ =~= self.groups@);
        Action::SetGroups(groups)
    }

    /// Apply resource limits
    pub fn set_rlimits(&self) -> (r: Vec<Action>)
        ensures
            action_views(r@) == self@.set_rlimits(),
    {
        let mut actions: Vec<Action> = Vec::new();
        match &self.rlimits {
            Some(limits) => {
                let entries = limits.entries();
                let mut i: usize = 0;
                while i < entries.len()
                    invariant
                        i <= entries.len(),
                        self@.rlimits == Some(entries@),
                        action_views(actions@) == self@.set_rlimits().take(i as int),
                    decreases entries.len() - i,
                {
                    let (resource, limit) = entries[i];
                    let (soft, hard) = limit.limits();
                    let action = Action::SetRLimit { resource, soft, hard };
                    proof {
                        lemma_action_views_push(actions@, action);
                        assert(self@.set_rlimits().take(i + 1) =~= self@.set_rlimits().take(
                            i as int,
                        ).push(action@));
                    }
                    actions.push(action);
                    i += 1;
                }
                assert(self@.set_rlimits().take(i as int) =~= self@.set_rlimits());
            },
            None => {
                assert(action_views(actions@) =~= self@.set_rlimits());
            },
        }
        actions
    }

    /// The capabilities that the application may have
    fn capability_set(&self) -> (r: CapabilitySet)
        ensures
            r@.to_set() == self@.capability_set(),
            forall|c: Capability| #[trigger]
                r@.contains(c) <==> self.capabilities is Some && self.capabilities->0@.contains(c),
    {
        match &self.capabilities {
            Some(capabilities) => capabilities.clone(),
            None => {
                let none = CapabilitySet::new();
                assert(none@.to_set() =~= self@.capability_set());
                none
            },
        }
    }

    /// Drop capabilities
    pub fn drop_privileges(&self, bounded: &CapabilitySet) -> (r: Vec<Action>)
        ensures
            action_views(r@) == self@.drop_privileges(bounded@),
    {
        let set = self.capability_set();
        let ghost barred = |c: Capability| !self@.capability_set().contains(c);
        let ghost drop = |c: Capability| ActionView::DropBoundingCap(c);
        let members = bounded.members();
        let mut actions: Vec<Action> = Vec::new();
        let mut i: usize = 0;
        assert(action_views(actions@) =~= members@.take(0).filter(barred).map_values(drop)) by {
            reveal_with_fuel(Seq::filter, 1);
        }
        while i < members.len()
            invariant
                i <= members.len(),
                members@ == bounded@,
                set@.to_set() == self@.capability_set(),
                barred == (|c: Capability| !self@.capability_set().contains(c)),
                drop == (|c: Capability| ActionView::DropBoundingCap(c)),
                action_views(actions@) == members@.take(i as int).filter(barred).map_values(drop),
            decreases members.len() - i,
        {
            let cap = members[i];
            proof {
                let next = members@.take(i + 1);
                reveal_with_fuel(Seq::filter, 1);
                assert(next.drop_last() =~= members@.take(i as int));
                assert(next.last() == cap);
            }
            if !set.contains(cap) {
                let action = Action::DropBoundingCap(cap);
                proof {
                    let head = members@.take(i as int).filter(barred);
                    lemma_action_views_push(actions@, action);
                    assert(head.push(cap).map_values(drop) =~= head.map_values(drop).push(
                        drop(cap),
                    ));
                }
                actions.push(action);
            }
            i += 1;
        }
        assert(members@.take(i as int) =~= bounded@);
        actions.push(Action::SetCaps(CapSet::Effective, set.clone()));
        actions.push(Action::SetCaps(CapSet::Permitted, set.clone()));
        actions.push(Action::SetCaps(CapSet::Inheritable, set.clone()));
        actions.push(Action::SetCaps(CapSet::Ambient, set));
        assert(action_views(actions@) =~= self@.drop_privileges(bounded@));
        actions
    }

    /// Reset effective caps to the most possible set
    pub fn reset_effective_caps(&self) -> (r: Action)
        ensures
            r@ == ActionView::ResetEffectiveCaps(Set::full()),
    {
        let all = CapabilitySet::all();
        assert(all@.to_set() =~= Set::full());
        Action::ResetEffectiveCaps(all)
    }

    /// Set whether no new privileges can be gained
    pub fn set_no_new_privs(value: bool) -> (r: Action)
        ensures
            r@ == ActionView::SetNoNewPrivs(value),
    {
        Action::SetNoNewPrivs(value)
    }
}

} // verus!
