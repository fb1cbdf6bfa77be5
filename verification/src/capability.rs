//! Capabilities of Linux, and sets of them.
use vstd::prelude::*;
use caps::Capability as KernelCapability;
use crate::sequence::lemma_push_contains;

verus! {

/// The capability type of the `caps` crate, with its variants.
#[verifier::external_type_specification]
pub struct ExKernelCapability(KernelCapability);

/// A capability, as a container's manifest names it.
#[allow(non_camel_case_types)]
#[derive(Clone, Copy, Debug, PartialEq, Eq, Hash, Structural)]
pub enum Capability {
    CAP_CHOWN,
    CAP_DAC_OVERRIDE,
    CAP_DAC_READ_SEARCH,
    CAP_FOWNER,
    CAP_FSETID,
    CAP_KILL,
    CAP_SETGID,
    CAP_SETUID,
    CAP_SETPCAP,
    CAP_LINUX_IMMUTABLE,
    CAP_NET_BIND_SERVICE,
    CAP_NET_BROADCAST,
    CAP_NET_ADMIN,
    CAP_NET_RAW,
    CAP_IPC_LOCK,
    CAP_IPC_OWNER,
    CAP_SYS_MODULE,
    CAP_SYS_RAWIO,
    CAP_SYS_CHROOT,
    CAP_SYS_PTRACE,
    CAP_SYS_PACCT,
    CAP_SYS_ADMIN,
    CAP_SYS_BOOT,
    CAP_SYS_NICE,
    CAP_SYS_RESOURCE,
    CAP_SYS_TIME,
    CAP_SYS_TTY_CONFIG,
    CAP_MKNOD,
    CAP_LEASE,
    CAP_AUDIT_WRITE,
    CAP_AUDIT_CONTROL,
    CAP_SETFCAP,
    CAP_MAC_OVERRIDE,
    CAP_MAC_ADMIN,
    CAP_SYSLOG,
    CAP_WAKE_ALARM,
    CAP_BLOCK_SUSPEND,
    CAP_AUDIT_READ,
    CAP_PERFMON,
    CAP_BPF,
    CAP_CHECKPOINT_RESTORE,
}

impl Capability {
    /// The same capability in the terms of the `caps` crate.
    pub open spec fn kernel(self) -> KernelCapability {
        match self {
            Capability::CAP_CHOWN => KernelCapability::CAP_CHOWN,
            Capability::CAP_DAC_OVERRIDE => KernelCapability::CAP_DAC_OVERRIDE,
            Capability::CAP_DAC_READ_SEARCH => KernelCapability::CAP_DAC_READ_SEARCH,
            Capability::CAP_FOWNER => KernelCapability::CAP_FOWNER,
            Capability::CAP_FSETID => KernelCapability::CAP_FSETID,
            Capability::CAP_KILL => KernelCapability::CAP_KILL,
            Capability::CAP_SETGID => KernelCapability::CAP_SETGID,
            Capability::CAP_SETUID => KernelCapability::CAP_SETUID,
            Capability::CAP_SETPCAP => KernelCapability::CAP_SETPCAP,
            Capability::CAP_LINUX_IMMUTABLE => KernelCapability::CAP_LINUX_IMMUTABLE,
            Capability::CAP_NET_BIND_SERVICE => KernelCapability::CAP_NET_BIND_SERVICE,
            Capability::CAP_NET_BROADCAST => KernelCapability::CAP_NET_BROADCAST,
            Capability::CAP_NET_ADMIN => KernelCapability::CAP_NET_ADMIN,
            Capability::CAP_NET_RAW => KernelCapability::CAP_NET_RAW,
            Capability::CAP_IPC_LOCK => KernelCapability::CAP_IPC_LOCK,
            Capability::CAP_IPC_OWNER => KernelCapability::CAP_IPC_OWNER,
            Capability::CAP_SYS_MODULE => KernelCapability::CAP_SYS_MODULE,
            Capability::CAP_SYS_RAWIO => KernelCapability::CAP_SYS_RAWIO,
            Capability::CAP_SYS_CHROOT => KernelCapability::CAP_SYS_CHROOT,
            Capability::CAP_SYS_PTRACE => KernelCapability::CAP_SYS_PTRACE,
            Capability::CAP_SYS_PACCT => KernelCapability::CAP_SYS_PACCT,
            Capability::CAP_SYS_ADMIN => KernelCapability::CAP_SYS_ADMIN,
            Capability::CAP_SYS_BOOT => KernelCapability::CAP_SYS_BOOT,
            Capability::CAP_SYS_NICE => KernelCapability::CAP_SYS_NICE,
            Capability::CAP_SYS_RESOURCE => KernelCapability::CAP_SYS_RESOURCE,
            Capability::CAP_SYS_TIME => KernelCapability::CAP_SYS_TIME,
            Capability::CAP_SYS_TTY_CONFIG => KernelCapability::CAP_SYS_TTY_CONFIG,
            Capability::CAP_MKNOD => KernelCapability::CAP_MKNOD,
            Capability::CAP_LEASE => KernelCapability::CAP_LEASE,
            Capability::CAP_AUDIT_WRITE => KernelCapability::CAP_AUDIT_WRITE,
            Capability::CAP_AUDIT_CONTROL => KernelCapability::CAP_AUDIT_CONTROL,
            Capability::CAP_SETFCAP => KernelCapability::CAP_SETFCAP,
            Capability::CAP_MAC_OVERRIDE => KernelCapability::CAP_MAC_OVERRIDE,
            Capability::CAP_MAC_ADMIN => KernelCapability::CAP_MAC_ADMIN,
            Capability::CAP_SYSLOG => KernelCapability::CAP_SYSLOG,
            Capability::CAP_WAKE_ALARM => KernelCapability::CAP_WAKE_ALARM,
            Capability::CAP_BLOCK_SUSPEND => KernelCapability::CAP_BLOCK_SUSPEND,
            Capability::CAP_AUDIT_READ => KernelCapability::CAP_AUDIT_READ,
            Capability::CAP_PERFMON => KernelCapability::CAP_PERFMON,
            Capability::CAP_BPF => KernelCapability::CAP_BPF,
            Capability::CAP_CHECKPOINT_RESTORE => KernelCapability::CAP_CHECKPOINT_RESTORE,
        }
    }

    /// The capability that `kernel` stands for.
    pub fn from_kernel(kernel: KernelCapability) -> (r: Option<Capability>)
        ensures
            r matches Some(c) ==> c.kernel() == kernel,
            r is None <==> kernel is __Nonexhaustive,
            r == standing_for(kernel),
    {
        let found = match kernel {
            KernelCapability::CAP_CHOWN => Some(Capability::CAP_CHOWN),
            KernelCapability::CAP_DAC_OVERRIDE => Some(Capability::CAP_DAC_OVERRIDE),
            KernelCapability::CAP_DAC_READ_SEARCH => Some(Capability::CAP_DAC_READ_SEARCH),
            KernelCapability::CAP_FOWNER => Some(Capability::CAP_FOWNER),
            KernelCapability::CAP_FSETID => Some(Capability::CAP_FSETID),
            KernelCapability::CAP_KILL => Some(Capability::CAP_KILL),
            KernelCapability::CAP_SETGID => Some(Capability::CAP_SETGID),
            KernelCapability::CAP_SETUID => Some(Capability::CAP_SETUID),
            KernelCapability::CAP_SETPCAP => Some(Capability::CAP_SETPCAP),
            KernelCapability::CAP_LINUX_IMMUTABLE => Some(Capability::CAP_LINUX_IMMUTABLE),
            KernelCapability::CAP_NET_BIND_SERVICE => Some(Capability::CAP_NET_BIND_SERVICE),
            KernelCapability::CAP_NET_BROADCAST => Some(Capability::CAP_NET_BROADCAST),
            KernelCapability::CAP_NET_ADMIN => Some(Capability::CAP_NET_ADMIN),
            KernelCapability::CAP_NET_RAW => Some(Capability::CAP_NET_RAW),
            KernelCapability::CAP_IPC_LOCK => Some(Capability::CAP_IPC_LOCK),
            KernelCapability::CAP_IPC_OWNER => Some(Capability::CAP_IPC_OWNER),
            KernelCapability::CAP_SYS_MODULE => Some(Capability::CAP_SYS_MODULE),
            KernelCapability::CAP_SYS_RAWIO => Some(Capability::CAP_SYS_RAWIO),
            KernelCapability::CAP_SYS_CHROOT => Some(Capability::CAP_SYS_CHROOT),
            KernelCapability::CAP_SYS_PTRACE => Some(Capability::CAP_SYS_PTRACE),
            KernelCapability::CAP_SYS_PACCT => Some(Capability::CAP_SYS_PACCT),
            KernelCapability::CAP_SYS_ADMIN => Some(Capability::CAP_SYS_ADMIN),
            KernelCapability::CAP_SYS_BOOT => Some(Capability::CAP_SYS_BOOT),
            KernelCapability::CAP_SYS_NICE => Some(Capability::CAP_SYS_NICE),
            KernelCapability::CAP_SYS_RESOURCE => Some(Capability::CAP_SYS_RESOURCE),
            KernelCapability::CAP_SYS_TIME => Some(Capability::CAP_SYS_TIME),
            KernelCapability::CAP_SYS_TTY_CONFIG => Some(Capability::CAP_SYS_TTY_CONFIG),
            KernelCapability::CAP_MKNOD => Some(Capability::CAP_MKNOD),
            KernelCapability::CAP_LEASE => Some(Capability::CAP_LEASE),
            KernelCapability::CAP_AUDIT_WRITE => Some(Capability::CAP_AUDIT_WRITE),
            KernelCapability::CAP_AUDIT_CONTROL => Some(Capability::CAP_AUDIT_CONTROL),
            KernelCapability::CAP_SETFCAP => Some(Capability::CAP_SETFCAP),
            KernelCapability::CAP_MAC_OVERRIDE => Some(Capability::CAP_MAC_OVERRIDE),
            KernelCapability::CAP_MAC_ADMIN => Some(Capability::CAP_MAC_ADMIN),
            KernelCapability::CAP_SYSLOG => Some(Capability::CAP_SYSLOG),
            KernelCapability::CAP_WAKE_ALARM => Some(Capability::CAP_WAKE_ALARM),
            KernelCapability::CAP_BLOCK_SUSPEND => Some(Capability::CAP_BLOCK_SUSPEND),
            KernelCapability::CAP_AUDIT_READ => Some(Capability::CAP_AUDIT_READ),
            KernelCapability::CAP_PERFMON => Some(Capability::CAP_PERFMON),
            KernelCapability::CAP_BPF => Some(Capability::CAP_BPF),
            KernelCapability::CAP_CHECKPOINT_RESTORE => Some(Capability::CAP_CHECKPOINT_RESTORE),
            _ => None,
        };
        proof {
            match found {
                Some(cap) => {
                    law_standing_for_undoes_kernel(cap);
                },
                None => {},
            }
        }
        found
    }
}

/// The capability that `kernel` stands for.
pub open spec fn standing_for(kernel: KernelCapability) -> Option<Capability> {
    if kernel is __Nonexhaustive {
        None
    } else {
        Some(choose|c: Capability| c.kernel() == kernel)
    }
}

/// What the values in `kernel` stand for, in the order in which it occurs first.
pub open spec fn members_of(kernel: Seq<KernelCapability>) -> Seq<Capability>
    decreases kernel.len(),
{
    if kernel.len() == 0 {
        Seq::empty()
    } else {
        let before = members_of(kernel.drop_last());
        match standing_for(kernel.last()) {
            Some(c) => if before.contains(c) {
                before
            } else {
                before.push(c)
            },
            None => before,
        }
    }
}

impl From<Capability> for KernelCapability {
    fn from(cap: Capability) -> (r: Self) {
        match cap {
            Capability::CAP_CHOWN => KernelCapability::CAP_CHOWN,
            Capability::CAP_DAC_OVERRIDE => KernelCapability::CAP_DAC_OVERRIDE,
            Capability::CAP_DAC_READ_SEARCH => KernelCapability::CAP_DAC_READ_SEARCH,
            Capability::CAP_FOWNER => KernelCapability::CAP_FOWNER,
            Capability::CAP_FSETID => KernelCapability::CAP_FSETID,
            Capability::CAP_KILL => KernelCapability::CAP_KILL,
            Capability::CAP_SETGID => KernelCapability::CAP_SETGID,
            Capability::CAP_SETUID => KernelCapability::CAP_SETUID,
            Capability::CAP_SETPCAP => KernelCapability::CAP_SETPCAP,
            Capability::CAP_LINUX_IMMUTABLE => KernelCapability::CAP_LINUX_IMMUTABLE,
            Capability::CAP_NET_BIND_SERVICE => KernelCapability::CAP_NET_BIND_SERVICE,
            Capability::CAP_NET_BROADCAST => KernelCapability::CAP_NET_BROADCAST,
            Capability::CAP_NET_ADMIN => KernelCapability::CAP_NET_ADMIN,
            Capability::CAP_NET_RAW => KernelCapability::CAP_NET_RAW,
            Capability::CAP_IPC_LOCK => KernelCapability::CAP_IPC_LOCK,
            Capability::CAP_IPC_OWNER => KernelCapability::CAP_IPC_OWNER,
            Capability::CAP_SYS_MODULE => KernelCapability::CAP_SYS_MODULE,
            Capability::CAP_SYS_RAWIO => KernelCapability::CAP_SYS_RAWIO,
            Capability::CAP_SYS_CHROOT => KernelCapability::CAP_SYS_CHROOT,
            Capability::CAP_SYS_PTRACE => KernelCapability::CAP_SYS_PTRACE,
            Capability::CAP_SYS_PACCT => KernelCapability::CAP_SYS_PACCT,
            Capability::CAP_SYS_ADMIN => KernelCapability::CAP_SYS_ADMIN,
            Capability::CAP_SYS_BOOT => KernelCapability::CAP_SYS_BOOT,
            Capability::CAP_SYS_NICE => KernelCapability::CAP_SYS_NICE,
            Capability::CAP_SYS_RESOURCE => KernelCapability::CAP_SYS_RESOURCE,
            Capability::CAP_SYS_TIME => KernelCapability::CAP_SYS_TIME,
            Capability::CAP_SYS_TTY_CONFIG => KernelCapability::CAP_SYS_TTY_CONFIG,
            Capability::CAP_MKNOD => KernelCapability::CAP_MKNOD,
            Capability::CAP_LEASE => KernelCapability::CAP_LEASE,
            Capability::CAP_AUDIT_WRITE => KernelCapability::CAP_AUDIT_WRITE,
            Capability::CAP_AUDIT_CONTROL => KernelCapability::CAP_AUDIT_CONTROL,
            Capability::CAP_SETFCAP => KernelCapability::CAP_SETFCAP,
            Capability::CAP_MAC_OVERRIDE => KernelCapability::CAP_MAC_OVERRIDE,
            Capability::CAP_MAC_ADMIN => KernelCapability::CAP_MAC_ADMIN,
            Capability::CAP_SYSLOG => KernelCapability::CAP_SYSLOG,
            Capability::CAP_WAKE_ALARM => KernelCapability::CAP_WAKE_ALARM,
            Capability::CAP_BLOCK_SUSPEND => KernelCapability::CAP_BLOCK_SUSPEND,
            Capability::CAP_AUDIT_READ => KernelCapability::CAP_AUDIT_READ,
            Capability::CAP_PERFMON => KernelCapability::CAP_PERFMON,
            Capability::CAP_BPF => KernelCapability::CAP_BPF,
            Capability::CAP_CHECKPOINT_RESTORE => KernelCapability::CAP_CHECKPOINT_RESTORE,
        }
    }
}

impl vstd::std_specs::convert::FromSpecImpl<Capability> for KernelCapability {
    open spec fn obeys_from_spec() -> bool {
        true
    }

    open spec fn from_spec(cap: Capability) -> KernelCapability {
        cap.kernel()
    }
}

/// Every capability stands for one of the kernel's, and no two for the same.
pub proof fn law_kernel_capability_is_one_to_one(a: Capability, b: Capability)
    ensures
        a.kernel() == b.kernel() ==> a == b,
        a.kernel() !is __Nonexhaustive,
{
}

/// A capability of the kernel stands for the capability that it came from.
pub proof fn law_standing_for_undoes_kernel(cap: Capability)
    ensures
        standing_for(cap.kernel()) == Some(cap),
{
    law_kernel_capability_is_one_to_one(cap, standing_for(cap.kernel())->0);
}

/// A set comes back unchanged from the terms of the `caps` crate.
pub proof fn law_set_comes_back(members: Seq<Capability>)
    requires
        members.no_duplicates(),
    ensures
        members_of(members.map_values(|c: Capability| c.kernel())) == members,
    decreases members.len(),
{
    let kernel = members.map_values(|c: Capability| c.kernel());
    if members.len() > 0 {
        let before = members.drop_last();
        law_set_comes_back(before);
        law_standing_for_undoes_kernel(members.last());
        assert(kernel.drop_last() =~= before.map_values(|c: Capability| c.kernel()));
        assert(!before.contains(members.last()));
        assert(members =~= before.push(members.last()));
    } else {
        assert(members =~= Seq::empty());
    }
}

/// `caps::all`: every capability that the `caps` crate knows, each once. The
/// order is that in which a hash set is walked, and nothing is said of it.
#[verifier::external_body]
fn all_kernel() -> (r: Vec<KernelCapability>)
    ensures
        forall|k: KernelCapability| #[trigger] r@.contains(k) <==> k !is __Nonexhaustive,
        r@.no_duplicates(),
{
    caps::all().into_iter().collect()
}

/// A set of capabilities, in which nothing occurs twice.
#[derive(Debug)]
pub struct CapabilitySet {
    items: Vec<Capability>,
}

impl View for CapabilitySet {
    type V = Seq<Capability>;

    /// The members, in the order in which they were added.
    closed spec fn view(&self) -> Seq<Capability> {
        self.items@
    }
}

impl Clone for CapabilitySet {
    fn clone(&self) -> (r: Self)
        ensures
            r@ == self@,
    {
        proof {
            use_type_invariant(self);
        }
        let items = self.items.clone();
        assert(items@ =~= self.items@);
        CapabilitySet { items }
    }
}

impl CapabilitySet {
    #[verifier::type_invariant]
    closed spec fn no_member_twice(self) -> bool {
        self.items@.no_duplicates()
    }

    /// The set without a member.
    pub fn new() -> (r: Self)
        ensures
            r@ == Seq::<Capability>::empty(),
    {
        CapabilitySet { items: Vec::new() }
    }

    /// The members, each of them once.
    pub fn members(&self) -> (r: &Vec<Capability>)
        ensures
            r@ == self@,
            self@.no_duplicates(),
    {
        proof {
            use_type_invariant(self);
        }
        &self.items
    }

    /// Whether `cap` is a member.
    pub fn contains(&self, cap: Capability) -> (r: bool)
        ensures
            r == self@.contains(cap),
    {
        let mut i: usize = 0;
        while i < self.items.len()
            invariant
                i <= self.items.len(),
                forall|k: int| 0 <= k < i ==> self.items@[k] != cap,
            decreases self.items.len() - i,
        {
            if self.items[i] == cap {
                return true;
            }
            i += 1;
        }
        false
    }

    /// The set with `cap` as a member too.
    pub fn with(self, cap: Capability) -> (r: Self)
        ensures
            r@ == if self@.contains(cap) {
                self@
            } else {
                self@.push(cap)
            },
    {
        proof {
            use_type_invariant(&self);
        }
        if self.contains(cap) {
            self
        } else {
            let mut items = self.items;
            items.push(cap);
            CapabilitySet { items }
        }
    }

    /// The set of what the values of the `caps` crate in `kernel` stand for.
    pub fn from_kernel(kernel: &Vec<KernelCapability>) -> (r: Self)
        ensures
            r@ == members_of(kernel@),
            r@.no_duplicates(),
            forall|c: Capability| #[trigger]
                r@.contains(c) <==> kernel@.contains(c.kernel()),
    {
        let mut set = CapabilitySet::new();
        let mut i: usize = 0;
        while i < kernel.len()
            invariant
                i <= kernel.len(),
                set@ == members_of(kernel@.take(i as int)),
                forall|c: Capability| #[trigger]
                    set@.contains(c) <==> kernel@.take(i as int).contains(c.kernel()),
            decreases kernel.len() - i,
        {
            let ghost before = set@;
            let found = Capability::from_kernel(kernel[i]);
            match found {
                Some(cap) => {
                    set = set.with(cap);
                },
                None => {},
            }
            proof {
                let k = kernel@[i as int];
                assert(kernel@.take(i + 1) == kernel@.take(i as int).push(k));
                assert(kernel@.take(i + 1).drop_last() =~= kernel@.take(i as int));
                assert forall|c: Capability| #[trigger]
                    set@.contains(c) <==> kernel@.take(i + 1).contains(c.kernel()) by {
                    lemma_push_contains(kernel@.take(i as int), k, c.kernel());
                    match found {
                        Some(cap) => {
                            lemma_push_contains(before, cap, c);
                            law_kernel_capability_is_one_to_one(c, cap);
                        },
                        None => {},
                    }
                }
            }
            i += 1;
        }
        assert(kernel@.take(kernel@.len() as int) == kernel@);
        let _ = set.members();
        set
    }

    /// The members in the terms of the `caps` crate.
    pub fn to_kernel(&self) -> (r: Vec<KernelCapability>)
        ensures
            r@ == self@.map_values(|c: Capability| c.kernel()),
    {
        let ghost kernel = self.items@.map_values(|c: Capability| c.kernel());
        let mut members: Vec<KernelCapability> = Vec::new();
        let mut i: usize = 0;
        while i < self.items.len()
            invariant
                i <= self.items.len(),
                kernel == self.items@.map_values(|c: Capability| c.kernel()),
                members@ == kernel.take(i as int),
            decreases self.items.len() - i,
        {
            let member = KernelCapability::from(self.items[i]);
            members.push(member);
            assert(kernel.take(i + 1) =~= kernel.take(i as int).push(member));
            i += 1;
        }
        assert(kernel.take(i as int) =~= kernel);
        members
    }

    /// The set of all capabilities.
    pub fn all() -> (r: Self)
        ensures
            r@.no_duplicates(),
            forall|c: Capability| #[trigger] r@.contains(c),
    {
        let kernel = all_kernel();
        let set = CapabilitySet::from_kernel(&kernel);
        proof {
            assert forall|c: Capability| #[trigger] set@.contains(c) by {
                law_kernel_capability_is_one_to_one(c, c);
                assert(kernel@.contains(c.kernel()));
            }
        }
        set
    }
}

/// The set of what values of the `caps` crate stand for has no member twice, and
/// has a capability as member if and only if one of the values stands for it.
pub proof fn law_members_are_what_is_stood_for(kernel: Seq<KernelCapability>, cap: Capability)
    ensures
        members_of(kernel).no_duplicates(),
        members_of(kernel).contains(cap) <==> kernel.contains(cap.kernel()),
    decreases kernel.len(),
{
    if kernel.len() > 0 {
        let front = kernel.drop_last();
        let last = kernel.last();
        let before = members_of(front);
        law_members_are_what_is_stood_for(front, cap);
        assert(kernel =~= front.push(last));
        lemma_push_contains(front, last, cap.kernel());
        law_standing_for_undoes_kernel(cap);
        match standing_for(last) {
            Some(c) => {
                lemma_push_contains(before, c, cap);
                lemma_kernel_has_a_name(last);
                law_kernel_capability_is_one_to_one(c, cap);
            },
            None => {},
        }
    }
}

/// Every value of the `caps` crate that is a capability stands for one.
proof fn lemma_kernel_has_a_name(kernel: KernelCapability)
    requires
        kernel !is __Nonexhaustive,
    ensures
        standing_for(kernel) is Some,
        (standing_for(kernel)->0).kernel() == kernel,
{
    let found = choose|c: Capability| c.kernel() == kernel;
    assert(exists|c: Capability| c.kernel() == kernel) by {
        lemma_some_capability(kernel);
    }
    assert(found.kernel() == kernel);
}

/// There is a capability for every value of the `caps` crate that is one.
proof fn lemma_some_capability(kernel: KernelCapability)
    requires
        kernel !is __Nonexhaustive,
    ensures
        exists|c: Capability| c.kernel() == kernel,
{
    match kernel {
        KernelCapability::CAP_CHOWN => assert(Capability::CAP_CHOWN.kernel() == kernel),
        KernelCapability::CAP_DAC_OVERRIDE => assert(Capability::CAP_DAC_OVERRIDE.kernel() == kernel),
        KernelCapability::CAP_DAC_READ_SEARCH => assert(Capability::CAP_DAC_READ_SEARCH.kernel() == kernel),
        KernelCapability::CAP_FOWNER => assert(Capability::CAP_FOWNER.kernel() == kernel),
        KernelCapability::CAP_FSETID => assert(Capability::CAP_FSETID.kernel() == kernel),
        KernelCapability::CAP_KILL => assert(Capability::CAP_KILL.kernel() == kernel),
        KernelCapability::CAP_SETGID => assert(Capability::CAP_SETGID.kernel() == kernel),
        KernelCapability::CAP_SETUID => assert(Capability::CAP_SETUID.kernel() == kernel),
        KernelCapability::CAP_SETPCAP => assert(Capability::CAP_SETPCAP.kernel() == kernel),
        KernelCapability::CAP_LINUX_IMMUTABLE => assert(Capability::CAP_LINUX_IMMUTABLE.kernel() == kernel),
        KernelCapability::CAP_NET_BIND_SERVICE => assert(Capability::CAP_NET_BIND_SERVICE.kernel() == kernel),
        KernelCapability::CAP_NET_BROADCAST => assert(Capability::CAP_NET_BROADCAST.kernel() == kernel),
        KernelCapability::CAP_NET_ADMIN => assert(Capability::CAP_NET_ADMIN.kernel() == kernel),
        KernelCapability::CAP_NET_RAW => assert(Capability::CAP_NET_RAW.kernel() == kernel),
        KernelCapability::CAP_IPC_LOCK => assert(Capability::CAP_IPC_LOCK.kernel() == kernel),
        KernelCapability::CAP_IPC_OWNER => assert(Capability::CAP_IPC_OWNER.kernel() == kernel),
        KernelCapability::CAP_SYS_MODULE => assert(Capability::CAP_SYS_MODULE.kernel() == kernel),
        KernelCapability::CAP_SYS_RAWIO => assert(Capability::CAP_SYS_RAWIO.kernel() == kernel),
        KernelCapability::CAP_SYS_CHROOT => assert(Capability::CAP_SYS_CHROOT.kernel() == kernel),
        KernelCapability::CAP_SYS_PTRACE => assert(Capability::CAP_SYS_PTRACE.kernel() == kernel),
        KernelCapability::CAP_SYS_PACCT => assert(Capability::CAP_SYS_PACCT.kernel() == kernel),
        KernelCapability::CAP_SYS_ADMIN => assert(Capability::CAP_SYS_ADMIN.kernel() == kernel),
        KernelCapability::CAP_SYS_BOOT => assert(Capability::CAP_SYS_BOOT.kernel() == kernel),
        KernelCapability::CAP_SYS_NICE => assert(Capability::CAP_SYS_NICE.kernel() == kernel),
        KernelCapability::CAP_SYS_RESOURCE => assert(Capability::CAP_SYS_RESOURCE.kernel() == kernel),
        KernelCapability::CAP_SYS_TIME => assert(Capability::CAP_SYS_TIME.kernel() == kernel),
        KernelCapability::CAP_SYS_TTY_CONFIG => assert(Capability::CAP_SYS_TTY_CONFIG.kernel() == kernel),
        KernelCapability::CAP_MKNOD => assert(Capability::CAP_MKNOD.kernel() == kernel),
        KernelCapability::CAP_LEASE => assert(Capability::CAP_LEASE.kernel() == kernel),
        KernelCapability::CAP_AUDIT_WRITE => assert(Capability::CAP_AUDIT_WRITE.kernel() == kernel),
        KernelCapability::CAP_AUDIT_CONTROL => assert(Capability::CAP_AUDIT_CONTROL.kernel() == kernel),
        KernelCapability::CAP_SETFCAP => assert(Capability::CAP_SETFCAP.kernel() == kernel),
        KernelCapability::CAP_MAC_OVERRIDE => assert(Capability::CAP_MAC_OVERRIDE.kernel() == kernel),
        KernelCapability::CAP_MAC_ADMIN => assert(Capability::CAP_MAC_ADMIN.kernel() == kernel),
        KernelCapability::CAP_SYSLOG => assert(Capability::CAP_SYSLOG.kernel() == kernel),
        KernelCapability::CAP_WAKE_ALARM => assert(Capability::CAP_WAKE_ALARM.kernel() == kernel),
        KernelCapability::CAP_BLOCK_SUSPEND => assert(Capability::CAP_BLOCK_SUSPEND.kernel() == kernel),
        KernelCapability::CAP_AUDIT_READ => assert(Capability::CAP_AUDIT_READ.kernel() == kernel),
        KernelCapability::CAP_PERFMON => assert(Capability::CAP_PERFMON.kernel() == kernel),
        KernelCapability::CAP_BPF => assert(Capability::CAP_BPF.kernel() == kernel),
        KernelCapability::CAP_CHECKPOINT_RESTORE => assert(Capability::CAP_CHECKPOINT_RESTORE.kernel() == kernel),
        _ => {},
    }
}

} // verus!
