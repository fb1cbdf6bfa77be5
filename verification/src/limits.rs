//! Resource limits.
use vstd::prelude::*;

verus! {

/// A resource that can be limited, as a container's manifest names it.
#[derive(Clone, Copy, Debug, PartialEq, Eq, Hash, Structural)]
pub enum RLimitResource {
    AS,
    CORE,
    CPU,
    DATA,
    FSIZE,
    LOCKS,
    MEMLOCK,
    MSGQUEUE,
    NICE,
    NOFILE,
    NPROC,
    RSS,
    RTPRIO,
    RTTIME,
    SIGPENDING,
    STACK,
}

/// The limits of one resource. A limit that is not given is no limit.
#[derive(Clone, Copy, Debug, PartialEq, Eq, Structural)]
pub struct RLimitValue {
    pub soft: Option<u64>,
    pub hard: Option<u64>,
}

/// The value of a limit that is none.
pub const INFINITY: u64 = 0xffff_ffff_ffff_ffff;

/// The resource type of the `rlimit` crate.
#[verifier::external_type_specification]
#[verifier::external_body]
pub struct ExResource(rlimit::Resource);

/// The name that `rlimit::Resource::as_name` gives for a resource.
pub uninterp spec fn kernel_name(resource: rlimit::Resource) -> Seq<char>;

/// `rlimit::Resource::from_str`: the resource that bears the given name. A
/// resource that is found bears that name, and one is found for the name of
/// each [`RLimitResource`].
#[verifier::external_body]
fn resource_named(name: &str) -> (r: Option<rlimit::Resource>)
    ensures
        r matches Some(resource) ==> kernel_name(resource) == name@,
        (exists|known: RLimitResource| #[trigger] known.name() == name@) ==> r is Some,
{
    name.parse::<rlimit::Resource>().ok()
}

/// `rlimit::INFINITY`: the limit that stands for none. It is the largest value
/// on Linux and Android with words of 64 bits, which mount flags ask for.
#[verifier::external_body]
fn infinity() -> (r: u64)
    ensures
        r == INFINITY,
{
    rlimit::INFINITY
}

impl RLimitResource {
    /// The name of the resource in `setrlimit(2)`.
    pub open spec fn name(self) -> Seq<char> {
        match self {
            RLimitResource::AS => "RLIMIT_AS"@,
            RLimitResource::CORE => "RLIMIT_CORE"@,
            RLimitResource::CPU => "RLIMIT_CPU"@,
            RLimitResource::DATA => "RLIMIT_DATA"@,
            RLimitResource::FSIZE => "RLIMIT_FSIZE"@,
            RLimitResource::LOCKS => "RLIMIT_LOCKS"@,
            RLimitResource::MEMLOCK => "RLIMIT_MEMLOCK"@,
            RLimitResource::MSGQUEUE => "RLIMIT_MSGQUEUE"@,
            RLimitResource::NICE => "RLIMIT_NICE"@,
            RLimitResource::NOFILE => "RLIMIT_NOFILE"@,
            RLimitResource::NPROC => "RLIMIT_NPROC"@,
            RLimitResource::RSS => "RLIMIT_RSS"@,
            RLimitResource::RTPRIO => "RLIMIT_RTPRIO"@,
            RLimitResource::RTTIME => "RLIMIT_RTTIME"@,
            RLimitResource::SIGPENDING => "RLIMIT_SIGPENDING"@,
            RLimitResource::STACK => "RLIMIT_STACK"@,
        }
    }

    /// The name of the resource in `setrlimit(2)`.
    pub fn as_name(&self) -> (r: &'static str)
        ensures
            r@ == self.name(),
    {
        match self {
            RLimitResource::AS => "RLIMIT_AS",
            RLimitResource::CORE => "RLIMIT_CORE",
            RLimitResource::CPU => "RLIMIT_CPU",
            RLimitResource::DATA => "RLIMIT_DATA",
            RLimitResource::FSIZE => "RLIMIT_FSIZE",
            RLimitResource::LOCKS => "RLIMIT_LOCKS",
            RLimitResource::MEMLOCK => "RLIMIT_MEMLOCK",
            RLimitResource::MSGQUEUE => "RLIMIT_MSGQUEUE",
            RLimitResource::NICE => "RLIMIT_NICE",
            RLimitResource::NOFILE => "RLIMIT_NOFILE",
            RLimitResource::NPROC => "RLIMIT_NPROC",
            RLimitResource::RSS => "RLIMIT_RSS",
            RLimitResource::RTPRIO => "RLIMIT_RTPRIO",
            RLimitResource::RTTIME => "RLIMIT_RTTIME",
            RLimitResource::SIGPENDING => "RLIMIT_SIGPENDING",
            RLimitResource::STACK => "RLIMIT_STACK",
        }
    }

    /// The same resource in the terms of the `rlimit` crate.
    pub fn resource(&self) -> (r: rlimit::Resource)
        ensures
            kernel_name(r) == self.name(),
    {
        resource_named(self.as_name()).unwrap()
    }
}

impl RLimitValue {
    /// The soft limit that is set.
    pub open spec fn soft_limit(self) -> u64 {
        self.soft.unwrap_or(INFINITY)
    }

    /// The hard limit that is set.
    pub open spec fn hard_limit(self) -> u64 {
        self.hard.unwrap_or(INFINITY)
    }

    /// The soft and the hard limit that are set.
    pub fn limits(&self) -> (r: (u64, u64))
        ensures
            r == (self.soft_limit(), self.hard_limit()),
    {
        (self.soft.unwrap_or(infinity()), self.hard.unwrap_or(infinity()))
    }
}

/// The limits of some resources, each of which is limited once.
#[derive(Debug)]
pub struct RLimits {
    entries: Vec<(RLimitResource, RLimitValue)>,
}

/// Whether no resource has two entries.
pub open spec fn distinct_resources(entries: Seq<(RLimitResource, RLimitValue)>) -> bool {
    forall|i: int, j: int|
        0 <= i < j < entries.len() ==> (#[trigger] entries[i]).0 != (#[trigger] entries[j]).0
}

impl View for RLimits {
    type V = Seq<(RLimitResource, RLimitValue)>;

    /// The entries, in the order in which their resources were added.
    closed spec fn view(&self) -> Seq<(RLimitResource, RLimitValue)> {
        self.entries@
    }
}

impl Clone for RLimits {
    fn clone(&self) -> (r: Self)
        ensures
            r@ == self@,
    {
        proof {
            use_type_invariant(self);
        }
        let mut entries: Vec<(RLimitResource, RLimitValue)> = Vec::new();
        let mut i: usize = 0;
        while i < self.entries.len()
            invariant
                i <= self.entries.len(),
                entries@ == self.entries@.take(i as int),
            decreases self.entries.len() - i,
        {
            entries.push(self.entries[i]);
            assert(self.entries@.take(i + 1) == self.entries@.take(i as int).push(
                self.entries@[i as int],
            ));
            i += 1;
        }
        assert(self.entries@.take(i as int) == self.entries@);
        RLimits { entries }
    }
}

impl RLimits {
    #[verifier::type_invariant]
    closed spec fn no_resource_twice(self) -> bool {
        distinct_resources(self.entries@)
    }

    /// Whether `resource` has an entry.
    pub open spec fn limits_resource(self, resource: RLimitResource) -> bool {
        exists|i: int| 0 <= i < self@.len() && (#[trigger] self@[i]).0 == resource
    }

    /// No limits.
    pub fn new() -> (r: Self)
        ensures
            r@ == Seq::<(RLimitResource, RLimitValue)>::empty(),
    {
        RLimits { entries: Vec::new() }
    }

    /// The resources with their limits, each resource once.
    pub fn entries(&self) -> (r: &Vec<(RLimitResource, RLimitValue)>)
        ensures
            r@ == self@,
            distinct_resources(self@),
    {
        proof {
            use_type_invariant(self);
        }
        &self.entries
    }

    /// The limits with those of `resource` set to `value`, whatever they were.
    pub fn with(self, resource: RLimitResource, value: RLimitValue) -> (r: Self)
        ensures
            forall|i: int| #![trigger self@[i]]
                0 <= i < self@.len() && self@[i].0 == resource ==> r@ == self@.update(
                    i,
                    (resource, value),
                ),
            !self.limits_resource(resource) ==> r@ == self@.push((resource, value)),
    {
        proof {
            use_type_invariant(&self);
        }
        let mut entries = self.entries;
        let mut i: usize = 0;
        while i < entries.len()
            invariant
                i <= entries.len(),
                entries@ == self@,
                distinct_resources(entries@),
                forall|k: int| 0 <= k < i ==> (#[trigger] entries@[k]).0 != resource,
            decreases entries.len() - i,
        {
            if entries[i].0 == resource {
                entries.set(i, (resource, value));
                return RLimits { entries };
            }
            i += 1;
        }
        entries.push((resource, value));
        RLimits { entries }
    }
}

/// No two resources bear the same name.
pub proof fn law_resource_names_are_distinct(a: RLimitResource, b: RLimitResource)
    ensures
        a.name() == b.name() ==> a == b,
{
    reveal_strlit("RLIMIT_AS");
    reveal_strlit("RLIMIT_CORE");
    reveal_strlit("RLIMIT_CPU");
    reveal_strlit("RLIMIT_DATA");
    reveal_strlit("RLIMIT_FSIZE");
    reveal_strlit("RLIMIT_LOCKS");
    reveal_strlit("RLIMIT_MEMLOCK");
    reveal_strlit("RLIMIT_MSGQUEUE");
    reveal_strlit("RLIMIT_NICE");
    reveal_strlit("RLIMIT_NOFILE");
    reveal_strlit("RLIMIT_NPROC");
    reveal_strlit("RLIMIT_RSS");
    reveal_strlit("RLIMIT_RTPRIO");
    reveal_strlit("RLIMIT_RTTIME");
    reveal_strlit("RLIMIT_SIGPENDING");
    reveal_strlit("RLIMIT_STACK");
    if a.name() == b.name() {
        assert(a.name().len() == b.name().len());
        assert(a.name()[7] == b.name()[7] && a.name()[8] == b.name()[8]);
        assert(a.name().len() > 9 ==> a.name()[9] == b.name()[9]);
        assert(a.name().len() > 10 ==> a.name()[10] == b.name()[10]);
    }
}

/// A limit that is given is the one that is set, and one that is not given is no
/// limit, the soft and the hard limit each by itself.
pub proof fn law_given_limit_is_set(value: RLimitValue)
    ensures
        value.soft matches Some(limit) ==> value.soft_limit() == limit,
        value.hard matches Some(limit) ==> value.hard_limit() == limit,
        value.soft is None ==> value.soft_limit() == u64::MAX,
        value.hard is None ==> value.hard_limit() == u64::MAX,
{
}

} // verus!
