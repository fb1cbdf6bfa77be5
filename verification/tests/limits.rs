use northstar_init::limits::{RLimitResource, RLimitValue, RLimits};

fn pairs() -> Vec<(RLimitResource, rlimit::Resource)> {
    vec![
        (RLimitResource::AS, rlimit::Resource::AS),
        (RLimitResource::CORE, rlimit::Resource::CORE),
        (RLimitResource::CPU, rlimit::Resource::CPU),
        (RLimitResource::DATA, rlimit::Resource::DATA),
        (RLimitResource::FSIZE, rlimit::Resource::FSIZE),
        (RLimitResource::LOCKS, rlimit::Resource::LOCKS),
        (RLimitResource::MEMLOCK, rlimit::Resource::MEMLOCK),
        (RLimitResource::MSGQUEUE, rlimit::Resource::MSGQUEUE),
        (RLimitResource::NICE, rlimit::Resource::NICE),
        (RLimitResource::NOFILE, rlimit::Resource::NOFILE),
        (RLimitResource::NPROC, rlimit::Resource::NPROC),
        (RLimitResource::RSS, rlimit::Resource::RSS),
        (RLimitResource::RTPRIO, rlimit::Resource::RTPRIO),
        (RLimitResource::RTTIME, rlimit::Resource::RTTIME),
        (RLimitResource::SIGPENDING, rlimit::Resource::SIGPENDING),
        (RLimitResource::STACK, rlimit::Resource::STACK),
    ]
}

#[test]
fn resource_is_the_one_of_the_same_name() {
    for (resource, kernel) in pairs() {
        assert_eq!(resource.resource(), kernel);
        assert_eq!(resource.as_name(), kernel.as_name());
    }
    assert_eq!(RLimitResource::NOFILE.as_name(), "RLIMIT_NOFILE");
}

#[test]
fn resource_names_are_distinct() {
    let all = pairs();
    for i in 0..all.len() {
        for j in 0..i {
            assert_ne!(all[i].0.as_name(), all[j].0.as_name());
        }
    }
}

#[test]
fn missing_limit_is_infinity() {
    let both = RLimitValue { soft: Some(10), hard: Some(20) };
    assert_eq!(both.limits(), (10, 20));
    let soft = RLimitValue { soft: Some(10), hard: None };
    assert_eq!(soft.limits(), (10, rlimit::INFINITY));
    let none = RLimitValue { soft: None, hard: None };
    assert_eq!(none.limits(), (u64::MAX, u64::MAX));
}

#[test]
fn last_limit_of_a_resource_counts() {
    let first = RLimitValue { soft: Some(1), hard: None };
    let second = RLimitValue { soft: Some(2), hard: Some(3) };
    let limits = RLimits::new()
        .with(RLimitResource::CPU, first)
        .with(RLimitResource::AS, first)
        .with(RLimitResource::CPU, second);
    assert_eq!(
        limits.entries(),
        &vec![(RLimitResource::CPU, second), (RLimitResource::AS, first)]
    );
    assert_eq!(limits.clone().entries(), limits.entries());
}
