use caps::Capability as KernelCapability;
use northstar_init::capability::{Capability, CapabilitySet};

fn pairs() -> Vec<(Capability, KernelCapability)> {
    vec![
        (Capability::CAP_CHOWN, KernelCapability::CAP_CHOWN),
        (Capability::CAP_DAC_OVERRIDE, KernelCapability::CAP_DAC_OVERRIDE),
        (Capability::CAP_DAC_READ_SEARCH, KernelCapability::CAP_DAC_READ_SEARCH),
        (Capability::CAP_FOWNER, KernelCapability::CAP_FOWNER),
        (Capability::CAP_FSETID, KernelCapability::CAP_FSETID),
        (Capability::CAP_KILL, KernelCapability::CAP_KILL),
        (Capability::CAP_SETGID, KernelCapability::CAP_SETGID),
        (Capability::CAP_SETUID, KernelCapability::CAP_SETUID),
        (Capability::CAP_SETPCAP, KernelCapability::CAP_SETPCAP),
        (Capability::CAP_LINUX_IMMUTABLE, KernelCapability::CAP_LINUX_IMMUTABLE),
        (Capability::CAP_NET_BIND_SERVICE, KernelCapability::CAP_NET_BIND_SERVICE),
        (Capability::CAP_NET_BROADCAST, KernelCapability::CAP_NET_BROADCAST),
        (Capability::CAP_NET_ADMIN, KernelCapability::CAP_NET_ADMIN),
        (Capability::CAP_NET_RAW, KernelCapability::CAP_NET_RAW),
        (Capability::CAP_IPC_LOCK, KernelCapability::CAP_IPC_LOCK),
        (Capability::CAP_IPC_OWNER, KernelCapability::CAP_IPC_OWNER),
        (Capability::CAP_SYS_MODULE, KernelCapability::CAP_SYS_MODULE),
        (Capability::CAP_SYS_RAWIO, KernelCapability::CAP_SYS_RAWIO),
        (Capability::CAP_SYS_CHROOT, KernelCapability::CAP_SYS_CHROOT),
        (Capability::CAP_SYS_PTRACE, KernelCapability::CAP_SYS_PTRACE),
        (Capability::CAP_SYS_PACCT, KernelCapability::CAP_SYS_PACCT),
        (Capability::CAP_SYS_ADMIN, KernelCapability::CAP_SYS_ADMIN),
        (Capability::CAP_SYS_BOOT, KernelCapability::CAP_SYS_BOOT),
        (Capability::CAP_SYS_NICE, KernelCapability::CAP_SYS_NICE),
        (Capability::CAP_SYS_RESOURCE, KernelCapability::CAP_SYS_RESOURCE),
        (Capability::CAP_SYS_TIME, KernelCapability::CAP_SYS_TIME),
        (Capability::CAP_SYS_TTY_CONFIG, KernelCapability::CAP_SYS_TTY_CONFIG),
        (Capability::CAP_MKNOD, KernelCapability::CAP_MKNOD),
        (Capability::CAP_LEASE, KernelCapability::CAP_LEASE),
        (Capability::CAP_AUDIT_WRITE, KernelCapability::CAP_AUDIT_WRITE),
        (Capability::CAP_AUDIT_CONTROL, KernelCapability::CAP_AUDIT_CONTROL),
        (Capability::CAP_SETFCAP, KernelCapability::CAP_SETFCAP),
        (Capability::CAP_MAC_OVERRIDE, KernelCapability::CAP_MAC_OVERRIDE),
        (Capability::CAP_MAC_ADMIN, KernelCapability::CAP_MAC_ADMIN),
        (Capability::CAP_SYSLOG, KernelCapability::CAP_SYSLOG),
        (Capability::CAP_WAKE_ALARM, KernelCapability::CAP_WAKE_ALARM),
        (Capability::CAP_BLOCK_SUSPEND, KernelCapability::CAP_BLOCK_SUSPEND),
        (Capability::CAP_AUDIT_READ, KernelCapability::CAP_AUDIT_READ),
        (Capability::CAP_PERFMON, KernelCapability::CAP_PERFMON),
        (Capability::CAP_BPF, KernelCapability::CAP_BPF),
        (Capability::CAP_CHECKPOINT_RESTORE, KernelCapability::CAP_CHECKPOINT_RESTORE),
    ]
}

#[test]
fn capability_becomes_the_kernel_capability_of_its_name() {
    for (cap, kernel) in pairs() {
        assert_eq!(KernelCapability::from(cap), kernel);
        assert_eq!(format!("{:?}", cap), kernel.to_string());
    }
    assert_eq!(KernelCapability::from(Capability::CAP_CHOWN).index(), 0);
    assert_eq!(KernelCapability::from(Capability::CAP_SYS_ADMIN).index(), 21);
    assert_eq!(KernelCapability::from(Capability::CAP_CHECKPOINT_RESTORE).index(), 40);
}

#[test]
fn capability_comes_back_from_the_kernel_capability() {
    for (cap, kernel) in pairs() {
        assert_eq!(Capability::from_kernel(kernel), Some(cap));
    }
}

#[test]
fn kernel_capabilities_are_distinct() {
    let all = pairs();
    for i in 0..all.len() {
        for j in 0..i {
            assert_ne!(KernelCapability::from(all[i].0), KernelCapability::from(all[j].0));
        }
    }
}

#[test]
fn all_capabilities_are_members_once() {
    let all = CapabilitySet::all();
    assert_eq!(all.members().len(), 41);
    assert_eq!(all.members().len(), caps::all().len());
    for (cap, _) in pairs() {
        assert!(all.contains(cap));
        assert_eq!(all.members().iter().filter(|c| **c == cap).count(), 1);
    }
}

#[test]
fn set_holds_no_member_twice() {
    let set = CapabilitySet::new();
    assert!(!set.contains(Capability::CAP_KILL));
    let set = set.with(Capability::CAP_KILL).with(Capability::CAP_BPF).with(Capability::CAP_KILL);
    assert_eq!(set.members(), &vec![Capability::CAP_KILL, Capability::CAP_BPF]);
    assert!(set.contains(Capability::CAP_KILL));
    assert!(!set.contains(Capability::CAP_CHOWN));
    assert_eq!(set.clone().members(), set.members());
}

#[test]
fn set_is_built_from_kernel_capabilities() {
    let set = CapabilitySet::from_kernel(&vec![
        KernelCapability::CAP_NET_RAW,
        KernelCapability::CAP_CHOWN,
        KernelCapability::CAP_NET_RAW,
    ]);
    assert_eq!(set.members(), &vec![Capability::CAP_NET_RAW, Capability::CAP_CHOWN]);
    assert!(CapabilitySet::from_kernel(&vec![]).members().is_empty());
}

#[test]
fn members_become_kernel_capabilities() {
    let set = CapabilitySet::new().with(Capability::CAP_KILL).with(Capability::CAP_BPF);
    let kernel = set.to_kernel();
    assert_eq!(kernel, vec![KernelCapability::CAP_KILL, KernelCapability::CAP_BPF]);
    assert_eq!(CapabilitySet::from_kernel(&kernel).members(), set.members());
}
