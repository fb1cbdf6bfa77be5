use nix::mount::MsFlags;
use northstar_init::action::Action;
use northstar_init::mount::{mount_error_text, Mount, MountFlags};
use northstar_init::path::RawPath;
use northstar_init::text::{decimal_text, digits_text};

fn path(text: &str) -> RawPath {
    RawPath::new(text.as_bytes().to_vec())
}

fn flags(bits: u64) -> MountFlags {
    MountFlags::from_bits(bits).unwrap()
}

#[test]
fn mount_keeps_its_arguments() {
    let mount = Mount::new(
        Some(path("/dev/loop0")),
        path("/mnt/app"),
        Some("squashfs"),
        flags((MsFlags::MS_RDONLY | MsFlags::MS_NOSUID).bits()),
        Some("noacl".to_string()),
    );
    assert_eq!(mount.source.unwrap().bytes, b"/dev/loop0".to_vec());
    assert_eq!(mount.target.bytes, b"/mnt/app".to_vec());
    assert_eq!(mount.fstype, Some("squashfs".to_string()));
    assert_eq!(mount.flags.bits(), 3);
    assert_eq!(mount.data, Some("noacl".to_string()));
    assert_eq!(
        mount.error_msg,
        "Failed to mount '/dev/loop0' of type 'squashfs' on '/mnt/app' with flags \
         'MS_RDONLY | MS_NOSUID' and data 'noacl'"
    );
}

#[test]
fn mount_without_options_has_empty_texts() {
    let mount = Mount::new(None, path("/proc"), None, flags(0), None);
    assert!(mount.source.is_none());
    assert_eq!(
        mount.error_msg,
        "Failed to mount '' of type '' on '/proc' with flags '(empty)' and data ''"
    );
}

#[test]
fn mount_of_a_path_that_is_no_text() {
    let target = RawPath::new(vec![b'/', 0xff, b'a']);
    assert!(target.to_str().is_none());
    assert_eq!(target.display(), "/\u{fffd}a");
    let mount = Mount::new(None, target, Some("tmpfs"), flags(MsFlags::MS_BIND.bits()), None);
    assert_eq!(
        mount.error_msg,
        "Failed to mount '' of type 'tmpfs' on '/\u{fffd}a' with flags 'MS_BIND' and data ''"
    );
}

#[test]
fn path_that_is_text() {
    let p = path("/gr\u{fc}n");
    assert_eq!(p.to_str(), Some("/gr\u{fc}n".to_string()));
    assert_eq!(p.display(), "/gr\u{fc}n");
    assert_eq!(p.clone().bytes, p.bytes);
}

#[test]
fn mount_call_is_that_of_the_mount() {
    let mount = Mount::new(Some(path("a")), path("b"), Some("c"), flags(1), Some("d".to_string()));
    let action = mount.mount();
    assert_eq!(action.failure(), mount.error_msg);
    match action {
        Action::Mount(m) => assert_eq!(format!("{:?}", m), format!("{:?}", mount)),
        other => panic!("unexpected action {:?}", other),
    }
}

#[test]
fn decimal_notation() {
    assert_eq!(decimal_text(0), "0");
    assert_eq!(decimal_text(7), "7");
    assert_eq!(decimal_text(10), "10");
    assert_eq!(decimal_text(1234567890), "1234567890");
    assert_eq!(decimal_text(-1), "-1");
    assert_eq!(decimal_text(i64::MIN), i64::MIN.to_string());
    assert_eq!(decimal_text(i64::MAX), i64::MAX.to_string());
}

#[test]
fn digits_of_large_numbers() {
    assert_eq!(digits_text(0), "0");
    assert_eq!(digits_text(255), "255");
    assert_eq!(digits_text(u64::MAX), u64::MAX.to_string());
}

#[test]
fn flags_are_those_of_the_platform() {
    assert_eq!(MountFlags::from_bits(0).unwrap().bits(), 0);
    let all = MsFlags::all().bits();
    assert_eq!(MountFlags::from_bits(all).unwrap().bits(), all);
    let free = !all;
    assert!(free != 0);
    assert!(MountFlags::from_bits(free).is_none());
    assert!(MountFlags::from_bits(free | MsFlags::MS_RDONLY.bits()).is_none());
    assert!(MountFlags::from_bits(u64::MAX).is_none());
}

#[test]
fn flags_of_every_platform_are_taken() {
    let named = vec![
        MsFlags::MS_RDONLY,
        MsFlags::MS_NOSUID,
        MsFlags::MS_NODEV,
        MsFlags::MS_NOEXEC,
        MsFlags::MS_REMOUNT,
        MsFlags::MS_BIND,
        MsFlags::MS_MOVE,
        MsFlags::MS_REC,
        MsFlags::MS_PRIVATE,
        MsFlags::MS_SLAVE,
        MsFlags::MS_SHARED,
        MsFlags::MS_RELATIME,
    ];
    let mut together = 0;
    for flag in named {
        assert_eq!(flags(flag.bits()).bits(), flag.bits());
        together |= flag.bits();
        assert_eq!(flags(together).bits(), together);
    }
    for place in 0..32 {
        let bit: u64 = 1 << place;
        assert_eq!(MountFlags::from_bits(bit).is_some(), bit != 0x100 && bit != 0x200);
    }
    assert_eq!(flags(0xffff_fcff).bits(), 0xffff_fcff);
    assert!(MountFlags::from_bits(0x101).is_none());
    assert!(MountFlags::from_bits(0xffff_ffff).is_none());
}

#[test]
fn mount_error_is_made_of_its_texts() {
    assert_eq!(
        mount_error_text("s", "f", "t", "g", "d"),
        "Failed to mount 's' of type 'f' on 't' with flags 'g' and data 'd'"
    );
    assert_eq!(
        mount_error_text("", "", "", "", ""),
        "Failed to mount '' of type '' on '' with flags '' and data ''"
    );
}
