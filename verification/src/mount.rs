//! Mount points.
use vstd::prelude::*;
use vstd::string::StringExecFns;
use crate::action::Action;
use crate::action::ActionView;
use crate::path::RawPath;
use crate::path::display_text;
use crate::text::owned;

verus! {

/// The text that `nix::mount::MsFlags` shows for flags with the bits `bits`.
pub uninterp spec fn flags_text(bits: u64) -> Seq<char>;

/// The `Debug` text of `nix::mount::MsFlags`: the names that the flags in `bits`
/// have on the platform. Bits of no flag are passed over. No flag at all is
/// shown as empty. Of the names themselves nothing is said.
#[verifier::external_body]
fn flags_debug(bits: u64) -> (r: String)
    ensures
        r@ == flags_text(bits),
        bits == 0 ==> r@ == "(empty)"@,
{
    format!("{:?}", nix::mount::MsFlags::from_bits_truncate(bits))
}

/// Whether `nix::mount::MsFlags::from_bits` takes the bits `bits`.
pub uninterp spec fn flags_known(bits: u64) -> bool;

/// Whether every bit of `bits` belongs to a flag on Linux and on Android alike:
/// all bits of the lower half do, but for two.
pub open spec fn common_flags(bits: u64) -> bool {
    bits & 0xffff_ffff_0000_0300 == 0
}

/// Whether `bits` has one of the two bits that belong to no flag.
pub open spec fn has_free_bit(bits: u64) -> bool {
    bits & 0x300 != 0
}

/// `nix::mount::MsFlags::from_bits`: whether every bit of `bits` belongs to a
/// flag that the platform has. The bits of flags that Linux and Android have in
/// common are taken, each and together, and a bit that belongs to no flag on
/// either is not. The upper half, where only Android has a flag, is left to the
/// name.
#[verifier::external_body]
fn all_flags_known(bits: u64) -> (r: bool)
    ensures
        r == flags_known(bits),
        common_flags(bits) ==> r,
        has_free_bit(bits) ==> !r,
{
    nix::mount::MsFlags::from_bits(bits).is_some()
}

/// Flags of a mount call, each of which the platform has.
#[derive(Clone, Copy, Debug)]
pub struct MountFlags {
    bits: u64,
}

impl View for MountFlags {
    type V = u64;

    closed spec fn view(&self) -> u64 {
        self.bits
    }
}

impl MountFlags {
    #[verifier::type_invariant]
    closed spec fn all_known(self) -> bool {
        flags_known(self.bits)
    }

    /// The flags with the bits `bits`, if they are flags.
    pub fn from_bits(bits: u64) -> (r: Option<MountFlags>)
        ensures
            r is Some <==> flags_known(bits),
            common_flags(bits) ==> r is Some,
            has_free_bit(bits) ==> r is None,
            r matches Some(flags) ==> flags@ == bits,
    {
        if all_flags_known(bits) {
            Some(MountFlags { bits })
        } else {
            None
        }
    }

    /// The bits of the flags.
    pub fn bits(&self) -> (r: u64)
        ensures
            r == self@,
            flags_known(self@),
    {
        proof {
            use_type_invariant(self);
        }
        self.bits
    }
}

/// Instructions for mount system call done in init
#[derive(Debug)]
pub struct Mount {
    pub source: Option<RawPath>,
    pub target: RawPath,
    pub fstype: Option<String>,
    pub flags: MountFlags,
    pub data: Option<String>,
    pub error_msg: String,
}

/// What a [`Mount`] holds.
#[verifier::ext_equal]
pub struct MountView {
    pub source: Option<Seq<u8>>,
    pub target: Seq<u8>,
    pub fstype: Option<Seq<char>>,
    pub flags: u64,
    pub data: Option<Seq<char>>,
    pub error_msg: Seq<char>,
}

/// What an optional value holds.
pub open spec fn option_view<T: View>(o: Option<T>) -> Option<T::V> {
    match o {
        Some(t) => Some(t@),
        None => None,
    }
}

/// The text of an optional text.
pub open spec fn text_or_empty(s: Option<Seq<char>>) -> Seq<char> {
    s.unwrap_or(Seq::empty())
}

/// The message for a failed mount that is shown as the given texts.
pub open spec fn mount_message(
    source: Seq<char>,
    fstype: Seq<char>,
    target: Seq<char>,
    flags: Seq<char>,
    data: Seq<char>,
) -> Seq<char> {
    "Failed to mount '"@ + source + "' of type '"@ + fstype + "' on '"@ + target
        + "' with flags '"@ + flags + "' and data '"@ + data + "'"@
}

/// The message for a failed mount that is shown as the given texts.
pub fn mount_error_text(
    source: &str,
    fstype: &str,
    target: &str,
    flags: &str,
    data: &str,
) -> (r: String)
    ensures
        r@ == mount_message(source@, fstype@, target@, flags@, data@),
{
    let mut text = owned("Failed to mount '");
    text.append(source);
    text.append("' of type '");
    text.append(fstype);
    text.append("' on '");
    text.append(target);
    text.append("' with flags '");
    text.append(flags);
    text.append("' and data '");
    text.append(data);
    text.append("'");
    text
}

/// The message for a mount that failed.
pub open spec fn mount_error(
    source: Option<Seq<u8>>,
    target: Seq<u8>,
    fstype: Option<Seq<char>>,
    flags: u64,
    data: Option<Seq<char>>,
) -> Seq<char> {
    let source_text = match source {
        Some(path) => display_text(path),
        None => Seq::empty(),
    };
    mount_message(
        source_text,
        text_or_empty(fstype),
        display_text(target),
        flags_text(flags),
        text_or_empty(data),
    )
}

impl View for Mount {
    type V = MountView;

    open spec fn view(&self) -> MountView {
        MountView {
            source: option_view(self.source),
            target: self.target@,
            fstype: option_view(self.fstype),
            flags: self.flags@,
            data: option_view(self.data),
            error_msg: self.error_msg@,
        }
    }
}

impl Clone for Mount {
    fn clone(&self) -> (r: Self)
        ensures
            r@ == self@,
    {
        Mount {
            source: match &self.source {
                Some(path) => Some(path.clone()),
                None => None,
            },
            target: self.target.clone(),
            fstype: match &self.fstype {
                Some(text) => Some(text.clone()),
                None => None,
            },
            flags: self.flags,
            data: match &self.data {
                Some(text) => Some(text.clone()),
                None => None,
            },
            error_msg: self.error_msg.clone(),
        }
    }
}

impl Mount {
    /// The mount of `source` on `target`, with the message for its failure.
    pub fn new(
        source: Option<RawPath>,
        target: RawPath,
        fstype: Option<&'static str>,
        flags: MountFlags,
        data: Option<String>,
    ) -> (r: Mount)
        ensures
            r@ == (MountView {
                source: option_view(source),
                target: target@,
                fstype: option_view(fstype),
                flags: flags@,
                data: option_view(data),
                error_msg: mount_error(
                    option_view(source),
                    target@,
                    option_view(fstype),
                    flags@,
                    option_view(data),
                ),
            }),
    {
        let source_text = match &source {
            Some(path) => path.display(),
            None => String::new(),
        };
        let fstype_text = match fstype {
            Some(text) => owned(text),
            None => String::new(),
        };
        let data_text = match &data {
            Some(text) => text.clone(),
            None => String::new(),
        };
        let target_text = target.display();
        let flags_text = flags_debug(flags.bits());
        let error_msg = mount_error_text(
            source_text.as_str(),
            fstype_text.as_str(),
            target_text.as_str(),
            flags_text.as_str(),
            data_text.as_str(),
        );
        let fstype = match fstype {
            Some(text) => Some(owned(text)),
            None => None,
        };
        Mount { source, target, fstype, flags, data, error_msg }
    }

    /// Execute this mount call
    pub fn mount(&self) -> (r: Action)
        ensures
            r@ == ActionView::Mount(self@),
            flags_known(self@.flags),
    {
        proof {
            use_type_invariant(&self.flags);
        }
        Action::Mount(self.clone())
    }
}

/// The message for a failed mount shows the source, the type, the target, the
/// flags and the data, each as it is and in this order, and the rest of it is the
/// same for every mount. What is not given is shown as nothing.
pub proof fn law_mount_error_shows_the_mount(
    source: Option<Seq<u8>>,
    target: Seq<u8>,
    fstype: Option<Seq<char>>,
    flags: u64,
    data: Option<Seq<char>>,
)
    ensures
        ({
            let from = if source is Some {
                display_text(source->0)
            } else {
                Seq::empty()
            };
            let kind = if fstype is Some {
                fstype->0
            } else {
                Seq::empty()
            };
            let options = if data is Some {
                data->0
            } else {
                Seq::empty()
            };
            mount_error(source, target, fstype, flags, data) == "Failed to mount '"@ + from
                + "' of type '"@ + kind + "' on '"@ + display_text(target) + "' with flags '"@
                + flags_text(flags) + "' and data '"@ + options + "'"@
        }),
{
}

} // verus!
