//! Paths of the file system.
use vstd::prelude::*;
use vstd::utf8::{decode_utf8, encode_utf8, valid_utf8};
use vstd::utf8::{encode_utf8_decode_utf8, encode_utf8_valid_utf8};

verus! {

/// The text that `String::from_utf8_lossy` gives for bytes that are not UTF-8.
pub uninterp spec fn lossy_text(bytes: Seq<u8>) -> Seq<char>;

/// The text that a path with the bytes `bytes` is shown as.
pub open spec fn display_text(bytes: Seq<u8>) -> Seq<char> {
    if valid_utf8(bytes) {
        decode_utf8(bytes)
    } else {
        lossy_text(bytes)
    }
}

/// `String::from_utf8_lossy`: the text that `bytes` encode. Where they are not
/// UTF-8, the text has replacement characters, and only has a name here.
#[verifier::external_body]
fn from_utf8_lossy(bytes: &Vec<u8>) -> (r: String)
    ensures
        valid_utf8(bytes@) ==> r@ == decode_utf8(bytes@),
        !valid_utf8(bytes@) ==> r@ == lossy_text(bytes@),
{
    String::from_utf8_lossy(bytes).into_owned()
}

/// `String::from_utf8`: the text that `bytes` encode, if they are UTF-8.
#[verifier::external_body]
fn from_utf8(bytes: Vec<u8>) -> (r: Option<String>)
    ensures
        r is Some <==> valid_utf8(bytes@),
        r matches Some(s) ==> s@ == decode_utf8(bytes@),
{
    String::from_utf8(bytes).ok()
}

/// A path as the operating system takes it: bytes, of no encoding.
#[derive(Debug)]
pub struct RawPath {
    pub bytes: Vec<u8>,
}

impl View for RawPath {
    type V = Seq<u8>;

    open spec fn view(&self) -> Seq<u8> {
        self.bytes@
    }
}

impl Clone for RawPath {
    fn clone(&self) -> (r: Self)
        ensures
            r@ == self@,
    {
        let bytes = self.bytes.clone();
        assert(bytes@ =~= self.bytes@);
        RawPath { bytes }
    }
}

impl RawPath {
    /// The path of the given bytes.
    pub fn new(bytes: Vec<u8>) -> (r: Self)
        ensures
            r@ == bytes@,
    {
        RawPath { bytes }
    }

    /// The path as text for people to read.
    pub fn display(&self) -> (r: String)
        ensures
            r@ == display_text(self@),
    {
        from_utf8_lossy(&self.bytes)
    }

    /// The path as text, if it is text.
    pub fn to_str(&self) -> (r: Option<String>)
        ensures
            r is Some <==> valid_utf8(self@),
            r matches Some(s) ==> s@ == decode_utf8(self@),
    {
        let path = self.clone();
        from_utf8(path.bytes)
    }
}

/// A path that is text is shown as that text, and any other as its lossy text.
pub proof fn law_text_is_shown_as_it_is(bytes: Seq<u8>, text: Seq<char>)
    ensures
        display_text(encode_utf8(text)) == text,
        !valid_utf8(bytes) ==> display_text(bytes) == lossy_text(bytes),
{
    broadcast use {encode_utf8_valid_utf8, encode_utf8_decode_utf8};

}

} // verus!
