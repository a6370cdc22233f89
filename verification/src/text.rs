//! Text primitives that rest on outside code: lossy UTF-8 decoding,
//! duration formatting, and ANSI escape stripping.

use vstd::prelude::*;
use vstd::string::StringSliceAdditionalSpecFns;
use vstd::string::StrSliceExecFns;
use vstd::utf8::decode_utf8;
use vstd::utf8::encode_utf8;
use vstd::utf8::valid_utf8;

verus! {

/// The characters `String::from_utf8_lossy` yields for a byte sequence:
/// a function of the bytes alone.
pub uninterp spec fn lossy_text(bytes: Seq<u8>) -> Seq<char>;

/// Relies on `String::from_utf8_lossy`: the result depends only on the
/// bytes, and bytes that already form valid UTF-8 decode losslessly.
#[verifier::external_body]
pub(crate) fn decode_lossy(bytes: &[u8]) -> (r: String)
    ensures
        r@ == lossy_text(bytes@),
        valid_utf8(bytes@) ==> r@ == decode_utf8(bytes@),
{
    String::from_utf8_lossy(bytes).into_owned()
}

/// The text humantime produces for a whole number of seconds: a function
/// of the seconds alone.
pub uninterp spec fn elapsed_text(secs: u64) -> Seq<char>;

/// Relies on `humantime::format_duration`: the rendering depends only on
/// the duration, and a zero duration renders as "0s".
#[verifier::external_body]
pub(crate) fn format_elapsed(secs: u64) -> (r: String)
    ensures
        r@ == elapsed_text(secs),
        secs == 0 ==> r@ == "0s"@,
{
    humantime::format_duration(std::time::Duration::from_secs(secs)).to_string()
}

/// The bytes `strip_ansi_escapes::strip` leaves of a byte sequence: a
/// function of the bytes alone.
pub uninterp spec fn ansi_stripped(bytes: Seq<u8>) -> Seq<u8>;

/// Relies on `strip_ansi_escapes::strip`: removal of ANSI escape sequences
/// depends only on the bytes.
#[verifier::external_body]
fn strip_bytes(bytes: &[u8]) -> (r: Vec<u8>)
    ensures
        r@ == ansi_stripped(bytes@),
{
    strip_ansi_escapes::strip(bytes)
}

/// Relies on `String::from_utf8`: it succeeds exactly on valid UTF-8 and
/// then returns the decoded string.
#[verifier::external_body]
fn utf8_string(bytes: Vec<u8>) -> (r: Option<String>)
    ensures
        match r {
            Some(s) => valid_utf8(bytes@) && s@ == decode_utf8(bytes@),
            None => !valid_utf8(bytes@),
        },
{
    String::from_utf8(bytes).ok()
}

/// The text that stripping ANSI escape sequences leaves of `s`: the
/// stripped bytes, decoded; or `s` itself in the defensive case where the
/// stripped bytes are no longer valid UTF-8.
pub open spec fn stripped_text(s: Seq<char>) -> Seq<char> {
    let sb = ansi_stripped(encode_utf8(s));
    if valid_utf8(sb) {
        decode_utf8(sb)
    } else {
        s
    }
}

/// Removes ANSI escape sequences from a string.
pub fn strip_ansi_escapes(s: &str) -> (r: String)
    ensures
        r@ == stripped_text(s@),
{
    let bytes = s.as_bytes_vec();
    let stripped = strip_bytes(bytes.as_slice());
    match utf8_string(stripped) {
        Some(t) => t,
        None => s.to_owned(),
    }
}

/// String equality, decided on the UTF-8 bytes.
pub fn str_eq(a: &str, b: &str) -> (r: bool)
    ensures
        r == (a@ == b@),
{
    proof {
        vstd::utf8::encode_utf8_decode_utf8(a@);
        vstd::utf8::encode_utf8_decode_utf8(b@);
    }
    let ab = a.as_bytes();
    let bb = b.as_bytes();
    if ab.len() != bb.len() {
        return false;
    }
    let n = ab.len();
    let mut i: usize = 0;
    while i < n
        invariant
            i <= n,
            n == ab@.len(),
            ab@.len() == bb@.len(),
            ab@ == encode_utf8(a@),
            bb@ == encode_utf8(b@),
            decode_utf8(encode_utf8(a@)) == a@,
            decode_utf8(encode_utf8(b@)) == b@,
            forall|j: int| 0 <= j < i ==> ab@[j] == bb@[j],
        decreases n - i,
    {
        if ab[i] != bb[i] {
            return false;
        }
        i = i + 1;
    }
    proof {
        assert(ab@ =~= bb@);
    }
    true
}

} // verus!
