//! Byte and character helpers shared by the rest of the crate: UTF-8 checks on raw
//! arguments, the UTF-8 encoding of a single `char`, and byte-wise string comparison.
use vstd::prelude::*;
use vstd::string::*;
use vstd::utf8::*;

verus! {

broadcast use vstd::utf8::group_utf8_lib;

/// The byte `-`.
pub const DASH: u8 = 45u8;

/// The byte `=`.
pub const EQUALS: u8 = 61u8;

/// Checks `bytes` with `std::str::from_utf8`.
///
/// Trusted: as the standard library documents, the call succeeds exactly when the bytes
/// are valid UTF-8, and the string slice it returns consists of those same bytes.
#[verifier::external_body]
fn std_from_utf8(bytes: &[u8]) -> (r: Option<&str>)
    ensures
        r is Some <==> valid_utf8(bytes@),
        r matches Some(s) ==> s.spec_bytes() == bytes@,
{
    std::str::from_utf8(bytes).ok()
}

/// What `String::from_utf8_lossy` makes of a byte sequence.
pub uninterp spec fn lossy_text(bytes: Seq<u8>) -> Seq<char>;

/// Converts `bytes` with `String::from_utf8_lossy`.
///
/// Trusted: the result is the name `lossy_text` applied to the bytes; as the standard
/// library documents, bytes that are valid UTF-8 come back unchanged (no replacement
/// character is inserted). What replaces invalid sequences is left unsaid.
#[verifier::external_body]
pub fn lossy_string(bytes: &[u8]) -> (r: String)
    ensures
        r@ == lossy_text(bytes@),
        valid_utf8(bytes@) ==> r@ == decode_utf8(bytes@),
{
    String::from_utf8_lossy(bytes).into_owned()
}

/// Reads `bytes` as UTF-8 text: `Some` exactly when they are valid UTF-8, holding the
/// characters they encode.
pub fn utf8_text(bytes: &[u8]) -> (r: Option<&str>)
    ensures
        r is Some <==> valid_utf8(bytes@),
        r matches Some(s) ==> s@ == decode_utf8(bytes@) && s.spec_bytes() == bytes@,
{
    let r = std_from_utf8(bytes);
    if let Some(s) = r {
        proof {
            assert(decode_utf8(encode_utf8(s@)) == s@);
        }
    }
    r
}

/// The UTF-8 bytes of a string slice, copied into a vector.
pub fn str_bytes(s: &str) -> (r: Vec<u8>)
    ensures
        r@ == s.spec_bytes(),
        r@ == encode_utf8(s@),
{
    vstd::slice::slice_to_vec(s.as_bytes())
}

/// The UTF-8 encoding of one character.
pub fn char_bytes(c: char) -> (r: Vec<u8>)
    ensures
        r@ == encode_utf8(seq![c]),
        r@ == encode_scalar(c as u32),
        1 <= r@.len() <= 4,
{
    let v = c as u32;
    let mut r: Vec<u8> = Vec::new();
    if v <= 0x7F {
        r.push((v & 0x7F) as u8);
    } else if v <= 0x7FF {
        r.push(0xC0 | ((v >> 6) & 0x1F) as u8);
        r.push(0x80 | (v & 0x3F) as u8);
    } else if v <= 0xFFFF {
        r.push(0xE0 | ((v >> 12) & 0x0F) as u8);
        r.push(0x80 | ((v >> 6) & 0x3F) as u8);
        r.push(0x80 | (v & 0x3F) as u8);
    } else {
        r.push(0xF0 | ((v >> 18) & 0x7) as u8);
        r.push(0x80 | ((v >> 12) & 0x3F) as u8);
        r.push(0x80 | ((v >> 6) & 0x3F) as u8);
        r.push(0x80 | (v & 0x3F) as u8);
    }
    proof {
        let cs = seq![c];
        assert(cs.drop_first() =~= Seq::<char>::empty());
        assert(encode_utf8(cs) == encode_scalar(cs[0] as u32) + encode_utf8(cs.drop_first()));
        assert(is_scalar(v));
        assert(r@ =~= encode_scalar(v));
    }
    r
}

/// Byte-wise equality of two byte sequences.
pub fn bytes_equal(a: &[u8], b: &[u8]) -> (r: bool)
    ensures
        r <==> a@ == b@,
{
    if a.len() != b.len() {
        return false;
    }
    let mut i: usize = 0;
    while i < a.len()
        invariant
            a@.len() == b@.len(),
            i <= a@.len(),
            forall|j: int| 0 <= j < i ==> a@[j] == b@[j],
        decreases a@.len() - i,
    {
        if a[i] != b[i] {
            return false;
        }
        i = i + 1;
    }
    assert(a@ =~= b@);
    true
}

/// Equality of two string slices, decided on their bytes.
pub fn str_equal(a: &str, b: &str) -> (r: bool)
    ensures
        r <==> a@ == b@,
{
    let r = bytes_equal(a.as_bytes(), b.as_bytes());
    proof {
        assert(decode_utf8(encode_utf8(a@)) == a@);
        assert(decode_utf8(encode_utf8(b@)) == b@);
    }
    r
}

} // verus!
