//! Bytes as UTF-8.

use vstd::prelude::*;
use vstd::utf8::{
    decode_utf8, length_of_first_scalar, pop_first_scalar, valid_first_scalar, valid_utf8,
};

verus! {

/// What `String::from_utf8_lossy` reads in bytes that need not be UTF-8.
pub uninterp spec fn utf8_lossy(bytes: Seq<u8>) -> Seq<char>;

/// `String::from_utf8_lossy`: a function of the bytes alone, and of bytes that are UTF-8 the text
/// they encode. How many replacement characters stand for what is not UTF-8 is left unsaid.
#[verifier::external_body]
pub(crate) fn decode_lossy(bytes: &[u8]) -> (s: String)
    ensures
        s@ == utf8_lossy(bytes@),
        valid_utf8(bytes@) ==> s@ == decode_utf8(bytes@),
{
    String::from_utf8_lossy(bytes).into_owned()
}

/// How many bytes the scalar at `at` takes, if a scalar stands there.
fn first_scalar(bytes: &[u8], at: usize) -> (r: Option<usize>)
    requires
        at < bytes@.len(),
    ensures
        match r {
            Some(n) => {
                &&& valid_first_scalar(bytes@.skip(at as int))
                &&& n == length_of_first_scalar(bytes@.skip(at as int))
                &&& 0 < n <= bytes@.len() - at
            },
            None => !valid_first_scalar(bytes@.skip(at as int)),
        },
{
    let left: usize = bytes.len() - at;
    let b0: u8 = bytes[at];
    if b0 <= 0x7f {
        assert((b0 & 0x7f) as u32 <= 0x7f) by (bit_vector);
        return Some(1);
    }
    if b0 < 0xc0 || b0 > 0xf7 || left < 2 {
        return None;
    }
    let b1: u8 = bytes[at + 1];
    if b1 < 0x80 || b1 > 0xbf {
        return None;
    }
    if b0 <= 0xdf {
        let c: u32 = (((b0 & 0x1f) as u32) << 6) | ((b1 & 0x3f) as u32);
        assert((((b0 & 0x1f) as u32) << 6) | ((b1 & 0x3f) as u32) < 0x800) by (bit_vector);
        return if 0x80 <= c {
            Some(2)
        } else {
            None
        };
    }
    if left < 3 {
        return None;
    }
    let b2: u8 = bytes[at + 2];
    if b2 < 0x80 || b2 > 0xbf {
        return None;
    }
    if b0 <= 0xef {
        let c: u32 = (((b0 & 0x0f) as u32) << 12) | (((b1 & 0x3f) as u32) << 6) | ((b2 & 0x3f) as u32);
        return if 0x800 <= c && !(0xd800 <= c && c <= 0xdfff) {
            Some(3)
        } else {
            None
        };
    }
    if left < 4 {
        return None;
    }
    let b3: u8 = bytes[at + 3];
    if b3 < 0x80 || b3 > 0xbf {
        return None;
    }
    let c: u32 = (((b0 & 0x07) as u32) << 18) | (((b1 & 0x3f) as u32) << 12) | (((b2
        & 0x3f) as u32) << 6) | ((b3 & 0x3f) as u32);
    if 0x10000 <= c && c <= 0x10ffff {
        Some(4)
    } else {
        None
    }
}

/// Whether `bytes` are UTF-8.
pub fn is_utf8(bytes: &[u8]) -> (r: bool)
    ensures
        r == valid_utf8(bytes@),
{
    let mut at: usize = 0;
    assert(bytes@.skip(0) =~= bytes@);
    while at < bytes.len()
        invariant
            at <= bytes@.len(),
            valid_utf8(bytes@) == valid_utf8(bytes@.skip(at as int)),
        decreases bytes@.len() - at,
    {
        match first_scalar(bytes, at) {
            Some(n) => {
                let ghost rest = bytes@.skip(at as int);
                assert(pop_first_scalar(rest) =~= bytes@.skip(at + n));
                at += n;
            },
            None => {
                return false;
            },
        }
    }
    true
}

} // verus!
