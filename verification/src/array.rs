//! The daemon's fixed-size text fields.
//!
//! Textual data crosses the boundary in fixed arrays of [`ARR_LENGTH`]
//! signed bytes, NUL-terminated. [`to_array_res`] turns a string into such
//! an array, refusing embedded NULs and overlong strings; [`from_array`]
//! reads one back.

use vstd::prelude::*;
use vstd::string::StringSliceAdditionalSpecFns;

use crate::errors::ArrayError;

verus! {

broadcast use {vstd::seq::group_seq_axioms, vstd::array::group_array_axioms};

/// The size of the daemon's fixed text fields.
pub const ARR_LENGTH: usize = 128;

/// Relies on memchr::memchr: the index of the first occurrence of the
/// needle, `None` when the haystack holds none.
pub assume_specification [ memchr::memchr ](needle: u8, haystack: &[u8]) -> (r: Option<usize>)
    ensures
        match r {
            Some(i) => i < haystack@.len() && haystack@[i as int] == needle && forall|j: int|
                0 <= j < i ==> haystack@[j] != needle,
            None => forall|j: int| 0 <= j < haystack@.len() ==> haystack@[j] != needle,
        },
;

/// Relies on core::str::from_utf8: `Ok` exactly on valid UTF-8, with the
/// string reading back the same bytes; the error's `valid_up_to` counts
/// the valid prefix, never past the end.
#[verifier::external_body]
fn utf8_from(bytes: &[u8]) -> (r: Result<&str, usize>)
    ensures
        r is Ok <==> vstd::utf8::valid_utf8(bytes@),
        match r {
            Ok(s) => s.spec_bytes() == bytes@,
            Err(i) => i <= bytes@.len(),
        },
{
    match core::str::from_utf8(bytes) {
        Ok(s) => Ok(s),
        Err(e) => Err(e.valid_up_to()),
    }
}

/// Converts a string into a daemon text field: its bytes, NUL-padded.
/// A string of [`ARR_LENGTH`] bytes or more is `TooLong` with its length;
/// one holding a NUL is `NullPresent` with the first NUL's position and
/// the string itself.
pub fn to_array_res(s: &str) -> (r: Result<[i8; 128], ArrayError>)
    ensures
        match r {
            Ok(arr) => s.spec_bytes().len() < 128 && (forall|j: int|
                0 <= j < s.spec_bytes().len() ==> s.spec_bytes()[j] != 0) && (forall|j: int|
                0 <= j < s.spec_bytes().len() ==> arr@[j] == s.spec_bytes()[j] as i8) && (forall|
                j: int,
            |
                s.spec_bytes().len() <= j < 128 ==> arr@[j] == 0i8),
            Err(e) => match e {
                ArrayError::TooLong(l) => s.spec_bytes().len() >= 128 && l == s.spec_bytes().len(),
                ArrayError::NullPresent(pos, t) => s.spec_bytes().len() < 128 && pos
                    < s.spec_bytes().len() && s.spec_bytes()[pos as int] == 0 && (forall|j: int|
                    0 <= j < pos ==> s.spec_bytes()[j] != 0) && t@ == s@,
            },
        },
{
    // Refusing byte length 128 itself keeps room for the trailing NUL.
    let bytes = s.as_bytes();
    let byte_len = bytes.len();
    if byte_len >= 128 {
        return Err(ArrayError::TooLong(byte_len));
    }
    if let Some(ind) = memchr::memchr(0, bytes) {
        return Err(ArrayError::NullPresent(ind, s.to_owned()));
    }
    let mut arr: [i8; 128] = [0; 128];
    let mut i: usize = 0;
    while i < bytes.len()
        invariant
            i <= bytes.len(),
            bytes@ == s.spec_bytes(),
            bytes@.len() < 128,
            forall|j: int| 0 <= j < i ==> arr@[j] == bytes@[j] as i8,
            forall|j: int| i <= j < 128 ==> arr@[j] == 0i8,
        decreases bytes.len() - i,
    {
        arr[i] = #[verifier::truncate] (bytes[i] as i8);
        i += 1;
    }
    Ok(arr)
}

/// How many leading bytes of a text field come before its first NUL; the
/// whole length when none occurs.
pub open spec fn c_text_len(a: Seq<i8>, i: int) -> int
    decreases a.len() - i,
{
    if i < 0 || i >= a.len() {
        a.len() as int
    } else if a[i] == 0 {
        i
    } else {
        c_text_len(a, i + 1)
    }
}

/// The bytes of a text field up to its first NUL, read back as unsigned.
pub open spec fn c_text_bytes(a: Seq<i8>) -> Seq<u8> {
    Seq::new(c_text_len(a, 0) as nat, |j: int| a[j] as u8)
}

/// Reads a daemon text field back: the bytes before the first NUL, decoded
/// as UTF-8. The error carries how many of those bytes were valid.
pub fn from_array(s: &[i8; 128]) -> (r: Result<String, usize>)
    ensures
        match r {
            Ok(t) => vstd::utf8::encode_utf8(t@) == c_text_bytes(s@),
            Err(i) => !vstd::utf8::valid_utf8(c_text_bytes(s@)) && i <= c_text_bytes(s@).len(),
        },
{
    let mut prefix: Vec<u8> = Vec::new();
    let mut i: usize = 0;
    let mut stop: bool = false;
    while i < 128 && !stop
        invariant
            i <= 128,
            s@.len() == 128,
            !stop ==> c_text_len(s@, 0) == c_text_len(s@, i as int),
            !stop ==> forall|j: int| 0 <= j < i ==> s@[j] != 0,
            stop ==> c_text_len(s@, 0) == i - 1 && i >= 1,
            !stop ==> prefix@.len() == i,
            stop ==> prefix@.len() == i - 1,
            forall|j: int| 0 <= j < prefix@.len() ==> prefix@[j] == s@[j] as u8,
        decreases 128 - i, (if stop { 0int } else { 1int }),
    {
        let b = s[i];
        if b == 0 {
            stop = true;
        } else {
            prefix.push(#[verifier::truncate] (b as u8));
        }
        i += 1;
    }
    proof {
        if !stop {
            assert(c_text_len(s@, 128) == 128);
        }
        assert(prefix@ =~= c_text_bytes(s@));
    }
    match utf8_from(prefix.as_slice()) {
        Ok(t) => Ok(t.to_owned()),
        Err(i) => Err(i),
    }
}

/// `None` for the empty string, the string itself otherwise.
pub fn empty_to_none(s: &str) -> (r: Option<&str>)
    ensures
        r == if s@.len() == 0 {
            None::<&str>
        } else {
            Some(s)
        },
{
    if s.is_empty() {
        None
    } else {
        Some(s)
    }
}

} // verus!
