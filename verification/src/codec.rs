//! Fixed-width little-endian integers and UTF-16 text, read out of bytes.

use vstd::prelude::*;
use vstd::slice::slice_subrange;
use vstd::utf8::{decode_utf8, valid_utf8};

verus! {

/// The 16-bit value that two bytes hold, least significant byte first.
pub open spec fn le_u16(b: Seq<u8>) -> u16
    recommends
        b.len() == 2,
{
    (b[0] as int + 256 * (b[1] as int)) as u16
}

/// The 32-bit value that four bytes hold, least significant byte first.
pub open spec fn le_u32(b: Seq<u8>) -> u32
    recommends
        b.len() == 4,
{
    (b[0] as int + 256 * (b[1] as int) + 65536 * (b[2] as int) + 16777216 * (b[3] as int)) as u32
}

/// The 64-bit value that eight bytes hold, least significant byte first.
pub open spec fn le_u64(b: Seq<u8>) -> u64
    recommends
        b.len() == 8,
{
    (le_u32(b.subrange(0, 4)) as int + 4294967296 * (le_u32(b.subrange(4, 8)) as int)) as u64
}

/// The UTF-16 code units that a run of bytes holds, two bytes to a unit,
/// least significant byte first. A single byte left over at the end is dropped.
pub open spec fn utf16_units(b: Seq<u8>) -> Seq<u16> {
    Seq::new((b.len() / 2) as nat, |i: int| le_u16(b.subrange(2 * i, 2 * i + 2)))
}

/// The text that `String::from_utf16_lossy` makes of a run of UTF-16 code
/// units: each well-formed unit or surrogate pair gives its character, every
/// unpaired surrogate gives U+FFFD.
pub uninterp spec fn utf16_lossy(units: Seq<u16>) -> Seq<char>;

/// Copies a slice into an array of the same length.
pub fn clone_into_array<const N: usize>(slice: &[u8]) -> (a: [u8; N])
    requires
        slice@.len() == N,
    ensures
        a@ == slice@,
{
    let mut a: [u8; N] = [0u8; N];
    let mut i: usize = 0;
    while i < N
        invariant
            i <= N,
            slice@.len() == N,
            forall|j: int| 0 <= j < i ==> a@[j] == slice@[j],
        decreases N - i,
    {
        a[i] = slice[i];
        i += 1;
    }
    assert(a@ =~= slice@);
    a
}

/// Assembles a 16-bit integer from its little-endian bytes.
pub fn u16_from_le(b: [u8; 2]) -> (r: u16)
    ensures
        r == le_u16(b@),
{
    let lo: u16 = b[0] as u16;
    let hi: u16 = b[1] as u16;
    lo + hi * 256
}

/// Assembles a 32-bit integer from its little-endian bytes.
pub fn u32_from_le(b: [u8; 4]) -> (r: u32)
    ensures
        r == le_u32(b@),
{
    let b0: u32 = b[0] as u32;
    let b1: u32 = b[1] as u32;
    let b2: u32 = b[2] as u32;
    let b3: u32 = b[3] as u32;
    b0 + b1 * 256 + b2 * 65536 + b3 * 16777216
}

/// Assembles a 64-bit integer from its little-endian bytes.
pub fn u64_from_le(b: [u8; 8]) -> (r: u64)
    ensures
        r == le_u64(b@),
{
    let lo: u32 = u32_from_le(clone_into_array::<4>(slice_subrange(b.as_slice(), 0, 4)));
    let hi: u32 = u32_from_le(clone_into_array::<4>(slice_subrange(b.as_slice(), 4, 8)));
    lo as u64 + (hi as u64) * 4294967296
}

/// Reads the little-endian 32-bit integer that starts at offset `at`.
pub fn read_u32_at(bytes: &[u8], at: usize) -> (r: u32)
    requires
        at + 4 <= bytes@.len(),
    ensures
        r == le_u32(bytes@.subrange(at as int, at + 4)),
{
    let len: usize = bytes.len();
    assert(at + 4 <= len);
    u32_from_le(clone_into_array::<4>(slice_subrange(bytes, at, at + 4)))
}

/// Reads the little-endian 64-bit integer that starts at offset `at`.
pub fn read_u64_at(bytes: &[u8], at: usize) -> (r: u64)
    requires
        at + 8 <= bytes@.len(),
    ensures
        r == le_u64(bytes@.subrange(at as int, at + 8)),
{
    let len: usize = bytes.len();
    assert(at + 8 <= len);
    u64_from_le(clone_into_array::<8>(slice_subrange(bytes, at, at + 8)))
}

/// Splits a run of bytes into UTF-16 code units.
pub fn utf16_units_of(bytes: &[u8]) -> (units: Vec<u16>)
    ensures
        units@ == utf16_units(bytes@),
{
    let len: usize = bytes.len();
    let n: usize = len / 2;
    let mut units: Vec<u16> = Vec::new();
    let mut i: usize = 0;
    while i < n
        invariant
            len == bytes@.len(),
            n == len / 2,
            i <= n,
            units@.len() == i,
            forall|j: int| 0 <= j < i ==> units@[j] == le_u16(#[trigger] bytes@.subrange(2 * j, 2 * j + 2)),
        decreases n - i,
    {
        let unit: u16 = u16_from_le(clone_into_array::<2>(slice_subrange(bytes, 2 * i, 2 * i + 2)));
        units.push(unit);
        i += 1;
    }
    assert(units@ =~= utf16_units(bytes@));
    units
}

/// Calls `String::from_utf16_lossy`. Trusted: the text returned is the one
/// that the standard library makes of these code units, which depends on
/// the units alone.
#[verifier::external_body]
fn string_from_utf16_lossy(units: &[u16]) -> (s: String)
    ensures
        s@ == utf16_lossy(units@),
{
    String::from_utf16_lossy(units)
}

/// Calls `std::str::from_utf8`. Trusted: the call succeeds exactly on
/// well-formed UTF-8, and the text it yields is the decoding of the bytes.
#[verifier::external_body]
fn str_from_utf8(bytes: &[u8]) -> (r: Option<&str>)
    ensures
        r is Some <==> valid_utf8(bytes@),
        r is Some ==> r->Some_0@ == decode_utf8(bytes@),
{
    match std::str::from_utf8(bytes) {
        Ok(s) => Some(s),
        Err(_) => None,
    }
}

/// Decodes bytes that hold UTF-16 text, replacing what is malformed.
pub fn decode_utf16_lossy(bytes: &[u8]) -> (s: String)
    ensures
        s@ == utf16_lossy(utf16_units(bytes@)),
{
    let units: Vec<u16> = utf16_units_of(bytes);
    string_from_utf16_lossy(units.as_slice())
}

/// Decodes bytes that hold UTF-8 text, if they do.
pub fn decode_utf8_text(bytes: &[u8]) -> (r: Option<String>)
    ensures
        r is Some <==> valid_utf8(bytes@),
        r is Some ==> r->Some_0@ == decode_utf8(bytes@),
{
    match str_from_utf8(bytes) {
        Some(s) => Some(s.to_owned()),
        None => None,
    }
}

} // verus!
