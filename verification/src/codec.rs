//! The fixed binary layout of the primitive fields: `u64` as eight bytes, least
//! significant first, and a 32-byte key as itself. The bytes are read and written by
//! `borsh`; this module states what it reads and writes, and proves that the two
//! directions undo each other.

use vstd::prelude::*;
use vstd::arithmetic::div_mod::lemma_div_denominator;
use vstd::array::spec_array_update;
use vstd::slice::slice_subrange;

verus! {

/// The eight bytes of `x`, least significant first.
pub open spec fn u64_le_bytes(x: u64) -> Seq<u8> {
    seq![
        (x % 0x100) as u8,
        (x / 0x100 % 0x100) as u8,
        (x / 0x1_0000 % 0x100) as u8,
        (x / 0x100_0000 % 0x100) as u8,
        (x / 0x1_0000_0000 % 0x100) as u8,
        (x / 0x100_0000_0000 % 0x100) as u8,
        (x / 0x1_0000_0000_0000 % 0x100) as u8,
        (x / 0x100_0000_0000_0000 % 0x100) as u8,
    ]
}

/// The number whose little-endian bytes are the first eight of `s`.
pub open spec fn u64_from_le_bytes(s: Seq<u8>) -> u64
    recommends
        s.len() == 8,
{
    (s[0] as int + s[1] as int * 0x100 + s[2] as int * 0x1_0000 + s[3] as int * 0x100_0000
        + s[4] as int * 0x1_0000_0000 + s[5] as int * 0x100_0000_0000 + s[6] as int
        * 0x1_0000_0000_0000 + s[7] as int * 0x100_0000_0000_0000) as u64
}

/// Dividing by a power of 256 is dividing by 256 that many times.
proof fn lemma_shifted_bytes(x: int)
    requires
        0 <= x,
    ensures
        x / 0x1_0000 == x / 0x100 / 0x100,
        x / 0x100_0000 == x / 0x1_0000 / 0x100,
        x / 0x1_0000_0000 == x / 0x100_0000 / 0x100,
        x / 0x100_0000_0000 == x / 0x1_0000_0000 / 0x100,
        x / 0x1_0000_0000_0000 == x / 0x100_0000_0000 / 0x100,
        x / 0x100_0000_0000_0000 == x / 0x1_0000_0000_0000 / 0x100,
{
    lemma_div_denominator(x, 0x100, 0x100);
    lemma_div_denominator(x, 0x1_0000, 0x100);
    lemma_div_denominator(x, 0x100_0000, 0x100);
    lemma_div_denominator(x, 0x1_0000_0000, 0x100);
    lemma_div_denominator(x, 0x100_0000_0000, 0x100);
    lemma_div_denominator(x, 0x1_0000_0000_0000, 0x100);
}

/// Decoding the encoding of a number gives the number back.
pub proof fn lemma_u64_bytes_then_number(x: u64)
    ensures
        u64_le_bytes(x).len() == 8,
        u64_from_le_bytes(u64_le_bytes(x)) == x,
{
    lemma_shifted_bytes(x as int);
}

/// Encoding the number read from eight bytes gives the eight bytes back.
pub proof fn lemma_u64_number_then_bytes(s: Seq<u8>)
    requires
        s.len() == 8,
    ensures
        u64_le_bytes(u64_from_le_bytes(s)) == s,
{
    let x = u64_from_le_bytes(s);
    let x7 = s[7] as int;
    let x6 = s[6] as int + x7 * 0x100;
    let x5 = s[5] as int + x6 * 0x100;
    let x4 = s[4] as int + x5 * 0x100;
    let x3 = s[3] as int + x4 * 0x100;
    let x2 = s[2] as int + x3 * 0x100;
    let x1 = s[1] as int + x2 * 0x100;
    assert(x == s[0] as int + x1 * 0x100);
    lemma_shifted_bytes(x as int);
    assert(x / 0x100 == x1);
    assert(x / 0x1_0000 == x2);
    assert(x / 0x100_0000 == x3);
    assert(x / 0x1_0000_0000 == x4);
    assert(x / 0x100_0000_0000 == x5);
    assert(x / 0x1_0000_0000_0000 == x6);
    assert(x / 0x100_0000_0000_0000 == x7);
    assert(u64_le_bytes(x) =~= s);
}

/// `a` with its first `n` bytes taken from `s`.
spec fn key_filled(a: [u8; 32], s: Seq<u8>, n: nat) -> [u8; 32]
    decreases n,
{
    if n == 0 {
        a
    } else {
        spec_array_update(key_filled(a, s, (n - 1) as nat), n - 1, s[n - 1])
    }
}

proof fn lemma_key_filled(a: [u8; 32], s: Seq<u8>, n: nat)
    requires
        s.len() == 32,
        n <= 32,
    ensures
        forall|i: int| 0 <= i < n ==> key_filled(a, s, n)@[i] == s[i],
    decreases n,
{
    broadcast use vstd::array::axiom_spec_array_update;

    if n > 0 {
        lemma_key_filled(a, s, (n - 1) as nat);
    }
}

/// The key whose 32 bytes are `s`.
pub closed spec fn key_of(s: Seq<u8>) -> [u8; 32] {
    choose|k: [u8; 32]| k@ == s
}

/// Every sequence of 32 bytes is the contents of exactly one key.
pub proof fn lemma_key_of(s: Seq<u8>)
    requires
        s.len() == 32,
    ensures
        key_of(s)@ == s,
        forall|k: [u8; 32]| k@ == s ==> k == key_of(s),
{
    let a: [u8; 32] = arbitrary();
    let w = key_filled(a, s, 32);
    lemma_key_filled(a, s, 32);
    assert(w@ =~= s);
    assert forall|k: [u8; 32]| k@ == s implies k == key_of(s) by {
        assert(k =~= key_of(s));
    }
}

/// A key is the key of its own bytes.
pub proof fn lemma_key_of_view(k: [u8; 32])
    ensures
        key_of(k@) == k,
{
    lemma_key_of(k@);
}

/// Reads a `u64` with borsh's `<u64 as BorshDeserialize>::try_from_slice`.
///
/// Trusted: borsh takes exactly eight bytes as a little-endian number and refuses
/// a slice of any other length, either as too short or as not read to its end.
#[verifier::external_body]
pub(crate) fn read_u64(bytes: &[u8]) -> (r: Option<u64>)
    ensures
        bytes@.len() == 8 ==> r == Some(u64_from_le_bytes(bytes@)),
        bytes@.len() != 8 ==> r is None,
{
    match <u64 as borsh::BorshDeserialize>::try_from_slice(bytes) {
        Ok(value) => Some(value),
        Err(_) => None,
    }
}

/// Reads a key with borsh's `<[u8; 32] as BorshDeserialize>::try_from_slice`.
///
/// Trusted: borsh copies exactly 32 bytes into the array and refuses a slice of
/// any other length.
#[verifier::external_body]
pub(crate) fn read_key(bytes: &[u8]) -> (r: Option<[u8; 32]>)
    ensures
        bytes@.len() == 32 ==> r is Some && r.unwrap()@ == bytes@,
        bytes@.len() != 32 ==> r is None,
{
    match <[u8; 32] as borsh::BorshDeserialize>::try_from_slice(bytes) {
        Ok(key) => Some(key),
        Err(_) => None,
    }
}

/// Appends a `u64` with borsh's `<u64 as BorshSerialize>::serialize`.
///
/// Trusted: borsh writes the eight little-endian bytes of the number to the end
/// of the vector. Writing to a vector does not fail, so the `Ok(())` is dropped.
#[verifier::external_body]
pub(crate) fn write_u64(out: &mut Vec<u8>, value: u64)
    ensures
        final(out)@ == old(out)@ + u64_le_bytes(value),
{
    let _ = borsh::BorshSerialize::serialize(&value, out);
}

/// Appends a key with borsh's `<[u8; 32] as BorshSerialize>::serialize`.
///
/// Trusted: borsh writes the 32 bytes of the array, in order, to the end of the
/// vector. Writing to a vector does not fail, so the `Ok(())` is dropped.
#[verifier::external_body]
pub(crate) fn write_key(out: &mut Vec<u8>, key: &[u8; 32])
    ensures
        final(out)@ == old(out)@ + key@,
{
    let _ = borsh::BorshSerialize::serialize(key, out);
}

/// The `u64` field that starts at `offset`.
pub(crate) fn field_u64(bytes: &[u8], offset: usize) -> (r: Option<u64>)
    requires
        offset + 8 <= bytes.len(),
    ensures
        r == Some(u64_from_le_bytes(bytes@.subrange(offset as int, offset + 8))),
{
    read_u64(slice_subrange(bytes, offset, offset + 8))
}

/// The key field that starts at `offset`.
pub(crate) fn field_key(bytes: &[u8], offset: usize) -> (r: Option<[u8; 32]>)
    requires
        offset + 32 <= bytes.len(),
    ensures
        r == Some(key_of(bytes@.subrange(offset as int, offset + 32))),
{
    proof {
        lemma_key_of(bytes@.subrange(offset as int, offset + 32));
    }
    read_key(slice_subrange(bytes, offset, offset + 32))
}

/// Whether two keys hold the same bytes.
pub fn same_key(a: &[u8; 32], b: &[u8; 32]) -> (r: bool)
    ensures
        r == (*a == *b),
{
    let mut i: usize = 0;
    while i < 32
        invariant
            i <= 32,
            forall|j: int| 0 <= j < i ==> a@[j] == b@[j],
        decreases 32 - i,
    {
        if a[i] != b[i] {
            return false;
        }
        i += 1;
    }
    assert(*a =~= *b);
    true
}

} // verus!
