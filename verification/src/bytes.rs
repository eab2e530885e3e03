//! Comparison and conversion of byte strings of fixed width.

use vstd::prelude::*;

verus! {

/// Tells whether two byte slices hold the same bytes.
pub fn slices_equal(left: &[u8], right: &[u8]) -> (same: bool)
    ensures
        same == (left@ == right@),
{
    if left.len() != right.len() {
        return false;
    }
    let mut at: usize = 0;
    while at < left.len()
        invariant
            at <= left.len(),
            left.len() == right.len(),
            forall|k: int| 0 <= k < at ==> left@[k] == right@[k],
        decreases left.len() - at,
    {
        if left[at] != right[at] {
            return false;
        }
        at += 1;
    }
    assert(left@ =~= right@);
    true
}

/// Tells whether two 32-byte words hold the same bytes.
pub fn words_equal(left: &[u8; 32], right: &[u8; 32]) -> (same: bool)
    ensures
        same == (left@ == right@),
{
    slices_equal(left.as_slice(), right.as_slice())
}

/// The big-endian bytes of a 64-bit number, most significant first.
pub open spec fn be_bytes_of_u64(number: u64) -> Seq<u8> {
    Seq::new(8, |k: int| ((number >> (8 * (7 - k)) as u64) & 0xff) as u8)
}

/// The value of a slot index as a 32-byte big-endian word: 24 zero bytes,
/// then the eight bytes of the index.
pub open spec fn word_of_u64(number: u64) -> Seq<u8> {
    Seq::new(24, |k: int| 0u8) + be_bytes_of_u64(number)
}

/// Widens a 64-bit number to a 32-byte big-endian word.
pub fn word_from_u64(number: u64) -> (word: [u8; 32])
    ensures
        word@ == word_of_u64(number),
{
    let mut word: [u8; 32] = [0u8; 32];
    let mut at: usize = 0;
    while at < 8
        invariant
            at <= 8,
            forall|k: int| 0 <= k < 24 ==> word@[k] == 0u8,
            forall|k: int| 0 <= k < at ==> word@[24 + k] == be_bytes_of_u64(number)[k],
        decreases 8 - at,
    {
        let shift: u64 = 8 * (7 - at as u64);
        word[24 + at] = ((number >> shift) & 0xff) as u8;
        at += 1;
    }
    assert(word@ =~= word_of_u64(number));
    word
}

} // verus!
