//! The entry that marks a thread as prioritised in the scheduler's map.
//!
//! The map is keyed by thread id. The key is the id's four bytes, lowest
//! first, and the value is one byte.

use vstd::prelude::*;

verus! {

/// The value that marks a thread as prioritised.
pub const PRIORITISED: u8 = 1;

/// One entry of the scheduler's map.
#[derive(Clone, Copy, Debug)]
pub struct PriorityEntry {
    /// The thread id, lowest byte first.
    pub key: [u8; 4],
    /// The mark.
    pub value: [u8; 1],
}

/// The byte of `x` at place `i`, counted from the lowest.
pub open spec fn byte_of(x: u32, i: u32) -> u8 {
    ((x >> (8 * i) as u32) & 0xff) as u8
}

/// The four bytes of a thread id, lowest first.
pub open spec fn key_bytes(tid: i32) -> Seq<u8> {
    let x = tid as u32;
    seq![byte_of(x, 0), byte_of(x, 1), byte_of(x, 2), byte_of(x, 3)]
}

/// The number that four bytes stand for, lowest first.
pub open spec fn key_value(bytes: Seq<u8>) -> int {
    bytes[0] + 0x100 * bytes[1] + 0x1_0000 * bytes[2] + 0x100_0000 * bytes[3]
}

/// The key of a thread id stands for that id: for the id itself where it is
/// not negative, and else for the id taken modulo two to the thirty-second.
pub proof fn lemma_key_round_trip(tid: i32)
    ensures
        key_bytes(tid).len() == 4,
        key_value(key_bytes(tid)) == (tid as u32),
        tid >= 0 ==> key_value(key_bytes(tid)) == tid,
{
    let x = tid as u32;
    assert(((x >> 0u32) & 0xff) as u8 + 0x100 * (((x >> 8u32) & 0xff) as u8) + 0x1_0000 * (((x
        >> 16u32) & 0xff) as u8) + 0x100_0000 * (((x >> 24u32) & 0xff) as u8) == x)
        by (bit_vector);
    assert(tid >= 0 ==> (tid as u32) == tid) by (bit_vector);
}

/// The entry that marks the thread `tid` as prioritised.
pub fn priority_entry(tid: i32) -> (entry: PriorityEntry)
    ensures
        entry.key@ == key_bytes(tid),
        entry.value@ == seq![PRIORITISED],
{
    let x = #[verifier::truncate]
    (tid as u32);
    let b0 = #[verifier::truncate]
    ((x & 0xff) as u8);
    let b1 = #[verifier::truncate]
    (((x >> 8) & 0xff) as u8);
    let b2 = #[verifier::truncate]
    (((x >> 16) & 0xff) as u8);
    let b3 = #[verifier::truncate]
    (((x >> 24) & 0xff) as u8);
    assert(x >> 0u32 == x) by (bit_vector);
    let key = [b0, b1, b2, b3];
    let value = [PRIORITISED];
    assert(key@ =~= key_bytes(tid));
    assert(value@ =~= seq![PRIORITISED]);
    PriorityEntry { key, value }
}

} // verus!
