//! Numbers on the wire, digit by digit: the vocabulary of the laws that speak of single bytes.
use vstd::prelude::*;

use crate::frame::{frame_bytes, MAGIC};
use crate::wire::{
    le, le_val, lemma_le_len, lemma_le_val_2, lemma_le_val_4, lemma_le_val_le, lemma_pow256_widths,
    u16_at, u32_at, u64_at,
};

verus! {

/// The number in the two bytes at `at`, the first of them counting once.
pub open spec fn two(s: Seq<u8>, at: int) -> int {
    s[at] + 0x100 * s[at + 1]
}

/// The number in the four bytes at `at`.
pub open spec fn four(s: Seq<u8>, at: int) -> int {
    s[at] + 0x100 * s[at + 1] + 0x1_0000 * s[at + 2] + 0x100_0000 * s[at + 3]
}

/// The number in the eight bytes at `at`.
pub open spec fn eight(s: Seq<u8>, at: int) -> int {
    four(s, at) + 0x1_0000_0000 * four(s, at + 4)
}

/// The header of a frame that carries, in a version, an op, flags and a request id, as many payload
/// bytes as follow it.
pub open spec fn carries(frame: Seq<u8>, version: u8, op: u8, flags: int, id: u64) -> bool {
    &&& frame.len() >= 24
    &&& frame[0] == 0x4B
    &&& frame[1] == 0x56
    &&& frame[2] == version
    &&& frame[3] == op
    &&& four(frame, 4) == flags
    &&& eight(frame, 8) == id
    &&& four(frame, 16) == (frame.len() - 24) % 0x1_0000_0000
    &&& four(frame, 20) == 0
}

pub broadcast proof fn lemma_two(s: Seq<u8>, at: int)
    requires
        0 <= at,
        at + 2 <= s.len(),
    ensures
        #[trigger] u16_at(s, at) == two(s, at),
{
    lemma_le_val_2(s.subrange(at, at + 2));
}

pub broadcast proof fn lemma_four(s: Seq<u8>, at: int)
    requires
        0 <= at,
        at + 4 <= s.len(),
    ensures
        #[trigger] u32_at(s, at) == four(s, at),
{
    lemma_le_val_4(s.subrange(at, at + 4));
}

proof fn lemma_le_val_8(s: Seq<u8>)
    requires
        s.len() == 8,
    ensures
        le_val(s) == eight(s, 0),
{
    let rest = s.skip(1).skip(1).skip(1).skip(1);
    assert(rest =~= s.skip(4));
    lemma_le_val_4(rest);
    reveal_with_fuel(le_val, 5);
    assert(le_val(s) == s[0] + 256 * (s[1] + 256 * (s[2] + 256 * (s[3] + 256 * le_val(rest)))));
}

pub broadcast proof fn lemma_eight(s: Seq<u8>, at: int)
    requires
        0 <= at,
        at + 8 <= s.len(),
    ensures
        #[trigger] u64_at(s, at) == eight(s, at),
{
    let b = s.subrange(at, at + 8);
    lemma_le_val_8(b);
    assert(eight(b, 0) == eight(s, at));
}

/// A number written in two bytes is there.
pub proof fn lemma_two_written(s: Seq<u8>, at: int, v: nat)
    requires
        0 <= at,
        at + 2 <= s.len(),
        s.subrange(at, at + 2) == le(2, v),
    ensures
        two(s, at) == v % 0x1_0000,
{
    lemma_pow256_widths();
    lemma_le_val_le(2, v);
    lemma_le_val_2(s.subrange(at, at + 2));
}

/// A number written in four bytes is there.
pub proof fn lemma_four_written(s: Seq<u8>, at: int, v: nat)
    requires
        0 <= at,
        at + 4 <= s.len(),
        s.subrange(at, at + 4) == le(4, v),
    ensures
        four(s, at) == v % 0x1_0000_0000,
{
    lemma_pow256_widths();
    lemma_le_val_le(4, v);
    lemma_le_val_4(s.subrange(at, at + 4));
}

/// A number written in eight bytes is there.
pub proof fn lemma_eight_written(s: Seq<u8>, at: int, v: u64)
    requires
        0 <= at,
        at + 8 <= s.len(),
        s.subrange(at, at + 8) == le(8, v as nat),
    ensures
        eight(s, at) == v,
{
    lemma_pow256_widths();
    lemma_le_val_le(8, v as nat);
    let b = s.subrange(at, at + 8);
    lemma_le_val_8(b);
    assert(eight(b, 0) == eight(s, at));
}

/// The bytes of a frame are its header and, behind it, its payload.
pub proof fn lemma_carries(version: u8, op: u8, flags: u32, id: u64, payload: Seq<u8>)
    ensures
        carries(frame_bytes(version, op, flags, id, payload), version, op, flags as int, id),
        frame_bytes(version, op, flags, id, payload).skip(24) == payload,
        frame_bytes(version, op, flags, id, payload).len() == 24 + payload.len(),
{
    let s = frame_bytes(version, op, flags, id, payload);
    lemma_le_len(2, MAGIC as nat);
    lemma_le_len(4, flags as nat);
    lemma_le_len(8, id as nat);
    lemma_le_len(4, payload.len());
    lemma_le_len(4, 0);
    assert(s.subrange(0, 2) =~= le(2, MAGIC as nat));
    assert(s.subrange(4, 8) =~= le(4, flags as nat));
    assert(s.subrange(8, 16) =~= le(8, id as nat));
    assert(s.subrange(16, 20) =~= le(4, payload.len()));
    assert(s.subrange(20, 24) =~= le(4, 0));
    assert(s.skip(24) =~= payload);
    lemma_two_written(s, 0, MAGIC as nat);
    lemma_four_written(s, 4, flags as nat);
    lemma_eight_written(s, 8, id);
    lemma_four_written(s, 16, payload.len());
    lemma_four_written(s, 20, 0);
    assert(two(s, 0) == 0x564B);
}

}
