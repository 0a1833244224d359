//! Little-endian numbers, the one number format of the protocol.
use vstd::arithmetic::div_mod::{lemma_mod_breakdown, lemma_small_mod};
use vstd::prelude::*;

verus! {

/// The number of values that `w` bytes can hold.
pub open spec fn pow256(w: nat) -> nat
    decreases w,
{
    if w == 0 {
        1
    } else {
        256 * pow256((w - 1) as nat)
    }
}

/// The low `w` bytes of `v`, least significant byte first.
pub open spec fn le(w: nat, v: nat) -> Seq<u8>
    decreases w,
{
    if w == 0 {
        Seq::empty()
    } else {
        seq![(v % 256) as u8] + le((w - 1) as nat, v / 256)
    }
}

/// The number whose bytes, least significant first, are `s`.
pub open spec fn le_val(s: Seq<u8>) -> nat
    decreases s.len(),
{
    if s.len() == 0 {
        0
    } else {
        s[0] as nat + 256 * le_val(s.skip(1))
    }
}

pub proof fn lemma_pow256_pos(w: nat)
    ensures
        pow256(w) > 0,
    decreases w,
{
    if w > 0 {
        lemma_pow256_pos((w - 1) as nat);
    }
}

/// The powers for the field widths that the protocol has.
pub proof fn lemma_pow256_widths()
    ensures
        pow256(1) == 0x100,
        pow256(2) == 0x1_0000,
        pow256(4) == 0x1_0000_0000,
        pow256(8) == 0x1_0000_0000_0000_0000,
{
    reveal_with_fuel(pow256, 9);
}

pub proof fn lemma_le_len(w: nat, v: nat)
    ensures
        le(w, v).len() == w,
    decreases w,
{
    if w > 0 {
        lemma_le_len((w - 1) as nat, v / 256);
    }
}

/// Reading back the `w` low bytes of `v` gives `v` modulo what `w` bytes hold.
pub proof fn lemma_le_val_le(w: nat, v: nat)
    ensures
        le_val(le(w, v)) == v % pow256(w),
    decreases w,
{
    lemma_le_len(w, v);
    if w > 0 {
        let rest = (w - 1) as nat;
        lemma_le_val_le(rest, v / 256);
        lemma_pow256_pos(rest);
        assert(le(w, v).skip(1) =~= le(rest, v / 256));
        lemma_mod_breakdown(v as int, 256, pow256(rest) as int);
    }
}

/// A number that fits in `w` bytes survives being written and read.
pub proof fn lemma_le_roundtrip(w: nat, v: nat)
    requires
        v < pow256(w),
    ensures
        le_val(le(w, v)) == v,
{
    lemma_le_val_le(w, v);
    lemma_small_mod(v, pow256(w));
}

/// The four-byte number at `pos`.
pub open spec fn u32_at(s: Seq<u8>, pos: int) -> u32 {
    le_val(s.subrange(pos, pos + 4)) as u32
}

/// The eight-byte number at `pos`.
pub open spec fn u64_at(s: Seq<u8>, pos: int) -> u64 {
    le_val(s.subrange(pos, pos + 8)) as u64
}

/// The two-byte number at `pos`.
pub open spec fn u16_at(s: Seq<u8>, pos: int) -> u16 {
    le_val(s.subrange(pos, pos + 2)) as u16
}

/// The two bytes of a two-byte number, one by one.
pub proof fn lemma_le_val_2(s: Seq<u8>)
    requires
        s.len() == 2,
    ensures
        le_val(s) == s[0] + 0x100 * s[1],
{
    reveal_with_fuel(le_val, 3);
}

/// The four bytes of a four-byte number, one by one.
pub proof fn lemma_le_val_4(s: Seq<u8>)
    requires
        s.len() == 4,
    ensures
        le_val(s) == s[0] + 0x100 * s[1] + 0x1_0000 * s[2] + 0x100_0000 * s[3],
{
    reveal_with_fuel(le_val, 5);
}

/// Reads the four-byte number at `pos`.
pub(crate) fn read_u32(bytes: &[u8], pos: usize) -> (v: u32)
    requires
        pos + 4 <= bytes@.len(),
    ensures
        v == u32_at(bytes@, pos as int),
        v == le_val(bytes@.subrange(pos as int, pos + 4)),
{
    proof {
        lemma_le_val_4(bytes@.subrange(pos as int, pos + 4));
    }
    bytes[pos] as u32 + 0x100 * bytes[pos + 1] as u32 + 0x1_0000 * bytes[pos + 2] as u32
        + 0x100_0000 * bytes[pos + 3] as u32
}

/// Reads the two-byte number at `pos`.
pub(crate) fn read_u16(bytes: &[u8], pos: usize) -> (v: u16)
    requires
        pos + 2 <= bytes@.len(),
    ensures
        v == u16_at(bytes@, pos as int),
        v == le_val(bytes@.subrange(pos as int, pos + 2)),
{
    proof {
        lemma_le_val_2(bytes@.subrange(pos as int, pos + 2));
    }
    bytes[pos] as u16 + 0x100 * bytes[pos + 1] as u16
}

/// Appends a four-byte number.
pub(crate) fn push_u32(out: &mut Vec<u8>, v: u32)
    ensures
        final(out)@ == old(out)@ + le(4, v as nat),
{
    proof {
        reveal_with_fuel(le, 5);
    }
    out.push((v % 0x100) as u8);
    out.push(((v / 0x100) % 0x100) as u8);
    out.push(((v / 0x1_0000) % 0x100) as u8);
    out.push((v / 0x100_0000) as u8);
    assert(v as nat / 256 / 256 == v as nat / 0x1_0000);
    assert(v as nat / 256 / 256 / 256 == v as nat / 0x100_0000);
    assert(out@ =~= old(out)@ + le(4, v as nat));
}

}
