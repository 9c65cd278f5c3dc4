//! Variable-length integer encodings of the voice protocol.

use vstd::prelude::*;

verus! {

/// Marker byte that announces an eight-byte big-endian integer.
pub const LONG_VARINT_MARKER: u8 = 0xF4;

/// The `k`-th most significant byte of a 64-bit value, `k` in `0..8`.
pub open spec fn be_byte(value: u64, k: int) -> u8 {
    ((value as int / pow256(7 - k)) % 256) as u8
}

/// 256 to the power `e`, for `e` in `0..8`.
pub open spec fn pow256(e: int) -> int {
    if e <= 0 {
        1
    } else if e == 1 {
        0x100
    } else if e == 2 {
        0x1_0000
    } else if e == 3 {
        0x100_0000
    } else if e == 4 {
        0x1_0000_0000
    } else if e == 5 {
        0x100_0000_0000
    } else if e == 6 {
        0x1_0000_0000_0000
    } else {
        0x100_0000_0000_0000
    }
}

/// The eight bytes of `value`, most significant first.
pub open spec fn be_bytes(value: u64) -> Seq<u8> {
    Seq::new(8, |k: int| be_byte(value, k))
}

/// The nine-byte long form: the marker, then the value big-endian.
pub open spec fn varint_long_spec(value: u64) -> Seq<u8> {
    seq![LONG_VARINT_MARKER] + be_bytes(value)
}

/// The little-endian base-128 digits of `v`, every digit but the last with
/// its high bit set. Zero has no digits.
pub open spec fn varint_16_spec(v: nat) -> Seq<u8>
    decreases v,
{
    if v == 0 {
        Seq::empty()
    } else if v / 128 == 0 {
        seq![(v % 128) as u8]
    } else {
        seq![((v % 128) + 128) as u8] + varint_16_spec(v / 128)
    }
}

/// Encodes a 16-bit value in groups of seven bits, least significant group
/// first, the high bit of a byte announcing that another follows.
pub fn encode_varint_16(value: u16) -> (out: Vec<u8>)
    ensures
        out@ == varint_16_spec(value as nat),
{
    let mut out: Vec<u8> = Vec::new();
    let mut v: u16 = value;
    while v > 0
        invariant
            out@ + varint_16_spec(v as nat) == varint_16_spec(value as nat),
        decreases v,
    {
        let low: u16 = v % 128;
        let rest: u16 = v / 128;
        let ghost before = out@;
        if rest > 0 {
            out.push((low + 128) as u8);
        } else {
            out.push(low as u8);
        }
        proof {
            assert(rest == 0 ==> varint_16_spec(rest as nat) == Seq::<u8>::empty());
            assert(out@ + varint_16_spec(rest as nat) =~= before + varint_16_spec(v as nat));
        }
        v = rest;
    }
    proof {
        assert(out@ + Seq::<u8>::empty() =~= out@);
    }
    out
}

/// Encodes a 64-bit value in the long form: one marker byte followed by the
/// value as eight big-endian bytes.
pub fn encode_varint_long(value: u64) -> (out: Vec<u8>)
    ensures
        out@ == varint_long_spec(value),
        out@.len() == 9,
{
    let mut out: Vec<u8> = Vec::new();
    out.push(LONG_VARINT_MARKER);
    out.push((value / 0x100_0000_0000_0000) as u8);
    out.push(((value / 0x1_0000_0000_0000) % 256) as u8);
    out.push(((value / 0x100_0000_0000) % 256) as u8);
    out.push(((value / 0x1_0000_0000) % 256) as u8);
    out.push(((value / 0x100_0000) % 256) as u8);
    out.push(((value / 0x1_0000) % 256) as u8);
    out.push(((value / 0x100) % 256) as u8);
    out.push((value % 256) as u8);
    proof {
        assert(out@ =~= varint_long_spec(value));
    }
    out
}

} // verus!
