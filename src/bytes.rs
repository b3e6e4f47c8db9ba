//! Little-endian encoding of integer components into a byte buffer.
use vstd::prelude::*;

verus! {

/// Byte `i` (counting from the least significant) of `v`, for `i < 4`.
pub open spec fn byte_at(v: nat, i: nat) -> u8 {
    if i == 0 {
        (v % 256) as u8
    } else if i == 1 {
        ((v / 256) % 256) as u8
    } else if i == 2 {
        ((v / 65536) % 256) as u8
    } else {
        ((v / 16777216) % 256) as u8
    }
}

/// The `width` least significant bytes of `v`, least significant first.
pub open spec fn le_bytes(v: nat, width: nat) -> Seq<u8> {
    Seq::new(width, |i: int| byte_at(v, i as nat))
}

/// Each value of `vals` written as `width` little-endian bytes, in order.
pub open spec fn le_concat(vals: Seq<u32>, width: nat) -> Seq<u8>
    decreases vals.len(),
{
    if vals.len() == 0 {
        Seq::empty()
    } else {
        le_concat(vals.drop_last(), width) + le_bytes(vals.last() as nat, width)
    }
}

/// Whether `width` is the byte width of a supported component.
pub open spec fn valid_width(width: nat) -> bool {
    width == 1 || width == 2 || width == 4
}

pub proof fn lemma_le_concat_len(vals: Seq<u32>, width: nat)
    ensures
        le_concat(vals, width).len() == vals.len() * width,
    decreases vals.len(),
{
    if vals.len() > 0 {
        lemma_le_concat_len(vals.drop_last(), width);
        assert(vals.len() * width == (vals.len() - 1) * width + width) by (nonlinear_arith);
    }
}

pub proof fn lemma_le_concat_push(vals: Seq<u32>, v: u32, width: nat)
    ensures
        le_concat(vals.push(v), width) == le_concat(vals, width) + le_bytes(v as nat, width),
{
    assert(vals.push(v).drop_last() =~= vals);
}

/// Appends the `width` least significant bytes of `v` to `data`, least
/// significant first.
pub fn push_le(data: &mut Vec<u8>, v: u32, width: usize)
    requires
        valid_width(width as nat),
    ensures
        final(data)@ == old(data)@ + le_bytes(v as nat, width as nat),
{
    let ghost start = data@;
    data.push((v % 256) as u8);
    if width >= 2 {
        data.push(((v / 256) % 256) as u8);
    }
    if width == 4 {
        data.push(((v / 65536) % 256) as u8);
        data.push(((v / 16777216) % 256) as u8);
    }
    assert(data@ =~= start + le_bytes(v as nat, width as nat));
}

} // verus!
