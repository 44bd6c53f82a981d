//! The laws the machine model obeys, stated over the spec functions the
//! machine-state contracts are written in and proved once and for all:
//! register write/read round trips, memory write/read round trips, the
//! last-in-first-out behaviour of the operand stack, and the symmetry of
//! call-style jumps and returns.

use vstd::prelude::*;

use crate::consts::REGISTRY_OFFSET;
use crate::env::{jump_ctl, ret_ctl};
use crate::mem::{dec_value, enc_bytes, spec_reg_value, spec_reg_write};
use crate::numeric::{
    lemma_i32_u32_roundtrip, lemma_le16_roundtrip, lemma_le32_roundtrip, lemma_sext16_roundtrip,
    lemma_u32_low_half, sext16, u16_of_i32, u32_of_i32,
};
use crate::token::OpV;
use crate::traits::Pos;

verus! {

/// The values a width can store and give back unchanged: bytes hold the
/// unsigned byte range, 16-bit views the signed 16-bit range, 32-bit views
/// everything.
pub open spec fn fits_width(w: nat, v: i32) -> bool {
    if w == 1 {
        0 <= v < 0x100
    } else if w == 2 {
        -0x8000 <= v < 0x8000
    } else {
        true
    }
}

/// Law: a value stored at a width decodes back to itself, whenever it is
/// representable at that width. With the write and read contracts, this is
/// the memory read-after-write round trip at every address and width; that a
/// write touches no byte outside its range is part of the write contracts
/// themselves.
pub proof fn lemma_memory_roundtrip(w: nat, v: i32)
    requires
        w == 1 || w == 2 || w == 4,
        fits_width(w, v),
    ensures
        dec_value(enc_bytes(w, v)) == v,
{
    if w == 1 {
        assert(u32_of_i32(v) == v as u32);
    } else if w == 2 {
        lemma_le16_roundtrip(u16_of_i32(v));
        lemma_sext16_roundtrip(v);
    } else {
        let u = u32_of_i32(v);
        lemma_le32_roundtrip(u);
        lemma_i32_u32_roundtrip(v);
    }
}

/// Law: the operand stack is last-in-first-out. Pushing a representable value
/// appends its encoding; the pop that follows reads exactly that encoding,
/// decodes it back to the value, and removing it restores the stack to what
/// it was. Any sequence of mixed-width pushes undone by pops in reverse order
/// is this step, applied repeatedly. Popping more than was pushed is refused
/// by the pop contracts themselves (`None` exactly when too few bytes are on
/// the stack).
pub proof fn lemma_stack_lifo(model: Seq<u8>, w: nat, v: i32)
    requires
        w == 1 || w == 2 || w == 4,
        fits_width(w, v),
    ensures
        ({
            let pushed = model + enc_bytes(w, v);
            &&& pushed.len() == model.len() + w
            &&& pushed.skip(pushed.len() - w) == enc_bytes(w, v)
            &&& dec_value(pushed.skip(pushed.len() - w)) == v
            &&& pushed.take(pushed.len() - w) == model
        }),
{
    let pushed = model + enc_bytes(w, v);
    assert(pushed.skip(pushed.len() - w) =~= enc_bytes(w, v));
    assert(pushed.take(pushed.len() - w) =~= model);
    lemma_memory_roundtrip(w, v);
}

/// Law: a register write followed by a read of the same 16-bit view returns
/// the value, for every value of 16-bit range.
pub proof fn lemma_register_roundtrip_16(b: Seq<u8>, a: usize, v: i32)
    requires
        a + 2 <= REGISTRY_OFFSET,
        REGISTRY_OFFSET <= b.len(),
        -0x8000 <= v < 0x8000,
    ensures
        spec_reg_value(
            spec_reg_write(b, (Some(a), None, None), v),
            (Some(a), None, None),
        ) == v,
{
    lemma_le16_roundtrip(u16_of_i32(v));
    lemma_sext16_roundtrip(v);
}

/// Law: a register-half write followed by a read of the same half returns the
/// value, for every byte value, and leaves the other half alone.
pub proof fn lemma_register_roundtrip_8(b: Seq<u8>, a: usize, side: Pos, v: i32)
    requires
        a + 2 <= REGISTRY_OFFSET,
        REGISTRY_OFFSET <= b.len(),
        0 <= v < 0x100,
    ensures
        spec_reg_value(
            spec_reg_write(b, (Some(a), None, Some(side)), v),
            (Some(a), None, Some(side)),
        ) == v,
        spec_reg_value(
            spec_reg_write(b, (Some(a), None, Some(side)), v),
            (
                Some(a),
                None,
                Some(if side is Upper {
                    Pos::Lower
                } else {
                    Pos::Upper
                }),
            ),
        ) == spec_reg_value(b, (Some(a), None, Some(if side is Upper {
            Pos::Lower
        } else {
            Pos::Upper
        }))),
{
    assert(u32_of_i32(v) == v as u32);
}

/// Law: a paired 32-bit register write followed by a 32-bit read of the same
/// pair returns the value, and reading back each paired 16-bit half recovers
/// exactly the low and high 16 bits of what was written.
pub proof fn lemma_register_roundtrip_32(b: Seq<u8>, a: usize, a2: usize, v: i32)
    requires
        a + 2 <= REGISTRY_OFFSET,
        a2 + 2 <= REGISTRY_OFFSET,
        a + 2 <= a2 || a2 + 2 <= a,
        REGISTRY_OFFSET <= b.len(),
    ensures
        ({
            let b2 = spec_reg_write(b, (Some(a), Some(a2), None), v);
            let u = u32_of_i32(v);
            &&& spec_reg_value(b2, (Some(a), Some(a2), None)) == v
            &&& spec_reg_value(b2, (Some(a), None, None)) == sext16((u % 0x1_0000) as u16)
            &&& spec_reg_value(b2, (Some(a2), None, None)) == sext16((u / 0x1_0000) as u16)
        }),
{
    let u = u32_of_i32(v);
    lemma_le32_roundtrip(u);
    lemma_i32_u32_roundtrip(v);
    lemma_u32_low_half(u);
    lemma_le16_roundtrip((u % 0x1_0000) as u16);
    lemma_le16_roundtrip((u / 0x1_0000) as u16);
}

/// Law: a call-style jump followed by a return resumes execution at the
/// instruction after the call site — just past the saved offset inside a
/// branch body, or at the next top-level slot — and leaves the call history
/// exactly as it was, so repeated call/return pairs neither leak nor corrupt
/// saved frames.
pub proof fn lemma_call_return_symmetry(
    jp: Seq<(usize, usize)>,
    pos: (usize, usize),
    parent: Seq<OpV>,
    target: usize,
)
    requires
        pos.0 < parent.len(),
        pos.0 < usize::MAX,
        pos.1 < usize::MAX,
    ensures
        ({
            let (jp2, pos2) = jump_ctl(jp, pos, target);
            match ret_ctl(jp2, Some(parent)) {
                Some((jp3, pos3, ind3)) => {
                    &&& jp3 == jp
                    &&& (if parent[pos.0 as int] is Branch {
                        pos3 == (pos.0, (pos.1 + 1) as usize) && ind3 == pos.0
                    } else {
                        pos3 == ((pos.0 + 1) as usize, pos.1) && ind3 == pos.0 + 1
                    })
                },
                None => false,
            }
        }),
{
    let (jp2, pos2) = jump_ctl(jp, pos, target);
    assert(jp2.last() == pos);
    assert(jp2.drop_last() =~= jp);
}

} // verus!
