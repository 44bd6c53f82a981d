//! Small byte-buffer helpers: width-polymorphic little-endian reads and writes
//! on a plain byte vector, and slice joining.

use vstd::array::ArrayAdditionalExecFns;
use vstd::prelude::*;

use crate::numeric::{
    i16_of_u16, i32_of_u32, le16, le32, to_signed, to_unsigned, u16_byte0, u16_byte1, u16_of_i32,
    u32_byte0, u32_byte1, u32_byte2, u32_byte3, u32_of_i32,
};

verus! {

/// Copies a slice into a fixed-size array of the same length.
pub fn clone_into_array<T: Copy, const N: usize>(slice: &[T]) -> (r: [T; N])
    requires
        slice@.len() == N,
        N >= 1,
    ensures
        r@ == slice@,
{
    let mut a: [T; N] = vstd::array::array_fill_for_copy_types(slice[0]);
    let mut i: usize = 0;
    while i < N
        invariant
            i <= N,
            slice@.len() == N,
            a@.len() == N,
            forall|j: int| 0 <= j < i ==> a@[j] == slice@[j],
        decreases N - i,
    {
        a.set(i, slice[i]);
        i = i + 1;
    }
    proof {
        assert(a@ =~= slice@);
    }
    a
}

/// Joins the first two bytes of each slice into one four-byte array.
pub fn join_slices(left: &[u8], right: &[u8]) -> (r: [u8; 4])
    requires
        left@.len() >= 2,
        right@.len() >= 2,
    ensures
        r@ == seq![left@[0], left@[1], right@[0], right@[1]],
{
    let r = [left[0], left[1], right[0], right[1]];
    proof {
        assert(r@ =~= seq![left@[0], left@[1], right@[0], right@[1]]);
    }
    r
}

/// Store one byte at `pos`.
pub fn write_to_mem_8(mem: &mut Vec<u8>, pos: usize, val: u8)
    requires
        pos < old(mem)@.len(),
    ensures
        final(mem)@ == old(mem)@.update(pos as int, val),
{
    mem.set(pos, val);
}

/// Store a 16-bit value at `pos`, little-endian.
pub fn write_to_mem_16(mem: &mut Vec<u8>, pos: usize, val: i16)
    requires
        pos + 2 <= old(mem)@.len(),
    ensures
        final(mem)@ == old(mem)@.update(pos as int, u16_byte0(u16_of_i32(val as i32))).update(
            pos + 1,
            u16_byte1(u16_of_i32(val as i32)),
        ),
{
    let n = mem.len();
    let x = to_unsigned(val as i32);
    let lo16: u32 = x % 0x1_0000;
    mem.set(pos, (lo16 % 0x100) as u8);
    mem.set(pos + 1, (lo16 / 0x100) as u8);
}

/// Store a 32-bit value at `pos`, little-endian.
pub fn write_to_mem_32(mem: &mut Vec<u8>, pos: usize, val: i32)
    requires
        pos + 4 <= old(mem)@.len(),
    ensures
        ({
            let u = u32_of_i32(val);
            final(mem)@ == old(mem)@.update(pos as int, u32_byte0(u)).update(
                pos + 1,
                u32_byte1(u),
            ).update(pos + 2, u32_byte2(u)).update(pos + 3, u32_byte3(u))
        }),
{
    let n = mem.len();
    let x = to_unsigned(val);
    mem.set(pos, (x % 0x100) as u8);
    mem.set(pos + 1, ((x / 0x100) % 0x100) as u8);
    mem.set(pos + 2, ((x / 0x1_0000) % 0x100) as u8);
    mem.set(pos + 3, (x / 0x100_0000) as u8);
}

/// Load one byte from `pos`.
pub fn read_from_mem_8(mem: &Vec<u8>, pos: usize) -> (r: u8)
    requires
        pos < mem@.len(),
    ensures
        r == mem@[pos as int],
{
    mem[pos]
}

/// Load a 16-bit value from `pos`, little-endian.
pub fn read_from_mem_16(mem: &Vec<u8>, pos: usize) -> (r: i16)
    requires
        pos + 2 <= mem@.len(),
    ensures
        r == i16_of_u16(le16(mem@[pos as int], mem@[pos + 1])),
{
    let n = mem.len();
    let x: u32 = mem[pos] as u32 + 0x100 * (mem[pos + 1] as u32);
    if x < 0x8000 {
        x as i16
    } else {
        (x as i32 - 0x1_0000) as i16
    }
}

/// Load a 32-bit value from `pos`, little-endian.
pub fn read_from_mem_32(mem: &Vec<u8>, pos: usize) -> (r: i32)
    requires
        pos + 4 <= mem@.len(),
    ensures
        r == i32_of_u32(le32(mem@[pos as int], mem@[pos + 1], mem@[pos + 2], mem@[pos + 3])),
{
    let n = mem.len();
    let x: u32 = mem[pos] as u32 + 0x100 * (mem[pos + 1] as u32) + 0x1_0000 * (mem[pos + 2] as u32)
        + 0x100_0000 * (mem[pos + 3] as u32);
    to_signed(x)
}

} // verus!
