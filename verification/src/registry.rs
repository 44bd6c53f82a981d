//! A stand-alone register file: ten bytes holding five 16-bit registers, each
//! addressable by identity letter as two independent bytes, one 16-bit word,
//! or paired with a second identity as a 32-bit view.

use vstd::array::ArrayAdditionalExecFns;
use vstd::prelude::*;

use crate::consts::{is_reg_letter, reg_slot, reg_slot_of};
use crate::numeric::{
    i16_of_u16, i32_of_u32, le16, le32, to_signed, to_unsigned, u16_byte0, u16_byte1, u32_byte0,
    u32_byte1, u32_byte2, u32_byte3,
};

verus! {

/// Which byte of a 16-bit register a byte access addresses.
#[derive(Debug, PartialEq, Eq, Structural, Clone, Copy)]
pub enum Position {
    Lower,
    Upper,
}

#[derive(Debug, PartialEq)]
pub struct Register {
    pub buf: [u8; 10],
}

impl Register {
    /// All registers zeroed.
    pub fn init() -> (r: Self)
        ensures
            forall|i: int| 0 <= i < 10 ==> r.buf@[i] == 0u8,
    {
        Register { buf: [0u8, 0u8, 0u8, 0u8, 0u8, 0u8, 0u8, 0u8, 0u8, 0u8] }
    }

    /// One byte of a register.
    pub fn read_8(&mut self, key: char, half: Position) -> (r: u8)
        requires
            is_reg_letter(key),
        ensures
            *final(self) == *old(self),
            r == old(self).buf@[reg_slot(key) + (if half is Upper { 1int } else { 0int })],
    {
        let pos = reg_slot_of(key);
        if half == Position::Upper {
            self.buf[pos + 1]
        } else {
            self.buf[pos]
        }
    }

    /// A register's full 16-bit value, sign-preserving.
    pub fn read_16(&mut self, key: char) -> (r: i16)
        requires
            is_reg_letter(key),
        ensures
            *final(self) == *old(self),
            r == i16_of_u16(
                le16(old(self).buf@[reg_slot(key) as int], old(self).buf@[reg_slot(key) + 1]),
            ),
    {
        let pos = reg_slot_of(key);
        let x: u32 = self.buf[pos] as u32 + 0x100 * (self.buf[pos + 1] as u32);
        if x < 0x8000 {
            x as i16
        } else {
            (x as i32 - 0x1_0000) as i16
        }
    }

    /// Two registers paired into a 32-bit value: `left` holds the low half.
    pub fn read_32(&mut self, left: char, right: char) -> (r: i32)
        requires
            is_reg_letter(left),
            is_reg_letter(right),
        ensures
            *final(self) == *old(self),
            r == i32_of_u32(
                le32(
                    old(self).buf@[reg_slot(left) as int],
                    old(self).buf@[reg_slot(left) + 1],
                    old(self).buf@[reg_slot(right) as int],
                    old(self).buf@[reg_slot(right) + 1],
                ),
            ),
    {
        let lpos = reg_slot_of(left);
        let rpos = reg_slot_of(right);
        let x: u32 = self.buf[lpos] as u32 + 0x100 * (self.buf[lpos + 1] as u32) + 0x1_0000 * (
        self.buf[rpos] as u32) + 0x100_0000 * (self.buf[rpos + 1] as u32);
        to_signed(x)
    }

    /// Write one byte of a register.
    pub fn write_8(&mut self, key: char, half: Position, val: u8)
        requires
            is_reg_letter(key),
        ensures
            final(self).buf@ == old(self).buf@.update(
                reg_slot(key) + (if half is Upper { 1int } else { 0int }),
                val,
            ),
    {
        let pos = reg_slot_of(key);
        if half == Position::Upper {
            self.buf.set(pos + 1, val);
        } else {
            self.buf.set(pos, val);
        }
    }

    /// Write a register's full 16-bit value, little-endian.
    pub fn write_16(&mut self, key: char, val: i16)
        requires
            is_reg_letter(key),
        ensures
            final(self).buf@ == old(self).buf@.update(
                reg_slot(key) as int,
                u16_byte0(crate::numeric::u16_of_i32(val as i32)),
            ).update(reg_slot(key) + 1, u16_byte1(crate::numeric::u16_of_i32(val as i32))),
    {
        let pos = reg_slot_of(key);
        let x = to_unsigned(val as i32);
        let lo16: u32 = x % 0x1_0000;
        self.buf.set(pos, (lo16 % 0x100) as u8);
        self.buf.set(pos + 1, (lo16 / 0x100) as u8);
    }

    /// Write a 32-bit value across two registers: the low half into `left`,
    /// the high half into `right`.
    pub fn write_32(&mut self, left: char, right: char, val: i32)
        requires
            is_reg_letter(left),
            is_reg_letter(right),
        ensures
            ({
                let u = crate::numeric::u32_of_i32(val);
                final(self).buf@ == old(self).buf@.update(
                    reg_slot(left) as int,
                    u32_byte0(u),
                ).update(reg_slot(left) + 1, u32_byte1(u)).update(
                    reg_slot(right) as int,
                    u32_byte2(u),
                ).update(reg_slot(right) + 1, u32_byte3(u))
            }),
    {
        let lpos = reg_slot_of(left);
        let rpos = reg_slot_of(right);
        let x = to_unsigned(val);
        self.buf.set(lpos, (x % 0x100) as u8);
        self.buf.set(lpos + 1, ((x / 0x100) % 0x100) as u8);
        self.buf.set(rpos, ((x / 0x1_0000) % 0x100) as u8);
        self.buf.set(rpos + 1, (x / 0x100_0000) as u8);
    }
}

} // verus!
