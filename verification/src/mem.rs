//! The machine state: one contiguous byte buffer holding the register file,
//! the condition-flag byte, a reserved gap, the operand stack and the general
//! memory region, with width-polymorphic, bounds-checked accessors.
//!
//! Layout of the buffer, by byte offset:
//! `0..10` register file (five identities, two bytes each), `10` the flag
//! byte, `11..20` reserved, `20..20+stack_size` the operand stack, and the
//! rest general memory. All multi-byte values are stored little-endian.

use vstd::prelude::*;

use crate::consts::{OFFSET, REGISTRY_OFFSET};
use crate::fault::Fault;
use crate::numeric::{
    i32_of_u32, le16, le32, sext16, u16_byte0, u16_byte1, u16_of_i32, u32_byte0, u32_byte1,
    u32_byte2, u32_byte3, u32_of_i32, u8_of_i32,
};
use crate::traits::{Location, Pos, Position, Size};

verus! {

/// The little-endian bytes a value stores at a given width.
pub open spec fn enc_bytes(w: nat, v: i32) -> Seq<u8> {
    if w == 1 {
        seq![u8_of_i32(v)]
    } else if w == 2 {
        seq![u16_byte0(u16_of_i32(v)), u16_byte1(u16_of_i32(v))]
    } else {
        seq![
            u32_byte0(u32_of_i32(v)),
            u32_byte1(u32_of_i32(v)),
            u32_byte2(u32_of_i32(v)),
            u32_byte3(u32_of_i32(v)),
        ]
    }
}

/// The engine value a byte sequence of a given width decodes to: bytes are
/// zero-extended, 16-bit values sign-extended, 32-bit values taken as they
/// are.
pub open spec fn dec_value(b: Seq<u8>) -> i32 {
    if b.len() == 1 {
        b[0] as i32
    } else if b.len() == 2 {
        sext16(le16(b[0], b[1]))
    } else {
        i32_of_u32(le32(b[0], b[1], b[2], b[3]))
    }
}

/// The bytes of the register file a register-view write stores.
pub open spec fn spec_reg_write(b: Seq<u8>, loc: Location, v: i32) -> Seq<u8> {
    match loc {
        (Some(a), None, None) => b.update(a as int, u16_byte0(u16_of_i32(v))).update(
            a + 1,
            u16_byte1(u16_of_i32(v)),
        ),
        (Some(a), None, Some(side)) => b.update(
            if side is Upper {
                a + 1
            } else {
                a as int
            },
            u8_of_i32(v),
        ),
        (Some(a), Some(b2), None) => b.update(a as int, u32_byte0(u32_of_i32(v))).update(
            a + 1,
            u32_byte1(u32_of_i32(v)),
        ).update(b2 as int, u32_byte2(u32_of_i32(v))).update(b2 + 1, u32_byte3(u32_of_i32(v))),
        _ => b,
    }
}

/// The engine value a register view reads from the register file.
pub open spec fn spec_reg_value(b: Seq<u8>, loc: Location) -> i32 {
    match loc {
        (Some(a), None, None) => sext16(le16(b[a as int], b[a + 1])),
        (Some(a), None, Some(side)) => if side is Upper {
            b[a + 1] as i32
        } else {
            b[a as int] as i32
        },
        (Some(a), Some(b2), None) => i32_of_u32(le32(b[a as int], b[a + 1], b[b2 as int], b[b2 + 1])),
        _ => 0,
    }
}

#[derive(Debug)]
pub struct Memory {
    buf: Vec<u8>,
    s_size: usize,
    s_len: usize,
}

impl Memory {
    /// The whole byte buffer.
    pub closed spec fn bytes(&self) -> Seq<u8> {
        self.buf@
    }

    /// Total buffer size in bytes.
    pub open spec fn size(&self) -> nat {
        self.bytes().len()
    }

    /// Configured capacity of the operand-stack region.
    pub closed spec fn stack_size(&self) -> nat {
        self.s_size as nat
    }

    /// Bytes currently used in the operand-stack region.
    pub closed spec fn stack_len(&self) -> nat {
        self.s_len as nat
    }

    /// The regions fit in the buffer and the stack fits its region.
    pub open spec fn wf(&self) -> bool {
        &&& OFFSET + self.stack_size() <= self.size()
        &&& self.stack_len() <= self.stack_size()
    }

    /// First byte of the general memory region.
    pub open spec fn mem_base(&self) -> int {
        OFFSET + self.stack_size()
    }

    /// The live contents of the operand stack, bottom first.
    pub open spec fn stack_model(&self) -> Seq<u8> {
        self.bytes().subrange(OFFSET as int, OFFSET + self.stack_len())
    }

    /// Whether the condition flag is set.
    pub open spec fn flag_set(&self) -> bool {
        self.bytes()[REGISTRY_OFFSET as int] != 0
    }

    /// A fresh machine state: everything zeroed, the stack empty.
    pub fn init(mem_size: usize, s_size: usize) -> (r: Self)
        requires
            OFFSET + s_size <= mem_size,
        ensures
            r.wf(),
            r.size() == mem_size,
            r.stack_size() == s_size,
            r.stack_len() == 0,
            forall|i: int| 0 <= i < mem_size ==> r.bytes()[i] == 0u8,
    {
        let mut buf: Vec<u8> = Vec::new();
        while buf.len() < mem_size
            invariant
                buf@.len() <= mem_size,
                forall|i: int| 0 <= i < buf@.len() ==> buf@[i] == 0u8,
            decreases mem_size - buf@.len(),
        {
            buf.push(0u8);
        }
        Memory { buf, s_size, s_len: 0 }
    }

    /// Grow or shrink the stack region. Growing zero-fills the added bytes;
    /// shrinking clamps the current depth down to the new capacity.
    pub fn resize_stack(&mut self, s_size: usize) -> (r: Result<(), Fault>)
        requires
            old(self).wf(),
        ensures
            r is Err <==> OFFSET + s_size > old(self).size(),
            r is Err ==> *final(self) == *old(self),
            r is Ok ==> {
                &&& final(self).wf()
                &&& final(self).size() == old(self).size()
                &&& final(self).stack_size() == s_size
                &&& final(self).stack_len() == if old(self).stack_len() <= s_size {
                    old(self).stack_len()
                } else {
                    s_size as nat
                }
                &&& final(self).bytes().len() == old(self).bytes().len()
                &&& forall|i: int|
                    0 <= i < final(self).bytes().len() && !(OFFSET + old(self).stack_size() <= i
                        < OFFSET + s_size) ==> final(self).bytes()[i] == old(self).bytes()[i]
                &&& forall|i: int|
                    OFFSET + old(self).stack_size() <= i < OFFSET + s_size
                        ==> final(self).bytes()[i] == 0u8
            },
    {
        if s_size > self.buf.len() - OFFSET {
            return Err(Fault::OutOfBounds);
        }
        if s_size > self.s_size {
            let mut i: usize = OFFSET + self.s_size;
            let end: usize = OFFSET + s_size;
            while i < end
                invariant
                    OFFSET + old(self).stack_size() <= i <= end,
                    end == OFFSET + s_size,
                    end <= self.buf@.len(),
                    self.buf@.len() == old(self).buf@.len(),
                    self.s_size == old(self).s_size,
                    self.s_len == old(self).s_len,
                    forall|j: int|
                        0 <= j < self.buf@.len() && !(OFFSET + old(self).stack_size() <= j < i)
                            ==> self.buf@[j] == old(self).buf@[j],
                    forall|j: int| OFFSET + old(self).stack_size() <= j < i ==> self.buf@[j] == 0u8,
                decreases end - i,
            {
                self.buf.set(i, 0u8);
                i = i + 1;
            }
        }
        self.s_size = s_size;
        if self.s_len > s_size {
            self.s_len = s_size;
        }
        Ok(())
    }

    /// Zero the whole buffer.
    pub fn clear(&mut self)
        requires
            old(self).wf(),
        ensures
            final(self).wf(),
            final(self).size() == old(self).size(),
            final(self).stack_size() == old(self).stack_size(),
            final(self).stack_len() == old(self).stack_len(),
            forall|i: int| 0 <= i < final(self).bytes().len() ==> final(self).bytes()[i] == 0u8,
    {
        let mut i: usize = 0;
        let n = self.buf.len();
        while i < n
            invariant
                i <= n,
                n == self.buf@.len(),
                self.buf@.len() == old(self).buf@.len(),
                self.s_size == old(self).s_size,
                self.s_len == old(self).s_len,
                forall|j: int| 0 <= j < i ==> self.buf@[j] == 0u8,
            decreases n - i,
        {
            self.buf.set(i, 0u8);
            i = i + 1;
        }
    }

    /// Size of the general memory region.
    pub fn memory_len(&self) -> (r: usize)
        requires
            self.wf(),
        ensures
            r == self.size() - self.stack_size() - OFFSET,
    {
        self.buf.len() - self.s_size - OFFSET
    }

    /// A copy of the bytes in `start..end`.
    pub fn read_range(&self, start: usize, end: usize) -> (r: Vec<u8>)
        requires
            start <= end,
            end <= self.size(),
        ensures
            r@ == self.bytes().subrange(start as int, end as int),
    {
        let mut out: Vec<u8> = Vec::new();
        let mut i: usize = start;
        while i < end
            invariant
                start <= i <= end,
                end <= self.buf@.len(),
                out@ == self.buf@.subrange(start as int, i as int),
            decreases end - i,
        {
            out.push(self.buf[i]);
            i = i + 1;
            assert(out@ =~= self.buf@.subrange(start as int, i as int));
        }
        out
    }

    /// Overwrite the bytes starting at `start` with `vals`: either all of
    /// them fit and are written, or nothing is and the call faults.
    pub fn write_range(&mut self, start: usize, vals: &[u8]) -> (r: Result<(), Fault>)
        requires
            old(self).wf(),
        ensures
            r is Err <==> start + vals@.len() > old(self).size(),
            r is Err ==> *final(self) == *old(self),
            r is Ok ==> {
                &&& final(self).wf()
                &&& final(self).size() == old(self).size()
                &&& final(self).stack_size() == old(self).stack_size()
                &&& final(self).stack_len() == old(self).stack_len()
                &&& forall|i: int|
                    0 <= i < final(self).bytes().len() && !(start <= i < start + vals@.len())
                        ==> final(self).bytes()[i] == old(self).bytes()[i]
                &&& forall|i: int|
                    0 <= i < vals@.len() ==> final(self).bytes()[start + i] == vals@[i]
            },
    {
        let n = vals.len();
        if n > self.buf.len() || start > self.buf.len() - n {
            return Err(Fault::OutOfBounds);
        }
        let mut i: usize = 0;
        while i < n
            invariant
                i <= n,
                start + n <= self.buf@.len(),
                self.buf@.len() <= usize::MAX,
                n == vals@.len(),
                self.buf@.len() == old(self).buf@.len(),
                self.s_size == old(self).s_size,
                self.s_len == old(self).s_len,
                forall|j: int|
                    0 <= j < self.buf@.len() && !(start <= j < start + i) ==> self.buf@[j] == old(
                        self,
                    ).buf@[j],
                forall|j: int| 0 <= j < i ==> self.buf@[start + j] == vals@[j],
            decreases n - i,
        {
            self.buf.set(start + i, vals[i]);
            i = i + 1;
        }
        Ok(())
    }
}

// The condition flag: set and reset by comparison commands, read by the
// flag-gated conditional commands.
impl Memory {
    pub fn flag_write_cmp(&mut self)
        requires
            old(self).wf(),
        ensures
            final(self).wf(),
            final(self).bytes() == old(self).bytes().update(REGISTRY_OFFSET as int, 1u8),
            final(self).size() == old(self).size(),
            final(self).stack_size() == old(self).stack_size(),
            final(self).stack_len() == old(self).stack_len(),
            final(self).flag_set(),
    {
        self.buf.set(REGISTRY_OFFSET, 1u8);
    }

    pub fn flag_reset_cmp(&mut self)
        requires
            old(self).wf(),
        ensures
            final(self).wf(),
            final(self).bytes() == old(self).bytes().update(REGISTRY_OFFSET as int, 0u8),
            final(self).size() == old(self).size(),
            final(self).stack_size() == old(self).stack_size(),
            final(self).stack_len() == old(self).stack_len(),
            !final(self).flag_set(),
    {
        self.buf.set(REGISTRY_OFFSET, 0u8);
    }

    pub fn flag_read_cmp(&self) -> (r: bool)
        requires
            self.wf(),
        ensures
            r == self.flag_set(),
    {
        self.buf[REGISTRY_OFFSET] != 0
    }
}

// The register file: each identity addressable as two independent bytes, one
// 16-bit word, or paired with a second identity as a 32-bit view.
impl Memory {
    pub fn r_write<P: Position>(&mut self, keys: &P, element: i32)
        requires
            old(self).wf(),
            keys.spec_valid(),
        ensures
            final(self).wf(),
            final(self).size() == old(self).size(),
            final(self).stack_size() == old(self).stack_size(),
            final(self).stack_len() == old(self).stack_len(),
            final(self).bytes() == spec_reg_write(old(self).bytes(), keys.spec_indexes(), element),
    {
        match keys.indexes() {
            (Some(a), None, None) => {
                let x = crate::numeric::to_unsigned(element);
                let lo16: u32 = x % 0x1_0000;
                self.buf.set(a, (lo16 % 0x100) as u8);
                self.buf.set(a + 1, (lo16 / 0x100) as u8);
            }
            (Some(a), None, Some(side)) => {
                let x = crate::numeric::to_unsigned(element);
                let b = (x % 0x100) as u8;
                if side == Pos::Upper {
                    self.buf.set(a + 1, b);
                } else {
                    self.buf.set(a, b);
                }
            }
            (Some(a), Some(b2), None) => {
                let x = crate::numeric::to_unsigned(element);
                self.buf.set(a, (x % 0x100) as u8);
                self.buf.set(a + 1, ((x / 0x100) % 0x100) as u8);
                self.buf.set(b2, ((x / 0x1_0000) % 0x100) as u8);
                self.buf.set(b2 + 1, (x / 0x100_0000) as u8);
            }
            _ => {}
        }
    }

    pub fn r_read<P: Position>(&self, keys: &P) -> (r: i32)
        requires
            self.wf(),
            keys.spec_valid(),
        ensures
            r == spec_reg_value(self.bytes(), keys.spec_indexes()),
    {
        match keys.indexes() {
            (Some(a), None, None) => {
                let x: u32 = self.buf[a] as u32 + 0x100 * (self.buf[a + 1] as u32);
                if x < 0x8000 {
                    x as i32
                } else {
                    x as i32 - 0x1_0000
                }
            }
            (Some(a), None, Some(side)) => {
                if side == Pos::Upper {
                    self.buf[a + 1] as i32
                } else {
                    self.buf[a] as i32
                }
            }
            (Some(a), Some(b2), None) => {
                let x: u32 = self.buf[a] as u32 + 0x100 * (self.buf[a + 1] as u32) + 0x1_0000 * (
                self.buf[b2] as u32) + 0x100_0000 * (self.buf[b2 + 1] as u32);
                crate::numeric::to_signed(x)
            }
            _ => 0,
        }
    }
}

// The operand stack: push and pop at one, two or four bytes, little-endian,
// bounds-checked against the configured capacity.
impl Memory {
    /// Push `element` at the width of `S` onto the operand stack.
    pub fn s_push<S: Size>(&mut self, element: i32) -> (r: Result<(), Fault>)
        requires
            old(self).wf(),
            S::spec_len() == 1 || S::spec_len() == 2 || S::spec_len() == 4,
        ensures
            r is Err <==> old(self).stack_len() + S::spec_len() > old(self).stack_size(),
            r is Err ==> *final(self) == *old(self),
            r is Ok ==> {
                &&& final(self).wf()
                &&& final(self).size() == old(self).size()
                &&& final(self).stack_size() == old(self).stack_size()
                &&& final(self).stack_len() == old(self).stack_len() + S::spec_len()
                &&& final(self).bytes().len() == old(self).bytes().len()
                &&& forall|i: int|
                    0 <= i < final(self).bytes().len() && !(OFFSET + old(self).stack_len() <= i
                        < OFFSET + old(self).stack_len() + S::spec_len()) ==> final(self).bytes()[i]
                        == old(self).bytes()[i]
                &&& final(self).bytes().subrange(
                    OFFSET + old(self).stack_len(),
                    OFFSET + old(self).stack_len() + S::spec_len(),
                ) == enc_bytes(S::spec_len() as nat, element)
                &&& final(self).stack_model() == old(self).stack_model() + enc_bytes(
                    S::spec_len() as nat,
                    element,
                )
            },
    {
        let w = S::len();
        let total = self.buf.len();
        if self.s_len + w > self.s_size {
            return Err(Fault::StackOverflow);
        }
        let base = OFFSET + self.s_len;
        let x = crate::numeric::to_unsigned(element);
        if w == 1 {
            self.buf.set(base, (x % 0x100) as u8);
        } else if w == 2 {
            let lo16: u32 = x % 0x1_0000;
            self.buf.set(base, (lo16 % 0x100) as u8);
            self.buf.set(base + 1, (lo16 / 0x100) as u8);
        } else {
            self.buf.set(base, (x % 0x100) as u8);
            self.buf.set(base + 1, ((x / 0x100) % 0x100) as u8);
            self.buf.set(base + 2, ((x / 0x1_0000) % 0x100) as u8);
            self.buf.set(base + 3, (x / 0x100_0000) as u8);
        }
        self.s_len = self.s_len + w;
        proof {
            assert(final(self).bytes().subrange(
                OFFSET + old(self).stack_len(),
                OFFSET + old(self).stack_len() + S::spec_len(),
            ) =~= enc_bytes(S::spec_len() as nat, element));
            assert(final(self).stack_model() =~= old(self).stack_model() + enc_bytes(
                S::spec_len() as nat,
                element,
            ));
        }
        Ok(())
    }

    /// Pop one byte; `None` when the stack is empty. The popped byte is zeroed.
    pub fn s_pop_8(&mut self) -> (r: Option<u8>)
        requires
            old(self).wf(),
        ensures
            r is None <==> old(self).stack_len() < 1,
            r is None ==> *final(self) == *old(self),
            r matches Some(v) ==> {
                &&& v == old(self).stack_model().last()
                &&& final(self).wf()
                &&& final(self).size() == old(self).size()
                &&& final(self).stack_size() == old(self).stack_size()
                &&& final(self).stack_len() == old(self).stack_len() - 1
                &&& final(self).stack_model() == old(self).stack_model().drop_last()
                &&& final(self).bytes().len() == old(self).bytes().len()
                &&& forall|i: int|
                    0 <= i < final(self).bytes().len() && i != OFFSET + old(self).stack_len() - 1
                        ==> final(self).bytes()[i] == old(self).bytes()[i]
                &&& final(self).bytes()[OFFSET + old(self).stack_len() - 1] == 0u8
            },
    {
        let total = self.buf.len();
        if self.s_len == 0 {
            return None;
        }
        self.s_len = self.s_len - 1;
        let pos = OFFSET + self.s_len;
        let num = self.buf[pos];
        self.buf.set(pos, 0u8);
        proof {
            assert(final(self).stack_model() =~= old(self).stack_model().drop_last());
        }
        Some(num)
    }

    /// Pop a 16-bit value; `None` when fewer than two bytes are on the stack.
    pub fn s_pop_16(&mut self) -> (r: Option<i16>)
        requires
            old(self).wf(),
        ensures
            r is None <==> old(self).stack_len() < 2,
            r is None ==> *final(self) == *old(self),
            r matches Some(v) ==> {
                &&& v == crate::numeric::i16_of_u16(
                    le16(
                        old(self).stack_model()[old(self).stack_len() - 2],
                        old(self).stack_model()[old(self).stack_len() - 1],
                    ),
                )
                &&& final(self).wf()
                &&& final(self).size() == old(self).size()
                &&& final(self).stack_size() == old(self).stack_size()
                &&& final(self).stack_len() == old(self).stack_len() - 2
                &&& final(self).stack_model() == old(self).stack_model().take(
                    old(self).stack_len() - 2,
                )
                &&& final(self).bytes().len() == old(self).bytes().len()
                &&& forall|i: int|
                    0 <= i < final(self).bytes().len() && !(OFFSET + old(self).stack_len() - 2 <= i
                        < OFFSET + old(self).stack_len()) ==> final(self).bytes()[i] == old(
                        self,
                    ).bytes()[i]
                &&& forall|i: int|
                    OFFSET + old(self).stack_len() - 2 <= i < OFFSET + old(self).stack_len()
                        ==> final(self).bytes()[i] == 0u8
            },
    {
        let total = self.buf.len();
        if self.s_len < 2 {
            return None;
        }
        self.s_len = self.s_len - 2;
        let pos = OFFSET + self.s_len;
        let x: u32 = self.buf[pos] as u32 + 0x100 * (self.buf[pos + 1] as u32);
        let num: i16 = if x < 0x8000 {
            x as i16
        } else {
            (x as i32 - 0x1_0000) as i16
        };
        self.buf.set(pos, 0u8);
        self.buf.set(pos + 1, 0u8);
        proof {
            assert(final(self).stack_model() =~= old(self).stack_model().take(
                old(self).stack_len() - 2,
            ));
        }
        Some(num)
    }

    /// Pop a 32-bit value; `None` when fewer than four bytes are on the stack.
    pub fn s_pop_32(&mut self) -> (r: Option<i32>)
        requires
            old(self).wf(),
        ensures
            r is None <==> old(self).stack_len() < 4,
            r is None ==> *final(self) == *old(self),
            r matches Some(v) ==> {
                &&& v == i32_of_u32(
                    le32(
                        old(self).stack_model()[old(self).stack_len() - 4],
                        old(self).stack_model()[old(self).stack_len() - 3],
                        old(self).stack_model()[old(self).stack_len() - 2],
                        old(self).stack_model()[old(self).stack_len() - 1],
                    ),
                )
                &&& final(self).wf()
                &&& final(self).size() == old(self).size()
                &&& final(self).stack_size() == old(self).stack_size()
                &&& final(self).stack_len() == old(self).stack_len() - 4
                &&& final(self).stack_model() == old(self).stack_model().take(
                    old(self).stack_len() - 4,
                )
                &&& final(self).bytes().len() == old(self).bytes().len()
                &&& forall|i: int|
                    0 <= i < final(self).bytes().len() && !(OFFSET + old(self).stack_len() - 4 <= i
                        < OFFSET + old(self).stack_len()) ==> final(self).bytes()[i] == old(
                        self,
                    ).bytes()[i]
                &&& forall|i: int|
                    OFFSET + old(self).stack_len() - 4 <= i < OFFSET + old(self).stack_len()
                        ==> final(self).bytes()[i] == 0u8
            },
    {
        let total = self.buf.len();
        if self.s_len < 4 {
            return None;
        }
        self.s_len = self.s_len - 4;
        let pos = OFFSET + self.s_len;
        let x: u32 = self.buf[pos] as u32 + 0x100 * (self.buf[pos + 1] as u32) + 0x1_0000 * (
        self.buf[pos + 2] as u32) + 0x100_0000 * (self.buf[pos + 3] as u32);
        let num = crate::numeric::to_signed(x);
        self.buf.set(pos, 0u8);
        self.buf.set(pos + 1, 0u8);
        self.buf.set(pos + 2, 0u8);
        self.buf.set(pos + 3, 0u8);
        proof {
            assert(final(self).stack_model() =~= old(self).stack_model().take(
                old(self).stack_len() - 4,
            ));
        }
        Some(num)
    }
}

// The general memory region: reads and writes at one, two or four bytes,
// addressed relative to the end of the stack region, bounds-checked against
// the buffer end.
impl Memory {
    /// Write `val` at the width of `S` to memory address `pos`.
    pub fn m_write<S: Size>(&mut self, pos: usize, val: i32) -> (r: Result<(), Fault>)
        requires
            old(self).wf(),
            S::spec_len() == 1 || S::spec_len() == 2 || S::spec_len() == 4,
        ensures
            r is Err <==> old(self).mem_base() + pos + S::spec_len() > old(self).size(),
            r is Err ==> *final(self) == *old(self),
            r is Ok ==> {
                &&& final(self).wf()
                &&& final(self).size() == old(self).size()
                &&& final(self).stack_size() == old(self).stack_size()
                &&& final(self).stack_len() == old(self).stack_len()
                &&& final(self).bytes().len() == old(self).bytes().len()
                &&& forall|i: int|
                    0 <= i < final(self).bytes().len() && !(old(self).mem_base() + pos <= i < old(
                        self,
                    ).mem_base() + pos + S::spec_len()) ==> final(self).bytes()[i] == old(
                        self,
                    ).bytes()[i]
                &&& final(self).bytes().subrange(
                    old(self).mem_base() + pos,
                    old(self).mem_base() + pos + S::spec_len(),
                ) == enc_bytes(S::spec_len() as nat, val)
            },
    {
        let w = S::len();
        let avail = self.buf.len() - OFFSET - self.s_size;
        if w > avail || pos > avail - w {
            return Err(Fault::OutOfBounds);
        }
        let base = OFFSET + self.s_size + pos;
        let x = crate::numeric::to_unsigned(val);
        if w == 1 {
            self.buf.set(base, (x % 0x100) as u8);
        } else if w == 2 {
            let lo16: u32 = x % 0x1_0000;
            self.buf.set(base, (lo16 % 0x100) as u8);
            self.buf.set(base + 1, (lo16 / 0x100) as u8);
        } else {
            self.buf.set(base, (x % 0x100) as u8);
            self.buf.set(base + 1, ((x / 0x100) % 0x100) as u8);
            self.buf.set(base + 2, ((x / 0x1_0000) % 0x100) as u8);
            self.buf.set(base + 3, (x / 0x100_0000) as u8);
        }
        proof {
            assert(final(self).bytes().subrange(
                old(self).mem_base() + pos,
                old(self).mem_base() + pos + S::spec_len(),
            ) =~= enc_bytes(S::spec_len() as nat, val));
        }
        Ok(())
    }

    /// Read a value at the width of `S` from memory address `pos`.
    pub fn m_read<S: Size>(&self, pos: usize) -> (r: Result<i32, Fault>)
        requires
            self.wf(),
            S::spec_len() == 1 || S::spec_len() == 2 || S::spec_len() == 4,
        ensures
            r is Err <==> self.mem_base() + pos + S::spec_len() > self.size(),
            r matches Ok(v) ==> v == dec_value(
                self.bytes().subrange(
                    self.mem_base() + pos,
                    self.mem_base() + pos + S::spec_len(),
                ),
            ),
    {
        let w = S::len();
        let avail = self.buf.len() - OFFSET - self.s_size;
        if w > avail || pos > avail - w {
            return Err(Fault::OutOfBounds);
        }
        let base = OFFSET + self.s_size + pos;
        let ghost region = self.bytes().subrange(
            self.mem_base() + pos,
            self.mem_base() + pos + S::spec_len(),
        );
        if w == 1 {
            let v = self.buf[base] as i32;
            assert(region[0] == self.bytes()[self.mem_base() + pos]);
            Ok(v)
        } else if w == 2 {
            let x: u32 = self.buf[base] as u32 + 0x100 * (self.buf[base + 1] as u32);
            assert(region[0] == self.bytes()[self.mem_base() + pos] && region[1] == self.bytes()[
                self.mem_base() + pos + 1]);
            if x < 0x8000 {
                Ok(x as i32)
            } else {
                Ok(x as i32 - 0x1_0000)
            }
        } else {
            let x: u32 = self.buf[base] as u32 + 0x100 * (self.buf[base + 1] as u32) + 0x1_0000 * (
            self.buf[base + 2] as u32) + 0x100_0000 * (self.buf[base + 3] as u32);
            assert(region[0] == self.bytes()[self.mem_base() + pos] && region[1] == self.bytes()[
                self.mem_base() + pos + 1] && region[2] == self.bytes()[self.mem_base() + pos + 2]
                && region[3] == self.bytes()[self.mem_base() + pos + 3]);
            Ok(crate::numeric::to_signed(x))
        }
    }
}

} // verus!
