//! Width and register-addressing traits: a `Size` type names a byte width, and
//! a `Position` value names which bytes of the register file a register view
//! covers (one 16-bit slot, one of its halves, or a pair of slots).

use vstd::prelude::*;

use crate::consts::{is_reg_letter, reg_slot, reg_slot_of, REGISTRY_OFFSET};

verus! {

/// Describes the size of the number to be written or read.
pub trait Size {
    spec fn spec_len() -> usize;

    fn len() -> (r: usize)
        ensures
            r == Self::spec_len(),
    ;
}

impl Size for u8 {
    open spec fn spec_len() -> usize {
        1
    }

    fn len() -> usize {
        1
    }
}

impl Size for i16 {
    open spec fn spec_len() -> usize {
        2
    }

    fn len() -> usize {
        2
    }
}

impl Size for i32 {
    open spec fn spec_len() -> usize {
        4
    }

    fn len() -> usize {
        4
    }
}

impl Size for usize {
    open spec fn spec_len() -> usize {
        8
    }

    fn len() -> usize {
        8
    }
}

/// Which half of a 16-bit register slot a byte view addresses.
#[derive(PartialEq, Eq, Structural, Clone, Copy, Debug)]
pub enum Pos {
    Lower,
    Upper,
}

/// A resolved register location: the byte offset of the (first) 16-bit slot,
/// the offset of the second slot for paired 32-bit views, and the half for
/// single-byte views.
pub type Location = (Option<usize>, Option<usize>, Option<Pos>);

/// A register location is one of the three valid shapes, inside the register
/// file (which ends at the flag byte).
pub open spec fn loc_ok(loc: Location) -> bool {
    match loc {
        (Some(a), None, None) => a + 2 <= REGISTRY_OFFSET,
        (Some(a), None, Some(_)) => a + 2 <= REGISTRY_OFFSET,
        (Some(a), Some(b), None) => a + 2 <= REGISTRY_OFFSET && b + 2 <= REGISTRY_OFFSET,
        _ => false,
    }
}

/// A register key: decodes to the bytes of the register file it addresses.
pub trait Position {
    /// Whether this key names existing registers.
    spec fn spec_valid(&self) -> bool;

    /// The location this key decodes to.
    spec fn spec_indexes(&self) -> Location;

    /// How many 16-bit slots the key addresses.
    fn len(&self) -> usize;

    fn indexes(&self) -> (r: Location)
        requires
            self.spec_valid(),
        ensures
            r == self.spec_indexes(),
            loc_ok(r),
    ;
}

/// A single identity letter: its full 16-bit slot.
impl Position for char {
    open spec fn spec_valid(&self) -> bool {
        is_reg_letter(*self)
    }

    open spec fn spec_indexes(&self) -> Location {
        (Some(reg_slot(*self)), None, None)
    }

    fn len(&self) -> usize {
        1
    }

    fn indexes(&self) -> Location {
        (Some(reg_slot_of(*self)), None, None)
    }
}

/// An identity letter with a half marker: one byte of its slot.
impl Position for (char, Pos) {
    open spec fn spec_valid(&self) -> bool {
        is_reg_letter(self.0)
    }

    open spec fn spec_indexes(&self) -> Location {
        (Some(reg_slot(self.0)), None, Some(self.1))
    }

    fn len(&self) -> usize {
        1
    }

    fn indexes(&self) -> Location {
        (Some(reg_slot_of(self.0)), None, Some(self.1))
    }
}

/// Two identity letters: their slots paired into a 32-bit view.
impl Position for (char, char) {
    open spec fn spec_valid(&self) -> bool {
        is_reg_letter(self.0) && is_reg_letter(self.1)
    }

    open spec fn spec_indexes(&self) -> Location {
        (Some(reg_slot(self.0)), Some(reg_slot(self.1)), None)
    }

    fn len(&self) -> usize {
        2
    }

    fn indexes(&self) -> Location {
        (Some(reg_slot_of(self.0)), Some(reg_slot_of(self.1)), None)
    }
}

/// The status of one executed operation: whether it transferred control flow,
/// and what numeric value it produced.
pub trait Status {
    spec fn spec_jmp(&self) -> bool;

    spec fn spec_val(&self) -> i32;

    fn has_jmp(&self) -> (r: bool)
        ensures
            r == self.spec_jmp(),
    ;

    fn get_val(&self) -> (r: i32)
        ensures
            r == self.spec_val(),
    ;
}

impl Status for bool {
    open spec fn spec_jmp(&self) -> bool {
        *self
    }

    open spec fn spec_val(&self) -> i32 {
        0
    }

    fn has_jmp(&self) -> bool {
        *self
    }

    fn get_val(&self) -> i32 {
        0
    }
}

impl Status for i32 {
    open spec fn spec_jmp(&self) -> bool {
        false
    }

    open spec fn spec_val(&self) -> i32 {
        *self
    }

    fn has_jmp(&self) -> bool {
        false
    }

    fn get_val(&self) -> i32 {
        *self
    }
}

impl Status for (bool, i32) {
    open spec fn spec_jmp(&self) -> bool {
        self.0
    }

    open spec fn spec_val(&self) -> i32 {
        self.1
    }

    fn has_jmp(&self) -> bool {
        self.0
    }

    fn get_val(&self) -> i32 {
        self.1
    }
}

} // verus!
