//! The result of one executed command: whether it transferred control flow,
//! and what numeric value it produced. One shape serves both the dispatch
//! loop (which only asks about jumps) and operand resolution (which only asks
//! for the value).

use vstd::prelude::*;

verus! {

pub struct Status {
    jmp: Option<bool>,
    bal: Option<i32>,
}

impl Status {
    /// Whether the operation reported a control transfer.
    pub closed spec fn spec_jmp(&self) -> bool {
        match self.jmp {
            Some(b) => b,
            None => false,
        }
    }

    /// The numeric value the operation produced, zero when it produced none.
    pub closed spec fn spec_val(&self) -> i32 {
        match self.bal {
            Some(v) => v,
            None => 0,
        }
    }

    /// A status that only reports whether control flow jumped.
    pub fn of_jmp(jmp: bool) -> (r: Status)
        ensures
            r.spec_jmp() == jmp,
            r.spec_val() == 0,
    {
        Status { jmp: Some(jmp), bal: None }
    }

    /// A status that only carries a produced value.
    pub fn of_val(bal: i32) -> (r: Status)
        ensures
            r.spec_jmp() == false,
            r.spec_val() == bal,
    {
        Status { jmp: None, bal: Some(bal) }
    }

    /// A status carrying both facts.
    pub fn of_jmp_val(jmp: bool, bal: i32) -> (r: Status)
        ensures
            r.spec_jmp() == jmp,
            r.spec_val() == bal,
    {
        Status { jmp: Some(jmp), bal: Some(bal) }
    }

    pub fn has_jmp(&self) -> (r: bool)
        ensures
            r == self.spec_jmp(),
    {
        match self.jmp {
            Some(b) => b,
            None => false,
        }
    }

    pub fn get_val(&self) -> (r: i32)
        ensures
            r == self.spec_val(),
    {
        match self.bal {
            Some(v) => v,
            None => 0,
        }
    }
}

} // verus!
