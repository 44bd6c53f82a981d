//! The execution environment: the machine memory, the program-input cursor,
//! the saved top-level AST used for label resolution and returns, the
//! call-history stack, the current position cursor, and the collected output.

use vstd::prelude::*;

use crate::fault::Fault;
use crate::iter::BufIter;
use crate::mem::Memory;
use crate::token::{clone_op, ops_view, Op, OpV};

verus! {

/// What a call-style jump does to the control state: the current position is
/// saved on the call history and execution moves to the start of the target.
pub open spec fn jump_ctl(jp: Seq<(usize, usize)>, pos: (usize, usize), target: usize) -> (
    Seq<(usize, usize)>,
    (usize, usize),
) {
    (jp.push(pos), (target, 0usize))
}

/// What a return does to the control state, given the top-level AST: the
/// saved frame is popped; execution resumes just past the saved offset when
/// the frame points at a branch, and at the next top-level slot otherwise.
/// `None` is the fatal case: empty history, no saved AST, a frame outside it,
/// or an offset that cannot advance.
pub open spec fn ret_ctl(jp: Seq<(usize, usize)>, parent: Option<Seq<OpV>>) -> Option<
    (Seq<(usize, usize)>, (usize, usize), usize),
> {
    if jp.len() == 0 {
        None
    } else {
        let (left, right) = jp.last();
        match parent {
            None => None,
            Some(p) => if left >= p.len() {
                None
            } else if p[left as int] is Branch {
                if right < usize::MAX {
                    Some((jp.drop_last(), (left, (right + 1) as usize), left))
                } else {
                    None
                }
            } else {
                Some((jp.drop_last(), ((left + 1) as usize, right), (left + 1) as usize))
            },
        }
    }
}

#[derive(Debug)]
pub struct Environment {
    pub mem: Memory,
    pub stdin: BufIter<u8>,
    pub parent_ast: Option<Vec<Op>>,
    pub jump_point: Vec<(usize, usize)>,
    pub pos: (usize, usize),
    pub out: Vec<char>,
}

impl Environment {
    /// The image of the saved top-level AST.
    pub open spec fn parent_view(&self) -> Option<Seq<OpV>> {
        match self.parent_ast {
            Some(ref v) => Some(ops_view(v@)),
            None => None,
        }
    }

    pub open spec fn wf(&self) -> bool {
        &&& self.mem.wf()
        &&& self.stdin.wf()
    }

    /// A fresh environment over `buf` as the program input: one kibibyte of
    /// zeroed memory with no stack region configured yet.
    pub fn new(buf: &[u8]) -> (r: Self)
        ensures
            r.wf(),
            r.mem.size() == 1024,
            r.mem.stack_size() == 0,
            r.mem.stack_len() == 0,
            forall|i: int| 0 <= i < 1024 ==> r.mem.bytes()[i] == 0u8,
            r.stdin.remaining() == buf@,
            r.parent_view() is None,
            r.jump_point@ == Seq::<(usize, usize)>::empty(),
            r.pos == (0usize, 0usize),
            r.out@ == Seq::<char>::empty(),
    {
        Environment {
            mem: Memory::init(1024, 0),
            stdin: BufIter::new(buf),
            parent_ast: None,
            jump_point: Vec::new(),
            pos: (0, 0),
            out: Vec::new(),
        }
    }

    /// Save a copy of the top-level AST for label resolution and returns.
    pub fn set_parent(&mut self, ast: &[Op])
        ensures
            final(self).parent_view() == Some(ops_view(ast@)),
            final(self).mem == old(self).mem,
            final(self).stdin == old(self).stdin,
            final(self).jump_point == old(self).jump_point,
            final(self).pos == old(self).pos,
            final(self).out == old(self).out,
    {
        let mut copy: Vec<Op> = Vec::new();
        let mut i: usize = 0;
        let n = ast.len();
        while i < n
            invariant
                i <= n,
                n == ast@.len(),
                copy@.len() == i,
                forall|j: int|
                    0 <= j < i ==> crate::token::op_view(#[trigger] copy@[j])
                        == crate::token::op_view(ast@[j]),
            decreases n - i,
        {
            copy.push(clone_op(&ast[i]));
            i = i + 1;
        }
        proof {
            crate::token::lemma_ops_view(copy@);
            crate::token::lemma_ops_view(ast@);
            assert(ops_view(copy@) =~= ops_view(ast@));
        }
        self.parent_ast = Some(copy);
    }

    /// The saved top-level AST, if one was set.
    pub fn get_parent(&self) -> (r: &Option<Vec<Op>>)
        ensures
            match r {
                Some(v) => self.parent_view() == Some(ops_view(v@)),
                None => self.parent_view() is None,
            },
    {
        &self.parent_ast
    }

    /// A call-style jump: save the current position, move to the target.
    pub fn call_jump(&mut self, ind: &mut usize, target: usize)
        ensures
            (final(self).jump_point@, final(self).pos) == jump_ctl(
                old(self).jump_point@,
                old(self).pos,
                target,
            ),
            *final(ind) == target,
            final(self).mem == old(self).mem,
            final(self).stdin == old(self).stdin,
            final(self).out == old(self).out,
            final(self).parent_view() == old(self).parent_view(),
    {
        *ind = target;
        self.jump_point.push(self.pos);
        self.pos = (target, 0);
    }

    /// A return: pop the call history and resume after the call site.
    pub fn ret_restore(&mut self, ind: &mut usize) -> (r: Result<(), Fault>)
        ensures
            match ret_ctl(old(self).jump_point@, old(self).parent_view()) {
                Some((jp, pos, ind2)) => {
                    &&& r is Ok
                    &&& final(self).jump_point@ == jp
                    &&& final(self).pos == pos
                    &&& *final(ind) == ind2
                },
                None => r is Err && *final(self) == *old(self) && *final(ind) == *old(ind),
            },
            final(self).mem == old(self).mem,
            final(self).stdin == old(self).stdin,
            final(self).out == old(self).out,
            final(self).parent_view() == old(self).parent_view(),
    {
        if self.jump_point.len() == 0 {
            return Err(Fault::CannotReturn);
        }
        let idx = self.jump_point.len() - 1;
        let (left, right) = self.jump_point[idx];
        let parent_len = match &self.parent_ast {
            None => {
                return Err(Fault::CannotReturn);
            }
            Some(p) => p.len(),
        };
        proof {
            crate::token::lemma_ops_view(self.parent_ast.unwrap()@);
        }
        if left >= parent_len {
            return Err(Fault::OutOfBounds);
        }
        let is_branch = match &self.parent_ast {
            Some(p) => matches!(&p[left], Op::Branch(_, _)),
            None => false,
        };
        proof {
            crate::token::lemma_ops_view(self.parent_ast.unwrap()@);
            assert(ops_view(self.parent_ast.unwrap()@)[left as int] == crate::token::op_view(
                self.parent_ast.unwrap()@[left as int],
            ));
        }
        if is_branch {
            if right == usize::MAX {
                return Err(Fault::OutOfBounds);
            }
            self.jump_point.pop();
            self.pos = (left, right + 1);
            *ind = left;
        } else {
            self.jump_point.pop();
            self.pos = (left + 1, right);
            *ind = left + 1;
        }
        proof {
            assert(final(self).jump_point@ =~= old(self).jump_point@.drop_last());
        }
        Ok(())
    }
}

} // verus!
