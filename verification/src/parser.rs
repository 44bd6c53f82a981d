//! The execution engine: resolves operands (literals, registers, memory
//! references, stack pops, labels, nested commands), dispatches commands
//! against the machine state, and manages control flow (jumps into labeled
//! branches, returns, and the halt command).

use vstd::prelude::*;

use crate::consts::{
    cmd_kind_of_chars, conditional, is_reg_letter, reg_letter, reg_slot, spec_cmd_kind,
    spec_conditional, CmdKind, OFFSET,
};
use crate::env::{jump_ctl, ret_ctl, Environment};
use crate::fault::Fault;
use crate::lexer::str_chars;
use crate::mem::{dec_value, enc_bytes, spec_reg_value, spec_reg_write, Memory};
use crate::numeric::{to_unsigned, u32_of_i32};
use crate::status::Status;
use crate::token::{
    lemma_ops_height_index, lemma_ops_height_two, lemma_ops_view, op_height, op_view, ops_height,
    ops_view, Op, OpV,
};
use crate::traits::{Location, Pos};

verus! {

/// Why a run stopped early: an unrecoverable fault, or the halt command with
/// its exit code. Either abandons all pending work at once, like a process
/// exit.
#[derive(Debug, PartialEq, Eq, Clone)]
pub enum Abort {
    Fault(Fault),
    Halt(i32),
}

/// How a run ended. A fault carries the machine state along, so the output
/// the program printed before the fault is still in the driver's hands, as it
/// had already reached the screen when printing was interleaved with
/// execution.
#[derive(Debug, PartialEq, Eq, Clone)]
pub enum Outcome {
    /// The top-level AST was exhausted.
    Completed,
    /// The halt command ran, with this exit code.
    Halted(i32),
    /// The step budget ran out first.
    OutOfSteps,
    /// An unrecoverable fault ended the run.
    Faulted(Fault),
}

/// The comparison a flag-setting command computes.
#[derive(Debug, PartialEq, Eq, Structural, Clone, Copy)]
pub enum CmpOp {
    Eq,
    Ne,
    Lt,
    Le,
    Gt,
    Ge,
}

/// The mathematical relation each comparison stands for, over signed 32-bit
/// values.
pub open spec fn spec_cmp(op: CmpOp, l: i32, r: i32) -> bool {
    match op {
        CmpOp::Eq => l == r,
        CmpOp::Ne => l != r,
        CmpOp::Lt => l < r,
        CmpOp::Le => l <= r,
        CmpOp::Gt => l > r,
        CmpOp::Ge => l >= r,
    }
}

/// Decide a comparison on concrete values.
pub fn cmp_eval(op: CmpOp, l: i32, r: i32) -> (b: bool)
    ensures
        b == spec_cmp(op, l, r),
{
    match op {
        CmpOp::Eq => l == r,
        CmpOp::Ne => l != r,
        CmpOp::Lt => l < r,
        CmpOp::Le => l <= r,
        CmpOp::Gt => l > r,
        CmpOp::Ge => l >= r,
    }
}

/// The in-place arithmetic and bitwise commands. Addition, subtraction,
/// multiplication and the shifts wrap as machine arithmetic does; `None` is
/// division by zero or overflowing division.
pub open spec fn spec_binop(k: CmdKind, l: i32, r: i32) -> Option<i32> {
    match k {
        CmdKind::Mul | CmdKind::Cmu => Some(vstd::wrapping::i32_specs::wrapping_mul(l, r)),
        CmdKind::Div | CmdKind::Cdi => l.checked_div(r),
        CmdKind::Add | CmdKind::Cad => Some(vstd::wrapping::i32_specs::wrapping_add(l, r)),
        CmdKind::Sub | CmdKind::Csu => Some(vstd::wrapping::i32_specs::wrapping_sub(l, r)),
        CmdKind::Lsh | CmdKind::Cls => Some(
            vstd::wrapping::i32_specs::wrapping_shl(l, u32_of_i32(r)),
        ),
        CmdKind::Rsh | CmdKind::Crs => Some(
            vstd::wrapping::i32_specs::wrapping_shr(l, u32_of_i32(r)),
        ),
        CmdKind::Or | CmdKind::Cor => Some(l | r),
        CmdKind::Xor | CmdKind::Cxo => Some(l ^ r),
        CmdKind::And | CmdKind::Can => Some(l & r),
        _ => None,
    }
}

pub open spec fn is_binop_kind(k: CmdKind) -> bool {
    match k {
        CmdKind::Mul | CmdKind::Cmu | CmdKind::Div | CmdKind::Cdi | CmdKind::Add | CmdKind::Cad
            | CmdKind::Sub | CmdKind::Csu | CmdKind::Lsh | CmdKind::Cls | CmdKind::Rsh
            | CmdKind::Crs | CmdKind::Or | CmdKind::Cor | CmdKind::Xor | CmdKind::Cxo
            | CmdKind::And | CmdKind::Can => true,
        _ => false,
    }
}

/// The register-file location a register name addresses: a name ending in the
/// word suffix with three characters is a paired 32-bit view whose leading
/// letter is the extension half: it holds the high 16 bits, and the trailing
/// identity keeps the low half, so the paired view extends the 16-bit view of
/// its trailing letter and two pairs with distinct trailing letters keep
/// distinct low halves (the division scenario over two such pairs depends on
/// this). The word suffix alone is a 16-bit view, the high suffix the upper
/// byte, and anything else the lower byte. Only the lower-case suffixes
/// select the wider views.
pub open spec fn spec_reg_loc(name: Seq<char>) -> Option<Location> {
    if name.len() == 0 {
        None
    } else if name.last() == 'x' && name.len() == 3 {
        if is_reg_letter(name[0]) && is_reg_letter(name[1]) {
            Some((Some(reg_slot(name[1])), Some(reg_slot(name[0])), None))
        } else {
            None
        }
    } else if name.last() == 'x' {
        if is_reg_letter(name[0]) {
            Some((Some(reg_slot(name[0])), None, None))
        } else {
            None
        }
    } else if name.last() == 'h' {
        if is_reg_letter(name[0]) {
            Some((Some(reg_slot(name[0])), None, Some(Pos::Upper)))
        } else {
            None
        }
    } else {
        if is_reg_letter(name[0]) {
            Some((Some(reg_slot(name[0])), None, Some(Pos::Lower)))
        } else {
            None
        }
    }
}

/// A decoded register view.
enum RegView {
    Wide(char, char),
    Word(char),
    High(char),
    Low(char),
}

spec fn rv_loc(rv: RegView) -> Location {
    match rv {
        RegView::Wide(a, b) => (Some(reg_slot(a)), Some(reg_slot(b)), None),
        RegView::Word(a) => (Some(reg_slot(a)), None, None),
        RegView::High(a) => (Some(reg_slot(a)), None, Some(Pos::Upper)),
        RegView::Low(a) => (Some(reg_slot(a)), None, Some(Pos::Lower)),
    }
}

spec fn rv_valid(rv: RegView) -> bool {
    match rv {
        RegView::Wide(a, b) => is_reg_letter(a) && is_reg_letter(b),
        RegView::Word(a) => is_reg_letter(a),
        RegView::High(a) => is_reg_letter(a),
        RegView::Low(a) => is_reg_letter(a),
    }
}

/// Decode a register name.
fn reg_view_of(name: &String) -> (r: Result<RegView, Fault>)
    ensures
        match spec_reg_loc(name@) {
            Some(loc) => r matches Ok(rv) && rv_loc(rv) == loc && rv_valid(rv),
            None => r is Err,
        },
{
    let cs = str_chars(name.as_str());
    let n = cs.len();
    if n == 0 {
        return Err(Fault::BadRegister(name.clone()));
    }
    let last = cs[n - 1];
    if last == 'x' && n == 3 {
        if reg_letter(cs[0]) && reg_letter(cs[1]) {
            Ok(RegView::Wide(cs[1], cs[0]))
        } else {
            Err(Fault::BadRegister(name.clone()))
        }
    } else if last == 'x' {
        if reg_letter(cs[0]) {
            Ok(RegView::Word(cs[0]))
        } else {
            Err(Fault::BadRegister(name.clone()))
        }
    } else if last == 'h' {
        if reg_letter(cs[0]) {
            Ok(RegView::High(cs[0]))
        } else {
            Err(Fault::BadRegister(name.clone()))
        }
    } else {
        if reg_letter(cs[0]) {
            Ok(RegView::Low(cs[0]))
        } else {
            Err(Fault::BadRegister(name.clone()))
        }
    }
}

/// A name without its leading sigil.
pub open spec fn name_tail(s: Seq<char>) -> Seq<char> {
    if s.len() >= 1 {
        s.subrange(1, s.len() as int)
    } else {
        s
    }
}

/// The index of the first branch whose name, sigil stripped, matches the
/// label's name, sigil stripped.
pub open spec fn label_lookup(ast: Seq<OpV>, lname: Seq<char>) -> Option<int>
    decreases ast.len(),
{
    if ast.len() == 0 {
        None
    } else if ast[0] matches OpV::Branch(n, _) && name_tail(n) == name_tail(lname) {
        Some(0)
    } else {
        match label_lookup(ast.subrange(1, ast.len() as int), lname) {
            Some(i) => Some(i + 1),
            None => None,
        }
    }
}

/// A found label index lies inside the searched sequence.
pub proof fn lemma_label_lookup_bounds(ast: Seq<OpV>, lname: Seq<char>)
    ensures
        label_lookup(ast, lname) matches Some(i) ==> 0 <= i < ast.len(),
    decreases ast.len(),
{
    if ast.len() > 0 {
        lemma_label_lookup_bounds(ast.subrange(1, ast.len() as int), lname);
    }
}

/// Whether two names agree after their leading sigils.
fn tail_eq(a: &String, b: &String) -> (r: bool)
    ensures
        r == (name_tail(a@) == name_tail(b@)),
{
    let ca = str_chars(a.as_str());
    let cb = str_chars(b.as_str());
    let sa: usize = if ca.len() >= 1 {
        1
    } else {
        0
    };
    let sb: usize = if cb.len() >= 1 {
        1
    } else {
        0
    };
    if ca.len() - sa != cb.len() - sb {
        proof {
            assert(name_tail(a@).len() != name_tail(b@).len());
        }
        return false;
    }
    let n = ca.len() - sa;
    let mut i: usize = 0;
    while i < n
        invariant
            i <= n,
            n == ca@.len() - sa,
            n == cb@.len() - sb,
            sa <= ca@.len(),
            sb <= cb@.len(),
            (sa == 1 && ca@.len() >= 1) || (sa == 0 && ca@.len() == 0),
            (sb == 1 && cb@.len() >= 1) || (sb == 0 && cb@.len() == 0),
            ca@ == a@,
            cb@ == b@,
            forall|j: int| 0 <= j < i ==> #[trigger] ca@[sa + j] == cb@[sb + j],
        decreases n - i,
    {
        if ca[sa + i] != cb[sb + i] {
            proof {
                assert(name_tail(a@)[i as int] == ca@[sa + i]);
                assert(name_tail(b@)[i as int] == cb@[sb + i]);
            }
            return false;
        }
        i = i + 1;
    }
    proof {
        assert(name_tail(a@).len() == name_tail(b@).len());
        assert forall|j: int| 0 <= j < name_tail(a@).len() implies name_tail(a@)[j] == name_tail(
            b@,
        )[j] by {
            assert(ca@[sa + j] == cb@[sb + j]);
        }
        assert(name_tail(a@) =~= name_tail(b@));
    }
    true
}

/// Find the branch a label refers to, scanning from `from`.
fn find_label_from(ops: &[Op], from: usize, lname: &String) -> (r: Option<usize>)
    requires
        from <= ops@.len(),
    ensures
        match label_lookup(ops_view(ops@).subrange(from as int, ops@.len() as int), lname@) {
            Some(i) => r == Some((from + i) as usize),
            None => r is None,
        },
    decreases ops@.len() - from,
{
    proof {
        lemma_ops_view(ops@);
    }
    if from >= ops.len() {
        proof {
            assert(ops_view(ops@).subrange(from as int, ops@.len() as int) =~= Seq::<
                OpV,
            >::empty());
        }
        return None;
    }
    let ghost piece = ops_view(ops@).subrange(from as int, ops@.len() as int);
    proof {
        assert(piece[0] == ops_view(ops@)[from as int]);
        assert(piece.subrange(1, piece.len() as int) =~= ops_view(ops@).subrange(
            from + 1,
            ops@.len() as int,
        ));
    }
    let hit = match &ops[from] {
        Op::Branch(n, _) => tail_eq(n, lname),
        _ => false,
    };
    if hit {
        Some(from)
    } else {
        find_label_from(ops, from + 1, lname)
    }
}

/// The value of an operand whose resolution reads, but never changes, the
/// machine state: a numeric or character literal, a register view, or a label.
pub open spec fn pure_operand_value(env: Environment, ast: Seq<OpV>, op: OpV) -> Option<i32> {
    match op {
        OpV::Numeric(v) => Some(v),
        OpV::CharLit(c) => Some((((c as u32) % 0x100) as i32)),
        OpV::Register(name) => match spec_reg_loc(name) {
            Some(loc) => Some(spec_reg_value(env.mem.bytes(), loc)),
            None => None,
        },
        OpV::Label(name) => match label_lookup(lookup_ast(env, ast), name) {
            Some(i) => if i <= 0x7fff_ffff {
                Some(i as i32)
            } else {
                None
            },
            None => None,
        },
        _ => None,
    }
}

/// Labels resolve against the saved top-level AST, or against the current one
/// when none was saved.
pub open spec fn lookup_ast(env: Environment, ast: Seq<OpV>) -> Seq<OpV> {
    match env.parent_view() {
        Some(p) => p,
        None => ast,
    }
}

/// The byte width a memory sigil selects.
pub open spec fn mem_width(c: char) -> Option<nat> {
    if c == '#' {
        Some(1nat)
    } else if c == '$' {
        Some(2nat)
    } else if c == '@' {
        Some(4nat)
    } else {
        None
    }
}

/// A read-only operand's value depends only on the register file and the
/// saved top-level AST: two states agreeing there give it the same value.
proof fn lemma_pure_value_frame(e0: Environment, e1: Environment, ast: Seq<OpV>, op: OpV)
    requires
        e1.parent_view() == e0.parent_view(),
        e1.mem.bytes().len() == e0.mem.bytes().len(),
        forall|i: int|
            0 <= i < crate::consts::REGISTRY_OFFSET ==> e1.mem.bytes()[i] == e0.mem.bytes()[i],
        e0.mem.bytes().len() >= crate::consts::REGISTRY_OFFSET,
    ensures
        pure_operand_value(e1, ast, op) == pure_operand_value(e0, ast, op),
{
    match op {
        OpV::Register(name) => {
            match spec_reg_loc(name) {
                Some(loc) => {
                    assert(spec_reg_value(e1.mem.bytes(), loc) == spec_reg_value(
                        e0.mem.bytes(),
                        loc,
                    ));
                }
                None => {}
            }
        }
        _ => {}
    }
}

/// The width a stack pop uses for a given requested size.
pub open spec fn pop_width(l: usize) -> nat {
    if l == 1 {
        1nat
    } else if l == 2 {
        2nat
    } else {
        4nat
    }
}

/// The pop width a register view uses: its own byte width.
pub open spec fn loc_pop_width(loc: Location) -> nat {
    match loc {
        (Some(_), None, None) => 2nat,
        (Some(_), None, Some(_)) => 1nat,
        (Some(_), Some(_), None) => 4nat,
        _ => 0nat,
    }
}

/// Whether a paired view's two slots are distinct registers.
pub open spec fn loc_disjoint(loc: Location) -> bool {
    match loc {
        (Some(a), Some(b), None) => a + 2 <= b || b + 2 <= a,
        _ => true,
    }
}

/// How a pop at width `w` relates the machine state before and after.
pub open spec fn spec_popped(m0: Memory, m1: Memory, w: nat) -> bool {
    &&& m1.wf()
    &&& m1.size() == m0.size()
    &&& m1.stack_size() == m0.stack_size()
    &&& m1.stack_len() == m0.stack_len() - w
    &&& m1.stack_model() == m0.stack_model().take(m0.stack_len() - w)
}

/// The value a pop at width `w` returns: the top `w` stack bytes, decoded.
pub open spec fn spec_pop_value(m0: Memory, w: nat) -> i32 {
    dec_value(m0.stack_model().skip(m0.stack_len() - w))
}

/// What resolving a nested-command operand yields: the dispatcher ran, and
/// the operand's value is the produced status value — or the dispatch ended
/// the run and the abort is passed through.
pub open spec fn nested_cmd_value(
    k: CmdKind,
    e0: Environment,
    astv: Seq<OpV>,
    cargs: Seq<OpV>,
    e1: Environment,
    r: Result<i32, Abort>,
) -> bool {
    ||| exists|st: Status, i2: usize|
        #[trigger] cmd_effect(k, e0, astv, cargs, 0, e1, Ok((st, i2))) && r == Ok::<
            i32,
            Abort,
        >(st.spec_val())
    ||| exists|a: Abort|
        (#[trigger] cmd_effect(k, e0, astv, cargs, 0, e1, Err(a))) && r == Err::<i32, Abort>(a)
}

/// The frame every engine step preserves.
pub open spec fn engine_frame(e0: Environment, e1: Environment) -> bool {
    &&& e1.wf()
    &&& e1.parent_view() == e0.parent_view()
    &&& e1.mem.size() == e0.mem.size()
}

/// Resolve an operand to its numeric value. The type parameter gives the
/// width a stack-pop operand uses; literals, registers, memory reads and
/// labels carry their own widths.
#[verifier::rlimit(100)]
#[verifier::spinoff_prover]
pub fn to_numeric<S: crate::traits::Size>(env: &mut Environment, ast: &[Op], obj: &Op) -> (r:
    Result<i32, Abort>)
    requires
        old(env).wf(),
        S::spec_len() == 1 || S::spec_len() == 2 || S::spec_len() == 4 || S::spec_len() == 8,
    ensures
        engine_frame(*old(env), *final(env)),
        (match obj@ {
            OpV::Numeric(_) | OpV::CharLit(_) | OpV::Register(_) | OpV::Label(_) => {
                &&& *final(env) == *old(env)
                &&& (match pure_operand_value(*old(env), ops_view(ast@), obj@) {
                    Some(v) => r == Ok::<i32, Abort>(v),
                    None => r is Err,
                })
            },
            OpV::StackMarker => {
                let w = pop_width(S::spec_len());
                if old(env).mem.stack_len() >= w {
                    &&& r == Ok::<i32, Abort>(spec_pop_value(old(env).mem, w))
                    &&& spec_popped(old(env).mem, final(env).mem, w)
                    &&& final(env).stdin == old(env).stdin
                    &&& final(env).out == old(env).out
                    &&& final(env).jump_point == old(env).jump_point
                    &&& final(env).pos == old(env).pos
                } else {
                    r is Err && *final(env) == *old(env)
                }
            },
            OpV::StrLit(_) | OpV::Branch(_, _) | OpV::BinOp(_, _) | OpV::Empty => r is Err
                && *final(env) == *old(env),
            _ => true,
        }),
        obj@ matches OpV::Cmd(cname, cargs) ==> (match spec_cmd_kind(cname) {
            Some(k) => (spec_conditional(k) ==> old(env).mem.flag_set()) ==> nested_cmd_value(
                k,
                *old(env),
                ops_view(ast@),
                cargs,
                *final(env),
                r,
            ),
            None => r is Err,
        }),
        obj@ matches OpV::Memory(c, children) ==> (pure_operand_value(
            *old(env),
            ops_view(ast@),
            children[0],
        ) matches Some(a) ==> {
            &&& *final(env) == *old(env)
            &&& (match mem_width(c) {
                Some(w) => if 0 <= a && old(env).mem.mem_base() + a + w <= old(env).mem.size() {
                    r == Ok::<i32, Abort>(
                        dec_value(
                            old(env).mem.bytes().subrange(
                                old(env).mem.mem_base() + a,
                                old(env).mem.mem_base() + a + w,
                            ),
                        ),
                    )
                } else {
                    r is Err
                },
                None => r is Err,
            })
        }),
    decreases op_height(*obj), 0int,
{
    match obj {
        Op::Numeric(val) => Ok(*val),
        Op::StackMarker => {
            let w = S::len();
            if w == 1 {
                match env.mem.s_pop_8() {
                    Some(b) => {
                        proof {
                            let m = old(env).mem.stack_model();
                            assert(m.skip(old(env).mem.stack_len() - 1) =~= seq![m[m.len() - 1]]);
                        }
                        Ok(b as i32)
                    }
                    None => Err(Abort::Fault(Fault::StackUnderflow)),
                }
            } else if w == 2 {
                match env.mem.s_pop_16() {
                    Some(v) => {
                        proof {
                            let m = old(env).mem.stack_model();
                            assert(m.skip(old(env).mem.stack_len() - 2) =~= seq![
                                m[old(env).mem.stack_len() - 2],
                                m[old(env).mem.stack_len() - 1],
                            ]);
                            assert(final(env).mem.stack_model() =~= m.take(
                                old(env).mem.stack_len() - 2,
                            ));
                        }
                        Ok(v as i32)
                    }
                    None => Err(Abort::Fault(Fault::StackUnderflow)),
                }
            } else {
                match env.mem.s_pop_32() {
                    Some(v) => {
                        proof {
                            let m = old(env).mem.stack_model();
                            assert(m.skip(old(env).mem.stack_len() - 4) =~= seq![
                                m[old(env).mem.stack_len() - 4],
                                m[old(env).mem.stack_len() - 3],
                                m[old(env).mem.stack_len() - 2],
                                m[old(env).mem.stack_len() - 1],
                            ]);
                            assert(final(env).mem.stack_model() =~= m.take(
                                old(env).mem.stack_len() - 4,
                            ));
                        }
                        Ok(v)
                    }
                    None => Err(Abort::Fault(Fault::StackUnderflow)),
                }
            }
        }
        Op::Memory(ident, inner) => {
            proof {
                assert(op_view(*obj) == OpV::Memory(*ident, seq![op_view(**inner)]));
                assert(seq![op_view(**inner)][0] == op_view(**inner));
            }
            let addr = match to_numeric::<usize>(env, ast, inner) {
                Ok(v) => v,
                Err(a) => {
                    return Err(a);
                }
            };
            if addr < 0 {
                return Err(Abort::Fault(Fault::CastError));
            }
            let pos = addr as usize;
            let ident = *ident;
            let read = if ident == '#' {
                env.mem.m_read::<u8>(pos)
            } else if ident == '$' {
                env.mem.m_read::<i16>(pos)
            } else if ident == '@' {
                env.mem.m_read::<i32>(pos)
            } else {
                return Err(Abort::Fault(Fault::BadMemoryIdent(ident)));
            };
            match read {
                Ok(v) => Ok(v),
                Err(f) => Err(Abort::Fault(f)),
            }
        }
        Op::Register(name) => {
            match reg_view_of(name) {
                Err(f) => Err(Abort::Fault(f)),
                Ok(rv) => match rv {
                    RegView::Wide(a, b) => Ok(env.mem.r_read(&(a, b))),
                    RegView::Word(a) => Ok(env.mem.r_read(&a)),
                    RegView::High(a) => Ok(env.mem.r_read(&(a, Pos::Upper))),
                    RegView::Low(a) => Ok(env.mem.r_read(&(a, Pos::Lower))),
                },
            }
        }
        Op::Label(name) => {
            let found = match &env.parent_ast {
                Some(p) => {
                    let pn = p.len();
                    let r = find_label_from(p.as_slice(), 0, name);
                    proof {
                        lemma_ops_view(p@);
                        assert(p@.len() == pn);
                        assert(ops_view(p@).subrange(0, p@.len() as int) =~= ops_view(p@));
                    }
                    r
                }
                None => {
                    let an = ast.len();
                    let r = find_label_from(ast, 0, name);
                    proof {
                        lemma_ops_view(ast@);
                        assert(ast@.len() == an);
                        assert(ops_view(ast@).subrange(0, ast@.len() as int) =~= ops_view(ast@));
                    }
                    r
                }
            };
            proof {
                lemma_label_lookup_bounds(lookup_ast(*old(env), ops_view(ast@)), name@);
            }
            match found {
                Some(i) => {
                    if i <= 0x7fff_ffff {
                        Ok(i as i32)
                    } else {
                        Err(Abort::Fault(Fault::CastError))
                    }
                }
                None => Err(Abort::Fault(Fault::NoMatchingLabel(name.clone()))),
            }
        }
        Op::Char(chr) => {
            let u = (*chr) as u32;
            Ok((u % 0x100) as i32)
        }
        Op::Cmd(name, args) => {
            proof {
                assert(op_height(*obj) == 1 + ops_height(args@));
                assert(op_view(*obj) == OpV::Cmd(name@, ops_view(args@)));
            }
            match run_cmd(env, ast, 0, name, args) {
                Ok((st, i2)) => {
                    let v = st.get_val();
                    proof {
                        match spec_cmd_kind(name@) {
                            Some(k) => {
                                if !spec_conditional(k) || old(env).mem.flag_set() {
                                    assert(nested_cmd_value(
                                        k,
                                        *old(env),
                                        ops_view(ast@),
                                        ops_view(args@),
                                        *env,
                                        Ok(v),
                                    )) by {
                                        assert(cmd_effect(
                                            k,
                                            *old(env),
                                            ops_view(ast@),
                                            ops_view(args@),
                                            0,
                                            *env,
                                            Ok((st, i2)),
                                        ));
                                    }
                                }
                            },
                            None => {},
                        }
                    }
                    Ok(v)
                }
                Err(a) => {
                    proof {
                        match spec_cmd_kind(name@) {
                            Some(k) => {
                                if !spec_conditional(k) || old(env).mem.flag_set() {
                                    assert(nested_cmd_value(
                                        k,
                                        *old(env),
                                        ops_view(ast@),
                                        ops_view(args@),
                                        *env,
                                        Err(a),
                                    )) by {
                                        assert(cmd_effect(
                                            k,
                                            *old(env),
                                            ops_view(ast@),
                                            ops_view(args@),
                                            0,
                                            *env,
                                            Err(a),
                                        ));
                                    }
                                }
                            },
                            None => {},
                        }
                    }
                    Err(a)
                }
            }
        }
        Op::BinOp(_, _, _) => Err(Abort::Fault(Fault::MathUnsupported)),
        Op::String(_) => Err(Abort::Fault(Fault::InvalidNumericLiteral)),
        Op::Branch(_, _) => Err(Abort::Fault(Fault::InvalidNumericLiteral)),
        Op::Empty => Err(Abort::Fault(Fault::InvalidNumericLiteral)),
    }
}

/// The environment fields a machine-state write never touches.
pub open spec fn io_frame(e0: Environment, e1: Environment) -> bool {
    &&& e1.stdin == e0.stdin
    &&& e1.out == e0.out
    &&& e1.jump_point == e0.jump_point
    &&& e1.pos == e0.pos
    &&& e1.parent_view() == e0.parent_view()
}

/// What storing `v` into the destination `dst` does: a register view receives
/// the value truncated to its width; a memory destination whose address
/// operand reads without side effects receives the value's little-endian
/// encoding at that address, bounds-checked; any other destination kind is a
/// fault that changes nothing.
pub open spec fn store_effect(
    e0: Environment,
    e1: Environment,
    ast: Seq<OpV>,
    dst: OpV,
    v: i32,
    ok: bool,
) -> bool {
    match dst {
        OpV::Register(name) => (match spec_reg_loc(name) {
            Some(loc) => {
                &&& ok
                &&& e1.mem.bytes() == spec_reg_write(e0.mem.bytes(), loc, v)
                &&& e1.mem.stack_size() == e0.mem.stack_size()
                &&& e1.mem.stack_len() == e0.mem.stack_len()
                &&& io_frame(e0, e1)
            },
            None => !ok && e1 == e0,
        }),
        OpV::Memory(c, children) => (match pure_operand_value(e0, ast, children[0]) {
            Some(a) => (match mem_width(c) {
                Some(w) => if 0 <= a && e0.mem.mem_base() + a + w <= e0.mem.size() {
                    &&& ok
                    &&& e1.mem.bytes().len() == e0.mem.bytes().len()
                    &&& e1.mem.bytes().subrange(
                        e0.mem.mem_base() + a,
                        e0.mem.mem_base() + a + w,
                    ) == enc_bytes(w, v)
                    &&& forall|i: int|
                        0 <= i < e1.mem.bytes().len() && !(e0.mem.mem_base() + a <= i < e0.mem.mem_base()
                            + a + w) ==> e1.mem.bytes()[i] == e0.mem.bytes()[i]
                    &&& e1.mem.stack_size() == e0.mem.stack_size()
                    &&& e1.mem.stack_len() == e0.mem.stack_len()
                    &&& io_frame(e0, e1)
                } else {
                    !ok && e1 == e0
                },
                None => !ok && e1 == e0,
            }),
            None => true,
        }),
        _ => !ok && e1 == e0,
    }
}

/// The source of the value an in-place write stores.
enum ValSrc<'a> {
    /// Resolve this operand at the destination's width.
    Operand(&'a Op),
    /// A value already computed.
    Const(i32),
    /// Pop from the operand stack at the destination's width.
    PopStack,
}

spec fn valsrc_height(v: ValSrc<'_>) -> nat {
    match v {
        ValSrc::Operand(op) => op_height(*op),
        _ => 0,
    }
}

/// The value a source resolves to when that resolution reads, but never
/// changes, the machine state.
spec fn valsrc_pure(e0: Environment, ast: Seq<OpV>, val: ValSrc<'_>) -> Option<i32> {
    match val {
        ValSrc::Const(v) => Some(v),
        ValSrc::Operand(op) => pure_operand_value(e0, ast, op_view(*op)),
        ValSrc::PopStack => None,
    }
}

/// Store a value into the register view a name addresses, truncated to the
/// view's width.
fn write_register(env: &mut Environment, name: &String, v: i32) -> (r: Result<(), Abort>)
    requires
        old(env).wf(),
    ensures
        engine_frame(*old(env), *final(env)),
        (match spec_reg_loc(name@) {
            Some(loc) => {
                &&& r is Ok
                &&& final(env).mem.bytes() == spec_reg_write(old(env).mem.bytes(), loc, v)
                &&& final(env).mem.stack_size() == old(env).mem.stack_size()
                &&& final(env).mem.stack_len() == old(env).mem.stack_len()
                &&& final(env).stdin == old(env).stdin
                &&& final(env).out == old(env).out
                &&& final(env).jump_point == old(env).jump_point
                &&& final(env).pos == old(env).pos
            },
            None => r is Err && *final(env) == *old(env),
        }),
{
    let rv = match reg_view_of(name) {
        Ok(rv) => rv,
        Err(f) => {
            return Err(Abort::Fault(f));
        }
    };
    match rv {
        RegView::Wide(a, b) => env.mem.r_write(&(a, b), v),
        RegView::Word(a) => env.mem.r_write(&a, v),
        RegView::High(a) => env.mem.r_write(&(a, Pos::Upper), v),
        RegView::Low(a) => env.mem.r_write(&(a, Pos::Lower), v),
    }
    Ok(())
}

/// Write a value into the location an operand names: a register view or a
/// memory reference; anything else is a fatal error.
#[verifier::rlimit(100)]
#[verifier::spinoff_prover]
fn modify_memory(env: &mut Environment, ast: &[Op], obj: &Op, val: ValSrc<'_>) -> (r: Result<
    (),
    Abort,
>)
    requires
        old(env).wf(),
    ensures
        engine_frame(*old(env), *final(env)),
        !(obj@ is Register || obj@ is Memory) ==> r is Err && *final(env) == *old(env),
        (match valsrc_pure(*old(env), ops_view(ast@), val) {
            Some(v) => store_effect(*old(env), *final(env), ops_view(ast@), obj@, v, r is Ok),
            None => true,
        }),
        val is PopStack ==> (obj@ matches OpV::Register(name) ==> (match spec_reg_loc(name) {
            Some(loc) => ({
                let w = loc_pop_width(loc);
                if old(env).mem.stack_len() >= w {
                    &&& r is Ok
                    &&& final(env).mem.size() == old(env).mem.size()
                    &&& final(env).mem.stack_size() == old(env).mem.stack_size()
                    &&& final(env).mem.stack_len() == old(env).mem.stack_len() - w
                    &&& final(env).mem.stack_model() == old(env).mem.stack_model().take(
                        old(env).mem.stack_len() - w,
                    )
                    &&& (loc_disjoint(loc) ==> spec_reg_value(final(env).mem.bytes(), loc)
                        == spec_pop_value(old(env).mem, w))
                    &&& io_frame(*old(env), *final(env))
                } else {
                    r is Err && *final(env) == *old(env)
                }
            }),
            None => r is Err && *final(env) == *old(env),
        })),
    decreases op_height(*obj) + valsrc_height(val), 2int,
{
    match obj {
        Op::Register(name) => {
            let rv = match reg_view_of(name) {
                Ok(rv) => rv,
                Err(f) => {
                    return Err(Abort::Fault(f));
                }
            };
            let v = match rv {
                RegView::Wide(_, _) => resolve_val::<i32>(env, ast, val),
                RegView::Word(_) => resolve_val::<i16>(env, ast, val),
                RegView::High(_) => resolve_val::<u8>(env, ast, val),
                RegView::Low(_) => resolve_val::<u8>(env, ast, val),
            };
            let v = match v {
                Ok(v) => v,
                Err(e) => {
                    return Err(e);
                }
            };
            let ghost mid = *env;
            let res = write_register(env, name, v);
            proof {
                if val is PopStack && res is Ok {
                    let loc = spec_reg_loc(name@).unwrap();
                    match rv {
                        RegView::Wide(a, b) => {
                            if loc_disjoint(loc) {
                                crate::laws::lemma_register_roundtrip_32(
                                    mid.mem.bytes(),
                                    reg_slot(a),
                                    reg_slot(b),
                                    v,
                                );
                            }
                        }
                        RegView::Word(a) => {
                            crate::laws::lemma_register_roundtrip_16(
                                mid.mem.bytes(),
                                reg_slot(a),
                                v,
                            );
                        }
                        RegView::High(a) => {
                            crate::laws::lemma_register_roundtrip_8(
                                mid.mem.bytes(),
                                reg_slot(a),
                                Pos::Upper,
                                v,
                            );
                        }
                        RegView::Low(a) => {
                            crate::laws::lemma_register_roundtrip_8(
                                mid.mem.bytes(),
                                reg_slot(a),
                                Pos::Lower,
                                v,
                            );
                        }
                    }
                    assert(env.mem.stack_model() =~= mid.mem.stack_model());
                }
            }
            res
        }
        Op::Memory(ident, inner) => {
            let addr = match to_numeric::<usize>(env, ast, inner) {
                Ok(v) => v,
                Err(a) => {
                    return Err(a);
                }
            };
            if addr < 0 {
                return Err(Abort::Fault(Fault::CastError));
            }
            let pos = addr as usize;
            let ident = *ident;
            if ident == '#' {
                let v = match resolve_val::<u8>(env, ast, val) {
                    Ok(v) => v,
                    Err(e) => {
                        return Err(e);
                    }
                };
                match env.mem.m_write::<u8>(pos, v) {
                    Ok(()) => Ok(()),
                    Err(f) => Err(Abort::Fault(f)),
                }
            } else if ident == '$' {
                let v = match resolve_val::<i16>(env, ast, val) {
                    Ok(v) => v,
                    Err(e) => {
                        return Err(e);
                    }
                };
                match env.mem.m_write::<i16>(pos, v) {
                    Ok(()) => Ok(()),
                    Err(f) => Err(Abort::Fault(f)),
                }
            } else if ident == '@' {
                let v = match resolve_val::<i32>(env, ast, val) {
                    Ok(v) => v,
                    Err(e) => {
                        return Err(e);
                    }
                };
                match env.mem.m_write::<i32>(pos, v) {
                    Ok(()) => Ok(()),
                    Err(f) => Err(Abort::Fault(f)),
                }
            } else {
                Err(Abort::Fault(Fault::BadMemoryIdent(ident)))
            }
        }
        _ => Err(Abort::Fault(Fault::InvalidParameter)),
    }
}

/// Resolve a value source at width `S`.
fn resolve_val<S: crate::traits::Size>(env: &mut Environment, ast: &[Op], val: ValSrc<'_>) -> (r:
    Result<i32, Abort>)
    requires
        old(env).wf(),
        S::spec_len() == 1 || S::spec_len() == 2 || S::spec_len() == 4,
    ensures
        engine_frame(*old(env), *final(env)),
        (match valsrc_pure(*old(env), ops_view(ast@), val) {
            Some(v) => r == Ok::<i32, Abort>(v) && *final(env) == *old(env),
            None => true,
        }),
        val is PopStack ==> ({
            let w = pop_width(S::spec_len());
            if old(env).mem.stack_len() >= w {
                &&& r == Ok::<i32, Abort>(spec_pop_value(old(env).mem, w))
                &&& spec_popped(old(env).mem, final(env).mem, w)
                &&& final(env).stdin == old(env).stdin
                &&& final(env).out == old(env).out
                &&& final(env).jump_point == old(env).jump_point
                &&& final(env).pos == old(env).pos
            } else {
                r is Err && *final(env) == *old(env)
            }
        }),
    decreases valsrc_height(val), 1int,
{
    match val {
        ValSrc::Operand(op) => to_numeric::<S>(env, ast, op),
        ValSrc::Const(v) => Ok(v),
        ValSrc::PopStack => {
            let w = S::len();
            if w == 1 {
                match env.mem.s_pop_8() {
                    Some(b) => {
                        proof {
                            let m = old(env).mem.stack_model();
                            assert(m.skip(old(env).mem.stack_len() - 1) =~= seq![m[m.len() - 1]]);
                        }
                        Ok(b as i32)
                    }
                    None => Err(Abort::Fault(Fault::StackUnderflow)),
                }
            } else if w == 2 {
                match env.mem.s_pop_16() {
                    Some(v) => {
                        proof {
                            let m = old(env).mem.stack_model();
                            assert(m.skip(old(env).mem.stack_len() - 2) =~= seq![
                                m[old(env).mem.stack_len() - 2],
                                m[old(env).mem.stack_len() - 1],
                            ]);
                            assert(final(env).mem.stack_model() =~= m.take(
                                old(env).mem.stack_len() - 2,
                            ));
                        }
                        Ok(v as i32)
                    }
                    None => Err(Abort::Fault(Fault::StackUnderflow)),
                }
            } else {
                match env.mem.s_pop_32() {
                    Some(v) => {
                        proof {
                            let m = old(env).mem.stack_model();
                            assert(m.skip(old(env).mem.stack_len() - 4) =~= seq![
                                m[old(env).mem.stack_len() - 4],
                                m[old(env).mem.stack_len() - 3],
                                m[old(env).mem.stack_len() - 2],
                                m[old(env).mem.stack_len() - 1],
                            ]);
                            assert(final(env).mem.stack_model() =~= m.take(
                                old(env).mem.stack_len() - 4,
                            ));
                        }
                        Ok(v)
                    }
                    None => Err(Abort::Fault(Fault::StackUnderflow)),
                }
            }
        }
    }
}

/// Compare the two operands and store the outcome in the condition flag.
pub fn check_cmp(env: &mut Environment, ast: &[Op], args: &Vec<Op>, op: CmpOp) -> (r: Result<
    Status,
    Abort,
>)
    requires
        old(env).wf(),
    ensures
        engine_frame(*old(env), *final(env)),
        r matches Ok(st) ==> !st.spec_jmp() && st.spec_val() == 0,
        ({
            let lv = pure_operand_value(*old(env), ops_view(ast@), op_view(args@[0]));
            let rv = pure_operand_value(*old(env), ops_view(ast@), op_view(args@[1]));
            args@.len() >= 2 && lv is Some && rv is Some ==> {
                &&& r is Ok
                &&& final(env).mem.bytes() == old(env).mem.bytes().update(
                    crate::consts::REGISTRY_OFFSET as int,
                    if spec_cmp(op, lv.unwrap(), rv.unwrap()) {
                        1u8
                    } else {
                        0u8
                    },
                )
                &&& final(env).mem.stack_size() == old(env).mem.stack_size()
                &&& final(env).mem.stack_len() == old(env).mem.stack_len()
                &&& final(env).stdin == old(env).stdin
                &&& final(env).out == old(env).out
                &&& final(env).jump_point == old(env).jump_point
                &&& final(env).pos == old(env).pos
                &&& final(env).mem.flag_set() == spec_cmp(op, lv.unwrap(), rv.unwrap())
            }
        }),
    decreases ops_height(args@), 3int,
{
    if args.len() < 2 {
        return Err(Abort::Fault(Fault::InvalidParameter));
    }
    proof {
        lemma_ops_view(args@);
        lemma_ops_height_index(args@, 0);
        lemma_ops_height_index(args@, 1);
    }
    let l = match to_numeric::<i32>(env, ast, &args[0]) {
        Ok(v) => v,
        Err(a) => {
            return Err(a);
        }
    };
    let r = match to_numeric::<i32>(env, ast, &args[1]) {
        Ok(v) => v,
        Err(a) => {
            return Err(a);
        }
    };
    if cmp_eval(op, l, r) {
        env.mem.flag_write_cmp();
    } else {
        env.mem.flag_reset_cmp();
    }
    Ok(Status::of_jmp(false))
}

/// Apply an in-place binary operation: the first operand receives the result
/// of combining both operand values. Gated by the condition flag for the
/// conditional variants.
pub fn perform_op(env: &mut Environment, ast: &[Op], args: &Vec<Op>, kind: CmdKind) -> (r: Result<
    Status,
    Abort,
>)
    requires
        old(env).wf(),
    ensures
        engine_frame(*old(env), *final(env)),
        r matches Ok(st) ==> !st.spec_jmp() && st.spec_val() == 0,
        spec_conditional(kind) && !old(env).mem.flag_set() ==> r is Ok && *final(env) == *old(env),
        (args@.len() >= 2 && (spec_conditional(kind) ==> old(env).mem.flag_set()) && is_binop_kind(
            kind,
        )) ==> ({
            let lv = pure_operand_value(*old(env), ops_view(ast@), op_view(args@[0]));
            let rv = pure_operand_value(*old(env), ops_view(ast@), op_view(args@[1]));
            (lv is Some && rv is Some) ==> (match spec_binop(kind, lv.unwrap(), rv.unwrap()) {
                Some(outv) => store_effect(
                    *old(env),
                    *final(env),
                    ops_view(ast@),
                    op_view(args@[0]),
                    outv,
                    r is Ok,
                ),
                None => r is Err && *final(env) == *old(env),
            })
        }),
    decreases ops_height(args@), 3int,
{
    if conditional(kind) && !env.mem.flag_read_cmp() {
        return Ok(Status::of_jmp(false));
    }
    if !is_binop_exec(kind) {
        return Err(Abort::Fault(Fault::InvalidParameter));
    }
    if args.len() < 2 {
        return Err(Abort::Fault(Fault::InvalidParameter));
    }
    proof {
        lemma_ops_view(args@);
        lemma_ops_height_index(args@, 0);
        lemma_ops_height_index(args@, 1);
        lemma_ops_height_two(args@);
    }
    let l = match to_numeric::<i32>(env, ast, &args[0]) {
        Ok(v) => v,
        Err(a) => {
            return Err(a);
        }
    };
    let r = match to_numeric::<i32>(env, ast, &args[1]) {
        Ok(v) => v,
        Err(a) => {
            return Err(a);
        }
    };
    let combined = match apply_binop(kind, l, r) {
        Ok(v) => v,
        Err(f) => {
            return Err(Abort::Fault(f));
        }
    };
    match modify_memory(env, ast, &args[0], ValSrc::Const(combined)) {
        Ok(()) => Ok(Status::of_jmp(false)),
        Err(a) => Err(a),
    }
}

fn is_binop_exec(k: CmdKind) -> (r: bool)
    ensures
        r == is_binop_kind(k),
{
    match k {
        CmdKind::Mul | CmdKind::Cmu | CmdKind::Div | CmdKind::Cdi | CmdKind::Add | CmdKind::Cad
            | CmdKind::Sub | CmdKind::Csu | CmdKind::Lsh | CmdKind::Cls | CmdKind::Rsh
            | CmdKind::Crs | CmdKind::Or | CmdKind::Cor | CmdKind::Xor | CmdKind::Cxo
            | CmdKind::And | CmdKind::Can => true,
        _ => false,
    }
}

/// Combine two values under an arithmetic or bitwise command.
pub fn apply_binop(k: CmdKind, l: i32, r: i32) -> (res: Result<i32, Fault>)
    requires
        is_binop_kind(k),
    ensures
        match spec_binop(k, l, r) {
            Some(v) => res == Ok::<i32, Fault>(v),
            None => res is Err,
        },
{
    match k {
        CmdKind::Mul | CmdKind::Cmu => Ok(l.wrapping_mul(r)),
        CmdKind::Div | CmdKind::Cdi => {
            if r == 0 {
                Err(Fault::DivisionByZero)
            } else {
                match l.checked_div(r) {
                    Some(q) => Ok(q),
                    None => Err(Fault::ArithmeticOverflow),
                }
            }
        }
        CmdKind::Add | CmdKind::Cad => Ok(l.wrapping_add(r)),
        CmdKind::Sub | CmdKind::Csu => Ok(l.wrapping_sub(r)),
        CmdKind::Lsh | CmdKind::Cls => Ok(l.wrapping_shl(to_unsigned(r))),
        CmdKind::Rsh | CmdKind::Crs => Ok(l.wrapping_shr(to_unsigned(r))),
        CmdKind::Or | CmdKind::Cor => Ok(l | r),
        CmdKind::Xor | CmdKind::Cxo => Ok(l ^ r),
        CmdKind::And | CmdKind::Can => Ok(l & r),
        _ => Err(Fault::InvalidParameter),
    }
}

/// The decimal digits of a nonnegative number, most significant first.
pub open spec fn digit_char(d: int) -> char {
    if d == 0 {
        '0'
    } else if d == 1 {
        '1'
    } else if d == 2 {
        '2'
    } else if d == 3 {
        '3'
    } else if d == 4 {
        '4'
    } else if d == 5 {
        '5'
    } else if d == 6 {
        '6'
    } else if d == 7 {
        '7'
    } else if d == 8 {
        '8'
    } else {
        '9'
    }
}

pub open spec fn dec_digits(n: nat) -> Seq<char>
    decreases n,
{
    if n < 10 {
        seq![digit_char(n as int)]
    } else {
        dec_digits(n / 10).push(digit_char((n % 10) as int))
    }
}

/// The decimal printing of a signed value.
pub open spec fn dec_chars(v: int) -> Seq<char> {
    if v < 0 {
        seq!['-'] + dec_digits((-v) as nat)
    } else {
        dec_digits(v as nat)
    }
}

fn digit_of(d: u64) -> (r: char)
    requires
        d < 10,
    ensures
        r == digit_char(d as int),
{
    if d == 0 {
        '0'
    } else if d == 1 {
        '1'
    } else if d == 2 {
        '2'
    } else if d == 3 {
        '3'
    } else if d == 4 {
        '4'
    } else if d == 5 {
        '5'
    } else if d == 6 {
        '6'
    } else if d == 7 {
        '7'
    } else if d == 8 {
        '8'
    } else {
        '9'
    }
}

fn fmt_nat(u: u64) -> (r: Vec<char>)
    ensures
        r@ == dec_digits(u as nat),
    decreases u,
{
    if u < 10 {
        let mut v: Vec<char> = Vec::new();
        v.push(digit_of(u));
        proof {
            assert(v@ =~= seq![digit_char(u as int)]);
        }
        v
    } else {
        let mut v = fmt_nat(u / 10);
        v.push(digit_of(u % 10));
        v
    }
}

/// The decimal printing of a signed 32-bit value.
pub fn fmt_i32(x: i32) -> (r: Vec<char>)
    ensures
        r@ == dec_chars(x as int),
{
    let w = x as i64;
    if w < 0 {
        let mut v: Vec<char> = Vec::new();
        v.push('-');
        let d = fmt_nat((-w) as u64);
        let n = d.len();
        let mut i: usize = 0;
        while i < n
            invariant
                i <= n,
                n == d@.len(),
                v@ == seq!['-'] + d@.take(i as int),
            decreases n - i,
        {
            v.push(d[i]);
            i = i + 1;
            proof {
                assert(v@ =~= seq!['-'] + d@.take(i as int));
            }
        }
        proof {
            assert(d@.take(n as int) =~= d@);
        }
        v
    } else {
        fmt_nat(w as u64)
    }
}

/// Append the decimal printing of `v` to the collected output.
fn emit_int(env: &mut Environment, v: i32)
    requires
        old(env).wf(),
    ensures
        final(env).wf(),
        final(env).out@ == old(env).out@ + dec_chars(v as int),
        final(env).mem == old(env).mem,
        final(env).stdin == old(env).stdin,
        final(env).jump_point == old(env).jump_point,
        final(env).pos == old(env).pos,
        final(env).parent_view() == old(env).parent_view(),
    {
    let cs = fmt_i32(v);
    let n = cs.len();
    let mut i: usize = 0;
    while i < n
        invariant
            i <= n,
            n == cs@.len(),
            cs@ == dec_chars(v as int),
            env.wf(),
            env.out@ == old(env).out@ + cs@.take(i as int),
            env.mem == old(env).mem,
            env.stdin == old(env).stdin,
            env.jump_point == old(env).jump_point,
            env.pos == old(env).pos,
            env.parent_view() == old(env).parent_view(),
        decreases n - i,
    {
        env.out.push(cs[i]);
        i = i + 1;
        proof {
            assert(env.out@ =~= old(env).out@ + cs@.take(i as int));
        }
    }
    proof {
        assert(cs@.take(n as int) =~= cs@);
    }
}

/// The distance from position `i` to the first occurrence of `t` strictly
/// before `end`, if there is one.
pub open spec fn spec_scan(b: Seq<u8>, i: int, end: int, t: u8) -> Option<int>
    decreases vstd::math::max(end - i, 0),
{
    if i < 0 || i >= end {
        None
    } else if b[i] == t {
        Some(0int)
    } else {
        match spec_scan(b, i + 1, end, t) {
            Some(n) => Some(n + 1),
            None => None,
        }
    }
}

/// Which commands transfer control flow.
pub open spec fn is_control_kind(k: CmdKind) -> bool {
    match k {
        CmdKind::Jmp | CmdKind::Cjm | CmdKind::Ret | CmdKind::Cre => true,
        _ => false,
    }
}

/// The comparison a flag-setting command computes, if it is one. The plain
/// compare command stores the equality outcome: the flag register has one
/// generic comparison bit, set by whichever comparison ran last.
pub open spec fn cmp_of_kind(k: CmdKind) -> Option<CmpOp> {
    match k {
        CmdKind::Ceq | CmdKind::Cmp => Some(CmpOp::Eq),
        CmdKind::Cne => Some(CmpOp::Ne),
        CmdKind::Cl => Some(CmpOp::Lt),
        CmdKind::Cle => Some(CmpOp::Le),
        CmdKind::Cg => Some(CmpOp::Gt),
        CmdKind::Cge => Some(CmpOp::Ge),
        _ => None,
    }
}

/// The condition flag set to `b`, everything else as before.
pub open spec fn flag_effect(e0: Environment, e1: Environment, b: bool, ok: bool) -> bool {
    &&& ok
    &&& e1.mem.bytes() == e0.mem.bytes().update(
        crate::consts::REGISTRY_OFFSET as int,
        if b {
            1u8
        } else {
            0u8
        },
    )
    &&& e1.mem.stack_size() == e0.mem.stack_size()
    &&& e1.mem.stack_len() == e0.mem.stack_len()
    &&& io_frame(e0, e1)
}

/// What each command, once past its flag gate, does to the environment and
/// reports back — pinned wherever its operands read the machine state without
/// changing it. Arms whose effect depends on an operand that itself pops the
/// stack or runs a nested command promise nothing here beyond the frame the
/// dispatcher already carries.
pub open spec fn cmd_effect(
    k: CmdKind,
    e0: Environment,
    ast: Seq<OpV>,
    args: Seq<OpV>,
    ind: int,
    e1: Environment,
    r: Result<(Status, usize), Abort>,
) -> bool {
    match k {
        CmdKind::Mov | CmdKind::Cmo => args.len() >= 2 ==> (match pure_operand_value(
            e0,
            ast,
            args[1],
        ) {
            Some(v) => store_effect(e0, e1, ast, args[0], v, r is Ok),
            None => true,
        }),
        CmdKind::Inc | CmdKind::Cin => args.len() >= 1 ==> (match pure_operand_value(
            e0,
            ast,
            args[0],
        ) {
            Some(v) => store_effect(
                e0,
                e1,
                ast,
                args[0],
                vstd::wrapping::i32_specs::wrapping_add(v, 1),
                r is Ok,
            ),
            None => true,
        }),
        CmdKind::Dec | CmdKind::Cde => args.len() >= 1 ==> (match pure_operand_value(
            e0,
            ast,
            args[0],
        ) {
            Some(v) => store_effect(
                e0,
                e1,
                ast,
                args[0],
                vstd::wrapping::i32_specs::wrapping_sub(v, 1),
                r is Ok,
            ),
            None => true,
        }),
        CmdKind::Not | CmdKind::Cno => args.len() >= 1 ==> (match pure_operand_value(
            e0,
            ast,
            args[0],
        ) {
            Some(v) => store_effect(e0, e1, ast, args[0], !v, r is Ok),
            None => true,
        }),
        CmdKind::Mul | CmdKind::Cmu | CmdKind::Div | CmdKind::Cdi | CmdKind::Add | CmdKind::Cad
            | CmdKind::Sub | CmdKind::Csu | CmdKind::Lsh | CmdKind::Cls | CmdKind::Rsh
            | CmdKind::Crs | CmdKind::Or | CmdKind::Cor | CmdKind::Xor | CmdKind::Cxo
            | CmdKind::And | CmdKind::Can => args.len() >= 2 ==> ({
            let lv = pure_operand_value(e0, ast, args[0]);
            let rv = pure_operand_value(e0, ast, args[1]);
            (lv is Some && rv is Some) ==> (match spec_binop(k, lv.unwrap(), rv.unwrap()) {
                Some(outv) => store_effect(e0, e1, ast, args[0], outv, r is Ok),
                None => r is Err && e1 == e0,
            })
        }),
        CmdKind::Ceq | CmdKind::Cmp | CmdKind::Cne | CmdKind::Cl | CmdKind::Cle | CmdKind::Cg
            | CmdKind::Cge => args.len() >= 2 ==> ({
            let lv = pure_operand_value(e0, ast, args[0]);
            let rv = pure_operand_value(e0, ast, args[1]);
            (lv is Some && rv is Some) ==> flag_effect(
                e0,
                e1,
                spec_cmp(cmp_of_kind(k).unwrap(), lv.unwrap(), rv.unwrap()),
                r is Ok,
            )
        }),
        CmdKind::Cz => args.len() >= 1 ==> (match pure_operand_value(e0, ast, args[0]) {
            Some(v) => flag_effect(e0, e1, v == 0, r is Ok),
            None => true,
        }),
        CmdKind::Out | CmdKind::Cou => args.len() >= 1 ==> (match pure_operand_value(
            e0,
            ast,
            args[0],
        ) {
            Some(v) => {
                &&& r is Ok
                &&& e1.out@ == e0.out@ + dec_chars(v as int)
                &&& e1.mem == e0.mem
                &&& e1.stdin == e0.stdin
                &&& e1.jump_point == e0.jump_point
                &&& e1.pos == e0.pos
            },
            None => true,
        }),
        CmdKind::Chr | CmdKind::Cch => args.len() >= 1 ==> (match pure_operand_value(
            e0,
            ast,
            args[0],
        ) {
            Some(v) => {
                &&& r is Ok
                &&& e1.out@ == e0.out@.push(crate::numeric::u8_of_i32(v) as char)
                &&& e1.mem == e0.mem
                &&& e1.stdin == e0.stdin
                &&& e1.jump_point == e0.jump_point
                &&& e1.pos == e0.pos
            },
            None => true,
        }),
        CmdKind::In => {
            &&& r matches Ok((st, i2)) && !st.spec_jmp() && i2 == ind
            &&& e1.mem == e0.mem
            &&& e1.out == e0.out
            &&& e1.jump_point == e0.jump_point
            &&& e1.pos == e0.pos
            &&& (if e0.stdin.remaining().len() > 0 {
                (r matches Ok((st, _)) ==> st.spec_val() == e0.stdin.remaining()[0] as i32)
                    && e1.stdin.remaining() == e0.stdin.remaining().skip(1)
            } else {
                (r matches Ok((st, _)) ==> st.spec_val() == 0) && e1.stdin == e0.stdin
            })
        },
        CmdKind::Jmp | CmdKind::Cjm => args.len() >= 1 ==> (match pure_operand_value(
            e0,
            ast,
            args[0],
        ) {
            Some(t) => if t >= 0 {
                &&& r matches Ok((st, i2)) && st.spec_jmp() && i2 == t
                &&& (e1.jump_point@, e1.pos) == jump_ctl(e0.jump_point@, e0.pos, t as usize)
                &&& e1.mem == e0.mem
                &&& e1.stdin == e0.stdin
                &&& e1.out == e0.out
            } else {
                r is Err
            },
            None => true,
        }),
        CmdKind::Ret | CmdKind::Cre => (match ret_ctl(e0.jump_point@, e0.parent_view()) {
            Some((jp, pos, i2)) => {
                &&& r matches Ok((st, i)) && st.spec_jmp() && i == i2
                &&& e1.jump_point@ == jp
                &&& e1.pos == pos
                &&& e1.mem == e0.mem
                &&& e1.stdin == e0.stdin
                &&& e1.out == e0.out
            },
            None => r is Err && e1 == e0,
        }),
        CmdKind::Hlt | CmdKind::Chl => args.len() >= 1 ==> (match pure_operand_value(
            e0,
            ast,
            args[0],
        ) {
            Some(v) => r == Err::<(Status, usize), Abort>(Abort::Halt(v)) && e1 == e0,
            None => true,
        }),
        CmdKind::Db => args.len() >= 2 ==> ({
            let av = pure_operand_value(e0, ast, args[0]);
            let tv = pure_operand_value(e0, ast, args[1]);
            (av is Some && tv is Some) ==> ({
                let a = av.unwrap();
                let tb = crate::numeric::u8_of_i32(tv.unwrap());
                if a >= 0 {
                    match spec_scan(e0.mem.bytes(), e0.mem.mem_base() + a, e0.mem.size() as int, tb) {
                        Some(n) => if n <= 0x7fff_ffff {
                            r matches Ok((st, i2)) && !st.spec_jmp() && st.spec_val() == n && i2
                                == ind && e1 == e0
                        } else {
                            r is Err && e1 == e0
                        },
                        None => r is Err && e1 == e0,
                    }
                } else {
                    r is Err && e1 == e0
                }
            })
        }),
        CmdKind::Str => args.len() >= 2 ==> ({
            &&& (!(args[0] is StrLit) ==> r is Err && e1 == e0)
            &&& (args[0] matches OpV::StrLit(text) ==> (match pure_operand_value(
                e0,
                ast,
                args[1],
            ) {
                Some(t) => if text.len() + 1 <= e0.mem.size() - e0.mem.stack_size() - OFFSET {
                    &&& r is Ok
                    &&& e1.mem.bytes().len() == e0.mem.bytes().len()
                    &&& (forall|j: int|
                        0 <= j < text.len() ==> #[trigger] e1.mem.bytes()[e0.mem.mem_base() + j]
                            == (((text[j] as u32) % 0x100) as u8))
                    &&& e1.mem.bytes()[e0.mem.mem_base() + text.len()] == crate::numeric::u8_of_i32(
                        t,
                    )
                    &&& (forall|i: int|
                        0 <= i < e1.mem.bytes().len() && !(e0.mem.mem_base() <= i
                            <= e0.mem.mem_base() + text.len()) ==> e1.mem.bytes()[i]
                            == e0.mem.bytes()[i])
                    &&& e1.mem.stack_size() == e0.mem.stack_size()
                    &&& e1.mem.stack_len() == e0.mem.stack_len()
                    &&& io_frame(e0, e1)
                } else {
                    r is Err
                },
                None => true,
            }))
        }),
        CmdKind::Psh | CmdKind::Cps => args.len() >= 2 ==> ({
            let av = pure_operand_value(e0, ast, args[0]);
            let vv = pure_operand_value(e0, ast, args[1]);
            (av is Some && vv is Some) ==> ({
                let alloc = av.unwrap();
                let v = vv.unwrap();
                if alloc == 1 || alloc == 2 || alloc == 4 {
                    if e0.mem.stack_len() + alloc <= e0.mem.stack_size() {
                        &&& r is Ok
                        &&& e1.mem.size() == e0.mem.size()
                        &&& e1.mem.stack_size() == e0.mem.stack_size()
                        &&& e1.mem.stack_len() == e0.mem.stack_len() + alloc
                        &&& e1.mem.stack_model() == e0.mem.stack_model() + enc_bytes(
                            alloc as nat,
                            v,
                        )
                        &&& io_frame(e0, e1)
                    } else {
                        r is Err && e1 == e0
                    }
                } else {
                    r is Err && e1 == e0
                }
            })
        }),
        CmdKind::Stk => args.len() >= 1 ==> (match pure_operand_value(e0, ast, args[0]) {
            Some(n) => if n >= 0 && OFFSET + n <= e0.mem.size() {
                &&& r is Ok
                &&& e1.mem.size() == e0.mem.size()
                &&& e1.mem.stack_size() == n
                &&& e1.mem.stack_len() == (if e0.mem.stack_len() <= n {
                    e0.mem.stack_len()
                } else {
                    n as nat
                })
                &&& io_frame(e0, e1)
            } else {
                r is Err && e1 == e0
            },
            None => true,
        }),
        CmdKind::Pop | CmdKind::Cpo => args.len() >= 1 ==> (args[0] matches OpV::Register(name)
            ==> (match spec_reg_loc(name) {
            Some(loc) => ({
                let w = loc_pop_width(loc);
                if e0.mem.stack_len() >= w {
                    &&& r is Ok
                    &&& e1.mem.size() == e0.mem.size()
                    &&& e1.mem.stack_size() == e0.mem.stack_size()
                    &&& e1.mem.stack_len() == e0.mem.stack_len() - w
                    &&& e1.mem.stack_model() == e0.mem.stack_model().take(e0.mem.stack_len() - w)
                    &&& (loc_disjoint(loc) ==> spec_reg_value(e1.mem.bytes(), loc)
                        == spec_pop_value(e0.mem, w))
                    &&& io_frame(e0, e1)
                } else {
                    r is Err && e1 == e0
                }
            }),
            None => r is Err && e1 == e0,
        })),
        CmdKind::Swp | CmdKind::Csw => args.len() >= 2 ==> ({
            let v0 = pure_operand_value(e0, ast, args[0]);
            let v1 = pure_operand_value(e0, ast, args[1]);
            (v0 is Some && v1 is Some) ==> (args[0] matches OpV::Register(n0) ==> (
            args[1] matches OpV::Register(n1) ==> (match (spec_reg_loc(n0), spec_reg_loc(n1)) {
                (Some(l0), Some(l1)) => {
                    &&& r is Ok
                    &&& e1.mem.bytes() == spec_reg_write(
                        spec_reg_write(e0.mem.bytes(), l0, v1.unwrap()),
                        l1,
                        v0.unwrap(),
                    )
                    &&& e1.mem.stack_size() == e0.mem.stack_size()
                    &&& e1.mem.stack_len() == e0.mem.stack_len()
                    &&& io_frame(e0, e1)
                },
                (None, _) => r is Err && e1 == e0,
                (Some(_), None) => r is Err,
            })))
        }),
    }
}

/// Dispatch one command against the machine state. Returns the command's
/// status and the (possibly updated) top-level index.
#[verifier::rlimit(100)]
#[verifier::spinoff_prover]
fn run_cmd(env: &mut Environment, ast: &[Op], ind: usize, name: &String, args: &Vec<Op>) -> (r:
    Result<(Status, usize), Abort>)
    requires
        old(env).wf(),
    ensures
        engine_frame(*old(env), *final(env)),
        (match spec_cmd_kind(name@) {
            None => r is Err,
            Some(k) => spec_conditional(k) && !old(env).mem.flag_set() ==> (r matches Ok((st, i2))
                && !st.spec_jmp() && st.spec_val() == 0 && i2 == ind && *final(env) == *old(env)),
        }),
        (match spec_cmd_kind(name@) {
            Some(k) => {
                &&& ((spec_conditional(k) ==> old(env).mem.flag_set()) ==> cmd_effect(
                    k,
                    *old(env),
                    ops_view(ast@),
                    ops_view(args@),
                    ind as int,
                    *final(env),
                    r,
                ))
                &&& (!is_control_kind(k) ==> (r matches Ok((st, i2)) ==> !st.spec_jmp() && i2
                    == ind))
            },
            None => true,
        }),
    decreases ops_height(args@), 4int,
{
    let cs = str_chars(name.as_str());
    let kind = match cmd_kind_of_chars(&cs) {
        Some(k) => k,
        None => {
            return Err(Abort::Fault(Fault::UnrecognizedCommand(name.clone())));
        }
    };
    if conditional(kind) && !env.mem.flag_read_cmp() {
        return Ok((Status::of_jmp(false), ind));
    }
    proof {
        lemma_ops_view(args@);
        if args@.len() >= 1 {
            lemma_ops_height_index(args@, 0);
        }
        if args@.len() >= 2 {
            lemma_ops_height_index(args@, 1);
            lemma_ops_height_two(args@);
        }
    }
    match kind {
        CmdKind::Mov | CmdKind::Cmo => {
            if args.len() < 2 {
                return Err(Abort::Fault(Fault::WrongOperandCount(name.clone())));
            }
            match modify_memory(env, ast, &args[0], ValSrc::Operand(&args[1])) {
                Ok(()) => Ok((Status::of_jmp(false), ind)),
                Err(a) => Err(a),
            }
        }
        CmdKind::Inc | CmdKind::Cin | CmdKind::Dec | CmdKind::Cde => {
            if args.len() < 1 {
                return Err(Abort::Fault(Fault::WrongOperandCount(name.clone())));
            }
            let v = match to_numeric::<i32>(env, ast, &args[0]) {
                Ok(v) => v,
                Err(a) => {
                    return Err(a);
                }
            };
            let nv = match kind {
                CmdKind::Inc | CmdKind::Cin => v.wrapping_add(1),
                _ => v.wrapping_sub(1),
            };
            match modify_memory(env, ast, &args[0], ValSrc::Const(nv)) {
                Ok(()) => Ok((Status::of_jmp(false), ind)),
                Err(a) => Err(a),
            }
        }
        CmdKind::Out | CmdKind::Cou => {
            if args.len() < 1 {
                return Err(Abort::Fault(Fault::WrongOperandCount(name.clone())));
            }
            let v = match to_numeric::<i32>(env, ast, &args[0]) {
                Ok(v) => v,
                Err(a) => {
                    return Err(a);
                }
            };
            emit_int(env, v);
            Ok((Status::of_jmp(false), ind))
        }
        CmdKind::Chr | CmdKind::Cch => {
            if args.len() < 1 {
                return Err(Abort::Fault(Fault::WrongOperandCount(name.clone())));
            }
            let v = match to_numeric::<u8>(env, ast, &args[0]) {
                Ok(v) => v,
                Err(a) => {
                    return Err(a);
                }
            };
            let b = (to_unsigned(v) % 0x100) as u8;
            env.out.push(b as char);
            Ok((Status::of_jmp(false), ind))
        }
        CmdKind::Jmp | CmdKind::Cjm => {
            if args.len() < 1 {
                return Err(Abort::Fault(Fault::WrongOperandCount(name.clone())));
            }
            let v = match to_numeric::<usize>(env, ast, &args[0]) {
                Ok(v) => v,
                Err(a) => {
                    return Err(a);
                }
            };
            if v < 0 {
                return Err(Abort::Fault(Fault::CastError));
            }
            let mut ii = ind;
            env.call_jump(&mut ii, v as usize);
            Ok((Status::of_jmp(true), ii))
        }
        CmdKind::Mul | CmdKind::Cmu | CmdKind::Div | CmdKind::Cdi | CmdKind::Add | CmdKind::Cad
            | CmdKind::Sub | CmdKind::Csu | CmdKind::Lsh | CmdKind::Cls | CmdKind::Rsh
            | CmdKind::Crs | CmdKind::Or | CmdKind::Cor | CmdKind::Xor | CmdKind::Cxo
            | CmdKind::And | CmdKind::Can => {
            match perform_op(env, ast, args, kind) {
                Ok(st) => Ok((st, ind)),
                Err(a) => Err(a),
            }
        }
        CmdKind::Ceq | CmdKind::Cmp => {
            match check_cmp(env, ast, args, CmpOp::Eq) {
                Ok(st) => Ok((st, ind)),
                Err(a) => Err(a),
            }
        }
        CmdKind::Cne => {
            match check_cmp(env, ast, args, CmpOp::Ne) {
                Ok(st) => Ok((st, ind)),
                Err(a) => Err(a),
            }
        }
        CmdKind::Cl => {
            match check_cmp(env, ast, args, CmpOp::Lt) {
                Ok(st) => Ok((st, ind)),
                Err(a) => Err(a),
            }
        }
        CmdKind::Cle => {
            match check_cmp(env, ast, args, CmpOp::Le) {
                Ok(st) => Ok((st, ind)),
                Err(a) => Err(a),
            }
        }
        CmdKind::Cg => {
            match check_cmp(env, ast, args, CmpOp::Gt) {
                Ok(st) => Ok((st, ind)),
                Err(a) => Err(a),
            }
        }
        CmdKind::Cge => {
            match check_cmp(env, ast, args, CmpOp::Ge) {
                Ok(st) => Ok((st, ind)),
                Err(a) => Err(a),
            }
        }
        CmdKind::Cz => {
            if args.len() < 1 {
                return Err(Abort::Fault(Fault::WrongOperandCount(name.clone())));
            }
            let v = match to_numeric::<i32>(env, ast, &args[0]) {
                Ok(v) => v,
                Err(a) => {
                    return Err(a);
                }
            };
            if v == 0 {
                env.mem.flag_write_cmp();
            } else {
                env.mem.flag_reset_cmp();
            }
            Ok((Status::of_jmp(false), ind))
        }
        CmdKind::Str => {
            if args.len() < 2 {
                return Err(Abort::Fault(Fault::WrongOperandCount(name.clone())));
            }
            match &args[0] {
                Op::String(text) => {
                    let tchars = str_chars(text.as_str());
                    let n2 = tchars.len();
                    let ghost base = env.mem.mem_base();
                    let mut i: usize = 0;
                    while i < n2
                        invariant
                            i <= n2,
                            n2 == tchars@.len(),
                            env.wf(),
                            env.parent_view() == old(env).parent_view(),
                            env.mem.size() == old(env).mem.size(),
                            env.mem.stack_size() == old(env).mem.stack_size(),
                            env.mem.stack_len() == old(env).mem.stack_len(),
                            env.mem.bytes().len() == old(env).mem.bytes().len(),
                            env.stdin == old(env).stdin,
                            env.out == old(env).out,
                            env.jump_point == old(env).jump_point,
                            env.pos == old(env).pos,
                            base == old(env).mem.mem_base(),
                            forall|j: int|
                                0 <= j < i ==> #[trigger] env.mem.bytes()[base + j] == (((
                                tchars@[j] as u32) % 0x100) as u8),
                            forall|p: int|
                                0 <= p < env.mem.bytes().len() && !(base <= p < base + i)
                                    ==> env.mem.bytes()[p] == old(env).mem.bytes()[p],
                            spec_cmd_kind(name@) == Some(kind),
                            kind == CmdKind::Str,
                            !(spec_conditional(kind) && !old(env).mem.flag_set()),
                            args@.len() >= 2,
                            ops_view(args@).len() == args@.len(),
                            ops_view(args@)[0] == op_view(args@[0]),
                            ops_view(args@)[1] == op_view(args@[1]),
                            op_view(args@[0]) == OpV::StrLit(tchars@),
                        decreases n2 - i,
                    {
                        let u = tchars[i] as u32;
                        match env.mem.m_write::<u8>(i, (u % 0x100) as i32) {
                            Ok(()) => {}
                            Err(f) => {
                                return Err(Abort::Fault(f));
                            }
                        }
                        proof {
                            assert(env.mem.bytes()[base + i] == env.mem.bytes().subrange(
                                base + i,
                                base + i + 1,
                            )[0]);
                            assert(env.mem.bytes()[base + i] == (((tchars@[i as int] as u32)
                                % 0x100) as u8));
                        }
                        i = i + 1;
                    }
                    let ghost mid = *env;
                    proof {
                        lemma_pure_value_frame(*old(env), mid, ops_view(ast@), op_view(args@[1]));
                    }
                    let term = match to_numeric::<u8>(env, ast, &args[1]) {
                        Ok(v) => v,
                        Err(a) => {
                            return Err(a);
                        }
                    };
                    let ghost pre = *env;
                    match env.mem.m_write::<u8>(n2, term) {
                        Ok(()) => {
                            proof {
                                assert(env.mem.bytes()[pre.mem.mem_base() + n2]
                                    == env.mem.bytes().subrange(
                                    pre.mem.mem_base() + n2,
                                    pre.mem.mem_base() + n2 + 1,
                                )[0]);
                            }
                            Ok((Status::of_jmp(false), ind))
                        }
                        Err(f) => Err(Abort::Fault(f)),
                    }
                }
                _ => Err(Abort::Fault(Fault::ExpectedString)),
            }
        }
        CmdKind::Stk => {
            if args.len() < 1 {
                return Err(Abort::Fault(Fault::WrongOperandCount(name.clone())));
            }
            let v = match to_numeric::<usize>(env, ast, &args[0]) {
                Ok(v) => v,
                Err(a) => {
                    return Err(a);
                }
            };
            if v < 0 {
                return Err(Abort::Fault(Fault::CastError));
            }
            match env.mem.resize_stack(v as usize) {
                Ok(()) => Ok((Status::of_jmp(false), ind)),
                Err(f) => Err(Abort::Fault(f)),
            }
        }
        CmdKind::Psh | CmdKind::Cps => {
            if args.len() < 2 {
                return Err(Abort::Fault(Fault::WrongOperandCount(name.clone())));
            }
            let alloc = match to_numeric::<usize>(env, ast, &args[0]) {
                Ok(v) => v,
                Err(a) => {
                    return Err(a);
                }
            };
            if alloc == 1 {
                let v = match to_numeric::<u8>(env, ast, &args[1]) {
                    Ok(v) => v,
                    Err(a) => {
                        return Err(a);
                    }
                };
                match env.mem.s_push::<u8>(v) {
                    Ok(()) => Ok((Status::of_jmp(false), ind)),
                    Err(f) => Err(Abort::Fault(f)),
                }
            } else if alloc == 2 {
                let v = match to_numeric::<i16>(env, ast, &args[1]) {
                    Ok(v) => v,
                    Err(a) => {
                        return Err(a);
                    }
                };
                match env.mem.s_push::<i16>(v) {
                    Ok(()) => Ok((Status::of_jmp(false), ind)),
                    Err(f) => Err(Abort::Fault(f)),
                }
            } else if alloc == 4 {
                let v = match to_numeric::<i32>(env, ast, &args[1]) {
                    Ok(v) => v,
                    Err(a) => {
                        return Err(a);
                    }
                };
                match env.mem.s_push::<i32>(v) {
                    Ok(()) => Ok((Status::of_jmp(false), ind)),
                    Err(f) => Err(Abort::Fault(f)),
                }
            } else {
                Err(Abort::Fault(Fault::BadWidth))
            }
        }
        CmdKind::Pop | CmdKind::Cpo => {
            if args.len() < 1 {
                return Err(Abort::Fault(Fault::WrongOperandCount(name.clone())));
            }
            match modify_memory(env, ast, &args[0], ValSrc::PopStack) {
                Ok(()) => Ok((Status::of_jmp(false), ind)),
                Err(a) => Err(a),
            }
        }
        CmdKind::Not | CmdKind::Cno => {
            if args.len() < 1 {
                return Err(Abort::Fault(Fault::WrongOperandCount(name.clone())));
            }
            let v = match to_numeric::<i32>(env, ast, &args[0]) {
                Ok(v) => v,
                Err(a) => {
                    return Err(a);
                }
            };
            match modify_memory(env, ast, &args[0], ValSrc::Const(!v)) {
                Ok(()) => Ok((Status::of_jmp(false), ind)),
                Err(a) => Err(a),
            }
        }
        CmdKind::Swp | CmdKind::Csw => {
            if args.len() < 2 {
                return Err(Abort::Fault(Fault::WrongOperandCount(name.clone())));
            }
            let v0 = match to_numeric::<i32>(env, ast, &args[0]) {
                Ok(v) => v,
                Err(a) => {
                    return Err(a);
                }
            };
            let v1 = match to_numeric::<i32>(env, ast, &args[1]) {
                Ok(v) => v,
                Err(a) => {
                    return Err(a);
                }
            };
            match modify_memory(env, ast, &args[0], ValSrc::Const(v1)) {
                Ok(()) => {}
                Err(a) => {
                    return Err(a);
                }
            }
            match modify_memory(env, ast, &args[1], ValSrc::Const(v0)) {
                Ok(()) => Ok((Status::of_jmp(false), ind)),
                Err(a) => Err(a),
            }
        }
        CmdKind::Db => {
            if args.len() < 2 {
                return Err(Abort::Fault(Fault::WrongOperandCount(name.clone())));
            }
            let start = match to_numeric::<usize>(env, ast, &args[0]) {
                Ok(v) => v,
                Err(a) => {
                    return Err(a);
                }
            };
            if start < 0 {
                return Err(Abort::Fault(Fault::CastError));
            }
            let term = match to_numeric::<u8>(env, ast, &args[1]) {
                Ok(v) => v,
                Err(a) => {
                    return Err(a);
                }
            };
            let tb: u8 = (to_unsigned(term) % 0x100) as u8;
            let ghost env0 = *env;
            let ghost b0 = env.mem.bytes();
            let ghost base = env.mem.mem_base();
            let ghost size = env.mem.size() as int;
            let limit = env.mem.memory_len();
            let mut i: usize = start as usize;
            let mut count: usize = 0;
            if i >= limit {
                proof {
                    assert(spec_scan(b0, base + i, size, tb) is None);
                }
                return Err(Abort::Fault(Fault::OutOfBounds));
            }
            while i < limit
                invariant
                    i <= limit,
                    count <= i,
                    *env == env0,
                    env.wf(),
                    env.parent_view() == old(env).parent_view(),
                    env.mem.size() == old(env).mem.size(),
                    b0 == env.mem.bytes(),
                    base == env.mem.mem_base(),
                    size == env.mem.size() as int,
                    base + limit == size,
                    limit == env.mem.size() - env.mem.stack_size() - OFFSET,
                    spec_cmd_kind(name@) == Some(kind),
                    kind == CmdKind::Db,
                    !(spec_conditional(kind) && !old(env).mem.flag_set()),
                    args@.len() >= 2,
                    ops_view(args@).len() == args@.len(),
                    ops_view(args@)[0] == op_view(args@[0]),
                    ops_view(args@)[1] == op_view(args@[1]),
                    start >= 0,
                    ({
                        let av = pure_operand_value(*old(env), ops_view(ast@), op_view(args@[0]));
                        let tv = pure_operand_value(*old(env), ops_view(ast@), op_view(args@[1]));
                        (av is Some && tv is Some) ==> (*old(env) == env0 && av.unwrap()
                            == start as int && tb == crate::numeric::u8_of_i32(tv.unwrap()))
                    }),
                    (match spec_scan(b0, base + i, size, tb) {
                        Some(k) => spec_scan(b0, base + (start as usize), size, tb) == Some(
                            count + k,
                        ),
                        None => spec_scan(b0, base + (start as usize), size, tb) is None,
                    }),
                decreases limit - i,
            {
                let b = match env.mem.m_read::<u8>(i) {
                    Ok(v) => v,
                    Err(f) => {
                        return Err(Abort::Fault(f));
                    }
                };
                proof {
                    assert(b0.subrange(base + i, base + i + 1) =~= seq![b0[base + i]]);
                }
                if b == tb as i32 {
                    proof {
                        assert(b0[base + i] == tb);
                        assert(spec_scan(b0, base + i, size, tb) == Some(0int));
                    }
                    if count > 0x7fff_ffff {
                        return Err(Abort::Fault(Fault::CastError));
                    }
                    return Ok((Status::of_val(count as i32), ind));
                }
                proof {
                    assert(b0[base + i] != tb);
                }
                count = count + 1;
                i = i + 1;
            }
            proof {
                assert(spec_scan(b0, base + i, size, tb) is None);
            }
            Err(Abort::Fault(Fault::OutOfBounds))
        }
        CmdKind::In => {
            match env.stdin.next() {
                Some(b) => Ok((Status::of_val(b as i32), ind)),
                None => Ok((Status::of_val(0), ind)),
            }
        }
        CmdKind::Ret | CmdKind::Cre => {
            let mut ii = ind;
            match env.ret_restore(&mut ii) {
                Ok(()) => Ok((Status::of_jmp(true), ii)),
                Err(f) => Err(Abort::Fault(f)),
            }
        }
        CmdKind::Hlt | CmdKind::Chl => {
            if args.len() < 1 {
                return Err(Abort::Fault(Fault::WrongOperandCount(name.clone())));
            }
            let v = match to_numeric::<i32>(env, ast, &args[0]) {
                Ok(v) => v,
                Err(a) => {
                    return Err(a);
                }
            };
            Err(Abort::Halt(v))
        }
    }
}

/// Execute the node at `ind`: a command is dispatched; a branch body is
/// iterated from the saved offset, resuming correctly after nested returns.
/// Anything else at the top level is a fatal error.
/// One child step inside a branch body: the child at offset `k` ran with
/// everything `run_op_post` pins, did not jump, and the engine advanced the
/// saved offset cursor past it.
pub open spec fn branch_step(bodyv: Seq<OpV>, k: int, e0: Environment, e1: Environment) -> bool {
    &&& 0 <= k < bodyv.len()
    &&& exists|em: Environment, rr: Result<(Status, usize), Abort>|
        {
            &&& #[trigger] run_op_post(bodyv, e0, k, false, em, rr)
            &&& rr matches Ok((st, ni)) && !st.spec_jmp() && em.pos.1 < usize::MAX && e1.pos == (
            em.pos.0,
            ((em.pos.1 + 1) as usize),
            ) && e1.mem == em.mem && e1.stdin == em.stdin && e1.out == em.out && e1.jump_point
                == em.jump_point && e1.parent_ast == em.parent_ast
        }
}

/// A run through the children of a branch body, in order from `start`.
pub open spec fn branch_trace(bodyv: Seq<OpV>, start: int, tr: Seq<Environment>) -> bool {
    &&& tr.len() >= 1
    &&& (forall|i: int|
        0 <= i < tr.len() - 1 ==> branch_step(bodyv, start + i, #[trigger] tr[i], tr[i + 1]))
}

/// Where a branch body starts running: the saved offset, clamped to the body.
pub open spec fn start0(body: Seq<OpV>, e0: Environment) -> int {
    if e0.pos.1 <= body.len() {
        e0.pos.1 as int
    } else {
        body.len() as int
    }
}

/// The child at the end of a partial run of a branch body, and what it
/// reported.
pub open spec fn branch_end(
    body: Seq<OpV>,
    start: int,
    tr: Seq<Environment>,
    e1: Environment,
    rr: Result<(Status, usize), Abort>,
) -> bool {
    run_op_post(body, tr[tr.len() - 1], start + tr.len() - 1, false, e1, rr)
}

/// What running a branch body guarantees: some in-order run of its children
/// from the saved offset justifies the result — a fall-through with every
/// child exhausted and the index unchanged, a child's jump propagated with
/// that child's target, or a child's abort passed through.
pub open spec fn branch_post(
    body: Seq<OpV>,
    e0: Environment,
    ind: int,
    e1: Environment,
    r: Result<(Status, usize), Abort>,
) -> bool {
    let start = start0(body, e0);
    ||| (r matches Ok((st, i2)) && !st.spec_jmp() && i2 == ind && exists|tr: Seq<Environment>|
        (#[trigger] tr[0]) == e0 && branch_trace(body, start, tr) && start + tr.len() - 1
            == body.len() && e1 == tr[tr.len() - 1])
    ||| exists|tr: Seq<Environment>, rr: Result<(Status, usize), Abort>|
        {
            &&& #[trigger] branch_end(body, start, tr, e1, rr)
            &&& branch_trace(body, start, tr)
            &&& tr[0] == e0
            &&& 0 <= start + tr.len() - 1 < body.len()
            &&& (match r {
                Ok((st, i2)) => st.spec_jmp() && (rr matches Ok((st2, ni)) && st2.spec_jmp() && i2
                    == ni),
                Err(a) => ({
                    ||| rr == Err::<(Status, usize), Abort>(a)
                    ||| (a == Abort::Fault(Fault::OutOfBounds) && e1.pos.1 == usize::MAX && (
                    rr matches Ok((st2, _n)) && !st2.spec_jmp()))
                }),
            })
        }
}

/// A child's abort ends the branch run with that abort.
proof fn lemma_branch_abort(
    body: Seq<OpV>,
    e0: Environment,
    ind: int,
    e1: Environment,
    a: Abort,
    tr: Seq<Environment>,
)
    requires
        tr.len() >= 1,
        tr[0] == e0,
        branch_trace(body, start0(body, e0), tr),
        0 <= start0(body, e0) + tr.len() - 1 < body.len(),
        run_op_post(body, tr[tr.len() - 1], start0(body, e0) + tr.len() - 1, false, e1, Err(a)),
    ensures
        branch_post(body, e0, ind, e1, Err(a)),
{
    assert(branch_end(body, start0(body, e0), tr, e1, Err(a)));
}

/// A non-jumping child stuck at an offset cursor that cannot advance ends the
/// branch run with the driver's bounds fault.
proof fn lemma_branch_cursor_stuck(
    body: Seq<OpV>,
    e0: Environment,
    ind: int,
    e1: Environment,
    st: Status,
    ni: usize,
    tr: Seq<Environment>,
)
    requires
        tr.len() >= 1,
        tr[0] == e0,
        branch_trace(body, start0(body, e0), tr),
        0 <= start0(body, e0) + tr.len() - 1 < body.len(),
        run_op_post(
            body,
            tr[tr.len() - 1],
            start0(body, e0) + tr.len() - 1,
            false,
            e1,
            Ok((st, ni)),
        ),
        !st.spec_jmp(),
        e1.pos.1 == usize::MAX,
    ensures
        branch_post(body, e0, ind, e1, Err(Abort::Fault(Fault::OutOfBounds))),
{
    assert(branch_end(body, start0(body, e0), tr, e1, Ok((st, ni))));
}

/// A jumping child ends the branch run, propagating its target.
proof fn lemma_branch_jump(
    body: Seq<OpV>,
    e0: Environment,
    ind: int,
    e1: Environment,
    stc: Status,
    ni: usize,
    rstat: Status,
    tr: Seq<Environment>,
)
    requires
        tr.len() >= 1,
        tr[0] == e0,
        branch_trace(body, start0(body, e0), tr),
        0 <= start0(body, e0) + tr.len() - 1 < body.len(),
        run_op_post(
            body,
            tr[tr.len() - 1],
            start0(body, e0) + tr.len() - 1,
            false,
            e1,
            Ok((stc, ni)),
        ),
        stc.spec_jmp(),
        rstat.spec_jmp(),
    ensures
        branch_post(body, e0, ind, e1, Ok((rstat, ni))),
{
    assert(branch_end(body, start0(body, e0), tr, e1, Ok((stc, ni))));
}

/// An exhausted body falls through, the index unchanged.
proof fn lemma_branch_fallthrough(
    body: Seq<OpV>,
    e0: Environment,
    ind: int,
    e1: Environment,
    rstat: Status,
    i2v: usize,
    tr: Seq<Environment>,
)
    requires
        tr.len() >= 1,
        tr[0] == e0,
        branch_trace(body, start0(body, e0), tr),
        start0(body, e0) + tr.len() - 1 == body.len(),
        e1 == tr[tr.len() - 1],
        !rstat.spec_jmp(),
        i2v == ind,
    ensures
        branch_post(body, e0, ind, e1, Ok((rstat, i2v))),
{
}

/// A branch trace grows by one child.
proof fn lemma_branch_extend(
    bodyv: Seq<OpV>,
    start: int,
    tr: Seq<Environment>,
    next: Environment,
)
    requires
        branch_trace(bodyv, start, tr),
        branch_step(bodyv, start + tr.len() - 1, tr[tr.len() - 1], next),
    ensures
        branch_trace(bodyv, start, tr.push(next)),
{
    let tr2 = tr.push(next);
    assert forall|i: int| 0 <= i < tr2.len() - 1 implies branch_step(
        bodyv,
        start + i,
        #[trigger] tr2[i],
        tr2[i + 1],
    ) by {
        if i < tr.len() - 1 {
            assert(tr2[i] == tr[i]);
            assert(tr2[i + 1] == tr[i + 1]);
            assert(branch_step(bodyv, start + i, tr[i], tr[i + 1]));
        } else {
            assert(tr2[i] == tr[tr.len() - 1]);
            assert(tr2[i + 1] == next);
        }
    }
}

/// Everything one execution step guarantees. A top-level command clears a
/// nonempty call history before dispatching, which the command-effect spec
/// cannot express over the entry state; it is therefore pinned at the top
/// exactly when the history is already empty — which a straight-line run
/// preserves from the start — and in branch bodies unconditionally.
pub open spec fn run_op_post(
    astv: Seq<OpV>,
    e0: Environment,
    ind: int,
    at_top: bool,
    e1: Environment,
    r: Result<(Status, usize), Abort>,
) -> bool {
    &&& engine_frame(e0, e1)
    &&& (!(astv[ind] is Cmd || astv[ind] is Branch) ==> r is Err && e1 == e0)
    &&& (astv[ind] matches OpV::Branch(_, body) ==> (e0.pos.1 >= body.len() ==> (
    r matches Ok((st, i2)) && !st.spec_jmp() && i2 == ind && e1 == e0)))
    &&& ((!at_top || e0.jump_point@.len() == 0) ==> (astv[ind] matches OpV::Cmd(
        cname,
        cargs,
    ) ==> (match spec_cmd_kind(cname) {
        Some(k) => ((spec_conditional(k) ==> e0.mem.flag_set()) ==> cmd_effect(
            k,
            e0,
            astv,
            cargs,
            ind,
            e1,
            r,
        )) && (!is_control_kind(k) ==> (r matches Ok((st, i2)) ==> !st.spec_jmp() && i2 == ind)),
        None => r is Err,
    })))
}

#[verifier::rlimit(100)]
#[verifier::spinoff_prover]
fn run_op(env: &mut Environment, ast: &[Op], ind: usize, at_top: bool) -> (r: Result<
    (Status, usize),
    Abort,
>)
    requires
        old(env).wf(),
        ind < ast@.len(),
    ensures
        run_op_post(ops_view(ast@), *old(env), ind as int, at_top, *final(env), r),
        ops_view(ast@)[ind as int] matches OpV::Branch(_, body) ==> branch_post(
            body,
            *old(env),
            ind as int,
            *final(env),
            r,
        ),
    decreases op_height(ast@[ind as int]), 5int,
{
    proof {
        lemma_ops_view(ast@);
    }
    match &ast[ind] {
        Op::Cmd(name, args) => {
            if at_top && env.jump_point.len() > 0 {
                env.jump_point.clear();
            }
            proof {
                assert(op_height(ast@[ind as int]) == 1 + ops_height(args@));
                assert(op_view(ast@[ind as int]) == OpV::Cmd(name@, ops_view(args@)));
            }
            run_cmd(env, ast, ind, name, args)
        }
        Op::Branch(bname, body) => {
            proof {
                assert(op_height(ast@[ind as int]) == 1 + ops_height(body@));
                lemma_ops_view(body@);
            }
            let ghost bodyv = ops_view(body@);
            let ghost startg: int = if old(env).pos.1 <= bodyv.len() {
                old(env).pos.1 as int
            } else {
                bodyv.len() as int
            };
            let ghost mut btr: Seq<Environment> = seq![*old(env)];
            let end = body.len();
            let start = env.pos.1;
            let mut k = if start > end {
                end
            } else {
                start
            };
            while k < end
                invariant
                    k <= end,
                    end == body@.len(),
                    ind < ast@.len(),
                    ops_view(ast@).len() == ast@.len(),
                    ops_view(ast@)[ind as int] == op_view(ast@[ind as int]),
                    op_view(ast@[ind as int]) == OpV::Branch(bname@, ops_view(body@)),
                    old(env).pos.1 >= end ==> *env == *old(env) && k == end,
                    ops_view(body@).len() == body@.len(),
                    bodyv == ops_view(body@),
                    startg == (if old(env).pos.1 <= bodyv.len() {
                        old(env).pos.1 as int
                    } else {
                        bodyv.len() as int
                    }),
                    btr.len() >= 1,
                    btr[0] == *old(env),
                    branch_trace(bodyv, startg, btr),
                    btr[btr.len() - 1] == *env,
                    startg + btr.len() - 1 == k as int,
                    env.wf(),
                    env.parent_view() == old(env).parent_view(),
                    env.mem.size() == old(env).mem.size(),
                    op_height(ast@[ind as int]) == 1 + ops_height(body@),
                decreases end - k,
            {
                proof {
                    lemma_ops_height_index(body@, k as int);
                }
                let ghost e_before = *env;
                let (st, newi) = match run_op(env, body.as_slice(), k, false) {
                    Ok(p) => p,
                    Err(a) => {
                        proof {
                            assert(startg == start0(bodyv, *old(env)));
                            assert(run_op_post(bodyv, e_before, k as int, false, *env, Err(a)));
                            lemma_branch_abort(bodyv, *old(env), ind as int, *env, a, btr);
                        }
                        return Err(a);
                    }
                };
                if st.has_jmp() {
                    let r2 = Status::of_jmp(true);
                    proof {
                        assert(startg == start0(bodyv, *old(env)));
                        assert(run_op_post(bodyv, e_before, k as int, false, *env, Ok((st, newi))));
                        lemma_branch_jump(
                            bodyv,
                            *old(env),
                            ind as int,
                            *env,
                            st,
                            newi,
                            r2,
                            btr,
                        );
                    }
                    return Ok((r2, newi));
                }
                let ghost e_mid = *env;
                if env.pos.1 == usize::MAX {
                    proof {
                        assert(startg == start0(bodyv, *old(env)));
                        assert(run_op_post(bodyv, e_before, k as int, false, *env, Ok((st, newi))));
                        lemma_branch_cursor_stuck(
                            bodyv,
                            *old(env),
                            ind as int,
                            *env,
                            st,
                            newi,
                            btr,
                        );
                    }
                    return Err(Abort::Fault(Fault::OutOfBounds));
                }
                env.pos = (env.pos.0, env.pos.1 + 1);
                proof {
                    assert(branch_step(bodyv, k as int, e_before, *env)) by {
                        assert(run_op_post(bodyv, e_before, k as int, false, e_mid, Ok(
                            (st, newi),
                        )));
                    }
                    lemma_branch_extend(bodyv, startg, btr, *env);
                    btr = btr.push(*env);
                }
                k = k + 1;
            }
            let r2 = Status::of_jmp(false);
            proof {
                assert(startg == start0(bodyv, *old(env)));
                lemma_branch_fallthrough(bodyv, *old(env), ind as int, *env, r2, ind, btr);
            }
            Ok((r2, ind))
        }
        _ => Err(Abort::Fault(Fault::InvalidTopLevel)),
    }
}

/// The environment a run starts from: fresh zeroed memory, the input stream,
/// the saved top-level AST, empty history and output.
pub open spec fn init_env(e: Environment, input: Seq<u8>, astv: Seq<OpV>) -> bool {
    &&& e.wf()
    &&& e.mem.size() == 1024
    &&& e.mem.stack_size() == 0
    &&& e.mem.stack_len() == 0
    &&& (forall|i: int| 0 <= i < 1024 ==> e.mem.bytes()[i] == 0u8)
    &&& e.stdin.remaining() == input
    &&& e.parent_view() == Some(astv)
    &&& e.jump_point@ == Seq::<(usize, usize)>::empty()
    &&& e.pos == (0usize, 0usize)
    &&& e.out@ == Seq::<char>::empty()
}

/// One step of the top-level driver: the node at `ind0` ran with everything
/// `run_op_post` pins, and the driver advanced the index — to the jump target
/// on a jump, to the next slot (bumping the position cursor) otherwise.
pub open spec fn top_step(
    astv: Seq<OpV>,
    e0: Environment,
    ind0: usize,
    e1: Environment,
    ind1: usize,
) -> bool {
    &&& ind0 < astv.len()
    &&& exists|em: Environment, st: Status, ni: usize|
        {
            &&& #[trigger] run_op_post(astv, e0, ind0 as int, true, em, Ok((st, ni)))
            &&& (if st.spec_jmp() {
                e1 == em && ind1 == ni
            } else {
                &&& ind1 == ind0 + 1
                &&& em.pos.0 < usize::MAX
                &&& e1.pos == (((em.pos.0 + 1) as usize), em.pos.1)
                &&& e1.mem == em.mem
                &&& e1.stdin == em.stdin
                &&& e1.out == em.out
                &&& e1.jump_point == em.jump_point
                &&& e1.parent_ast == em.parent_ast
            })
        }
}

/// A chain of top-level steps from the fresh environment.
pub open spec fn run_trace(astv: Seq<OpV>, input: Seq<u8>, tr: Seq<(Environment, usize)>) -> bool {
    &&& tr.len() >= 1
    &&& init_env(tr[0].0, input, astv)
    &&& tr[0].1 == 0
    &&& (forall|i: int|
        0 <= i < tr.len() - 1 ==> top_step(
            astv,
            (#[trigger] tr[i]).0,
            tr[i].1,
            tr[i + 1].0,
            tr[i + 1].1,
        ))
}

/// What a run promises: some chain of top-level steps justifies the returned
/// state and outcome — completion exactly when the chain leaves the AST, fuel
/// exhaustion exactly when it spent every step, a halt or fault exactly when
/// the last node's dispatch reports it. Each step is pinned by `run_op_post`,
/// so a straight-line program's output and outcome are fully determined.
pub open spec fn parse_post(
    astv: Seq<OpV>,
    input: Seq<u8>,
    fuel: u64,
    e: Environment,
    oc: Outcome,
) -> bool {
    exists|tr: Seq<(Environment, usize)>|
        {
            &&& #[trigger] run_trace(astv, input, tr)
            &&& tr.len() - 1 <= fuel
            &&& ({
                let last = tr[tr.len() - 1];
                match oc {
                    Outcome::Completed => e == last.0 && last.1 >= astv.len(),
                    Outcome::OutOfSteps => e == last.0 && last.1 < astv.len() && tr.len() - 1
                        == fuel,
                    Outcome::Halted(c) => last.1 < astv.len() && tr.len() - 1 < fuel
                        && run_op_post(astv, last.0, last.1 as int, true, e, Err(Abort::Halt(c))),
                    Outcome::Faulted(f) => last.1 < astv.len() && tr.len() - 1 < fuel && ({
                        ||| run_op_post(astv, last.0, last.1 as int, true, e, Err(Abort::Fault(f)))
                        ||| (f == Fault::OutOfBounds && e.pos.0 == usize::MAX && exists|
                            st: Status,
                            ni: usize,
                        |
                            #[trigger] run_op_post(astv, last.0, last.1 as int, true, e, Ok(
                                (st, ni),
                            )) && !st.spec_jmp())
                    }),
                }
            })
        }
}

/// A trace grows by one step.
proof fn lemma_trace_extend(
    astv: Seq<OpV>,
    input: Seq<u8>,
    tr: Seq<(Environment, usize)>,
    next: (Environment, usize),
)
    requires
        run_trace(astv, input, tr),
        top_step(astv, tr[tr.len() - 1].0, tr[tr.len() - 1].1, next.0, next.1),
    ensures
        run_trace(astv, input, tr.push(next)),
{
    let tr2 = tr.push(next);
    assert(tr2[0] == tr[0]);
    assert forall|i: int| 0 <= i < tr2.len() - 1 implies top_step(
        astv,
        (#[trigger] tr2[i]).0,
        tr2[i].1,
        tr2[i + 1].0,
        tr2[i + 1].1,
    ) by {
        if i < tr.len() - 1 {
            assert(tr2[i] == tr[i]);
            assert(tr2[i + 1] == tr[i + 1]);
            assert(top_step(astv, tr[i].0, tr[i].1, tr[i + 1].0, tr[i + 1].1));
        } else {
            assert(tr2[i] == tr[tr.len() - 1]);
            assert(tr2[i + 1] == next);
        }
    }
}

/// Run a program AST against a fresh environment fed by `input`, spending at
/// most `fuel` top-level steps. The collected output and final machine state
/// come back with the outcome, also when a fault ends the run.
pub fn parse(ast: &[Op], input: &[u8], fuel: u64) -> (r: (Environment, Outcome))
    ensures
        r.0.wf(),
        ast@.len() == 0 ==> r.1 == Outcome::Completed && r.0.out@ == Seq::<char>::empty(),
        ast@.len() > 0 && fuel == 0 ==> r.1 == Outcome::OutOfSteps,
        parse_post(ops_view(ast@), input@, fuel, r.0, r.1),
{
    proof {
        lemma_ops_view(ast@);
    }
    let ghost astv = ops_view(ast@);
    let mut env = Environment::new(input);
    env.set_parent(ast);
    let ghost mut tr: Seq<(Environment, usize)> = seq![(env, 0usize)];
    proof {
        assert(run_trace(astv, input@, tr));
    }
    if ast.len() == 0 {
        proof {
            assert(parse_post(astv, input@, fuel, env, Outcome::Completed)) by {
                assert(run_trace(astv, input@, tr));
            }
        }
        return (env, Outcome::Completed);
    }
    let mut ind: usize = 0;
    let mut gas: u64 = fuel;
    while ind < ast.len()
        invariant
            env.wf(),
            fuel == 0 ==> gas == 0,
            fuel == 0 && ast@.len() > 0 ==> ind == 0,
            astv == ops_view(ast@),
            astv.len() == ast@.len(),
            gas <= fuel,
            tr.len() >= 1,
            run_trace(astv, input@, tr),
            tr[tr.len() - 1] == (env, ind),
            tr.len() - 1 == fuel - gas,
        decreases gas,
    {
        if gas == 0 {
            proof {
                assert(parse_post(astv, input@, fuel, env, Outcome::OutOfSteps)) by {
                    assert(run_trace(astv, input@, tr));
                }
            }
            return (env, Outcome::OutOfSteps);
        }
        gas = gas - 1;
        let ghost e_before = env;
        let ghost ind_before = ind;
        match run_op(&mut env, ast, ind, true) {
            Err(Abort::Halt(code)) => {
                proof {
                    assert(parse_post(astv, input@, fuel, env, Outcome::Halted(code))) by {
                        assert(run_trace(astv, input@, tr));
                        assert(run_op_post(astv, e_before, ind_before as int, true, env, Err(
                            Abort::Halt(code),
                        )));
                    }
                }
                return (env, Outcome::Halted(code));
            }
            Err(Abort::Fault(f)) => {
                proof {
                    assert(parse_post(astv, input@, fuel, env, Outcome::Faulted(f))) by {
                        assert(run_trace(astv, input@, tr));
                        assert(run_op_post(astv, e_before, ind_before as int, true, env, Err(
                            Abort::Fault(f),
                        )));
                    }
                }
                return (env, Outcome::Faulted(f));
            }
            Ok((st, ni)) => {
                let ghost e_mid = env;
                if st.has_jmp() {
                    ind = ni;
                    proof {
                        assert(top_step(astv, e_before, ind_before, env, ind)) by {
                            assert(run_op_post(astv, e_before, ind_before as int, true, e_mid, Ok(
                                (st, ni),
                            )));
                        }
                        lemma_trace_extend(astv, input@, tr, (env, ind));
                        tr = tr.push((env, ind));
                    }
                } else {
                    ind = ind + 1;
                    if env.pos.0 == usize::MAX {
                        proof {
                            assert(parse_post(astv, input@, fuel, env, Outcome::Faulted(
                                Fault::OutOfBounds,
                            ))) by {
                                assert(run_trace(astv, input@, tr));
                                assert(run_op_post(astv, e_before, ind_before as int, true, env,
                                    Ok((st, ni)),
                                ));
                            }
                        }
                        return (env, Outcome::Faulted(Fault::OutOfBounds));
                    }
                    env.pos = (env.pos.0 + 1, env.pos.1);
                    proof {
                        assert(top_step(astv, e_before, ind_before, env, ind)) by {
                            assert(run_op_post(astv, e_before, ind_before as int, true, e_mid, Ok(
                                (st, ni),
                            )));
                        }
                        lemma_trace_extend(astv, input@, tr, (env, ind));
                        tr = tr.push((env, ind));
                    }
                }
            }
        }
    }
    proof {
        assert(parse_post(astv, input@, fuel, env, Outcome::Completed)) by {
            assert(run_trace(astv, input@, tr));
        }
    }
    (env, Outcome::Completed)
}

/// Lex, build and run a whole source text. Lexing and building happen before
/// any execution, so their faults come without an environment; a runtime
/// fault comes inside the outcome, with the output collected so far.
pub fn run_program(program: &str, input: &[u8], fuel: u64) -> (r: Result<
    (Environment, Outcome),
    Fault,
>)
    ensures
        r matches Ok((env2, _)) ==> env2.wf(),
        (match crate::lexer::spec_lex(program@) {
            Some(toks) => (match crate::ast::spec_build(toks) {
                Some(opsv) => r matches Ok(p) && parse_post(opsv, input@, fuel, p.0, p.1),
                None => r is Err,
            }),
            None => r is Err,
        }),
{
    let toks = match crate::lexer::lex(program) {
        Ok(t) => t,
        Err(f) => {
            return Err(f);
        }
    };
    let tree = match crate::ast::construct_tree(toks.as_slice()) {
        Ok(t) => t,
        Err(f) => {
            return Err(f);
        }
    };
    Ok(parse(tree.as_slice(), input, fuel))
}

} // verus!

