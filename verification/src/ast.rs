//! The tree builder: consumes the token sequence and recursively assembles the
//! AST, looking up each command's fixed operand count, recognizing bracketed
//! memory operands, and collecting branch bodies up to their terminator
//! marker. Specified exactly by the recursive `spec_resolve` family.

use vstd::math::max;
use vstd::prelude::*;

use crate::consts::{arity, cmd_kind_of_chars, spec_arity, spec_cmd_kind};
use crate::fault::Fault;
use crate::lexer::str_chars;
use crate::token::{lemma_ops_view, nodes_view, op_view, ops_view, Node, NodeV, Op, OpV};

verus! {

/// The position an operand resolution hands back, forced forward: resolutions
/// always consume at least the token they were given, so this is their
/// returned position in fact.
pub open spec fn adv(pos: int, p2: int) -> int {
    if p2 > pos {
        p2
    } else {
        pos + 1
    }
}

/// Resolve the token `cur`, whose operands (if any) start at `pos`, into an
/// AST node and the position after it. `None` is a build-time fault.
pub open spec fn spec_resolve(toks: Seq<NodeV>, pos: int, cur: NodeV) -> Option<(OpV, int)>
    decreases max(toks.len() - pos, 0), 2int,
{
    match cur {
        NodeV::Keyword(name) => match spec_cmd_kind(name) {
            None => None,
            Some(k) => match spec_collect_args(toks, pos, spec_arity(k) as int) {
                None => None,
                Some((args, p2)) => Some((OpV::Cmd(name, args), p2)),
            },
        },
        NodeV::Punctuation(c) => if c == '#' || c == '$' || c == '@' {
            if pos < toks.len() && toks[pos] == NodeV::Punctuation('[') && pos + 1 < toks.len() {
                match spec_resolve(toks, pos + 2, toks[pos + 1]) {
                    None => None,
                    Some((inner, p2)) => if p2 < toks.len() && toks[p2] == NodeV::Punctuation(']') {
                        Some((OpV::Memory(c, seq![inner]), p2 + 1))
                    } else {
                        None
                    },
                }
            } else {
                None
            }
        } else {
            None
        },
        NodeV::Branch(name) => if name.len() > 0 && name[0] == ':' {
            Some((OpV::Label(name), pos))
        } else {
            match spec_collect_branch(toks, pos) {
                None => None,
                Some((body, p2)) => Some((OpV::Branch(name, body), p2)),
            }
        },
        NodeV::Register(name) => Some((OpV::Register(name), pos)),
        NodeV::Numeric(v) => Some((OpV::Numeric(v), pos)),
        NodeV::StrLit(s) => Some((OpV::StrLit(s), pos)),
        NodeV::CharLit(c) => Some((OpV::CharLit(c), pos)),
    }
}

/// Resolve `count` non-empty operands starting at `pos`.
pub open spec fn spec_collect_args(toks: Seq<NodeV>, pos: int, count: int) -> Option<
    (Seq<OpV>, int),
>
    decreases max(toks.len() - pos, 0), 1int,
{
    if count <= 0 {
        Some((Seq::empty(), pos))
    } else if pos < 0 || pos >= toks.len() {
        None
    } else {
        match spec_resolve(toks, pos + 1, toks[pos]) {
            None => None,
            Some((op, p2)) => if op is Empty {
                spec_collect_args(toks, adv(pos, p2), count)
            } else {
                match spec_collect_args(toks, adv(pos, p2), count - 1) {
                    None => None,
                    Some((rest, p3)) => Some((seq![op] + rest, p3)),
                }
            },
        }
    }
}

/// Resolve operations until the branch-terminator marker (which is consumed
/// but not included); running out of tokens first is a fault.
pub open spec fn spec_collect_branch(toks: Seq<NodeV>, pos: int) -> Option<(Seq<OpV>, int)>
    decreases max(toks.len() - pos, 0), 1int,
{
    if pos < 0 || pos >= toks.len() {
        None
    } else if toks[pos] == NodeV::Branch(seq!['.']) {
        Some((Seq::empty(), pos + 1))
    } else {
        match spec_resolve(toks, pos + 1, toks[pos]) {
            None => None,
            Some((op, p2)) => match spec_collect_branch(toks, adv(pos, p2)) {
                None => None,
                Some((rest, p3)) => Some((seq![op] + rest, p3)),
            },
        }
    }
}

/// Resolve every remaining token, collecting the non-empty results in order.
pub open spec fn spec_build_from(toks: Seq<NodeV>, pos: int) -> Option<Seq<OpV>>
    decreases max(toks.len() - pos, 0), 3int,
{
    if pos < 0 || pos >= toks.len() {
        Some(Seq::empty())
    } else {
        match spec_resolve(toks, pos + 1, toks[pos]) {
            None => None,
            Some((op, p2)) => match spec_build_from(toks, adv(pos, p2)) {
                None => None,
                Some(rest) => Some(
                    if op is Empty {
                        rest
                    } else {
                        seq![op] + rest
                    },
                ),
            },
        }
    }
}

/// The AST of a token sequence.
pub open spec fn spec_build(toks: Seq<NodeV>) -> Option<Seq<OpV>> {
    spec_build_from(toks, 0)
}

/// Whether a string is exactly the branch-terminator marker.
fn is_terminator(name: &String) -> (r: bool)
    ensures
        r == (name@ == seq!['.']),
{
    let cs = str_chars(name.as_str());
    if cs.len() == 1 && cs[0] == '.' {
        proof {
            assert(name@ =~= seq!['.']);
        }
        true
    } else {
        proof {
            if name@ == seq!['.'] {
                assert(cs@.len() == 1 && cs@[0] == '.');
            }
        }
        false
    }
}

/// Exec twin of `spec_resolve`.
fn resolve_at(stream: &[Node], pos: usize, cur: &Node) -> (r: Result<(Op, usize), Fault>)
    requires
        pos <= stream@.len(),
    ensures
        match spec_resolve(nodes_view(stream@), pos as int, cur@) {
            Some((opv, p2)) => r matches Ok((op, q)) && op_view(op) == opv && q == p2 && pos <= q
                <= stream@.len(),
            None => r is Err,
        },
    decreases stream@.len() - pos, 2int,
{
    let ghost toks = nodes_view(stream@);
    match cur {
        Node::Keyword(name) => {
            let cs = str_chars(name.as_str());
            match cmd_kind_of_chars(&cs) {
                None => Err(Fault::UnrecognizedCommand(name.clone())),
                Some(k) => {
                    let count = arity(k);
                    match collect_args_at(stream, pos, count, name) {
                        Err(f) => Err(f),
                        Ok((args, p2)) => Ok((Op::Cmd(name.clone(), args), p2)),
                    }
                }
            }
        }
        Node::Punctuation(c) => {
            let c = *c;
            if c == '#' || c == '$' || c == '@' {
                if pos < stream.len() && matches!(&stream[pos], Node::Punctuation('[')) && pos + 1
                    < stream.len() {
                    proof {
                        assert(toks[pos as int] == stream@[pos as int]@);
                        assert(toks[pos as int] == NodeV::Punctuation('['));
                        assert(toks[pos + 1] == stream@[pos + 1]@);
                    }
                    match resolve_at(stream, pos + 2, &stream[pos + 1]) {
                        Err(f) => Err(f),
                        Ok((inner, p2)) => {
                            if p2 < stream.len() && matches!(&stream[p2], Node::Punctuation(']')) {
                                proof {
                                    assert(toks[p2 as int] == NodeV::Punctuation(']'));
                                }
                                Ok((Op::Memory(c, Box::new(inner)), p2 + 1))
                            } else {
                                proof {
                                    if p2 < stream@.len() {
                                        assert(toks[p2 as int] == stream@[p2 as int]@);
                                    }
                                }
                                Err(Fault::MalformedMemoryOperand)
                            }
                        }
                    }
                } else {
                    proof {
                        if pos < stream@.len() {
                            assert(toks[pos as int] == stream@[pos as int]@);
                        }
                    }
                    Err(Fault::MalformedMemoryOperand)
                }
            } else if c == '[' || c == ']' {
                Err(Fault::FreePunctuation(c))
            } else {
                Err(Fault::MathUnsupported)
            }
        }
        Node::Branch(name) => {
            let cs = str_chars(name.as_str());
            if cs.len() > 0 && cs[0] == ':' {
                Ok((Op::Label(name.clone()), pos))
            } else {
                match collect_branch_at(stream, pos, name) {
                    Err(f) => Err(f),
                    Ok((body, p2)) => Ok((Op::Branch(name.clone(), body), p2)),
                }
            }
        }
        Node::Register(name) => Ok((Op::Register(name.clone()), pos)),
        Node::Numeric(v) => Ok((Op::Numeric(*v), pos)),
        Node::String(s) => Ok((Op::String(s.clone()), pos)),
        Node::Char(ch) => Ok((Op::Char(*ch), pos)),
    }
}

/// Exec twin of `spec_collect_args`; `name` is the command the operands are
/// for, named in the fault when the stream runs out.
fn collect_args_at(stream: &[Node], pos: usize, count: usize, name: &String) -> (r: Result<
    (Vec<Op>, usize),
    Fault,
>)
    requires
        pos <= stream@.len(),
    ensures
        match spec_collect_args(nodes_view(stream@), pos as int, count as int) {
            Some((argsv, p2)) => r matches Ok((args, q)) && ops_view(args@) == argsv && q == p2
                && pos <= q <= stream@.len(),
            None => r is Err,
        },
    decreases stream@.len() - pos, 1int,
{
    let ghost toks = nodes_view(stream@);
    if count == 0 {
        proof {
            assert(ops_view(Seq::<Op>::empty()) =~= Seq::<OpV>::empty());
        }
        return Ok((Vec::new(), pos));
    }
    if pos >= stream.len() {
        return Err(Fault::WrongOperandCount(name.clone()));
    }
    proof {
        assert(toks[pos as int] == stream@[pos as int]@);
    }
    match resolve_at(stream, pos + 1, &stream[pos]) {
        Err(f) => Err(f),
        Ok((op, p2)) => {
            let empty = matches!(op, Op::Empty);
            proof {
                assert(empty == (op_view(op) is Empty));
            }
            if empty {
                collect_args_at(stream, p2, count, name)
            } else {
                match collect_args_at(stream, p2, count - 1, name) {
                    Err(f) => Err(f),
                    Ok((mut rest, p3)) => {
                        let ghost r0 = rest@;
                        rest.insert(0, op);
                        proof {
                            assert(rest@.subrange(1, rest@.len() as int) =~= r0);
                            assert(ops_view(rest@) =~= seq![op_view(op)] + ops_view(r0)) by {
                                lemma_ops_view(rest@);
                                lemma_ops_view(r0);
                            }
                        }
                        Ok((rest, p3))
                    }
                }
            }
        }
    }
}

/// Exec twin of `spec_collect_branch`; `name` is the branch the body belongs
/// to, named in the fault when the terminator never comes.
fn collect_branch_at(stream: &[Node], pos: usize, name: &String) -> (r: Result<
    (Vec<Op>, usize),
    Fault,
>)
    requires
        pos <= stream@.len(),
    ensures
        match spec_collect_branch(nodes_view(stream@), pos as int) {
            Some((bodyv, p2)) => r matches Ok((body, q)) && ops_view(body@) == bodyv && q == p2
                && pos <= q <= stream@.len(),
            None => r is Err,
        },
    decreases stream@.len() - pos, 1int,
{
    let ghost toks = nodes_view(stream@);
    if pos >= stream.len() {
        return Err(Fault::MissingTerminator(name.clone()));
    }
    proof {
        assert(toks[pos as int] == stream@[pos as int]@);
    }
    let terminated = match &stream[pos] {
        Node::Branch(nm) => is_terminator(nm),
        _ => false,
    };
    proof {
        assert(terminated == (toks[pos as int] == NodeV::Branch(seq!['.'])));
    }
    if terminated {
        proof {
            assert(ops_view(Seq::<Op>::empty()) =~= Seq::<OpV>::empty());
        }
        return Ok((Vec::new(), pos + 1));
    }
    match resolve_at(stream, pos + 1, &stream[pos]) {
        Err(f) => Err(f),
        Ok((op, p2)) => match collect_branch_at(stream, p2, name) {
            Err(f) => Err(f),
            Ok((mut rest, p3)) => {
                let ghost r0 = rest@;
                rest.insert(0, op);
                proof {
                    assert(rest@.subrange(1, rest@.len() as int) =~= r0);
                    assert(ops_view(rest@) =~= seq![op_view(op)] + ops_view(r0)) by {
                        lemma_ops_view(rest@);
                        lemma_ops_view(r0);
                    }
                }
                Ok((rest, p3))
            }
        },
    }
}

/// Resolve the token `cur` into an AST node, advancing the cursor `pos` over
/// the operand tokens it consumes.
pub fn current_tok(stream: &[Node], pos: &mut usize, cur: &Node) -> (r: Result<Op, Fault>)
    requires
        *old(pos) <= stream@.len(),
    ensures
        match spec_resolve(nodes_view(stream@), *old(pos) as int, cur@) {
            Some((opv, p2)) => r matches Ok(op) && op_view(op) == opv && *final(pos) == p2
                && *final(pos) <= stream@.len(),
            None => r is Err,
        },
{
    match resolve_at(stream, *pos, cur) {
        Ok((op, q)) => {
            *pos = q;
            Ok(op)
        }
        Err(f) => Err(f),
    }
}

/// Exec twin of `spec_build_from`.
fn build_from_at(stream: &[Node], pos: usize) -> (r: Result<Vec<Op>, Fault>)
    requires
        pos <= stream@.len(),
    ensures
        match spec_build_from(nodes_view(stream@), pos as int) {
            Some(opsv) => r matches Ok(v) && ops_view(v@) == opsv,
            None => r is Err,
        },
    decreases stream@.len() - pos, 3int,
{
    let ghost toks = nodes_view(stream@);
    if pos >= stream.len() {
        proof {
            assert(ops_view(Seq::<Op>::empty()) =~= Seq::<OpV>::empty());
        }
        return Ok(Vec::new());
    }
    proof {
        assert(toks[pos as int] == stream@[pos as int]@);
    }
    match resolve_at(stream, pos + 1, &stream[pos]) {
        Err(f) => Err(f),
        Ok((op, p2)) => {
            let empty = matches!(op, Op::Empty);
            proof {
                assert(empty == (op_view(op) is Empty));
            }
            match build_from_at(stream, p2) {
                Err(f) => Err(f),
                Ok(mut rest) => {
                    if !empty {
                        let ghost r0 = rest@;
                        rest.insert(0, op);
                        proof {
                            assert(rest@.subrange(1, rest@.len() as int) =~= r0);
                            assert(ops_view(rest@) =~= seq![op_view(op)] + ops_view(r0)) by {
                                lemma_ops_view(rest@);
                                lemma_ops_view(r0);
                            }
                        }
                    }
                    Ok(rest)
                }
            }
        }
    }
}

/// Build the AST of a whole token sequence.
pub fn construct_tree(stream: &[Node]) -> (r: Result<Vec<Op>, Fault>)
    ensures
        match spec_build(nodes_view(stream@)) {
            Some(opsv) => r matches Ok(v) && ops_view(v@) == opsv,
            None => r is Err,
        },
{
    build_from_at(stream, 0)
}

} // verus!
