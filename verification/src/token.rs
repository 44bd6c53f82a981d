//! The lexer's token type and the AST node type, together with their
//! mathematical images (strings become character sequences, vectors become
//! sequences), which the contracts are stated over.

use vstd::prelude::*;

verus! {

/// A lexer token.
#[derive(Debug, PartialEq, Clone)]
pub enum Node {
    Keyword(String),
    Numeric(i32),
    String(String),
    Branch(String),
    Register(String),
    Punctuation(char),
    Char(char),
}

/// The mathematical image of a token.
pub enum NodeV {
    Keyword(Seq<char>),
    Numeric(i32),
    StrLit(Seq<char>),
    Branch(Seq<char>),
    Register(Seq<char>),
    Punctuation(char),
    CharLit(char),
}

impl View for Node {
    type V = NodeV;

    open spec fn view(&self) -> NodeV {
        match self {
            Node::Keyword(s) => NodeV::Keyword(s@),
            Node::Numeric(v) => NodeV::Numeric(*v),
            Node::String(s) => NodeV::StrLit(s@),
            Node::Branch(s) => NodeV::Branch(s@),
            Node::Register(s) => NodeV::Register(s@),
            Node::Punctuation(c) => NodeV::Punctuation(*c),
            Node::Char(c) => NodeV::CharLit(*c),
        }
    }
}

/// The images of a token sequence.
pub open spec fn nodes_view(s: Seq<Node>) -> Seq<NodeV> {
    s.map_values(|n: Node| n@)
}

/// An AST node: a command invocation, a named branch, a label reference, or
/// an atomic operand.
#[derive(Debug, PartialEq)]
pub enum Op {
    BinOp(char, Box<Op>, Box<Op>),
    Cmd(String, Vec<Op>),
    Branch(String, Vec<Op>),
    Label(String),
    Memory(char, Box<Op>),
    Register(String),
    Numeric(i32),
    String(String),
    Char(char),
    StackMarker,
    Empty,
}

/// The mathematical image of an AST node.
pub enum OpV {
    BinOp(char, Seq<OpV>),
    Cmd(Seq<char>, Seq<OpV>),
    Branch(Seq<char>, Seq<OpV>),
    Label(Seq<char>),
    Memory(char, Seq<OpV>),
    Register(Seq<char>),
    Numeric(i32),
    StrLit(Seq<char>),
    CharLit(char),
    StackMarker,
    Empty,
}

pub open spec fn op_view(op: Op) -> OpV
    decreases op,
{
    match op {
        Op::BinOp(c, a, b) => OpV::BinOp(c, seq![op_view(*a), op_view(*b)]),
        Op::Cmd(name, args) => OpV::Cmd(name@, ops_view(args@)),
        Op::Branch(name, body) => OpV::Branch(name@, ops_view(body@)),
        Op::Label(name) => OpV::Label(name@),
        Op::Memory(w, inner) => OpV::Memory(w, seq![op_view(*inner)]),
        Op::Register(name) => OpV::Register(name@),
        Op::Numeric(v) => OpV::Numeric(v),
        Op::String(s) => OpV::StrLit(s@),
        Op::Char(c) => OpV::CharLit(c),
        Op::StackMarker => OpV::StackMarker,
        Op::Empty => OpV::Empty,
    }
}

pub open spec fn ops_view(s: Seq<Op>) -> Seq<OpV>
    decreases s,
{
    if s.len() == 0 {
        Seq::empty()
    } else {
        seq![op_view(s[0])] + ops_view(s.subrange(1, s.len() as int))
    }
}

/// The image of a node sequence is its nodes' images, position by position.
pub broadcast proof fn lemma_ops_view(s: Seq<Op>)
    ensures
        #[trigger] ops_view(s).len() == s.len(),
        forall|i: int| 0 <= i < s.len() ==> #[trigger] ops_view(s)[i] == op_view(s[i]),
    decreases s.len(),
{
    if s.len() > 0 {
        let tail = s.subrange(1, s.len() as int);
        lemma_ops_view(tail);
        assert forall|i: int| 0 <= i < s.len() implies #[trigger] ops_view(s)[i] == op_view(
            s[i],
        ) by {
            if i > 0 {
                assert(tail[i - 1] == s[i]);
                assert(ops_view(s)[i] == ops_view(tail)[i - 1]);
            }
        }
    }
}

impl View for Op {
    type V = OpV;

    open spec fn view(&self) -> OpV {
        op_view(*self)
    }
}

/// The nesting depth of an AST node, used as the termination measure of the
/// mutually recursive engine functions.
pub open spec fn op_height(op: Op) -> nat
    decreases op,
{
    match op {
        Op::BinOp(_, a, b) => 1 + op_height(*a) + op_height(*b),
        Op::Cmd(_, args) => 1 + ops_height(args@),
        Op::Branch(_, body) => 1 + ops_height(body@),
        Op::Memory(_, inner) => 1 + op_height(*inner),
        _ => 1,
    }
}

pub open spec fn ops_height(s: Seq<Op>) -> nat
    decreases s,
{
    if s.len() == 0 {
        0nat
    } else {
        op_height(s[0]) + ops_height(s.subrange(1, s.len() as int))
    }
}

/// Every element of a sequence is at most as deep as the whole sequence.
pub broadcast proof fn lemma_ops_height_index(s: Seq<Op>, i: int)
    requires
        0 <= i < s.len(),
    ensures
        #[trigger] op_height(s[i]) <= ops_height(s),
    decreases s.len(),
{
    lemma_op_height_pos(s[i]);
    if i > 0 {
        let tail = s.subrange(1, s.len() as int);
        assert(tail[i - 1] == s[i]);
        lemma_ops_height_index(tail, i - 1);
        lemma_op_height_pos(s[0]);
    } else {
        lemma_ops_height_nonneg(s.subrange(1, s.len() as int));
    }
}

pub proof fn lemma_op_height_pos(op: Op)
    ensures
        op_height(op) >= 1,
{
}

pub proof fn lemma_ops_height_nonneg(s: Seq<Op>)
    ensures
        ops_height(s) >= 0,
{
}

/// Two leading elements together are at most as deep as the whole sequence.
pub proof fn lemma_ops_height_two(s: Seq<Op>)
    requires
        s.len() >= 2,
    ensures
        op_height(s[0]) + op_height(s[1]) <= ops_height(s),
{
    let tail = s.subrange(1, s.len() as int);
    assert(tail[0] == s[1]);
    lemma_ops_height_index(tail, 0);
}

/// A deep copy of an AST node, equal to the original in its image.
pub fn clone_op(op: &Op) -> (r: Op)
    ensures
        op_view(r) == op_view(*op),
    decreases op_height(*op), 0int, 0int,
{
    match op {
        Op::BinOp(c, a, b) => Op::BinOp(*c, Box::new(clone_op(a)), Box::new(clone_op(b))),
        Op::Cmd(name, args) => Op::Cmd(name.clone(), clone_ops_vec(args)),
        Op::Branch(name, body) => Op::Branch(name.clone(), clone_ops_vec(body)),
        Op::Label(name) => Op::Label(name.clone()),
        Op::Memory(w, inner) => Op::Memory(*w, Box::new(clone_op(inner))),
        Op::Register(name) => Op::Register(name.clone()),
        Op::Numeric(v) => Op::Numeric(*v),
        Op::String(s) => Op::String(s.clone()),
        Op::Char(c) => Op::Char(*c),
        Op::StackMarker => Op::StackMarker,
        Op::Empty => Op::Empty,
    }
}

fn clone_ops_vec(v: &Vec<Op>) -> (r: Vec<Op>)
    ensures
        r@.len() == v@.len(),
        ops_view(r@) == ops_view(v@),
    decreases ops_height(v@), 2int, 0int,
{
    let r = clone_ops_slice(v.as_slice(), 0);
    proof {
        assert(v@.subrange(0, v@.len() as int) =~= v@);
    }
    r
}

/// A deep copy of the nodes from `from` on.
fn clone_ops_slice(s: &[Op], from: usize) -> (r: Vec<Op>)
    requires
        from <= s@.len(),
    ensures
        r@.len() == s@.len() - from,
        ops_view(r@) == ops_view(s@.subrange(from as int, s@.len() as int)),
    decreases ops_height(s@), 1int, s@.len() - from,
{
    if from >= s.len() {
        proof {
            assert(ops_view(Seq::<Op>::empty()) =~= Seq::<OpV>::empty());
            assert(s@.subrange(from as int, s@.len() as int) =~= Seq::<Op>::empty());
        }
        return Vec::new();
    }
    proof {
        lemma_ops_height_index(s@, from as int);
    }
    let x = clone_op(&s[from]);
    let mut rest = clone_ops_slice(s, from + 1);
    let ghost r0 = rest@;
    rest.insert(0, x);
    proof {
        let piece = s@.subrange(from as int, s@.len() as int);
        let piece_tail = s@.subrange(from + 1, s@.len() as int);
        assert(piece.subrange(1, piece.len() as int) =~= piece_tail);
        assert(piece[0] == s@[from as int]);
        assert(rest@[0] == x);
        assert(rest@.subrange(1, rest@.len() as int) =~= r0);
        lemma_ops_view(rest@);
        lemma_ops_view(piece);
        lemma_ops_view(r0);
        lemma_ops_view(piece_tail);
        assert forall|i: int| 0 <= i < rest@.len() implies ops_view(rest@)[i] == ops_view(
            piece,
        )[i] by {
            if i > 0 {
                assert(rest@[i] == r0[i - 1]);
                assert(piece[i] == piece_tail[i - 1]);
                assert(op_view(r0[i - 1]) == ops_view(r0)[i - 1]);
            }
        }
        assert(ops_view(rest@) =~= ops_view(piece));
    }
    rest
}

} // verus!

