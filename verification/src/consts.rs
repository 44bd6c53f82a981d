//! The fixed tables of the language: buffer layout offsets, the register-name
//! alphabet, and the command table (mnemonic, operand count, flag gating).

use vstd::prelude::*;

verus! {

/// Byte index of the condition-flag byte, right after the ten register bytes.
pub const REGISTRY_OFFSET: usize = 10;

/// First byte of the operand-stack region: registers, the flag byte, and nine
/// reserved bytes come first.
pub const OFFSET: usize = 20;

/// The five register identity letters, in either case.
pub open spec fn is_reg_letter(c: char) -> bool {
    c == 'a' || c == 'b' || c == 'c' || c == 'd' || c == 'e' || c == 'A' || c == 'B' || c == 'C'
        || c == 'D' || c == 'E'
}

/// Byte offset of a register identity inside the register file: two bytes per
/// identity, case-insensitive.
pub open spec fn reg_slot(c: char) -> usize {
    if c == 'a' || c == 'A' {
        0
    } else if c == 'b' || c == 'B' {
        2
    } else if c == 'c' || c == 'C' {
        4
    } else if c == 'd' || c == 'D' {
        6
    } else {
        8
    }
}

pub fn reg_letter(c: char) -> (r: bool)
    ensures
        r == is_reg_letter(c),
{
    c == 'a' || c == 'b' || c == 'c' || c == 'd' || c == 'e' || c == 'A' || c == 'B' || c == 'C'
        || c == 'D' || c == 'E'
}

pub fn reg_slot_of(c: char) -> (r: usize)
    requires
        is_reg_letter(c),
    ensures
        r == reg_slot(c),
{
    if c == 'a' || c == 'A' {
        0
    } else if c == 'b' || c == 'B' {
        2
    } else if c == 'c' || c == 'C' {
        4
    } else if c == 'd' || c == 'D' {
        6
    } else {
        8
    }
}

/// The register-name width suffixes.
pub open spec fn is_reg_ending(c: char) -> bool {
    c == 'x' || c == 'X' || c == 'h' || c == 'H' || c == 'l' || c == 'L'
}

pub fn reg_ending(c: char) -> (r: bool)
    ensures
        r == is_reg_ending(c),
{
    c == 'x' || c == 'X' || c == 'h' || c == 'H' || c == 'l' || c == 'L'
}

/// The punctuation symbols the lexer emits as stand-alone tokens.
pub open spec fn is_punctuation(c: char) -> bool {
    c == '+' || c == '-' || c == '*' || c == '/' || c == '[' || c == ']' || c == '#' || c == '$'
        || c == '@'
}

pub fn punctuation(c: char) -> (r: bool)
    ensures
        r == is_punctuation(c),
{
    c == '+' || c == '-' || c == '*' || c == '/' || c == '[' || c == ']' || c == '#' || c == '$'
        || c == '@'
}

/// One variant per command mnemonic. The `C`-prefixed variants are the
/// flag-gated duplicates of their plain counterparts.
#[derive(Debug, PartialEq, Eq, Structural, Clone, Copy)]
pub enum CmdKind {
    Mov,
    Cmo,
    Inc,
    Cin,
    Dec,
    Cde,
    Out,
    Cou,
    Jmp,
    Cjm,
    Mul,
    Cmu,
    Div,
    Cdi,
    Add,
    Cad,
    Sub,
    Csu,
    Str,
    Db,
    In,
    Chr,
    Cch,
    Hlt,
    Chl,
    Ret,
    Cre,
    Cmp,
    Stk,
    Psh,
    Cps,
    Pop,
    Cpo,
    Ceq,
    Cg,
    Cge,
    Cl,
    Cle,
    Cne,
    Cz,
    Rsh,
    Crs,
    Lsh,
    Cls,
    Or,
    Cor,
    Xor,
    Cxo,
    And,
    Can,
    Not,
    Cno,
    Swp,
    Csw,
}

/// The fixed operand count of each command.
pub open spec fn spec_arity(k: CmdKind) -> nat {
    match k {
        CmdKind::In | CmdKind::Ret | CmdKind::Cre => 0,
        CmdKind::Inc | CmdKind::Cin | CmdKind::Dec | CmdKind::Cde | CmdKind::Out | CmdKind::Cou
            | CmdKind::Jmp | CmdKind::Cjm | CmdKind::Chr | CmdKind::Cch | CmdKind::Hlt
            | CmdKind::Chl | CmdKind::Stk | CmdKind::Pop | CmdKind::Cpo | CmdKind::Cz
            | CmdKind::Not | CmdKind::Cno => 1,
        _ => 2,
    }
}

pub fn arity(k: CmdKind) -> (r: usize)
    ensures
        r == spec_arity(k),
{
    match k {
        CmdKind::In | CmdKind::Ret | CmdKind::Cre => 0,
        CmdKind::Inc | CmdKind::Cin | CmdKind::Dec | CmdKind::Cde | CmdKind::Out | CmdKind::Cou
            | CmdKind::Jmp | CmdKind::Cjm | CmdKind::Chr | CmdKind::Cch | CmdKind::Hlt
            | CmdKind::Chl | CmdKind::Stk | CmdKind::Pop | CmdKind::Cpo | CmdKind::Cz
            | CmdKind::Not | CmdKind::Cno => 1,
        _ => 2,
    }
}

/// Whether a command only runs when the condition flag is set.
pub open spec fn spec_conditional(k: CmdKind) -> bool {
    match k {
        CmdKind::Cmo | CmdKind::Cin | CmdKind::Cde | CmdKind::Cou | CmdKind::Cjm | CmdKind::Cmu
            | CmdKind::Cdi | CmdKind::Cad | CmdKind::Csu | CmdKind::Cch | CmdKind::Chl
            | CmdKind::Cre | CmdKind::Cps | CmdKind::Cpo | CmdKind::Crs | CmdKind::Cls
            | CmdKind::Cor | CmdKind::Cxo | CmdKind::Can | CmdKind::Cno | CmdKind::Csw => true,
        _ => false,
    }
}

pub fn conditional(k: CmdKind) -> (r: bool)
    ensures
        r == spec_conditional(k),
{
    match k {
        CmdKind::Cmo | CmdKind::Cin | CmdKind::Cde | CmdKind::Cou | CmdKind::Cjm | CmdKind::Cmu
            | CmdKind::Cdi | CmdKind::Cad | CmdKind::Csu | CmdKind::Cch | CmdKind::Chl
            | CmdKind::Cre | CmdKind::Cps | CmdKind::Cpo | CmdKind::Crs | CmdKind::Cls
            | CmdKind::Cor | CmdKind::Cxo | CmdKind::Can | CmdKind::Cno | CmdKind::Csw => true,
        _ => false,
    }
}

/// The command a mnemonic names, if any.
pub open spec fn spec_cmd_kind(s: Seq<char>) -> Option<CmdKind> {
    if s.len() == 2 {
        if s[0] == 'd' && s[1] == 'b' {
            Some(CmdKind::Db)
        } else if s[0] == 'i' && s[1] == 'n' {
            Some(CmdKind::In)
        } else if s[0] == 'c' && s[1] == 'g' {
            Some(CmdKind::Cg)
        } else if s[0] == 'c' && s[1] == 'l' {
            Some(CmdKind::Cl)
        } else if s[0] == 'c' && s[1] == 'z' {
            Some(CmdKind::Cz)
        } else if s[0] == 'o' && s[1] == 'r' {
            Some(CmdKind::Or)
        } else {
            None
        }
    } else if s.len() == 3 {
        spec_cmd_kind3(s[0], s[1], s[2])
    } else {
        None
    }
}

pub open spec fn spec_cmd_kind3(a: char, b: char, c: char) -> Option<CmdKind> {
    match (a, b, c) {
        ('m', 'o', 'v') => Some(CmdKind::Mov),
        ('c', 'm', 'o') => Some(CmdKind::Cmo),
        ('i', 'n', 'c') => Some(CmdKind::Inc),
        ('c', 'i', 'n') => Some(CmdKind::Cin),
        ('d', 'e', 'c') => Some(CmdKind::Dec),
        ('c', 'd', 'e') => Some(CmdKind::Cde),
        ('o', 'u', 't') => Some(CmdKind::Out),
        ('c', 'o', 'u') => Some(CmdKind::Cou),
        ('j', 'm', 'p') => Some(CmdKind::Jmp),
        ('c', 'j', 'm') => Some(CmdKind::Cjm),
        ('m', 'u', 'l') => Some(CmdKind::Mul),
        ('c', 'm', 'u') => Some(CmdKind::Cmu),
        ('d', 'i', 'v') => Some(CmdKind::Div),
        ('c', 'd', 'i') => Some(CmdKind::Cdi),
        ('a', 'd', 'd') => Some(CmdKind::Add),
        ('c', 'a', 'd') => Some(CmdKind::Cad),
        ('s', 'u', 'b') => Some(CmdKind::Sub),
        ('c', 's', 'u') => Some(CmdKind::Csu),
        ('s', 't', 'r') => Some(CmdKind::Str),
        ('c', 'h', 'r') => Some(CmdKind::Chr),
        ('c', 'c', 'h') => Some(CmdKind::Cch),
        ('h', 'l', 't') => Some(CmdKind::Hlt),
        ('c', 'h', 'l') => Some(CmdKind::Chl),
        ('r', 'e', 't') => Some(CmdKind::Ret),
        ('c', 'r', 'e') => Some(CmdKind::Cre),
        ('c', 'm', 'p') => Some(CmdKind::Cmp),
        ('s', 't', 'k') => Some(CmdKind::Stk),
        ('p', 's', 'h') => Some(CmdKind::Psh),
        ('c', 'p', 's') => Some(CmdKind::Cps),
        ('p', 'o', 'p') => Some(CmdKind::Pop),
        ('c', 'p', 'o') => Some(CmdKind::Cpo),
        ('c', 'e', 'q') => Some(CmdKind::Ceq),
        ('c', 'g', 'e') => Some(CmdKind::Cge),
        ('c', 'l', 'e') => Some(CmdKind::Cle),
        ('c', 'n', 'e') => Some(CmdKind::Cne),
        ('r', 's', 'h') => Some(CmdKind::Rsh),
        ('c', 'r', 's') => Some(CmdKind::Crs),
        ('l', 's', 'h') => Some(CmdKind::Lsh),
        ('c', 'l', 's') => Some(CmdKind::Cls),
        ('c', 'o', 'r') => Some(CmdKind::Cor),
        ('x', 'o', 'r') => Some(CmdKind::Xor),
        ('c', 'x', 'o') => Some(CmdKind::Cxo),
        ('a', 'n', 'd') => Some(CmdKind::And),
        ('c', 'a', 'n') => Some(CmdKind::Can),
        ('n', 'o', 't') => Some(CmdKind::Not),
        ('c', 'n', 'o') => Some(CmdKind::Cno),
        ('s', 'w', 'p') => Some(CmdKind::Swp),
        ('c', 's', 'w') => Some(CmdKind::Csw),
        _ => None,
    }
}

/// Exec twin of `spec_cmd_kind`, over the characters of a mnemonic.
pub fn cmd_kind_of_chars(s: &Vec<char>) -> (r: Option<CmdKind>)
    ensures
        r == spec_cmd_kind(s@),
{
    if s.len() == 2 {
        let a = s[0];
        let b = s[1];
        if a == 'd' && b == 'b' {
            Some(CmdKind::Db)
        } else if a == 'i' && b == 'n' {
            Some(CmdKind::In)
        } else if a == 'c' && b == 'g' {
            Some(CmdKind::Cg)
        } else if a == 'c' && b == 'l' {
            Some(CmdKind::Cl)
        } else if a == 'c' && b == 'z' {
            Some(CmdKind::Cz)
        } else if a == 'o' && b == 'r' {
            Some(CmdKind::Or)
        } else {
            None
        }
    } else if s.len() == 3 {
        let a = s[0];
        let b = s[1];
        let c = s[2];
        match (a, b, c) {
            ('m', 'o', 'v') => Some(CmdKind::Mov),
            ('c', 'm', 'o') => Some(CmdKind::Cmo),
            ('i', 'n', 'c') => Some(CmdKind::Inc),
            ('c', 'i', 'n') => Some(CmdKind::Cin),
            ('d', 'e', 'c') => Some(CmdKind::Dec),
            ('c', 'd', 'e') => Some(CmdKind::Cde),
            ('o', 'u', 't') => Some(CmdKind::Out),
            ('c', 'o', 'u') => Some(CmdKind::Cou),
            ('j', 'm', 'p') => Some(CmdKind::Jmp),
            ('c', 'j', 'm') => Some(CmdKind::Cjm),
            ('m', 'u', 'l') => Some(CmdKind::Mul),
            ('c', 'm', 'u') => Some(CmdKind::Cmu),
            ('d', 'i', 'v') => Some(CmdKind::Div),
            ('c', 'd', 'i') => Some(CmdKind::Cdi),
            ('a', 'd', 'd') => Some(CmdKind::Add),
            ('c', 'a', 'd') => Some(CmdKind::Cad),
            ('s', 'u', 'b') => Some(CmdKind::Sub),
            ('c', 's', 'u') => Some(CmdKind::Csu),
            ('s', 't', 'r') => Some(CmdKind::Str),
            ('c', 'h', 'r') => Some(CmdKind::Chr),
            ('c', 'c', 'h') => Some(CmdKind::Cch),
            ('h', 'l', 't') => Some(CmdKind::Hlt),
            ('c', 'h', 'l') => Some(CmdKind::Chl),
            ('r', 'e', 't') => Some(CmdKind::Ret),
            ('c', 'r', 'e') => Some(CmdKind::Cre),
            ('c', 'm', 'p') => Some(CmdKind::Cmp),
            ('s', 't', 'k') => Some(CmdKind::Stk),
            ('p', 's', 'h') => Some(CmdKind::Psh),
            ('c', 'p', 's') => Some(CmdKind::Cps),
            ('p', 'o', 'p') => Some(CmdKind::Pop),
            ('c', 'p', 'o') => Some(CmdKind::Cpo),
            ('c', 'e', 'q') => Some(CmdKind::Ceq),
            ('c', 'g', 'e') => Some(CmdKind::Cge),
            ('c', 'l', 'e') => Some(CmdKind::Cle),
            ('c', 'n', 'e') => Some(CmdKind::Cne),
            ('r', 's', 'h') => Some(CmdKind::Rsh),
            ('c', 'r', 's') => Some(CmdKind::Crs),
            ('l', 's', 'h') => Some(CmdKind::Lsh),
            ('c', 'l', 's') => Some(CmdKind::Cls),
            ('c', 'o', 'r') => Some(CmdKind::Cor),
            ('x', 'o', 'r') => Some(CmdKind::Xor),
            ('c', 'x', 'o') => Some(CmdKind::Cxo),
            ('a', 'n', 'd') => Some(CmdKind::And),
            ('c', 'a', 'n') => Some(CmdKind::Can),
            ('n', 'o', 't') => Some(CmdKind::Not),
            ('c', 'n', 'o') => Some(CmdKind::Cno),
            ('s', 'w', 'p') => Some(CmdKind::Swp),
            ('c', 's', 'w') => Some(CmdKind::Csw),
            _ => None,
        }
    } else {
        None
    }
}

} // verus!
