//! The lexer: one left-to-right scan over the source text with a small
//! pending buffer, specified exactly by the step function `lex_step` folded
//! over the characters (the source is given a trailing newline so the final
//! token flushes).

use vstd::prelude::*;
use vstd::string::StrSliceExecFns;

use crate::consts::{is_punctuation, is_reg_ending, is_reg_letter, punctuation, reg_ending,
    reg_letter};
use crate::fault::Fault;
use crate::token::{nodes_view, Node, NodeV};

verus! {

/// What `char::is_whitespace` returns: a function of the character alone.
pub uninterp spec fn char_is_whitespace(c: char) -> bool;

/// Relies on `char::is_whitespace`: Unicode whitespace classification, a
/// function of the character alone. The extra clauses pin the cases its
/// documentation names directly: space, tab and the line breaks are
/// whitespace; letters, digits and this language's punctuation are not.
#[verifier::external_body]
fn is_whitespace_char(c: char) -> (r: bool)
    ensures
        r == char_is_whitespace(c),
        (c == ' ' || c == '\t' || c == '\n' || c == '\r') ==> r,
        (is_ascii_alpha(c) || is_digit_char(c) || is_punctuation(c)) ==> !r,
        (c == ':' || c == '.' || c == '"' || c == '\'' || c == '{') ==> !r,
{
    c.is_whitespace()
}

/// What `char::is_alphabetic` returns: a function of the character alone.
pub uninterp spec fn char_is_alphabetic(c: char) -> bool;

/// Relies on `char::is_alphabetic`: Unicode alphabetic classification, a
/// function of the character alone. The extra clauses pin the cases its
/// documentation names directly: ASCII letters are alphabetic; digits,
/// whitespace and this language's punctuation are not.
#[verifier::external_body]
fn is_alphabetic_char(c: char) -> (r: bool)
    ensures
        r == char_is_alphabetic(c),
        is_ascii_alpha(c) ==> r,
        (is_digit_char(c) || is_punctuation(c)) ==> !r,
        (c == ':' || c == '.' || c == '"' || c == '\'' || c == '{' || c == ' ' || c == '\t'
            || c == '\n' || c == '\r') ==> !r,
{
    c.is_alphabetic()
}

/// Relies on String's FromIterator over characters: collecting an iterator of
/// characters yields the string of exactly those characters.
#[verifier::external_body]
fn chars_to_string(v: &Vec<char>) -> (r: String)
    ensures
        r@ == v@,
{
    v.iter().collect()
}

/// The characters of a string, in order.
pub fn str_chars(s: &str) -> (r: Vec<char>)
    ensures
        r@ == s@,
{
    let n = s.unicode_len();
    let mut v: Vec<char> = Vec::new();
    let mut i: usize = 0;
    while i < n
        invariant
            i <= n,
            n == s@.len(),
            v@ == s@.take(i as int),
        decreases n - i,
    {
        v.push(s.get_char(i));
        i = i + 1;
        assert(v@ =~= s@.take(i as int));
    }
    proof {
        assert(s@.take(n as int) =~= s@);
    }
    v
}

/// ASCII alphabetic characters.
pub open spec fn is_ascii_alpha(c: char) -> bool {
    (97 <= c as u32 && c as u32 <= 122) || (65 <= c as u32 && c as u32 <= 90)
}

fn ascii_alpha(c: char) -> (r: bool)
    ensures
        r == is_ascii_alpha(c),
{
    let u = c as u32;
    (97 <= u && u <= 122) || (65 <= u && u <= 90)
}

/// ASCII decimal digits.
pub open spec fn is_digit_char(c: char) -> bool {
    48 <= c as u32 && c as u32 <= 57
}

pub open spec fn digit_val(c: char) -> int {
    c as u32 - 48
}

pub open spec fn all_digits(s: Seq<char>) -> bool {
    forall|i: int| 0 <= i < s.len() ==> is_digit_char(#[trigger] s[i])
}

/// The value of a digit string, most significant digit first.
pub open spec fn digits_val(s: Seq<char>) -> int
    decreases s.len(),
{
    if s.len() == 0 {
        0
    } else {
        10 * digits_val(s.drop_last()) + digit_val(s.last())
    }
}

pub proof fn lemma_digits_val_nonneg(s: Seq<char>)
    requires
        all_digits(s),
    ensures
        digits_val(s) >= 0,
    decreases s.len(),
{
    if s.len() > 0 {
        assert(all_digits(s.drop_last()));
        lemma_digits_val_nonneg(s.drop_last());
    }
}

/// Exactly the strings `i32::from_str` accepts: an optional sign, then one or
/// more digits, with the value in 32-bit signed range.
pub open spec fn is_i32_str(s: Seq<char>) -> bool {
    if s.len() == 0 {
        false
    } else if s[0] == '+' || s[0] == '-' {
        let d = s.subrange(1, s.len() as int);
        d.len() > 0 && all_digits(d) && (if s[0] == '-' {
            digits_val(d) <= 0x8000_0000
        } else {
            digits_val(d) <= 0x7fff_ffff
        })
    } else {
        all_digits(s) && digits_val(s) <= 0x7fff_ffff
    }
}

/// The value such a string denotes.
pub open spec fn parse_i32_val(s: Seq<char>) -> int {
    if s.len() > 0 && s[0] == '-' {
        -digits_val(s.subrange(1, s.len() as int))
    } else if s.len() > 0 && s[0] == '+' {
        digits_val(s.subrange(1, s.len() as int))
    } else {
        digits_val(s)
    }
}

/// Parse a 32-bit signed decimal literal; `None` exactly when `i32::from_str`
/// would refuse it.
pub fn try_parse_i32(v: &Vec<char>) -> (r: Option<i32>)
    ensures
        r is Some <==> is_i32_str(v@),
        r matches Some(x) ==> x == parse_i32_val(v@),
{
    let n = v.len();
    if n == 0 {
        return None;
    }
    let sign: char = v[0];
    let start: usize = if sign == '+' || sign == '-' {
        1
    } else {
        0
    };
    if n == start {
        return None;
    }
    let ghost digits = v@.subrange(start as int, n as int);
    let mut i: usize = start;
    let mut acc: u64 = 0;
    while i < n
        invariant
            start <= i <= n,
            n == v@.len(),
            start < n,
            start == 0 || start == 1,
            (start == 1) <==> (v@[0] == '+' || v@[0] == '-'),
            digits == v@.subrange(start as int, n as int),
            all_digits(v@.subrange(start as int, i as int)),
            ({
                let p = v@.subrange(start as int, i as int);
                if digits_val(p) <= 0x8000_0000 {
                    acc == digits_val(p)
                } else {
                    acc > 0x8000_0000
                }
            }),
            acc <= 0x5_0000_0009,
        decreases n - i,
    {
        let c = v[i];
        let u = c as u32;
        if !(48 <= u && u <= 57) {
            proof {
                assert(digits[i - start] == v@[i as int]);
                assert(!is_digit_char(digits[i - start]));
                if start == 0 {
                    assert(v@.subrange(0, n as int) =~= v@);
                }
            }
            return None;
        }
        let d: u64 = (u - 48) as u64;
        let ghost p = v@.subrange(start as int, i as int);
        let ghost p2 = v@.subrange(start as int, i + 1);
        proof {
            assert(p2.drop_last() =~= p);
            assert(p2.last() == v@[i as int]);
            lemma_digits_val_nonneg(p);
            assert(all_digits(p2));
        }
        if acc <= 0x8000_0000 {
            acc = acc * 10 + d;
        }
        i = i + 1;
    }
    proof {
        assert(v@.subrange(start as int, n as int) =~= digits);
        lemma_digits_val_nonneg(digits);
        if start == 0 {
            assert(v@.subrange(0, n as int) =~= v@);
        }
    }
    if start == 1 && sign == '-' {
        if acc <= 0x8000_0000 {
            Some((-(acc as i64)) as i32)
        } else {
            None
        }
    } else {
        if acc <= 0x7fff_ffff {
            Some(acc as i32)
        } else {
            None
        }
    }
}

/// The lexer's pending state: scanning normally with a candidate buffer, or
/// inside a string literal collecting its content.
pub enum LexStV {
    Normal(Seq<char>),
    InStr(Seq<char>),
}

/// What the buffer restarts with after a token is emitted: the terminating
/// character, unless it is whitespace.
pub open spec fn lex_flush(c: char) -> Seq<char> {
    if char_is_whitespace(c) {
        Seq::empty()
    } else {
        seq![c]
    }
}

/// The register-name grammar: a width suffix at the end, identity letters
/// before it.
pub open spec fn is_register_name(s: Seq<char>) -> bool {
    s.len() >= 1 && is_reg_ending(s.last()) && (forall|i: int|
        0 <= i < s.len() - 1 ==> is_reg_letter(#[trigger] s[i]))
}

/// One step of the scanner: the pending state and the next character give the
/// next state and the tokens emitted. `None` is the one fatal lexing case
/// (an inline-script block without the feature).
pub open spec fn lex_step(st: LexStV, c: char) -> Option<(LexStV, Seq<NodeV>)> {
    match st {
        LexStV::InStr(acc) => if c == '"' {
            Some((LexStV::Normal(Seq::empty()), seq![NodeV::StrLit(acc)]))
        } else {
            Some((LexStV::InStr(acc.push(c)), Seq::empty()))
        },
        LexStV::Normal(buf) => if is_i32_str(buf) {
            if is_i32_str(buf.push(c)) {
                Some((LexStV::Normal(buf.push(c)), Seq::empty()))
            } else {
                Some(
                    (
                        LexStV::Normal(lex_flush(c)),
                        seq![NodeV::Numeric(parse_i32_val(buf) as i32)],
                    ),
                )
            }
        } else if buf.len() > 0 && (buf[0] == ':' || buf[0] == '.') {
            if char_is_whitespace(c) || !char_is_alphabetic(c) {
                Some((LexStV::Normal(lex_flush(c)), seq![NodeV::Branch(buf)]))
            } else {
                Some((LexStV::Normal(buf.push(c)), Seq::empty()))
            }
        } else if buf.len() == 1 && is_punctuation(buf[0]) {
            Some((LexStV::Normal(lex_flush(c)), seq![NodeV::Punctuation(buf[0])]))
        } else if buf.len() == 1 && buf[0] == '"' {
            Some((LexStV::InStr(seq![c]), Seq::empty()))
        } else if buf.len() == 1 && buf[0] == '{' {
            None
        } else if buf.len() > 0 && buf[0] == '\'' {
            Some((LexStV::Normal(Seq::empty()), seq![NodeV::CharLit(c)]))
        } else if !is_ascii_alpha(c) {
            let em: Seq<NodeV> = if is_register_name(buf) {
                seq![NodeV::Register(buf)]
            } else if buf.len() > 0 {
                seq![NodeV::Keyword(buf)]
            } else {
                Seq::empty()
            };
            Some((LexStV::Normal(lex_flush(c)), em))
        } else {
            Some((LexStV::Normal(buf.push(c)), Seq::empty()))
        },
    }
}

/// What the scanner emits at the end of input: an unterminated string literal
/// still yields its token; a pending normal buffer is dropped.
pub open spec fn lex_finish(st: LexStV) -> Seq<NodeV> {
    match st {
        LexStV::InStr(acc) => seq![NodeV::StrLit(acc)],
        LexStV::Normal(_) => Seq::empty(),
    }
}

/// Folding the step function over the input from position `i`.
pub open spec fn lex_run(s: Seq<char>, i: int, st: LexStV) -> Option<Seq<NodeV>>
    decreases s.len() - i,
{
    if i < 0 || i >= s.len() {
        Some(lex_finish(st))
    } else {
        match lex_step(st, s[i]) {
            None => None,
            Some((st2, em)) => match lex_run(s, i + 1, st2) {
                None => None,
                Some(rest) => Some(em + rest),
            },
        }
    }
}

/// The tokens of a source text: the step function folded over the text with a
/// trailing newline, starting with an empty buffer.
pub open spec fn spec_lex(s: Seq<char>) -> Option<Seq<NodeV>> {
    lex_run(s + seq!['\n'], 0, LexStV::Normal(Seq::empty()))
}

/// Exec mirror of the pending state.
struct LexState {
    in_str: bool,
    buf: Vec<char>,
}

impl LexState {
    spec fn view(&self) -> LexStV {
        if self.in_str {
            LexStV::InStr(self.buf@)
        } else {
            LexStV::Normal(self.buf@)
        }
    }
}

/// Restart the buffer with `c`, unless `c` is whitespace.
fn flush(buf: &mut Vec<char>, chr: char)
    ensures
        final(buf)@ == lex_flush(chr),
{
    buf.clear();
    if !is_whitespace_char(chr) {
        buf.push(chr);
    }
    proof {
        if !char_is_whitespace(chr) {
            assert(final(buf)@ =~= seq![chr]);
        } else {
            assert(final(buf)@ =~= Seq::<char>::empty());
        }
    }
}

/// Whether the buffer matches the register-name grammar.
fn register_chars(buf: &Vec<char>) -> (r: bool)
    ensures
        r == is_register_name(buf@),
{
    let n = buf.len();
    if n == 0 {
        return false;
    }
    if !reg_ending(buf[n - 1]) {
        return false;
    }
    let mut i: usize = 0;
    while i < n - 1
        invariant
            n == buf@.len(),
            n >= 1,
            i <= n - 1,
            forall|j: int| 0 <= j < i ==> is_reg_letter(#[trigger] buf@[j]),
        decreases n - 1 - i,
    {
        if !reg_letter(buf[i]) {
            return false;
        }
        i = i + 1;
    }
    true
}

/// One exec step of the scanner; at most one token is emitted per step.
fn lex_step_exec(st: &mut LexState, c: char) -> (r: Result<Option<Node>, Fault>)
    ensures
        match lex_step(old(st)@, c) {
            None => r is Err,
            Some((st2, em)) => {
                &&& r matches Ok(o)
                &&& final(st)@ == st2
                &&& (match o {
                    Some(nd) => em == seq![nd@],
                    None => em == Seq::<NodeV>::empty(),
                })
            },
        },
        r is Err ==> lex_step(old(st)@, c) is None,
{
    if st.in_str {
        if c == '"' {
            let text = chars_to_string(&st.buf);
            st.buf.clear();
            st.in_str = false;
            return Ok(Some(Node::String(text)));
        } else {
            st.buf.push(c);
            return Ok(None);
        }
    }
    let parsed = try_parse_i32(&st.buf);
    if let Some(val) = parsed {
        st.buf.push(c);
        let still = try_parse_i32(&st.buf);
        if still.is_none() {
            st.buf.pop();
            assert(st.buf@ =~= old(st).buf@);
            flush(&mut st.buf, c);
            return Ok(Some(Node::Numeric(val)));
        }
        return Ok(None);
    }
    if st.buf.len() > 0 && (st.buf[0] == ':' || st.buf[0] == '.') {
        if is_whitespace_char(c) || !is_alphabetic_char(c) {
            let text = chars_to_string(&st.buf);
            flush(&mut st.buf, c);
            Ok(Some(Node::Branch(text)))
        } else {
            st.buf.push(c);
            Ok(None)
        }
    } else if st.buf.len() == 1 && punctuation(st.buf[0]) {
        let p = st.buf[0];
        flush(&mut st.buf, c);
        Ok(Some(Node::Punctuation(p)))
    } else if st.buf.len() == 1 && st.buf[0] == '"' {
        st.buf.clear();
        st.buf.push(c);
        st.in_str = true;
        assert(st.buf@ =~= seq![c]);
        Ok(None)
    } else if st.buf.len() == 1 && st.buf[0] == '{' {
        Err(Fault::ScriptUnsupported)
    } else if st.buf.len() > 0 && st.buf[0] == '\'' {
        st.buf.clear();
        assert(st.buf@ =~= Seq::<char>::empty());
        Ok(Some(Node::Char(c)))
    } else if !ascii_alpha(c) {
        let is_reg = register_chars(&st.buf);
        let nonempty = st.buf.len() > 0;
        let r: Option<Node> = if is_reg {
            Some(Node::Register(chars_to_string(&st.buf)))
        } else if nonempty {
            Some(Node::Keyword(chars_to_string(&st.buf)))
        } else {
            None
        };
        flush(&mut st.buf, c);
        Ok(r)
    } else {
        st.buf.push(c);
        Ok(None)
    }
}

/// Prepending already-emitted tokens to a pending result.
pub open spec fn opt_prepend(pre: Seq<NodeV>, o: Option<Seq<NodeV>>) -> Option<Seq<NodeV>> {
    match o {
        None => None,
        Some(rest) => Some(pre + rest),
    }
}

/// Lex a whole source text into tokens.
pub fn lex(program: &str) -> (r: Result<Vec<Node>, Fault>)
    ensures
        match spec_lex(program@) {
            Some(toks) => r matches Ok(v) && nodes_view(v@) == toks,
            None => r == Err::<Vec<Node>, Fault>(Fault::ScriptUnsupported),
        },
{
    let mut chars = str_chars(program);
    chars.push('\n');
    let ghost full = program@ + seq!['\n'];
    proof {
        assert(chars@ =~= full);
    }
    let n = chars.len();
    let mut out: Vec<Node> = Vec::new();
    let mut st = LexState { in_str: false, buf: Vec::new() };
    let mut i: usize = 0;
    proof {
        assert(nodes_view(out@) =~= Seq::<NodeV>::empty());
        assert(Seq::<NodeV>::empty() + lex_run(full, 0, st@).unwrap() =~= lex_run(
            full,
            0,
            st@,
        ).unwrap());
        assert(st@ == LexStV::Normal(Seq::<char>::empty()));
    }
    while i < n
        invariant
            i <= n,
            n == full.len(),
            chars@ == full,
            full == program@ + seq!['\n'],
            opt_prepend(nodes_view(out@), lex_run(full, i as int, st@)) == lex_run(
                full,
                0,
                LexStV::Normal(Seq::empty()),
            ),
        decreases n - i,
    {
        let ghost st0 = st@;
        let ghost out0 = out@;
        let c = chars[i];
        let res = lex_step_exec(&mut st, c);
        match res {
            Err(_) => {
                proof {
                    assert(lex_run(full, i as int, st0) is None);
                }
                return Err(Fault::ScriptUnsupported);
            }
            Ok(emitted) => {
                let ghost em = lex_step(st0, full[i as int]).unwrap().1;
                if let Some(nd) = emitted {
                    out.push(nd);
                }
                proof {
                    assert(nodes_view(out@) =~= nodes_view(out0) + em);
                }
                i = i + 1;
                proof {
                    match lex_run(full, i as int, st@) {
                        None => {
                            assert(lex_run(full, i - 1, st0) is None);
                        }
                        Some(rest) => {
                            assert(lex_run(full, i - 1, st0) == Some(em + rest));
                            assert(nodes_view(out0) + (em + rest) =~= (nodes_view(out0) + em)
                                + rest);
                        }
                    }
                }
            }
        }
    }
    if st.in_str {
        let text = chars_to_string(&st.buf);
        out.push(Node::String(text));
        proof {
            let prev = out@.subrange(0, out@.len() - 1);
            assert(nodes_view(out@) =~= nodes_view(prev) + lex_finish(st@));
        }
    } else {
        proof {
            assert(nodes_view(out@) + lex_finish(st@) =~= nodes_view(out@));
        }
    }
    Ok(out)
}

} // verus!
