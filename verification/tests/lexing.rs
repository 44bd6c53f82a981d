use arsm::ast::construct_tree;
use arsm::fault::Fault;
use arsm::lexer::{lex, try_parse_i32};
use arsm::token::{Node, Op};

#[test]
fn lexer_test_empty() {
    assert!(lex("").unwrap().is_empty());
}

#[test]
fn test_full() {
    assert_eq!(
        lex("mov eh abx 13 @ +").unwrap(),
        vec![
            Node::Keyword("mov".to_string()),
            Node::Register("eh".to_string()),
            Node::Register("abx".to_string()),
            Node::Numeric(13),
            Node::Punctuation('@'),
            Node::Punctuation('+')
        ]
    );
}

#[test]
fn test_strings() {
    assert_eq!(
        lex("\"Hello\" eh + 4").unwrap(),
        vec![
            Node::String("Hello".to_string()),
            Node::Register("eh".to_string()),
            Node::Punctuation('+'),
            Node::Numeric(4)
        ]
    );
}

#[test]
fn lexer_splits_labels_and_terminators() {
    assert_eq!(
        lex(".loop out 1 . :loop").unwrap(),
        vec![
            Node::Branch(".loop".to_string()),
            Node::Keyword("out".to_string()),
            Node::Numeric(1),
            Node::Branch(".".to_string()),
            Node::Branch(":loop".to_string()),
        ]
    );
}

#[test]
fn lexer_char_literals() {
    assert_eq!(
        lex("chr 'A").unwrap(),
        vec![Node::Keyword("chr".to_string()), Node::Char('A')]
    );
}

#[test]
fn lexer_rejects_script_blocks() {
    assert_eq!(lex("{ code }"), Err(Fault::ScriptUnsupported));
}

#[test]
fn lexer_numeric_overflow_splits_token() {
    // 2147483648 does not fit a 32-bit literal, so the scanner emits the
    // longest fitting prefix and restarts on the remaining digit.
    assert_eq!(
        lex("2147483648").unwrap(),
        vec![Node::Numeric(214748364), Node::Numeric(8)]
    );
}

#[test]
fn parse_i32_boundaries() {
    let chars = |s: &str| s.chars().collect::<Vec<char>>();
    assert_eq!(try_parse_i32(&chars("13")), Some(13));
    assert_eq!(try_parse_i32(&chars("007")), Some(7));
    assert_eq!(try_parse_i32(&chars("2147483647")), Some(2147483647));
    assert_eq!(try_parse_i32(&chars("2147483648")), None);
    assert_eq!(try_parse_i32(&chars("-2147483648")), Some(-2147483648));
    assert_eq!(try_parse_i32(&chars("-2147483649")), None);
    assert_eq!(try_parse_i32(&chars("+25")), Some(25));
    assert_eq!(try_parse_i32(&chars("")), None);
    assert_eq!(try_parse_i32(&chars("1x2")), None);
    assert_eq!(try_parse_i32(&chars("-")), None);
}

#[test]
fn tree_builds_commands_with_their_arity() {
    let toks = lex("mov ah 5").unwrap();
    let ops = construct_tree(&toks).unwrap();
    assert_eq!(
        ops,
        vec![Op::Cmd(
            "mov".to_string(),
            vec![Op::Register("ah".to_string()), Op::Numeric(5)]
        )]
    );
}

#[test]
fn tree_builds_memory_operands() {
    let toks = lex("out #[5]").unwrap();
    let ops = construct_tree(&toks).unwrap();
    assert_eq!(
        ops,
        vec![Op::Cmd(
            "out".to_string(),
            vec![Op::Memory('#', Box::new(Op::Numeric(5)))]
        )]
    );
}

#[test]
fn tree_builds_branches_and_labels() {
    let toks = lex("jmp :f .f out 1 .").unwrap();
    let ops = construct_tree(&toks).unwrap();
    assert_eq!(
        ops,
        vec![
            Op::Cmd("jmp".to_string(), vec![Op::Label(":f".to_string())]),
            Op::Branch(
                ".f".to_string(),
                vec![Op::Cmd("out".to_string(), vec![Op::Numeric(1)])]
            ),
        ]
    );
}

#[test]
fn tree_rejects_unknown_commands() {
    let toks = lex("bogus 1").unwrap();
    assert_eq!(
        construct_tree(&toks),
        Err(Fault::UnrecognizedCommand("bogus".to_string()))
    );
}

#[test]
fn tree_rejects_missing_operands() {
    let toks = lex("mov ah").unwrap();
    assert_eq!(
        construct_tree(&toks),
        Err(Fault::WrongOperandCount("mov".to_string()))
    );
}

#[test]
fn tree_rejects_malformed_memory_operands() {
    let toks = lex("out # 5").unwrap();
    assert_eq!(construct_tree(&toks), Err(Fault::MalformedMemoryOperand));
}

#[test]
fn tree_rejects_free_standing_brackets() {
    let toks = lex("out [ 1").unwrap();
    assert_eq!(construct_tree(&toks), Err(Fault::FreePunctuation('[')));
}

#[test]
fn tree_rejects_math_operators() {
    let toks = lex("out + 3").unwrap();
    assert_eq!(construct_tree(&toks), Err(Fault::MathUnsupported));
}

#[test]
fn tree_rejects_unterminated_branches() {
    let toks = lex(".f out 1").unwrap();
    assert_eq!(
        construct_tree(&toks),
        Err(Fault::MissingTerminator(".f".to_string()))
    );
}
