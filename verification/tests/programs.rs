use arsm::env::Environment;
use arsm::fault::Fault;
use arsm::parser::{check_cmp, cmp_eval, fmt_i32, parse, run_program, to_numeric, CmpOp, Outcome};
use arsm::token::Op;

const FUEL: u64 = 1_000_000;

fn run(program: &str) -> (String, Outcome) {
    let (env, outcome) = run_program(program, &[], FUEL).unwrap();
    (env.out.iter().collect(), outcome)
}

fn run_with_input(program: &str, input: &[u8]) -> (String, Outcome) {
    let (env, outcome) = run_program(program, input, FUEL).unwrap();
    (env.out.iter().collect(), outcome)
}

fn run_fault(program: &str) -> Fault {
    match run_program(program, &[], FUEL) {
        Err(f) => f,
        Ok((_, Outcome::Faulted(f))) => f,
        Ok(_) => panic!("expected a fault"),
    }
}

#[test]
fn scenario_increment_prints_six() {
    let (out, oc) = run("mov ah 5 \n inc ah \n out ah");
    assert_eq!(out, "6");
    assert!(matches!(oc, Outcome::Completed));
}

#[test]
fn scenario_division_prints_three() {
    let (out, _) = run("mov eax 10 \n mov ebx 3 \n div eax ebx \n out eax");
    assert_eq!(out, "3");
}

#[test]
fn scenario_string_scan_prints_two() {
    let (out, _) = run("str \"hi\" 0 \n out db 0 0");
    assert_eq!(out, "2");
}

#[test]
fn scenario_conditional_fires_on_equal_only() {
    let (fired, _) = run("cmp 5 5 \n cin ah \n out ah");
    assert_eq!(fired, "1");
    let (skipped, _) = run("cmp 5 6 \n cin ah \n out ah");
    assert_eq!(skipped, "0");
}

#[test]
fn scenario_halt_stops_with_its_code() {
    let (out, oc) = run("hlt 7 \n out 9");
    assert_eq!(out, "");
    assert!(matches!(oc, Outcome::Halted(7)));
}

#[test]
fn scenario_empty_stack_pop_is_a_fault() {
    assert_eq!(run_fault("pop ah"), Fault::StackUnderflow);
}

#[test]
fn output_before_a_fault_is_kept() {
    let (env, oc) = run_program("out 5 \n ret", &[], FUEL).unwrap();
    assert_eq!(env.out.iter().collect::<String>(), "5");
    assert!(matches!(oc, Outcome::Faulted(Fault::CannotReturn)));
}

#[test]
fn forward_jump_and_return_resume_after_call_site() {
    let (out, oc) = run("jmp :f out 2 hlt 0 .f out 1 ret .");
    assert_eq!(out, "12");
    assert!(matches!(oc, Outcome::Halted(0)));
}

#[test]
fn backward_label_and_mid_branch_resume() {
    let (out, oc) = run("jmp :main .b out 7 ret . .main jmp :b out 9 hlt 0 .");
    assert_eq!(out, "79");
    assert!(matches!(oc, Outcome::Halted(0)));
}

#[test]
fn returning_without_a_call_is_a_fault() {
    assert_eq!(run_fault("ret"), Fault::CannotReturn);
}

#[test]
fn stack_push_pop_through_commands() {
    let (out, _) = run("stk 8 \n psh 4 70000 \n pop eax \n out eax");
    assert_eq!(out, "70000");
}

#[test]
fn mixed_width_stack_program() {
    let (out, _) = run("stk 8 \n psh 1 13 \n psh 2 345 \n pop ax \n pop bh \n out ax out bh");
    assert_eq!(out, "34513");
}

#[test]
fn swap_exchanges_values() {
    let (out, _) = run("mov ax 3 mov bx 9 swp ax bx out ax out bx");
    assert_eq!(out, "93");
}

#[test]
fn input_stream_feeds_in_and_chr() {
    let (out, _) = run_with_input("out in chr in", &[7, 65]);
    assert_eq!(out, "7A");
}

#[test]
fn exhausted_input_yields_zero() {
    let (out, _) = run_with_input("out in", &[]);
    assert_eq!(out, "0");
}

#[test]
fn memory_widths_reinterpret_raw_bytes() {
    // A 32-bit store read back one byte at a time, little-endian.
    let (out, _) = run("mov @[0] 66051 out #[0] out #[1] out #[2] out #[3]");
    // 66051 is 0x00010203.
    assert_eq!(out, "3210");
}

#[test]
fn word_width_memory_sigil() {
    let (out, _) = run("mov $[10] 1000 out $[10]");
    assert_eq!(out, "1000");
}

#[test]
fn register_writes_truncate_to_the_view_width() {
    // A byte view keeps only the low byte of the stored value.
    let (out, _) = run("mov al 300 out al");
    assert_eq!(out, "44");
}

#[test]
fn negative_numbers_print_with_sign() {
    let (out, _) = run("mov ax 0 dec ax out ax");
    assert_eq!(out, "-1");
}

#[test]
fn bitwise_family() {
    let (out, _) = run("mov ax 12 and ax 10 out ax");
    assert_eq!(out, "8");
    let (out2, _) = run("mov ax 12 or ax 3 out ax");
    assert_eq!(out2, "15");
    let (out3, _) = run("mov ax 12 xor ax 10 out ax");
    assert_eq!(out3, "6");
    let (out4, _) = run("mov ax 1 lsh ax 4 out ax");
    assert_eq!(out4, "16");
    let (out5, _) = run("mov ax 16 rsh ax 2 out ax");
    assert_eq!(out5, "4");
    let (out6, _) = run("mov eax 0 not eax out eax");
    assert_eq!(out6, "-1");
}

#[test]
fn comparison_family_sets_the_flag_exactly() {
    for (program, expect) in [
        ("cg 5 3 cin ah out ah", "1"),
        ("cg 3 5 cin ah out ah", "0"),
        ("cge 5 5 cin ah out ah", "1"),
        ("cle 4 5 cin ah out ah", "1"),
        ("cne 4 5 cin ah out ah", "1"),
        ("cne 5 5 cin ah out ah", "0"),
        ("ceq 5 5 cin ah out ah", "1"),
        ("cz 0 cin ah out ah", "1"),
        ("cz 2 cin ah out ah", "0"),
    ] {
        let (out, _) = run(program);
        assert_eq!(out, expect, "program: {}", program);
    }
}

#[test]
fn shadowed_mnemonics_work_through_the_tree() {
    // The lexer reads `cl` and `cch` as register names (they fit the
    // register-name grammar), so those commands are only reachable from a
    // hand-built tree.
    let less = vec![
        Op::Cmd("cl".to_string(), vec![Op::Numeric(3), Op::Numeric(5)]),
        Op::Cmd("cin".to_string(), vec![Op::Register("ah".to_string())]),
        Op::Cmd("out".to_string(), vec![Op::Register("ah".to_string())]),
    ];
    let (env, _) = parse(&less, &[], FUEL);
    assert_eq!(env.out.iter().collect::<String>(), "1");

    let not_less = vec![
        Op::Cmd("cl".to_string(), vec![Op::Numeric(5), Op::Numeric(3)]),
        Op::Cmd("cin".to_string(), vec![Op::Register("ah".to_string())]),
        Op::Cmd("out".to_string(), vec![Op::Register("ah".to_string())]),
    ];
    let (env2, _) = parse(&not_less, &[], FUEL);
    assert_eq!(env2.out.iter().collect::<String>(), "0");

    let cond_chr = vec![
        Op::Cmd("cmp".to_string(), vec![Op::Numeric(1), Op::Numeric(1)]),
        Op::Cmd("cch".to_string(), vec![Op::Numeric(66)]),
    ];
    let (env3, _) = parse(&cond_chr, &[], FUEL);
    assert_eq!(env3.out.iter().collect::<String>(), "B");
}

#[test]
fn cmp_eval_matches_the_mathematical_relation() {
    assert!(cmp_eval(CmpOp::Eq, 5, 5));
    assert!(!cmp_eval(CmpOp::Eq, 5, 6));
    assert!(cmp_eval(CmpOp::Lt, -3, 2));
    assert!(!cmp_eval(CmpOp::Lt, 2, 2));
    assert!(cmp_eval(CmpOp::Le, 2, 2));
    assert!(cmp_eval(CmpOp::Gt, 3, -7));
    assert!(cmp_eval(CmpOp::Ge, 3, 3));
    assert!(cmp_eval(CmpOp::Ne, 0, 1));
}

#[test]
fn division_by_zero_is_a_fault() {
    assert_eq!(run_fault("mov eax 4 div eax ebx"), Fault::DivisionByZero);
}

#[test]
fn overflowing_division_is_a_fault() {
    // The pair abx becomes the smallest 32-bit value, cdx becomes -1.
    assert_eq!(
        run_fault("mov abx 1 lsh abx 31 mov cdx 0 dec cdx div abx cdx"),
        Fault::ArithmeticOverflow
    );
}

#[test]
fn invalid_top_level_op_is_a_fault() {
    assert_eq!(run_fault("5"), Fault::InvalidTopLevel);
}

#[test]
fn string_as_operand_is_a_fault() {
    assert_eq!(run_fault("out \"x\""), Fault::InvalidNumericLiteral);
}

#[test]
fn unresolved_label_is_a_fault() {
    assert_eq!(
        run_fault("jmp :nowhere"),
        Fault::NoMatchingLabel(":nowhere".to_string())
    );
}

#[test]
fn bad_register_identity_is_a_fault() {
    assert_eq!(run_fault("out x"), Fault::BadRegister("x".to_string()));
}

#[test]
fn bad_push_width_is_a_fault() {
    assert_eq!(run_fault("stk 8 psh 3 5"), Fault::BadWidth);
}

#[test]
fn string_command_needs_a_string_literal() {
    assert_eq!(run_fault("str 5 0"), Fault::ExpectedString);
}

#[test]
fn out_of_bounds_memory_access_is_a_fault() {
    assert_eq!(run_fault("out @[2000]"), Fault::OutOfBounds);
}

#[test]
fn stack_overflow_through_commands_is_a_fault() {
    assert_eq!(run_fault("stk 1 psh 2 5"), Fault::StackOverflow);
}

#[test]
fn nested_commands_produce_operand_values() {
    // The input byte is read by the nested command and doubled in place.
    let (out, _) = run_with_input("mov ah in add ah ah out ah", &[21]);
    assert_eq!(out, "42");
}

#[test]
fn empty_program_completes_quietly() {
    let (env, oc) = parse(&[], &[], FUEL);
    assert!(env.out.is_empty());
    assert!(matches!(oc, Outcome::Completed));
}

#[test]
fn fuel_bounds_non_terminating_programs() {
    let (_, oc) = run_program("jmp :spin .spin jmp :spin .", &[], 50).unwrap();
    assert!(matches!(oc, Outcome::OutOfSteps));
}

#[test]
fn to_numeric_resolves_literals_without_touching_state() {
    let mut env = Environment::new(&[]);
    assert_eq!(to_numeric::<i32>(&mut env, &[], &Op::Numeric(42)), Ok(42));
    assert_eq!(to_numeric::<u8>(&mut env, &[], &Op::Char('A')), Ok(65));
}

#[test]
fn check_cmp_writes_the_flag() {
    let mut env = Environment::new(&[]);
    let args = vec![Op::Numeric(5), Op::Numeric(5)];
    check_cmp(&mut env, &[], &args, CmpOp::Eq).unwrap();
    assert!(env.mem.flag_read_cmp());
    let args2 = vec![Op::Numeric(5), Op::Numeric(6)];
    check_cmp(&mut env, &[], &args2, CmpOp::Eq).unwrap();
    assert!(!env.mem.flag_read_cmp());
}

#[test]
fn fmt_i32_prints_decimals() {
    assert_eq!(fmt_i32(0).iter().collect::<String>(), "0");
    assert_eq!(fmt_i32(-450).iter().collect::<String>(), "-450");
    assert_eq!(
        fmt_i32(i32::MIN).iter().collect::<String>(),
        "-2147483648"
    );
}
