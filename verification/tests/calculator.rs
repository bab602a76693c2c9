//! Tests for the command parser and the evaluator, driving the calculator
//! with IEEE 754 double-precision arithmetic.

use exercises::calc::context::{CommandStep, Context, EvalStep};
use exercises::calc::parser::parse_command;
use exercises::calc::syntax::{BinOp, Command, EvalError, Expression};

fn bin(op: BinOp, lhs: Expression, rhs: Expression) -> Expression {
    Expression::BinOp {
        op,
        lhs: Box::new(lhs),
        rhs: Box::new(rhs),
    }
}

/// Evaluates one line on the context, computing literals and operator
/// applications in `f64` and feeding the words back until the command is
/// done or fails.
fn run_line(ctx: &mut Context, line: &str) -> Result<(String, f64), EvalError> {
    let cmd: Command = parse_command(line).expect("the line should parse");
    let mut answers: Vec<u64> = Vec::new();
    loop {
        match ctx.calc_command(&cmd, &answers) {
            CommandStep::Done(key, w) => return Ok((key, f64::from_bits(w))),
            CommandStep::NeedNum(n) => answers.push((n as f64).to_bits()),
            CommandStep::NeedOp(op, a, b) => {
                let x = f64::from_bits(a);
                let y = f64::from_bits(b);
                let v = match op {
                    BinOp::Add => x + y,
                    BinOp::Subtract => x - y,
                    BinOp::Multiply => x * y,
                    BinOp::Divide => x / y,
                    BinOp::Power => x.powf(y),
                };
                answers.push(v.to_bits());
            }
            CommandStep::Fail(e) => return Err(e),
        }
    }
}

#[test]
fn parse_addition_is_left_associative() {
    let cmd = parse_command("1+2+3").unwrap();
    assert_eq!(cmd.variable, None);
    let expected = bin(
        BinOp::Add,
        bin(BinOp::Add, Expression::Num(1), Expression::Num(2)),
        Expression::Num(3),
    );
    assert_eq!(cmd.expression, expected);
}

#[test]
fn parse_power_is_right_associative() {
    let cmd = parse_command("2^3^2").unwrap();
    let expected = bin(
        BinOp::Power,
        Expression::Num(2),
        bin(BinOp::Power, Expression::Num(3), Expression::Num(2)),
    );
    assert_eq!(cmd.expression, expected);
}

#[test]
fn parse_precedence_and_parentheses() {
    let cmd = parse_command("1+2*3").unwrap();
    let expected = bin(
        BinOp::Add,
        Expression::Num(1),
        bin(BinOp::Multiply, Expression::Num(2), Expression::Num(3)),
    );
    assert_eq!(cmd.expression, expected);

    let cmd = parse_command("(1+2)*3").unwrap();
    let expected = bin(
        BinOp::Multiply,
        bin(BinOp::Add, Expression::Num(1), Expression::Num(2)),
        Expression::Num(3),
    );
    assert_eq!(cmd.expression, expected);
}

#[test]
fn parse_assignment_prefix() {
    let cmd = parse_command("v = 3 - 2").unwrap();
    assert_eq!(cmd.variable, Some(String::from("v")));
    let expected = bin(BinOp::Subtract, Expression::Num(3), Expression::Num(2));
    assert_eq!(cmd.expression, expected);
}

#[test]
fn parse_is_deterministic_and_idempotent() {
    let first = parse_command("x = (1+2)*3^4").unwrap();
    let second = parse_command("x = (1+2)*3^4").unwrap();
    assert_eq!(first, second);
}

#[test]
fn parse_rejects_bad_lines() {
    assert!(parse_command("").is_err());
    assert!(parse_command("1+").is_err());
    assert!(parse_command("(1+2").is_err());
    assert!(parse_command("1+2)").is_err());
    assert!(parse_command("3=1").is_err());
    assert!(parse_command("x = ").is_err());
    assert!(parse_command("1 2").is_err());
    assert!(parse_command("$x").is_err());
    // Too large for a 64-bit literal.
    assert!(parse_command("99999999999999999999999").is_err());
}

#[test]
fn evaluates_with_precedence() {
    let mut ctx = Context::new();
    let (key, value) = run_line(&mut ctx, "1+2+3").unwrap();
    assert_eq!(key, "$0");
    assert_eq!(value, 6.0);
    let (_, value) = run_line(&mut ctx, "2^3^2").unwrap();
    assert_eq!(value, 512.0);
}

#[test]
fn division_by_zero_fails_and_leaves_context_unchanged() {
    let mut ctx = Context::new();
    let err = run_line(&mut ctx, "1/0").unwrap_err();
    assert_eq!(err, EvalError::DivisionByZero);
    assert_eq!(ctx.current_counter(), 0);
    assert_eq!(ctx.get_variable(&String::from("$0")), None);
}

#[test]
fn division_by_negative_zero_fails_too() {
    // (0-1)*0 is the IEEE negative zero, the other zero word.
    let mut ctx = Context::new();
    let err = run_line(&mut ctx, "1/((0-1)*0)").unwrap_err();
    assert_eq!(err, EvalError::DivisionByZero);
}

#[test]
fn undefined_variable_fails() {
    let mut ctx = Context::new();
    let err = run_line(&mut ctx, "x+1").unwrap_err();
    assert_eq!(err, EvalError::UndefinedVariable(String::from("x")));
    assert_eq!(ctx.current_counter(), 0);
}

#[test]
fn anonymous_names_are_assigned_in_order() {
    let mut ctx = Context::new();
    let (k1, v1) = run_line(&mut ctx, "3+5").unwrap();
    assert_eq!((k1.as_str(), v1), ("$0", 8.0));
    let (k2, v2) = run_line(&mut ctx, "v=3-2").unwrap();
    assert_eq!((k2.as_str(), v2), ("v", 1.0));
    let (k3, v3) = run_line(&mut ctx, "3^2").unwrap();
    assert_eq!((k3.as_str(), v3), ("$1", 9.0));
    assert_eq!(ctx.get_variable(&String::from("$0")), Some(8.0f64.to_bits()));
    assert_eq!(ctx.get_variable(&String::from("v")), Some(1.0f64.to_bits()));
    assert_eq!(ctx.get_variable(&String::from("$1")), Some(9.0f64.to_bits()));
    assert_eq!(ctx.current_counter(), 2);
}

#[test]
fn failed_evaluation_does_not_advance_the_counter() {
    let mut ctx = Context::new();
    assert!(run_line(&mut ctx, "1/0").is_err());
    let (key, value) = run_line(&mut ctx, "4+4").unwrap();
    assert_eq!(key, "$0");
    assert_eq!(value, 8.0);
}

#[test]
fn calc_expression_asks_for_words_in_evaluation_order() {
    let ctx = Context::new();
    let cmd = parse_command("1+2").unwrap();
    // Left operand first, then the right one, then the operator application.
    assert_eq!(ctx.calc_expression(&cmd.expression, &vec![]), EvalStep::NeedNum(1));
    let one = 1.0f64.to_bits();
    assert_eq!(ctx.calc_expression(&cmd.expression, &vec![one]), EvalStep::NeedNum(2));
    let two = 2.0f64.to_bits();
    assert_eq!(
        ctx.calc_expression(&cmd.expression, &vec![one, two]),
        EvalStep::NeedOp(BinOp::Add, one, two)
    );
    let three = 3.0f64.to_bits();
    assert_eq!(
        ctx.calc_expression(&cmd.expression, &vec![one, two, three]),
        EvalStep::Done(three)
    );
}

#[test]
fn variables_can_be_read_back_and_overwritten() {
    let mut ctx = Context::new();
    run_line(&mut ctx, "a = 2").unwrap();
    let (_, value) = run_line(&mut ctx, "a * a + 1").unwrap();
    assert_eq!(value, 5.0);
    run_line(&mut ctx, "a = 10").unwrap();
    let (_, value) = run_line(&mut ctx, "a / 4").unwrap();
    assert_eq!(value, 2.5);
}
