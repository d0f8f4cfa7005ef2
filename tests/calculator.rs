use calculator::grammar::{ErrorKind, ParseError};
use calculator::ops::Op;
use calculator::parser::{compile, compile_source, Program};
use calculator::text::strip_whitespace;

fn run(program: &Program) -> Option<f64> {
    let mut values: Vec<f64> = Vec::new();
    for op in &program.ops {
        let value = match *op {
            Op::Num { start, end } => {
                let text: String = program.source[start..end].iter().collect();
                text.parse::<f64>().ok()?
            }
            Op::Neg => -values.pop()?,
            Op::Add => values.pop()? + values.pop()?,
            Op::Mul => values.pop()? * values.pop()?,
            Op::Sub => {
                let right = values.pop()?;
                let left = values.pop()?;
                left - right
            }
            Op::Div => {
                let right = values.pop()?;
                let left = values.pop()?;
                left / right
            }
        };
        values.push(value);
    }
    if values.len() == 1 {
        values.pop()
    } else {
        None
    }
}

fn calculate(input: &str) -> Result<f64, String> {
    let program = compile(input)?;
    Ok(run(&program).expect("internal error"))
}

fn error_of(input: &str) -> ParseError {
    let source = strip_whitespace(input);
    compile_source(&source).expect_err("an error was due")
}

fn num(start: usize, end: usize) -> Op {
    Op::Num { start, end }
}

#[test]
fn math_is_not_broken() {
    assert_eq!(Ok(-3.9), calculate("-0.5(1 + 2) - 3 * 4 / 5"))
}

#[test]
fn precedence() {
    assert_eq!(Ok(14.0), calculate("2 + 3 * 4"));
}

#[test]
fn left_associative() {
    assert_eq!(Ok(3.0), calculate("8 - 3 - 2"));
    assert_eq!(Ok(2.0), calculate("16 / 4 / 2"));
}

#[test]
fn left_associative_program() {
    let program = compile("8 - 3 - 2").unwrap();
    assert_eq!(program.ops, vec![num(0, 1), num(2, 3), Op::Sub, num(4, 5), Op::Sub]);
}

#[test]
fn unary_minus_parity() {
    assert_eq!(Ok(5.0), calculate("--5"));
    assert_eq!(Ok(-5.0), calculate("-5"));
    assert_eq!(Ok(-5.0), calculate("---5"));
    assert_eq!(Ok(-6.0), calculate("2*-3"));
}

#[test]
fn unary_minus_program() {
    assert_eq!(compile("--5").unwrap().ops, vec![num(2, 3)]);
    assert_eq!(compile("-5").unwrap().ops, vec![num(1, 2), Op::Neg]);
}

#[test]
fn parentheses_override_precedence() {
    assert_eq!(Ok(20.0), calculate("(2 + 3) * 4"));
}

#[test]
fn implicit_multiplication() {
    assert_eq!(Ok(6.0), calculate("2(3)"));
    assert_eq!(Ok(2.0), calculate("(1)(2)"));
    assert_eq!(Ok(24.0), calculate("(2)(3)(4)"));
}

#[test]
fn numbers_with_a_point() {
    assert_eq!(Ok(5.0), calculate("5."));
    assert_eq!(Ok(0.5), calculate(".5"));
    assert_eq!(Ok(12.25), calculate("12.25"));
}

#[test]
fn division_by_zero_is_infinite() {
    assert_eq!(Ok(f64::INFINITY), calculate("1 / 0"));
}

#[test]
fn empty_input() {
    let expected = ParseError { kind: ErrorKind::EmptyInput, pos: 0 };
    assert_eq!(error_of(""), expected);
    assert_eq!(error_of(" \t\n "), expected);
    assert_eq!(Err(String::from("no user input")), calculate("   "));
}

#[test]
fn unbalanced_parenthesis() {
    assert_eq!(error_of("(1 + 2"), ParseError { kind: ErrorKind::ExpectedCloseParen, pos: 4 });
}

#[test]
fn missing_number() {
    assert_eq!(error_of("1 + "), ParseError { kind: ErrorKind::ExpectedNumber, pos: 2 });
    assert_eq!(error_of("."), ParseError { kind: ErrorKind::ExpectedNumber, pos: 0 });
}

#[test]
fn trailing_garbage() {
    assert_eq!(error_of("1 + 2 @"), ParseError { kind: ErrorKind::UnexpectedCharacter, pos: 3 });
    assert_eq!(error_of("1.5.2"), ParseError { kind: ErrorKind::UnexpectedCharacter, pos: 3 });
}

#[test]
fn first_error_wins() {
    assert_eq!(error_of("(1 + "), ParseError { kind: ErrorKind::ExpectedNumber, pos: 3 });
}

#[test]
fn error_message_layout() {
    assert_eq!(
        Err(String::from("ERROR | 1+\n          └─ expected number here")),
        calculate("1 + ")
    );
    assert_eq!(
        Err(String::from("ERROR | 1+2@\n           └─ unexpected character here")),
        calculate("1 + 2 @")
    );
    assert_eq!(
        Err(String::from("ERROR | (1+2\n            └─ expected ) here")),
        calculate("(1 + 2")
    );
}

#[test]
fn whitespace_is_removed() {
    let chars: String = strip_whitespace(" 1 +\t2\n").into_iter().collect();
    assert_eq!(chars, "1+2");
    assert_eq!(Ok(12.0), calculate("1 2"));
}

#[test]
fn whitespace_does_not_change_the_program() {
    let tight = compile("1+2").unwrap();
    let loose = compile("  1  +  2  ").unwrap();
    assert_eq!(tight.ops, loose.ops);
    assert_eq!(tight.source, loose.source);
}

#[test]
fn same_input_same_result() {
    let input = "-0.5(1 + 2) - 3 * 4 / 5";
    let first = calculate(input).unwrap();
    let second = calculate(input).unwrap();
    assert_eq!(first.to_bits(), second.to_bits());
    assert_eq!(compile(input).unwrap().ops, compile(input).unwrap().ops);
}
