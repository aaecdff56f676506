use rpn::eval::{evaluate, evaluate_traced, EvalError, Step};
use rpn::number::{apply_int, parse_int, operator_of, ArithFault, Op};

#[test]
fn adds_two_integers() {
    assert_eq!(evaluate::<i64>("3 4 +"), Ok(7));
}

#[test]
fn nested_expression_reduces_left_to_right() {
    // (5 - 1) * (2 + 3) = 20
    assert_eq!(evaluate::<i64>("5 1 - 2 3 + *"), Ok(20));
    assert_eq!(evaluate::<i64>("10 3 -"), Ok(7));
}

#[test]
fn single_literal_is_its_value() {
    assert_eq!(evaluate::<i64>("42"), Ok(42));
    assert_eq!(evaluate::<i64>("  -17  "), Ok(-17));
}

#[test]
fn blank_expression_is_zero() {
    assert_eq!(evaluate::<i64>(""), Ok(0));
    assert_eq!(evaluate::<i64>("   \t \n "), Ok(0));
    assert_eq!(evaluate::<i64>("\u{3000}\u{a0}"), Ok(0));
}

#[test]
fn leading_operator_needs_two_operands() {
    assert_eq!(
        evaluate::<i64>("+"),
        Err(EvalError::InsufficientOperands { operator: Op::Add, needed: 2 })
    );
    assert_eq!(
        evaluate::<i64>("% 3 4"),
        Err(EvalError::InsufficientOperands { operator: Op::Rem, needed: 2 })
    );
}

#[test]
fn operator_after_one_value_needs_one_operand() {
    assert_eq!(
        evaluate::<i64>("3 +"),
        Err(EvalError::InsufficientOperands { operator: Op::Add, needed: 1 })
    );
    assert_eq!(
        evaluate::<i64>("1 2 + *"),
        Err(EvalError::InsufficientOperands { operator: Op::Mul, needed: 1 })
    );
}

#[test]
fn unparsable_word_is_named() {
    assert_eq!(
        evaluate::<i64>("3 foo +"),
        Err(EvalError::ParseError { token: "foo".to_string() })
    );
    assert_eq!(
        evaluate::<i64>("1.5"),
        Err(EvalError::ParseError { token: "1.5".to_string() })
    );
}

#[test]
fn extra_operands_are_skipped() {
    let ev = evaluate_traced::<i64>("1 2 3 +");
    assert_eq!(ev.result, Ok(5));
    assert_eq!(ev.skipped, vec![1]);
    assert_eq!(ev.steps, vec![Step { left: 2, operator: Op::Add, right: 3, result: 5 }]);
}

#[test]
fn trace_lists_each_application() {
    let ev = evaluate_traced::<i64>("2 3 * 4 -");
    assert_eq!(ev.result, Ok(2));
    assert!(ev.skipped.is_empty());
    assert_eq!(
        ev.steps,
        vec![
            Step { left: 2, operator: Op::Mul, right: 3, result: 6 },
            Step { left: 6, operator: Op::Sub, right: 4, result: 2 },
        ]
    );
}

#[test]
fn trace_stops_at_the_failure() {
    let ev = evaluate_traced::<i64>("4 5 + 1 2 bad 3 *");
    assert_eq!(ev.result, Err(EvalError::ParseError { token: "bad".to_string() }));
    assert_eq!(ev.steps, vec![Step { left: 4, operator: Op::Add, right: 5, result: 9 }]);
    assert!(ev.skipped.is_empty());
}

#[test]
fn integer_division_truncates() {
    assert_eq!(evaluate::<i64>("7 2 /"), Ok(3));
    assert_eq!(evaluate::<i64>("7 2 %"), Ok(1));
    assert_eq!(evaluate::<i64>("-7 2 /"), Ok(-3));
    assert_eq!(evaluate::<i64>("-7 2 %"), Ok(-1));
    assert_eq!(evaluate::<i64>("7 -2 /"), Ok(-3));
    assert_eq!(evaluate::<i64>("7 -2 %"), Ok(1));
}

#[test]
fn integer_division_by_zero_is_an_error() {
    assert_eq!(
        evaluate::<i64>("1 0 /"),
        Err(EvalError::ArithmeticError { operator: Op::Div, fault: ArithFault::DivisionByZero })
    );
    assert_eq!(
        evaluate::<i64>("1 0 %"),
        Err(EvalError::ArithmeticError { operator: Op::Rem, fault: ArithFault::DivisionByZero })
    );
}

#[test]
fn integer_overflow_is_an_error() {
    assert_eq!(
        evaluate::<i64>("9223372036854775807 1 +"),
        Err(EvalError::ArithmeticError { operator: Op::Add, fault: ArithFault::Overflow })
    );
    assert_eq!(
        evaluate::<i64>("-9223372036854775808 -1 /"),
        Err(EvalError::ArithmeticError { operator: Op::Div, fault: ArithFault::Overflow })
    );
    assert_eq!(apply_int(Op::Mul, i64::MAX, 2), Err(ArithFault::Overflow));
    assert_eq!(apply_int(Op::Sub, i64::MIN, 1), Err(ArithFault::Overflow));
}

#[test]
fn remainder_of_minimum_by_minus_one_is_zero() {
    assert_eq!(evaluate::<i64>("-9223372036854775808 -1 %"), Ok(0));
}

#[test]
fn parses_integers_like_std() {
    for s in ["0", "+5", "-5", "007", "9223372036854775807", "-9223372036854775808", "12a", "", "+", "-", "+-1", "9223372036854775808", "-9223372036854775809", "99999999999999999999999"] {
        assert_eq!(parse_int(s), s.parse::<i64>().ok(), "{s}");
    }
}

#[test]
fn recognises_operators() {
    assert_eq!(operator_of("+"), Some(Op::Add));
    assert_eq!(operator_of("-"), Some(Op::Sub));
    assert_eq!(operator_of("*"), Some(Op::Mul));
    assert_eq!(operator_of("/"), Some(Op::Div));
    assert_eq!(operator_of("%"), Some(Op::Rem));
    assert_eq!(operator_of("++"), None);
    assert_eq!(operator_of("x"), None);
    assert_eq!(Op::Rem.symbol(), '%');
    assert_eq!(Op::Sub.symbol(), '-');
}

#[test]
fn negative_literal_is_not_an_operator() {
    assert_eq!(evaluate::<i64>("5 -3 -"), Ok(8));
}
