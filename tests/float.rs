use rpn::eval::evaluate;
use rpn::number::{ArithFault, Numeric, Op};

#[derive(Clone, Copy, Debug, PartialEq)]
struct F(f64);

impl Numeric for F {
    fn parse(s: &str) -> Option<F> {
        s.parse::<f64>().ok().map(F)
    }

    fn apply(op: Op, a: F, b: F) -> Result<F, ArithFault> {
        Ok(F(match op {
            Op::Add => a.0 + b.0,
            Op::Sub => a.0 - b.0,
            Op::Mul => a.0 * b.0,
            Op::Div => a.0 / b.0,
            Op::Rem => a.0 % b.0,
        }))
    }

    fn zero() -> F {
        F(0.0)
    }
}

#[test]
fn float_division_by_zero_is_infinite() {
    let r = evaluate::<F>("1 0 /").unwrap();
    assert!(r.0.is_infinite() && r.0 > 0.0);
}

#[test]
fn float_arithmetic() {
    assert_eq!(evaluate::<F>("1.5 2 *"), Ok(F(3.0)));
    assert_eq!(evaluate::<F>("7 2 /"), Ok(F(3.5)));
    assert_eq!(evaluate::<F>(""), Ok(F(0.0)));
    assert!(evaluate::<F>("0 0 /").unwrap().0.is_nan());
}
