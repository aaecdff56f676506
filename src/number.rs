//! Operators and the number types that the evaluator computes with.

use vstd::prelude::*;

verus! {

/// One of the five binary operators.
#[derive(Clone, Copy, Debug, PartialEq, Eq, Structural)]
pub enum Op {
    Add,
    Sub,
    Mul,
    Div,
    Rem,
}

/// Why an arithmetic operation has no result in the number type.
#[derive(Clone, Copy, Debug, PartialEq, Eq, Structural)]
pub enum ArithFault {
    DivisionByZero,
    Overflow,
}

/// The operator that a word stands for, if any: the word is exactly one of
/// `+ - * / %`.
pub open spec fn op_of(t: Seq<char>) -> Option<Op> {
    if t.len() != 1 {
        None
    } else if t[0] == '+' {
        Some(Op::Add)
    } else if t[0] == '-' {
        Some(Op::Sub)
    } else if t[0] == '*' {
        Some(Op::Mul)
    } else if t[0] == '/' {
        Some(Op::Div)
    } else if t[0] == '%' {
        Some(Op::Rem)
    } else {
        None
    }
}

/// Recognises an operator word.
pub fn operator_of(t: &str) -> (r: Option<Op>)
    ensures
        r == op_of(t@),
{
    if t.unicode_len() != 1 {
        return None;
    }
    let c = t.get_char(0);
    if c == '+' {
        Some(Op::Add)
    } else if c == '-' {
        Some(Op::Sub)
    } else if c == '*' {
        Some(Op::Mul)
    } else if c == '/' {
        Some(Op::Div)
    } else if c == '%' {
        Some(Op::Rem)
    } else {
        None
    }
}

impl Op {
    /// The character that writes the operator.
    pub fn symbol(self) -> (r: char)
        ensures
            op_of(seq![r]) == Some(self),
    {
        match self {
            Op::Add => '+',
            Op::Sub => '-',
            Op::Mul => '*',
            Op::Div => '/',
            Op::Rem => '%',
        }
    }
}

/// A number type the evaluator can compute with: it parses words, applies
/// the operators and has a zero.
///
/// The spec functions describe the exec methods. An implementation outside
/// verified code leaves them unspecified.
pub trait Numeric: Sized + Copy {
    /// The value a word denotes, or `None` if it is not a number.
    open spec fn parse_spec(s: Seq<char>) -> Option<Self> {
        arbitrary()
    }

    /// The result of `a op b`, or why there is none.
    open spec fn apply_spec(op: Op, a: Self, b: Self) -> Result<Self, ArithFault> {
        arbitrary()
    }

    /// The zero of the type.
    open spec fn zero_spec() -> Self {
        arbitrary()
    }

    fn parse(s: &str) -> (r: Option<Self>)
        ensures
            r == Self::parse_spec(s@),
    ;

    fn apply(op: Op, a: Self, b: Self) -> (r: Result<Self, ArithFault>)
        ensures
            r == Self::apply_spec(op, a, b),
    ;

    fn zero() -> (r: Self)
        ensures
            r == Self::zero_spec(),
    ;
}

pub open spec fn is_digit(c: char) -> bool {
    '0' <= c && c <= '9'
}

pub open spec fn digit_value(c: char) -> int {
    (c as u32) - ('0' as u32)
}

/// The value of a sequence of decimal digits.
pub open spec fn digits_value(s: Seq<char>) -> int
    decreases s.len(),
{
    if s.len() == 0 {
        0
    } else {
        digits_value(s.drop_last()) * 10 + digit_value(s.last())
    }
}

/// Whether a word starts with `+` or `-`.
pub open spec fn has_sign(s: Seq<char>) -> bool {
    s.len() > 0 && (s[0] == '-' || s[0] == '+')
}

/// A word without its sign, if it has one.
pub open spec fn unsigned_part(s: Seq<char>) -> Seq<char> {
    if has_sign(s) {
        s.drop_first()
    } else {
        s
    }
}

/// One or more decimal digits.
pub open spec fn all_digits(t: Seq<char>) -> bool {
    t.len() > 0 && forall|i: int| 0 <= i < t.len() ==> is_digit(#[trigger] t[i])
}

/// The integer a word writes: an optional `+` or `-`, then one or more
/// decimal digits.
pub open spec fn int_literal(s: Seq<char>) -> Option<int> {
    if all_digits(unsigned_part(s)) {
        if has_sign(s) && s[0] == '-' {
            Some(-digits_value(unsigned_part(s)))
        } else {
            Some(digits_value(unsigned_part(s)))
        }
    } else {
        None
    }
}

/// The `i64` a word denotes, as `str::parse::<i64>` reads it.
pub open spec fn parse_i64(s: Seq<char>) -> Option<i64> {
    match int_literal(s) {
        Some(v) => if i64::MIN <= v && v <= i64::MAX {
            Some(v as i64)
        } else {
            None
        },
        None => None,
    }
}

pub open spec fn abs(a: int) -> int {
    if a < 0 {
        -a
    } else {
        a
    }
}

/// Division rounding toward zero.
pub open spec fn trunc_div(a: int, b: int) -> int {
    let q = abs(a) / abs(b);
    if (a < 0) == (b < 0) {
        q
    } else {
        -q
    }
}

/// The remainder that goes with `trunc_div`: it takes the sign of `a`.
pub open spec fn trunc_rem(a: int, b: int) -> int {
    let r = abs(a) % abs(b);
    if a < 0 {
        -r
    } else {
        r
    }
}

/// `a op b` over the integers; division and remainder truncate.
pub open spec fn int_apply(op: Op, a: int, b: int) -> Result<int, ArithFault> {
    match op {
        Op::Add => Ok(a + b),
        Op::Sub => Ok(a - b),
        Op::Mul => Ok(a * b),
        Op::Div => if b == 0 {
            Err(ArithFault::DivisionByZero)
        } else {
            Ok(trunc_div(a, b))
        },
        Op::Rem => if b == 0 {
            Err(ArithFault::DivisionByZero)
        } else {
            Ok(trunc_rem(a, b))
        },
    }
}

/// `a op b` in `i64`: the integer result, or `Overflow` where it does not fit.
pub open spec fn i64_apply(op: Op, a: i64, b: i64) -> Result<i64, ArithFault> {
    match int_apply(op, a as int, b as int) {
        Ok(v) => if i64::MIN <= v && v <= i64::MAX {
            Ok(v as i64)
        } else {
            Err(ArithFault::Overflow)
        },
        Err(f) => Err(f),
    }
}

/// Relies on num_traits::Zero for i64: `zero` returns 0.
#[verifier::external_body]
fn i64_zero() -> (r: i64)
    ensures
        r == 0,
{
    <i64 as num_traits::Zero>::zero()
}

/// Parses an optional sign and decimal digits into an `i64`.
pub fn parse_int(s: &str) -> (r: Option<i64>)
    ensures
        r == parse_i64(s@),
{
    let n = s.unicode_len();
    if n == 0 {
        return None;
    }
    let c0 = s.get_char(0);
    let signed = c0 == '-' || c0 == '+';
    let negative = c0 == '-';
    let start: usize = if signed { 1 } else { 0 };
    let ghost body = unsigned_part(s@);
    if start == n {
        return None;
    }
    let mut mag: u128 = 0;
    let mut over = false;
    let mut i: usize = start;
    while i < n
        invariant
            n == s@.len(),
            start <= i <= n,
            body == unsigned_part(s@),
            body =~= s@.subrange(start as int, n as int),
            negative == (has_sign(s@) && s@[0] == '-'),
            forall|k: int| 0 <= k < i - start ==> is_digit(#[trigger] body[k]),
            !over ==> mag == digits_value(body.take(i - start)),
            over ==> digits_value(body.take(i - start)) > 0x8000_0000_0000_0000,
            mag <= 0x8000_0000_0000_0000,
            digits_value(body.take(i - start)) >= 0,
        decreases n - i,
    {
        let c = s.get_char(i);
        assert(body[i - start] == c);
        let ghost pre = body.take(i - start);
        let ghost cur = body.take(i - start + 1);
        assert(cur.drop_last() =~= pre);
        if !('0' <= c && c <= '9') {
            assert(!is_digit(body[i - start]));
            assert(int_literal(s@) is None);
            return None;
        }
        let d = (c as u32 - '0' as u32) as u128;
        if !over {
            let next = mag * 10 + d;
            if next > 0x8000_0000_0000_0000 {
                over = true;
            } else {
                mag = next;
            }
        }
        i = i + 1;
    }
    assert(body.take(n - start) =~= body);
    assert(forall|k: int| 0 <= k < body.len() ==> is_digit(#[trigger] body[k]));
    assert(int_literal(s@) == if negative {
        Some(-digits_value(body))
    } else {
        Some(digits_value(body))
    });
    if over {
        return None;
    }
    if negative {
        Some((0 - (mag as i128)) as i64)
    } else if mag <= 0x7FFF_FFFF_FFFF_FFFF {
        Some(mag as i64)
    } else {
        None
    }
}

/// The value of a result, if it has one.
pub open spec fn ok_value(r: Result<i64, ArithFault>) -> Option<i64> {
    match r {
        Ok(v) => Some(v),
        Err(_) => None,
    }
}

/// Applies an operator to two `i64`s, reporting overflow and division by zero.
pub fn apply_int(op: Op, a: i64, b: i64) -> (r: Result<i64, ArithFault>)
    ensures
        r == i64_apply(op, a, b),
{
    let checked = match op {
        Op::Add => {
            let c = a.checked_add(b);
            assert(c == ok_value(i64_apply(op, a, b)));
            c
        },
        Op::Sub => {
            let c = a.checked_sub(b);
            assert(c == ok_value(i64_apply(op, a, b)));
            c
        },
        Op::Mul => {
            let c = a.checked_mul(b);
            assert(c == ok_value(i64_apply(op, a, b)));
            c
        },
        Op::Div => {
            if b == 0 {
                return Err(ArithFault::DivisionByZero);
            }
            let c = a.checked_div(b);
            assert(c == ok_value(i64_apply(op, a, b)));
            c
        },
        Op::Rem => {
            if b == 0 {
                return Err(ArithFault::DivisionByZero);
            }
            if b == -1 {
                assert(trunc_rem(a as int, -1) == 0);
                return Ok(0);
            }
            let c = a.checked_rem(b);
            assert(c == ok_value(i64_apply(op, a, b)));
            c
        },
    };
    match checked {
        Some(v) => Ok(v),
        None => Err(ArithFault::Overflow),
    }
}

impl Numeric for i64 {
    open spec fn parse_spec(s: Seq<char>) -> Option<i64> {
        parse_i64(s)
    }

    open spec fn apply_spec(op: Op, a: i64, b: i64) -> Result<i64, ArithFault> {
        i64_apply(op, a, b)
    }

    open spec fn zero_spec() -> i64 {
        0
    }

    fn parse(s: &str) -> (r: Option<i64>) {
        parse_int(s)
    }

    fn apply(op: Op, a: i64, b: i64) -> (r: Result<i64, ArithFault>) {
        apply_int(op, a, b)
    }

    fn zero() -> (r: i64) {
        i64_zero()
    }
}

} // verus!
