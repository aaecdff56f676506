//! The stack machine that evaluates an expression in reverse Polish notation.

use vstd::prelude::*;
use crate::lex::{split_words, texts, words};
use crate::number::{op_of, operator_of, ArithFault, Numeric, Op};

verus! {

/// Why an expression has no value.
#[derive(Clone, Debug, PartialEq, Eq)]
pub enum EvalError {
    /// An operator found fewer than two values on the stack; `needed` is how
    /// many more it would have taken.
    InsufficientOperands { operator: Op, needed: usize },
    /// A word is neither an operator nor a number.
    ParseError { token: String },
    /// An operator has no result in the number type.
    ArithmeticError { operator: Op, fault: ArithFault },
}

/// What an `EvalError` says, with the word as a character sequence.
pub enum Failure {
    Insufficient { operator: Op, needed: nat },
    Unparsable { token: Seq<char> },
    Arithmetic { operator: Op, fault: ArithFault },
}

impl View for EvalError {
    type V = Failure;

    open spec fn view(&self) -> Failure {
        match self {
            EvalError::InsufficientOperands { operator, needed } => Failure::Insufficient {
                operator: *operator,
                needed: *needed as nat,
            },
            EvalError::ParseError { token } => Failure::Unparsable { token: token@ },
            EvalError::ArithmeticError { operator, fault } => Failure::Arithmetic {
                operator: *operator,
                fault: *fault,
            },
        }
    }
}

/// One application of an operator: `left operator right = result`.
#[derive(Clone, Copy, Debug, PartialEq)]
pub struct Step<T> {
    pub left: T,
    pub operator: Op,
    pub right: T,
    pub result: T,
}

/// An evaluation: its outcome, the operator applications made before it
/// ended, in order, and on success the values left below the top of the
/// stack, bottom first.
#[derive(Debug, PartialEq)]
pub struct Evaluation<T> {
    pub result: Result<T, EvalError>,
    pub steps: Vec<Step<T>>,
    pub skipped: Vec<T>,
}

/// The stack after one more word, or why there is none.
pub open spec fn step<T: Numeric>(stack: Seq<T>, word: Seq<char>) -> Result<Seq<T>, Failure> {
    match op_of(word) {
        Some(op) => if stack.len() == 0 {
            Err(Failure::Insufficient { operator: op, needed: 2 })
        } else if stack.len() == 1 {
            Err(Failure::Insufficient { operator: op, needed: 1 })
        } else {
            let n = stack.len();
            match T::apply_spec(op, stack[n - 2], stack[n - 1]) {
                Ok(v) => Ok(stack.take(n - 2).push(v)),
                Err(f) => Err(Failure::Arithmetic { operator: op, fault: f }),
            }
        },
        None => match T::parse_spec(word) {
            Some(v) => Ok(stack.push(v)),
            None => Err(Failure::Unparsable { token: word }),
        },
    }
}

/// The stack after all the words, from an empty stack, or the first failure.
pub open spec fn run<T: Numeric>(ws: Seq<Seq<char>>) -> Result<Seq<T>, Failure>
    decreases ws.len(),
{
    if ws.len() == 0 {
        Ok(seq![])
    } else {
        match run::<T>(ws.drop_last()) {
            Ok(stack) => step(stack, ws.last()),
            Err(e) => Err(e),
        }
    }
}

/// The operator applications that running the words makes, in order.
pub open spec fn trace<T: Numeric>(ws: Seq<Seq<char>>) -> Seq<Step<T>>
    decreases ws.len(),
{
    if ws.len() == 0 {
        seq![]
    } else {
        let prev = trace::<T>(ws.drop_last());
        match run::<T>(ws.drop_last()) {
            Ok(stack) => match op_of(ws.last()) {
                Some(op) => if stack.len() >= 2 {
                    let n = stack.len();
                    match T::apply_spec(op, stack[n - 2], stack[n - 1]) {
                        Ok(v) => prev.push(
                            Step { left: stack[n - 2], operator: op, right: stack[n - 1], result: v },
                        ),
                        Err(_) => prev,
                    }
                } else {
                    prev
                },
                None => prev,
            },
            Err(_) => prev,
        }
    }
}

/// The value of a final stack: its top, or zero when it is empty.
pub open spec fn top_or_zero<T: Numeric>(stack: Seq<T>) -> T {
    if stack.len() == 0 {
        T::zero_spec()
    } else {
        stack.last()
    }
}

/// The values of a final stack that no operator used: all but the top.
pub open spec fn unused<T>(stack: Seq<T>) -> Seq<T> {
    if stack.len() == 0 {
        seq![]
    } else {
        stack.drop_last()
    }
}

/// The value of an expression, or why it has none.
pub open spec fn value_of<T: Numeric>(s: Seq<char>) -> Result<T, Failure> {
    match run::<T>(words(s)) {
        Ok(stack) => Ok(top_or_zero(stack)),
        Err(e) => Err(e),
    }
}

/// Once a prefix of the words fails, running all of them fails the same way,
/// after the same operator applications.
pub proof fn lemma_failure_persists<T: Numeric>(ws: Seq<Seq<char>>, k: int)
    requires
        0 <= k <= ws.len(),
        run::<T>(ws.take(k)) is Err,
    ensures
        run::<T>(ws) == run::<T>(ws.take(k)),
        trace::<T>(ws) == trace::<T>(ws.take(k)),
    decreases ws.len() - k,
{
    if k < ws.len() {
        assert(ws.take(k + 1).drop_last() =~= ws.take(k));
        lemma_failure_persists::<T>(ws, k + 1);
    } else {
        assert(ws.take(k) =~= ws);
    }
}

/// Evaluates `expression` and reports the operator applications and the
/// values left unused.
pub fn evaluate_traced<T: Numeric>(expression: &str) -> (r: Evaluation<T>)
    ensures
        r.steps@ == trace::<T>(words(expression@)),
        match r.result {
            Ok(v) => run::<T>(words(expression@)) is Ok && {
                let stack = run::<T>(words(expression@))->Ok_0;
                &&& v == top_or_zero(stack)
                &&& r.skipped@ == unused(stack)
            },
            Err(e) => run::<T>(words(expression@)) == Err::<Seq<T>, Failure>(e@) && r.skipped@
                == Seq::<T>::empty(),
        },
{
    let ws = split_words(expression);
    let ghost all = words(expression@);
    let mut stack: Vec<T> = Vec::new();
    let mut steps: Vec<Step<T>> = Vec::new();
    let mut i: usize = 0;
    while i < ws.len()
        invariant
            all == words(expression@),
            texts(ws@) == all,
            i <= ws.len(),
            run::<T>(all.take(i as int)) == Ok::<Seq<T>, Failure>(stack@),
            trace::<T>(all.take(i as int)) == steps@,
        decreases ws.len() - i,
    {
        let ghost pre = all.take(i as int);
        let ghost cur = all.take(i + 1);
        assert(cur.drop_last() =~= pre);
        assert(cur.last() == ws@[i as int]@);
        let word: &str = ws[i].as_str();
        match operator_of(word) {
            Some(op) => {
                let n = stack.len();
                if n == 0 {
                    let e = EvalError::InsufficientOperands { operator: op, needed: 2 };
                    proof {
                        lemma_failure_persists::<T>(all, i + 1);
                    }
                    return Evaluation { result: Err(e), steps, skipped: Vec::new() };
                }
                if n == 1 {
                    let e = EvalError::InsufficientOperands { operator: op, needed: 1 };
                    proof {
                        lemma_failure_persists::<T>(all, i + 1);
                    }
                    return Evaluation { result: Err(e), steps, skipped: Vec::new() };
                }
                let right = stack[n - 1];
                let left = stack[n - 2];
                match T::apply(op, left, right) {
                    Ok(v) => {
                        let ghost before = stack@;
                        stack.pop();
                        stack.pop();
                        stack.push(v);
                        steps.push(Step { left, operator: op, right, result: v });
                        assert(stack@ =~= before.take(n - 2).push(v));
                    },
                    Err(f) => {
                        let e = EvalError::ArithmeticError { operator: op, fault: f };
                        proof {
                            lemma_failure_persists::<T>(all, i + 1);
                        }
                        return Evaluation { result: Err(e), steps, skipped: Vec::new() };
                    },
                }
            },
            None => {
                match T::parse(word) {
                    Some(v) => {
                        stack.push(v);
                    },
                    None => {
                        let e = EvalError::ParseError { token: ws[i].clone() };
                        proof {
                            lemma_failure_persists::<T>(all, i + 1);
                        }
                        return Evaluation { result: Err(e), steps, skipped: Vec::new() };
                    },
                }
            },
        }
        i = i + 1;
    }
    assert(all.take(i as int) =~= all);
    let mut skipped: Vec<T> = Vec::new();
    let value = if stack.len() == 0 {
        T::zero()
    } else {
        let top = stack[stack.len() - 1];
        let mut j: usize = 0;
        while j + 1 < stack.len()
            invariant
                j + 1 <= stack.len(),
                skipped@ == stack@.take(j as int),
            decreases stack.len() - j,
        {
            skipped.push(stack[j]);
            j = j + 1;
            assert(skipped@ =~= stack@.take(j as int));
        }
        assert(skipped@ =~= stack@.drop_last());
        top
    };
    Evaluation { result: Ok(value), steps, skipped }
}

/// Evaluates `expression`: its words are numbers and operators in reverse
/// Polish notation.
pub fn evaluate<T: Numeric>(expression: &str) -> (r: Result<T, EvalError>)
    ensures
        match r {
            Ok(v) => value_of::<T>(expression@) == Ok::<T, Failure>(v),
            Err(e) => value_of::<T>(expression@) == Err::<T, Failure>(e@),
        },
{
    evaluate_traced::<T>(expression).result
}

} // verus!
