//! Laws of evaluation, stated over the model of `evaluate`.

use vstd::prelude::*;
use crate::eval::{lemma_failure_persists, run, step, top_or_zero, value_of, Failure};
use crate::lex::{is_space, words};
use crate::number::{abs, op_of, trunc_div, trunc_rem, Numeric, Op};
use vstd::arithmetic::div_mod::{lemma_fundamental_div_mod, lemma_mod_bound};

verus! {

proof fn lemma_run_empty<T: Numeric>(ws: Seq<Seq<char>>)
    requires
        ws.len() == 0,
    ensures
        run::<T>(ws) == Ok::<Seq<T>, Failure>(seq![]),
{
}

/// Values pushed minus operators applied, over a sequence of words.
pub open spec fn depth(ws: Seq<Seq<char>>) -> int
    decreases ws.len(),
{
    if ws.len() == 0 {
        0
    } else {
        depth(ws.drop_last()) + if op_of(ws.last()) is Some {
            -1int
        } else {
            1int
        }
    }
}

/// Every word is a number or an operator, and every operator finds at least
/// two values on the stack.
pub open spec fn sufficient<T: Numeric>(ws: Seq<Seq<char>>) -> bool {
    forall|i: int|
        0 <= i < ws.len() ==> if op_of(#[trigger] ws[i]) is Some {
            depth(ws.take(i)) >= 2
        } else {
            T::parse_spec(ws[i]) is Some
        }
}

/// Whether every operator has a result for every pair of values.
pub open spec fn total_arithmetic<T: Numeric>() -> bool {
    forall|op: Op, a: T, b: T| #[trigger] T::apply_spec(op, a, b) is Ok
}

proof fn lemma_sufficient_runs<T: Numeric>(ws: Seq<Seq<char>>)
    requires
        sufficient::<T>(ws),
        total_arithmetic::<T>(),
    ensures
        run::<T>(ws) is Ok,
        run::<T>(ws)->Ok_0.len() == depth(ws),
    decreases ws.len(),
{
    if ws.len() > 0 {
        let pre = ws.drop_last();
        assert forall|i: int| 0 <= i < pre.len() implies if op_of(#[trigger] pre[i]) is Some {
            depth(pre.take(i)) >= 2
        } else {
            T::parse_spec(pre[i]) is Some
        } by {
            assert(pre.take(i) =~= ws.take(i));
            assert(pre[i] == ws[i]);
        }
        lemma_sufficient_runs::<T>(pre);
        let k = ws.len() - 1;
        assert(ws.take(k) =~= pre);
        assert(ws[k] == ws.last());
        let stack = run::<T>(pre)->Ok_0;
        if op_of(ws.last()) is Some {
            let n = stack.len();
            assert(T::apply_spec(op_of(ws.last())->Some_0, stack[n - 2], stack[n - 1]) is Ok);
        }
    }
}

/// When every operator finds two operands, every word is a number or an
/// operator, and the arithmetic of the number type never fails, evaluation
/// succeeds.
pub proof fn law_sufficient_operands_succeed<T: Numeric>(s: Seq<char>)
    requires
        sufficient::<T>(words(s)),
        total_arithmetic::<T>(),
    ensures
        value_of::<T>(s) is Ok,
{
    lemma_sufficient_runs::<T>(words(s));
}

/// An expression that is one number evaluates to that number.
pub proof fn law_single_literal<T: Numeric>(s: Seq<char>, v: T)
    requires
        words(s).len() == 1,
        op_of(words(s)[0]) is None,
        T::parse_spec(words(s)[0]) == Some(v),
    ensures
        value_of::<T>(s) == Ok::<T, Failure>(v),
{
    let ws = words(s);
    lemma_run_empty::<T>(ws.drop_last());
    assert(run::<T>(ws) == Ok::<Seq<T>, Failure>(seq![v]));
}

proof fn lemma_blank_has_no_words(s: Seq<char>)
    requires
        forall|i: int| 0 <= i < s.len() ==> is_space(#[trigger] s[i]),
    ensures
        words(s).len() == 0,
    decreases s.len(),
{
    if s.len() > 0 {
        assert(is_space(s[s.len() - 1]));
        lemma_blank_has_no_words(s.drop_last());
    }
}

/// A blank expression evaluates to zero.
pub proof fn law_blank_is_zero<T: Numeric>(s: Seq<char>)
    requires
        forall|i: int| 0 <= i < s.len() ==> is_space(#[trigger] s[i]),
    ensures
        value_of::<T>(s) == Ok::<T, Failure>(T::zero_spec()),
{
    lemma_blank_has_no_words(s);
    assert(top_or_zero::<T>(seq![]) == T::zero_spec());
}

/// An expression that starts with an operator fails: that operator needs two
/// more operands.
pub proof fn law_leading_operator<T: Numeric>(s: Seq<char>, op: Op)
    requires
        words(s).len() >= 1,
        op_of(words(s)[0]) == Some(op),
    ensures
        value_of::<T>(s) == Err::<T, Failure>(Failure::Insufficient { operator: op, needed: 2 }),
{
    let ws = words(s);
    lemma_run_empty::<T>(ws.take(1).drop_last());
    assert(ws.take(1).last() == ws[0]);
    assert(run::<T>(ws.take(1)) is Err);
    lemma_failure_persists::<T>(ws, 1);
}

/// An expression whose first word is a number and whose second is an
/// operator fails: that operator needs one more operand.
pub proof fn law_operator_after_one_value<T: Numeric>(s: Seq<char>, op: Op)
    requires
        words(s).len() >= 2,
        op_of(words(s)[0]) is None,
        T::parse_spec(words(s)[0]) is Some,
        op_of(words(s)[1]) == Some(op),
    ensures
        value_of::<T>(s) == Err::<T, Failure>(Failure::Insufficient { operator: op, needed: 1 }),
{
    let ws = words(s);
    assert(ws.take(2).drop_last() =~= ws.take(1));
    lemma_run_empty::<T>(ws.take(1).drop_last());
    assert(ws.take(1).last() == ws[0]);
    assert(ws.take(2).last() == ws[1]);
    assert(run::<T>(ws.take(1)) == Ok::<Seq<T>, Failure>(seq![T::parse_spec(ws[0])->Some_0]));
    assert(run::<T>(ws.take(2)) is Err);
    assert(step::<T>(seq![], ws[0]) == Ok::<Seq<T>, Failure>(seq![T::parse_spec(ws[0])->Some_0]));
    lemma_failure_persists::<T>(ws, 2);
}

/// The first word that is neither an operator nor a number, reached without
/// an earlier failure, is the one the evaluation fails on.
pub proof fn law_unparsable_word<T: Numeric>(s: Seq<char>, i: int)
    requires
        0 <= i < words(s).len(),
        op_of(words(s)[i]) is None,
        T::parse_spec(words(s)[i]) is None,
        run::<T>(words(s).take(i)) is Ok,
    ensures
        value_of::<T>(s) == Err::<T, Failure>(Failure::Unparsable { token: words(s)[i] }),
{
    let ws = words(s);
    assert(ws.take(i + 1).drop_last() =~= ws.take(i));
    assert(ws.take(i + 1).last() == ws[i]);
    lemma_failure_persists::<T>(ws, i + 1);
}

/// Integer division truncates toward zero: quotient and remainder rebuild
/// the dividend, the remainder is smaller than the divisor in magnitude, and
/// it is zero or has the sign of the dividend.
pub proof fn law_truncated_division(a: int, b: int)
    requires
        b != 0,
    ensures
        a == b * trunc_div(a, b) + trunc_rem(a, b),
        abs(trunc_rem(a, b)) < abs(b),
        trunc_rem(a, b) == 0 || ((trunc_rem(a, b) < 0) == (a < 0)),
{
    let x = abs(a);
    let d = abs(b);
    lemma_fundamental_div_mod(x, d);
    lemma_mod_bound(x, d);
    let q = x / d;
    let r = x % d;
    assert(x == d * q + r);
    if a < 0 && b < 0 {
        assert(a == b * q - r) by (nonlinear_arith)
            requires
                x == d * q + r,
                x == -a,
                d == -b,
        ;
    } else if a < 0 {
        assert(a == b * (-q) - r) by (nonlinear_arith)
            requires
                x == d * q + r,
                x == -a,
                d == b,
        ;
    } else if b < 0 {
        assert(a == b * (-q) + r) by (nonlinear_arith)
            requires
                x == d * q + r,
                x == a,
                d == -b,
        ;
    } else {
        assert(a == b * q + r);
    }
}

} // verus!
