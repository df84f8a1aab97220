//! Ceiling division, the count of windows that start inside a span.

use vstd::prelude::*;
use vstd::arithmetic::div_mod::{lemma_basic_div, lemma_div_minus_one, lemma_fundamental_div_mod, lemma_mod_pos_bound};

verus! {

/// `ceil(x / d)`: the number of positions `0, d, 2d, ...` below `x`.
pub open spec fn ceil_div(x: nat, d: nat) -> nat {
    if x == 0 {
        0
    } else {
        ((x - 1) as nat / d + 1) as nat
    }
}

/// Advancing by one step past a span uses up exactly one window.
pub proof fn lemma_ceil_div_step(x: nat, d: nat)
    requires
        d > 0,
        x > 0,
    ensures
        x <= d ==> ceil_div(x, d) == 1,
        x > d ==> ceil_div((x - d) as nat, d) + 1 == ceil_div(x, d),
{
    if x <= d {
        lemma_basic_div((x - 1) as int, d as int);
    } else {
        lemma_div_minus_one((x - 1) as int, d as int);
        assert(((x - d) - 1) as int == -(d as int) + (x - 1) as int);
    }
}

/// Computes `ceil(x / d)` without overflow.
pub fn ceil_div_exec(x: usize, d: usize) -> (r: usize)
    requires
        d > 0,
    ensures
        r == ceil_div(x as nat, d as nat),
{
    if x == 0 {
        0
    } else {
        proof {
            vstd::arithmetic::div_mod::lemma_div_is_ordered_by_denominator((x - 1) as int, 1, d as int);
        }
        (x - 1) / d + 1
    }
}

/// `j` counts among the first `ceil(len / step)` positions exactly when its
/// start `j * step` lies before `len`.
pub proof fn lemma_below_count(len: nat, step: nat, j: nat)
    requires
        step > 0,
    ensures
        (j < ceil_div(len, step)) <==> j * step < len,
{
    if len == 0 {
        assert(j * step >= 0) by (nonlinear_arith);
    } else {
        let x = (len - 1) as int;
        let d = step as int;
        lemma_fundamental_div_mod(x, d);
        lemma_mod_pos_bound(x, d);
        let q = x / d;
        let r = x % d;
        assert((j <= q) <==> (j * d <= x)) by (nonlinear_arith)
            requires
                x == d * q + r,
                0 <= r < d,
                d > 0,
                j >= 0,
        ;
    }
}

/// The `k`-th span of a segmentation of `len` items into spans of `size`
/// items starting every `step` items: `k * step .. min(k * step + size, len)`.
pub open spec fn span_at(len: nat, size: nat, step: nat, k: nat) -> (nat, nat) {
    let start = k * step;
    (start, if start + size <= len { start + size } else { len })
}

/// The spans still to come when the next one starts at `pos`: one starting at
/// `pos`, then one every `step`, while the start lies before `len`.
pub open spec fn spans_from(len: nat, size: nat, step: nat, pos: nat) -> Seq<(nat, nat)>
    decreases (if pos < len { len - pos } else { 0 }),
{
    if pos >= len || step == 0 {
        seq![]
    } else {
        seq![(pos, if pos + size <= len { pos + size } else { len })] + spans_from(len, size, step, pos + step)
    }
}

/// The number of spans still to come from span `k` on.
pub open spec fn spans_left(len: nat, step: nat, k: nat) -> nat {
    if k * step >= len {
        0
    } else {
        ceil_div((len - k * step) as nat, step)
    }
}

/// From the start of span `k`, the spans to come are spans `k, k + 1, ...`.
pub proof fn lemma_spans_closed(len: nat, size: nat, step: nat, k: nat)
    requires
        step > 0,
    ensures
        spans_from(len, size, step, k * step) =~= Seq::new(
            spans_left(len, step, k),
            |j: int| span_at(len, size, step, (k + j) as nat),
        ),
    decreases (if k * step < len { len - k * step } else { 0 }),
{
    if k * step < len {
        assert((k + 1) * step == k * step + step) by (nonlinear_arith);
        lemma_spans_closed(len, size, step, k + 1);
        lemma_ceil_div_step((len - k * step) as nat, step);
        let rest = spans_from(len, size, step, (k + 1) * step);
        let whole = spans_from(len, size, step, k * step);
        assert(spans_left(len, step, k) == spans_left(len, step, k + 1) + 1);
        assert forall|j: int| 0 <= j < whole.len() implies #[trigger] whole[j] == span_at(
            len,
            size,
            step,
            (k + j) as nat,
        ) by {
            if j > 0 {
                assert(whole[j] == rest[j - 1]);
                assert((k + 1 + (j - 1)) as nat == (k + j) as nat);
            }
        }
    }
}

/// The whole segmentation of `len` items: `ceil(len / step)` spans, span `k`
/// covering `k * step .. min(k * step + size, len)`. When `step <= size` the
/// spans are non-empty, the first starts at 0, the last ends at `len`, and
/// each starts inside the one before, so together they cover `0..len`.
pub proof fn law_spans(len: nat, size: nat, step: nat)
    requires
        step > 0,
    ensures
        spans_from(len, size, step, 0) =~= Seq::new(
            ceil_div(len, step),
            |k: int| span_at(len, size, step, k as nat),
        ),
        step <= size ==> forall|k: nat|
            k < ceil_div(len, step) ==> #[trigger] span_at(len, size, step, k).0 < span_at(
                len,
                size,
                step,
                k,
            ).1,
        step <= size ==> forall|k: nat|
            k + 1 < ceil_div(len, step) ==> #[trigger] span_at(len, size, step, k + 1).0
                <= span_at(len, size, step, k).1,
        len > 0 ==> span_at(len, size, step, 0).0 == 0,
        len > 0 && step <= size ==> span_at(len, size, step, (ceil_div(len, step) - 1) as nat).1
            == len,
{
    assert(0 * step == 0) by (nonlinear_arith);
    lemma_spans_closed(len, size, step, 0);
    assert(spans_left(len, step, 0) == ceil_div(len, step));
    if step <= size {
        assert forall|k: nat| k < ceil_div(len, step) implies #[trigger] span_at(len, size, step, k).0
            < span_at(len, size, step, k).1 by {
            lemma_below_count(len, step, k);
        }
        assert forall|k: nat| k + 1 < ceil_div(len, step) implies #[trigger] span_at(
            len,
            size,
            step,
            k + 1,
        ).0 <= span_at(len, size, step, k).1 by {
            lemma_below_count(len, step, k + 1);
            assert((k + 1) * step == k * step + step) by (nonlinear_arith);
        }
        if len > 0 {
            let n = ceil_div(len, step);
            let m = (n - 1) as nat;
            lemma_below_count(len, step, m);
            lemma_below_count(len, step, n);
            assert((m + 1) * step == m * step + step) by (nonlinear_arith);
        }
    }
}

} // verus!
