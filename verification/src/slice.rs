//! Overlapping windows over an in-memory slice.

use vstd::prelude::*;
use crate::arith::{ceil_div, ceil_div_exec, lemma_ceil_div_step, law_spans, span_at, spans_from};
use crate::segment::SegmentConfig;

verus! {

/// Iterator over the windows of a slice: the window starting at `cursor`
/// covers `cursor..min(cursor + window_size, len)`, and the cursor advances by
/// `step_size`.
pub struct Segmentor<'a, T> {
    slice: &'a [T],
    cursor: usize,
    config: SegmentConfig,
}

impl<'a, T> Segmentor<'a, T> {
    pub closed spec fn spec_slice(self) -> Seq<T> {
        self.slice@
    }

    /// Start of the next window.
    pub closed spec fn spec_cursor(self) -> nat {
        self.cursor as nat
    }

    pub closed spec fn spec_config(self) -> SegmentConfig {
        self.config
    }

    /// Number of windows not yet produced.
    pub open spec fn spec_remaining(self) -> nat {
        if self.spec_cursor() >= self.spec_slice().len() {
            0
        } else {
            ceil_div(
                (self.spec_slice().len() - self.spec_cursor()) as nat,
                self.spec_config().spec_step(),
            )
        }
    }

    /// The windows still to come, in order.
    pub open spec fn spec_windows(self) -> Seq<Seq<T>> {
        spans_from(
            self.spec_slice().len(),
            self.spec_config().spec_window(),
            self.spec_config().spec_step(),
            self.spec_cursor(),
        ).map_values(|p: (nat, nat)| self.spec_slice().subrange(p.0 as int, p.1 as int))
    }

    /// Starts at the beginning of `slice`.
    pub fn new(slice: &'a [T], config: SegmentConfig) -> (s: Self)
        ensures
            s.spec_slice() == slice@,
            s.spec_cursor() == 0,
            s.spec_config() == config,
    {
        Self { slice, cursor: 0, config }
    }

    /// Start of the next window.
    pub fn position(&self) -> (p: usize)
        ensures
            p == self.spec_cursor(),
    {
        self.cursor
    }

    /// The next window, then the cursor moves one step on; `None` once the
    /// cursor reaches the end of the slice.
    pub fn next(&mut self) -> (r: Option<&'a [T]>)
        requires
            old(self).spec_cursor() < old(self).spec_slice().len() ==> old(self).spec_cursor()
                + old(self).spec_config().spec_window() <= usize::MAX && old(self).spec_cursor()
                + old(self).spec_config().spec_step() <= usize::MAX,
        ensures
            final(self).spec_slice() == old(self).spec_slice(),
            final(self).spec_config() == old(self).spec_config(),
            old(self).spec_cursor() >= old(self).spec_slice().len() ==> r is None && *final(self)
                == *old(self),
            old(self).spec_cursor() < old(self).spec_slice().len() ==> {
                let i = old(self).spec_cursor() as int;
                let w = old(self).spec_config().spec_window() as int;
                let n = old(self).spec_slice().len() as int;
                &&& r matches Some(s)
                &&& s@ == old(self).spec_slice().subrange(i, if i + w <= n { i + w } else { n })
                &&& final(self).spec_cursor() == i + old(self).spec_config().spec_step()
                // no gap: the next window starts inside this one, or this one reaches the end
                &&& final(self).spec_cursor() <= i + s@.len() || i + s@.len() == n
            },
            r is Some <==> old(self).spec_remaining() > 0,
            r is Some ==> final(self).spec_remaining() + 1 == old(self).spec_remaining(),
            old(self).spec_windows() == match r {
                Some(s) => seq![s@] + final(self).spec_windows(),
                None => Seq::<Seq<T>>::empty(),
            },
    {
        let n = self.slice.len();
        if self.cursor >= n {
            return None;
        }
        let i = self.cursor;
        let w = self.config.window_size();
        let step = self.config.step_size();
        let j = if i + w <= n {
            i + w
        } else {
            n
        };
        proof {
            lemma_ceil_div_step((n - i) as nat, step as nat);
        }
        let ghost before = self.spec_windows();
        self.cursor = i + step;
        let r = &self.slice[i..j];
        proof {
            assert(before =~= seq![r@] + self.spec_windows());
        }
        Some(r)
    }

    /// The exact number of windows left; zero once the cursor has passed the
    /// end of the slice.
    pub fn len(&self) -> (n: usize)
        ensures
            n == self.spec_remaining(),
    {
        let r = self.slice.len().saturating_sub(self.cursor);
        ceil_div_exec(r, self.config.step_size())
    }

    /// The exact number of windows left, as `(n, Some(n))`.
    pub fn size_hint(&self) -> (hint: (usize, Option<usize>))
        ensures
            hint.0 == self.spec_remaining(),
            hint.1 == Some(hint.0),
    {
        let len = self.len();
        (len, Some(len))
    }
}

/// The windows of a fresh segmentor, in the order `next` yields them until
/// `None`: `ceil(n / step)` windows of the `n`-item slice, window `k` being
/// `slice[k * step .. min(k * step + window, n)]`. Each is non-empty, the
/// first starts at 0, each starts inside the one before, and the last reaches
/// the end of the slice.
pub proof fn law_slice_windows<'a, T>(seg: Segmentor<'a, T>)
    requires
        seg.spec_cursor() == 0,
        0 < seg.spec_config().spec_step() <= seg.spec_config().spec_window(),
    ensures
        ({
            let n = seg.spec_slice().len();
            let w = seg.spec_config().spec_window();
            let step = seg.spec_config().spec_step();
            &&& seg.spec_windows() =~= Seq::new(
                ceil_div(n, step),
                |k: int|
                    seg.spec_slice().subrange(
                        span_at(n, w, step, k as nat).0 as int,
                        span_at(n, w, step, k as nat).1 as int,
                    ),
            )
            &&& forall|k: nat|
                k < ceil_div(n, step) ==> #[trigger] span_at(n, w, step, k).0 < span_at(
                    n,
                    w,
                    step,
                    k,
                ).1
            &&& forall|k: nat|
                k + 1 < ceil_div(n, step) ==> #[trigger] span_at(n, w, step, k + 1).0 <= span_at(
                    n,
                    w,
                    step,
                    k,
                ).1
            &&& n > 0 ==> span_at(n, w, step, 0).0 == 0 && span_at(
                n,
                w,
                step,
                (ceil_div(n, step) - 1) as nat,
            ).1 == n
        }),
{
    let n = seg.spec_slice().len();
    let w = seg.spec_config().spec_window();
    let step = seg.spec_config().spec_step();
    law_spans(n, w, step);
}

} // verus!
