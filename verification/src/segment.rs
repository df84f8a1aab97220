//! Segment configuration for splitting an audio stream into overlapping windows.

use vstd::prelude::*;
use vstd::arithmetic::div_mod::lemma_fundamental_div_mod_converse_div;
use vstd::arithmetic::mul::lemma_mul_inequality;

verus! {

/// Audio sample rate. FFmpeg always resamples to this rate in the pipeline.
pub const SAMPLE_RATE: usize = 16000;

/// Rejected segment sizes: a configuration needs `window_size >= step_size > 0`.
#[derive(Clone, Copy, Debug, PartialEq, Eq, Structural)]
pub struct SegmentConfigError {
    pub window_size: usize,
    pub step_size: usize,
}

/// Window and step sizes (in samples) of a segmentation.
///
/// Every value of this type satisfies `window_size >= step_size > 0`.
#[derive(Clone, Copy, Debug)]
pub struct SegmentConfig {
    window_size: usize,
    step_size: usize,
}

impl SegmentConfig {
    /// The window size in samples.
    pub closed spec fn spec_window(self) -> nat {
        self.window_size as nat
    }

    /// The step size in samples.
    pub closed spec fn spec_step(self) -> nat {
        self.step_size as nat
    }

    #[verifier::type_invariant]
    closed spec fn wf(self) -> bool {
        self.window_size >= self.step_size && self.step_size > 0
    }

    /// Builds a configuration; fails unless `window_size >= step_size > 0`.
    pub fn new(window_size: usize, step_size: usize) -> (res: Result<Self, SegmentConfigError>)
        ensures
            match res {
                Ok(c) => window_size >= step_size && step_size > 0 && c.spec_window()
                    == window_size && c.spec_step() == step_size,
                Err(e) => !(window_size >= step_size && step_size > 0) && e == (
                SegmentConfigError { window_size, step_size }),
            },
    {
        if window_size >= step_size && step_size > 0 {
            Ok(Self { window_size, step_size })
        } else {
            Err(SegmentConfigError { window_size, step_size })
        }
    }

    /// Builds a configuration from a window length and the overlap kept between
    /// consecutive windows (both in samples); the step is the window minus the
    /// overlap, saturating at zero.
    pub fn from_sizes(window_size: usize, overlap_size: usize) -> (res: Result<
        Self,
        SegmentConfigError,
    >)
        ensures
            ({
                let step = if overlap_size <= window_size {
                    window_size - overlap_size
                } else {
                    0
                };
                match res {
                    Ok(c) => step > 0 && c.spec_window() == window_size && c.spec_step() == step,
                    Err(e) => step == 0 && e == (SegmentConfigError {
                        window_size,
                        step_size: step as usize,
                    }),
                }
            }),
    {
        let step_size = window_size.saturating_sub(overlap_size);
        Self::new(window_size, step_size)
    }

    /// The window size in samples; never smaller than the step size.
    pub fn window_size(&self) -> (w: usize)
        ensures
            w == self.spec_window(),
            w >= self.spec_step(),
    {
        proof {
            use_type_invariant(self);
        }
        self.window_size
    }

    /// The step size in samples; always positive.
    pub fn step_size(&self) -> (s: usize)
        ensures
            s == self.spec_step(),
            s > 0,
    {
        proof {
            use_type_invariant(self);
        }
        self.step_size
    }

    /// Number of samples shared by consecutive windows.
    pub fn overlap_size(&self) -> (o: usize)
        ensures
            o == self.spec_window() - self.spec_step(),
    {
        proof {
            use_type_invariant(self);
        }
        self.window_size - self.step_size
    }
}

/// The `k`-th window of `input` for `config`: `window_size` samples starting
/// at `k * step_size`.
pub open spec fn window_at<T>(input: Seq<T>, k: nat, config: SegmentConfig) -> Seq<T> {
    input.subrange(
        (k * config.spec_step()) as int,
        (k * config.spec_step() + config.spec_window()) as int,
    )
}

/// Consecutive windows share `window_size - step_size` samples: the head of
/// window `k + 1` is the tail of window `k`.
pub proof fn law_consecutive_windows_overlap<T>(input: Seq<T>, k: nat, config: SegmentConfig)
    requires
        config.spec_step() <= config.spec_window(),
        (k + 1) * config.spec_step() + config.spec_window() <= input.len(),
    ensures
        window_at(input, k + 1, config).subrange(
            0,
            config.spec_window() - config.spec_step(),
        ) == window_at(input, k, config).subrange(
            config.spec_step() as int,
            config.spec_window() as int,
        ),
{
    let step = config.spec_step();
    let w = config.spec_window();
    assert((k + 1) * step == k * step + step) by (nonlinear_arith);
    assert(window_at(input, k + 1, config).subrange(0, w - step) =~= window_at(input, k, config).subrange(
        step as int,
        w as int,
    ));
}

/// The number of full windows in `len` samples: the `k` with
/// `k * step_size + window_size <= len`.
pub open spec fn full_windows(len: nat, config: SegmentConfig) -> nat {
    if len < config.spec_window() {
        0
    } else {
        ((len - config.spec_window()) as nat / config.spec_step() + 1) as nat
    }
}

/// Everything a stream of `input` yields: each full window in order, then,
/// if samples remain after the start of the next window, those samples.
pub open spec fn stream_windows<T>(input: Seq<T>, config: SegmentConfig) -> Seq<Seq<T>> {
    let f = full_windows(input.len(), config);
    let tail_start = f * config.spec_step();
    Seq::new(f, |k: int| window_at(input, k as nat, config)) + if tail_start < input.len() {
        seq![input.subrange(tail_start as int, input.len() as int)]
    } else {
        Seq::<Seq<T>>::empty()
    }
}

/// Streaming segmentation: samples arrive one at a time; every time
/// `window_size` samples are buffered the window is emitted and the first
/// `step_size` samples are dropped, so consecutive windows share
/// `window_size - step_size` samples. At the end of the stream the samples
/// still buffered form a last, shorter window.
pub struct SegmentBuffer<T> {
    config: SegmentConfig,
    pending: Vec<T>,
    consumed: Ghost<Seq<T>>,
    emitted: Ghost<nat>,
    outputs: Ghost<Seq<Seq<T>>>,
}

impl<T: Copy> SegmentBuffer<T> {
    pub closed spec fn spec_config(self) -> SegmentConfig {
        self.config
    }

    /// Samples buffered for the next window.
    pub closed spec fn spec_pending(self) -> Seq<T> {
        self.pending@
    }

    /// Every sample pushed so far, in order.
    pub closed spec fn spec_consumed(self) -> Seq<T> {
        self.consumed@
    }

    /// Number of windows emitted so far.
    pub closed spec fn spec_emitted(self) -> nat {
        self.emitted@
    }

    /// The windows emitted so far, in order.
    pub closed spec fn spec_outputs(self) -> Seq<Seq<T>> {
        self.outputs@
    }

    /// The buffer holds the samples after the start of the next window, and
    /// fewer than a window of them; the windows emitted so far are the first
    /// windows of the input, the last of them already complete.
    pub closed spec fn wf(self) -> bool {
        let start = self.emitted@ * self.config.spec_step();
        &&& 0 < self.config.spec_step() <= self.config.spec_window()
        &&& self.pending.len() < self.config.spec_window()
        &&& start + self.pending.len() == self.consumed@.len()
        &&& self.pending@ == self.consumed@.subrange(start as int, self.consumed@.len() as int)
        &&& self.emitted@ > 0 ==> (self.emitted@ - 1) * self.config.spec_step()
            + self.config.spec_window() <= self.consumed@.len()
        &&& self.outputs@.len() == self.emitted@
        &&& forall|k: int|
            0 <= k < self.emitted@ ==> #[trigger] self.outputs@[k] == window_at(
                self.consumed@,
                k as nat,
                self.config,
            )
    }

    /// An empty buffer for `config`.
    pub fn new(config: SegmentConfig) -> (b: Self)
        ensures
            b.wf(),
            b.spec_config() == config,
            b.spec_pending() == Seq::<T>::empty(),
            b.spec_consumed() == Seq::<T>::empty(),
            b.spec_emitted() == 0,
            b.spec_outputs() == Seq::<Seq<T>>::empty(),
    {
        let w = config.window_size();
        let st = config.step_size();
        let b = SegmentBuffer {
            config,
            pending: Vec::new(),
            consumed: Ghost(Seq::empty()),
            emitted: Ghost(0),
            outputs: Ghost(Seq::empty()),
        };
        proof {
            assert(b.emitted@ * b.config.spec_step() == 0);
            assert(b.pending@ =~= b.consumed@.subrange(0, 0));
        }
        b
    }

    /// Buffers one sample; when the buffer reaches `window_size` samples it is
    /// emitted as a window, and the first `step_size` samples are dropped. The
    /// `k`-th window emitted is the run of `window_size` samples of the input
    /// starting at `k * step_size`.
    pub fn push(&mut self, sample: T) -> (r: Option<Vec<T>>)
        requires
            old(self).wf(),
        ensures
            final(self).wf(),
            final(self).spec_config() == old(self).spec_config(),
            final(self).spec_consumed() == old(self).spec_consumed().push(sample),
            ({
                let buf = old(self).spec_pending().push(sample);
                let w = old(self).spec_config().spec_window();
                let step = old(self).spec_config().spec_step();
                if buf.len() == w {
                    &&& r matches Some(win)
                    &&& win@ == buf
                    &&& win@ == window_at(
                        final(self).spec_consumed(),
                        old(self).spec_emitted(),
                        old(self).spec_config(),
                    )
                    &&& final(self).spec_pending() == buf.subrange(step as int, w as int)
                    &&& final(self).spec_emitted() == old(self).spec_emitted() + 1
                } else {
                    &&& r is None
                    &&& final(self).spec_pending() == buf
                    &&& final(self).spec_emitted() == old(self).spec_emitted()
                }
            }),
            final(self).spec_outputs() == match r {
                Some(win) => old(self).spec_outputs().push(win@),
                None => old(self).spec_outputs(),
            },
    {
        let w = self.config.window_size();
        let step = self.config.step_size();
        let ghost old_pending = self.pending@;
        let ghost old_consumed = self.consumed@;
        let ghost start = self.emitted@ * step;
        self.pending.push(sample);
        proof {
            self.consumed@ = self.consumed@.push(sample);
            assert(self.pending@ =~= self.consumed@.subrange(start as int, self.consumed@.len() as int));
            let e = self.emitted@;
            assert forall|k: int| 0 <= k < e implies #[trigger] self.outputs@[k] == window_at(
                self.consumed@,
                k as nat,
                self.config,
            ) by {
                lemma_mul_inequality(k, e - 1, step as int);
                assert(window_at(self.consumed@, k as nat, self.config) =~= window_at(
                    old_consumed,
                    k as nat,
                    self.config,
                ));
            }
        }
        if self.pending.len() == w {
            let mut full: Vec<T> = Vec::new();
            std::mem::swap(&mut full, &mut self.pending);
            let mut rest: Vec<T> = Vec::new();
            let mut i: usize = step;
            while i < w
                invariant
                    full.len() == w,
                    step <= i <= w,
                    rest@ == full@.subrange(step as int, i as int),
                decreases w - i,
            {
                rest.push(full[i]);
                i = i + 1;
                proof {
                    assert(rest@ =~= full@.subrange(step as int, i as int));
                }
            }
            self.pending = rest;
            proof {
                let new_start = (self.emitted@ + 1) * step;
                assert(new_start == start + step) by (nonlinear_arith)
                    requires new_start == (self.emitted@ + 1) * step, start == self.emitted@ * step;
                let e = self.emitted@;
                self.emitted@ = e + 1;
                assert(self.pending@ =~= self.consumed@.subrange(new_start as int, self.consumed@.len() as int));
                assert(full@ =~= self.consumed@.subrange(start as int, start + w));
                assert(full@ == window_at(self.consumed@, e, self.config));
                self.outputs@ = self.outputs@.push(full@);
                assert((self.emitted@ - 1) * step == start);
            }
            Some(full)
        } else {
            None
        }
    }

    /// Ends the stream: the buffered samples form a last window, if there are
    /// any. They are the input from `emitted * step_size` on.
    pub fn finish(self) -> (r: Option<Vec<T>>)
        requires
            self.wf(),
        ensures
            r is Some <==> self.spec_pending().len() > 0,
            r matches Some(win) ==> win@ == self.spec_pending() && win@ == self.spec_consumed().subrange(
                (self.spec_emitted() * self.spec_config().spec_step()) as int,
                self.spec_consumed().len() as int,
            ),
            // the whole stream: every window emitted, then this last one
            self.spec_outputs() + match r {
                Some(win) => seq![win@],
                None => Seq::<Seq<T>>::empty(),
            } == stream_windows(self.spec_consumed(), self.spec_config()),
    {
        proof {
            let len = self.consumed@.len();
            let w = self.config.spec_window();
            let step = self.config.spec_step();
            let e = self.emitted@;
            assert(e == full_windows(len, self.config)) by {
                if len >= w {
                    assert(e > 0) by {
                        if e == 0 {
                            assert(e * step == 0) by (nonlinear_arith)
                                requires e == 0;
                        }
                    }
                    let x = (len - w) as int;
                    let q = (e - 1) as int;
                    assert(e * step == q * step + step) by (nonlinear_arith)
                        requires q == e - 1, e > 0;
                    lemma_fundamental_div_mod_converse_div(x, step as int, q, x - q * step);
                } else if e > 0 {
                    assert((e - 1) * step >= 0) by (nonlinear_arith)
                        requires e > 0, step > 0;
                }
            }
            assert(Seq::new(e, |k: int| window_at(self.consumed@, k as nat, self.config))
                =~= self.outputs@);
        }
        if self.pending.len() > 0 {
            Some(self.pending)
        } else {
            None
        }
    }
}

} // verus!
