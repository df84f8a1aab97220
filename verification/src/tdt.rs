//! Decisions of greedy Token-and-Duration Transducer (TDT) decoding, frame
//! arithmetic of the TDT model, and token timing.

use vstd::prelude::*;

verus! {

/// Audio samples per mel-spectrogram frame.
pub const HOP_LENGTH: usize = 160;

/// TDT encoder subsampling factor: one encoder frame for every 8 mel frames.
pub const SUBSAMPLING_FACTOR: usize = 8;

/// Duration prediction values for the TDT decoder: the number of encoder
/// frames to advance (0-4).
pub const DURATIONS: [usize; 5] = [0, 1, 2, 3, 4];

/// Maximum number of tokens to emit per encoder frame.
pub const MAX_TOKENS_PER_FRAME: usize = 10;

/// A decoded token with the encoder frame where it was emitted and its
/// predicted duration (in encoder frames).
#[derive(Clone, Copy, Debug, PartialEq, Eq, Structural)]
pub struct TokenDuration {
    pub token_id: usize,
    pub frame_index: usize,
    pub duration: usize,
}

impl TokenDuration {
    pub fn new(token_id: usize, frame_index: usize, duration: usize) -> (t: Self)
        ensures
            t == (TokenDuration { token_id, frame_index, duration }),
    {
        TokenDuration { token_id, frame_index, duration }
    }
}

/// The decoder predicted a duration index with no duration value.
#[derive(Clone, Copy, Debug, PartialEq, Eq, Structural)]
pub struct DurationIndexOutOfBounds {
    pub index: usize,
    pub max: usize,
}

/// The duration (in frames) for the index of the best duration logit.
pub fn duration_for_index(index: usize) -> (r: Result<usize, DurationIndexOutOfBounds>)
    ensures
        index < 5 ==> r == Ok::<usize, DurationIndexOutOfBounds>(index),
        index >= 5 ==> r == Err::<usize, DurationIndexOutOfBounds>(
            DurationIndexOutOfBounds { index, max: 4 },
        ),
{
    if index < DURATIONS.len() {
        Ok(DURATIONS[index])
    } else {
        Err(DurationIndexOutOfBounds { index, max: DURATIONS.len() - 1 })
    }
}

/// Encoder frame index of an audio sample index.
pub open spec fn spec_samples_to_frames(samples: nat) -> nat {
    samples / (HOP_LENGTH as nat) / (SUBSAMPLING_FACTOR as nat)
}

/// An encoder frame covers `SUBSAMPLING_FACTOR * HOP_LENGTH` samples: the
/// frame of sample `s` is the one whose first sample is at or before `s` and
/// whose successor starts after `s`, so `frames_to_samples` of it rounds `s`
/// down to a frame boundary.
pub proof fn law_samples_to_frames(samples: nat)
    ensures
        ({
            let f = spec_samples_to_frames(samples);
            &&& f * SUBSAMPLING_FACTOR * HOP_LENGTH <= samples
            &&& samples < (f + 1) * SUBSAMPLING_FACTOR * HOP_LENGTH
        }),
{
    let s = samples as int;
    vstd::arithmetic::div_mod::lemma_div_denominator(s, 160, 8);
    let f = s / 1280;
    vstd::arithmetic::div_mod::lemma_fundamental_div_mod(s, 1280);
    vstd::arithmetic::div_mod::lemma_mod_pos_bound(s, 1280);
    assert(spec_samples_to_frames(samples) == f);
    assert(f * 8 * 160 == f * 1280) by (nonlinear_arith);
    assert((f + 1) * 8 * 160 == f * 1280 + 1280) by (nonlinear_arith);
}

/// Convert audio samples index to encoder frames index.
pub fn samples_to_frames(samples: usize) -> (f: usize)
    ensures
        f == spec_samples_to_frames(samples as nat),
{
    samples / HOP_LENGTH / SUBSAMPLING_FACTOR
}

/// Convert encoder frames index to audio samples index.
pub fn frames_to_samples(frames: usize) -> (s: usize)
    requires
        frames * SUBSAMPLING_FACTOR * HOP_LENGTH <= usize::MAX,
    ensures
        s == frames * SUBSAMPLING_FACTOR * HOP_LENGTH,
{
    frames * SUBSAMPLING_FACTOR * HOP_LENGTH
}

/// Moves tokens decoded from a chunk that starts `offset` samples into the
/// audio to absolute frame positions.
pub fn shift_frames(tokens: &mut Vec<TokenDuration>, offset: usize)
    requires
        forall|i: int|
            0 <= i < old(tokens).len() ==> #[trigger] old(tokens)[i].frame_index
                + spec_samples_to_frames(offset as nat) <= usize::MAX,
    ensures
        final(tokens).len() == old(tokens).len(),
        forall|i: int|
            0 <= i < final(tokens).len() ==> #[trigger] final(tokens)[i] == (TokenDuration {
                frame_index: (old(tokens)[i].frame_index + spec_samples_to_frames(
                    offset as nat,
                )) as usize,
                ..old(tokens)[i]
            }),
{
    let frames = samples_to_frames(offset);
    let n = tokens.len();
    for i in 0..n
        invariant
            n == old(tokens).len(),
            tokens.len() == n,
            frames == spec_samples_to_frames(offset as nat),
            forall|j: int|
                0 <= j < n ==> #[trigger] old(tokens)[j].frame_index + frames <= usize::MAX,
            forall|j: int|
                0 <= j < i ==> #[trigger] tokens[j] == (TokenDuration {
                    frame_index: (old(tokens)[j].frame_index + frames) as usize,
                    ..old(tokens)[j]
                }),
            forall|j: int| i <= j < n ==> #[trigger] tokens[j] == old(tokens)[j],
    {
        let t = tokens[i];
        let moved = TokenDuration { frame_index: t.frame_index + frames, ..t };
        tokens.set(i, moved);
    }
}

/// The tokens of consecutive chunks joined in chunk order.
pub open spec fn joined_tokens(chunks: Seq<Vec<TokenDuration>>) -> Seq<TokenDuration> {
    chunks.map_values(|c: Vec<TokenDuration>| c@).flatten()
}

/// Joins the tokens decoded from consecutive chunks (already moved to
/// absolute frames) into one sequence: the tokens of the first chunk, then
/// those of the second, and so on.
pub fn merge_chunks(chunks: Vec<Vec<TokenDuration>>) -> (merged: Vec<TokenDuration>)
    ensures
        merged@ == joined_tokens(chunks@),
{
    let mut merged: Vec<TokenDuration> = Vec::new();
    let n = chunks.len();
    let ghost views = chunks@.map_values(|c: Vec<TokenDuration>| c@);
    for i in 0..n
        invariant
            n == chunks.len(),
            views == chunks@.map_values(|c: Vec<TokenDuration>| c@),
            merged@ == views.take(i as int).flatten_alt(),
    {
        let chunk = &chunks[i];
        let m = chunk.len();
        let ghost before = merged@;
        for j in 0..m
            invariant
                m == chunk.len(),
                merged@ == before + chunk@.take(j as int),
        {
            merged.push(chunk[j]);
            proof {
                assert(merged@ =~= before + chunk@.take(j + 1));
            }
        }
        proof {
            assert(chunk@.take(m as int) =~= chunk@);
            assert(views.take(i + 1).drop_last() =~= views.take(i as int));
            assert(views.take(i + 1).last() == chunk@);
        }
    }
    proof {
        assert(views.take(n as int) =~= views);
        views.lemma_flatten_and_flatten_alt_are_equivalent();
    }
    merged
}

/// Number of encoder frames to decode: the length the encoder reported,
/// bounded by the frames actually present.
pub fn decode_length(reported: i64, available: usize) -> (n: usize)
    ensures
        n == if (reported as usize) < available {
            reported as usize
        } else {
            available
        },
{
    let r = reported as usize;
    if r < available {
        r
    } else {
        available
    }
}

/// State of greedy TDT decoding over `encoded_length` encoder frames.
///
/// At each step the decoder-joint network is run on the current frame and
/// predicts a token and a duration. A non-blank token is emitted at the current
/// frame (and becomes the decoder's next input). A non-zero duration advances
/// that many frames; after `MAX_TOKENS_PER_FRAME` steps without advancing, the
/// decoder moves on by one frame. The frame index never passes
/// `encoded_length`; decoding is over when it reaches it.
pub struct GreedyDecoder {
    blank_id: usize,
    encoded_length: usize,
    frame_index: usize,
    attempts: usize,
}

impl GreedyDecoder {
    pub closed spec fn spec_blank(self) -> nat {
        self.blank_id as nat
    }

    pub closed spec fn spec_length(self) -> nat {
        self.encoded_length as nat
    }

    /// The frame being decoded.
    pub closed spec fn spec_frame(self) -> nat {
        self.frame_index as nat
    }

    /// Decoder runs already spent on the current frame.
    pub closed spec fn spec_attempts(self) -> nat {
        self.attempts as nat
    }

    /// Decoding is over.
    pub open spec fn spec_done(self) -> bool {
        self.spec_frame() >= self.spec_length()
    }

    /// An upper bound on the decoder runs left; every step lowers it.
    pub open spec fn spec_budget(self) -> nat {
        ((self.spec_length() - self.spec_frame()) * MAX_TOKENS_PER_FRAME as nat
            - self.spec_attempts()) as nat
    }

    #[verifier::type_invariant]
    closed spec fn wf(self) -> bool {
        &&& self.frame_index <= self.encoded_length
        &&& self.attempts < MAX_TOKENS_PER_FRAME
    }

    /// Starts decoding at frame 0. `blank_id` is the tokenizer's blank token.
    pub fn new(blank_id: usize, encoded_length: usize) -> (d: Self)
        ensures
            d.spec_blank() == blank_id,
            d.spec_length() == encoded_length,
            d.spec_frame() == 0,
            d.spec_attempts() == 0,
    {
        GreedyDecoder { blank_id, encoded_length, frame_index: 0, attempts: 0 }
    }

    /// The frame being decoded.
    pub fn frame_index(&self) -> (f: usize)
        ensures
            f == self.spec_frame(),
            f <= self.spec_length(),
    {
        proof {
            use_type_invariant(self);
        }
        self.frame_index
    }

    /// Whether every frame has been decoded.
    pub fn is_done(&self) -> (b: bool)
        ensures
            b == self.spec_done(),
    {
        self.frame_index >= self.encoded_length
    }

    /// Takes the token and duration predicted at the current frame. Returns the
    /// token to emit (none for the blank token) and moves to the next state.
    pub fn step(&mut self, token_id: usize, duration: usize) -> (emitted: Option<TokenDuration>)
        requires
            !old(self).spec_done(),
            old(self).spec_frame() + duration <= usize::MAX,
            old(self).spec_frame() + 1 <= usize::MAX,
        ensures
            final(self).spec_blank() == old(self).spec_blank(),
            final(self).spec_length() == old(self).spec_length(),
            token_id != old(self).spec_blank() ==> emitted == Some(
                TokenDuration {
                    token_id,
                    frame_index: old(self).spec_frame() as usize,
                    duration,
                },
            ),
            token_id == old(self).spec_blank() ==> emitted is None,
            ({
                let f0 = old(self).spec_frame();
                let a0 = old(self).spec_attempts();
                let f1 = final(self).spec_frame();
                let a1 = final(self).spec_attempts();
                let len = old(self).spec_length();
                if duration != 0 {
                    a1 == 0 && f1 == (if f0 + duration <= len { f0 + duration } else { len as int })
                } else if a0 + 1 == MAX_TOKENS_PER_FRAME {
                    a1 == 0 && f1 == f0 + 1
                } else {
                    a1 == a0 + 1 && f1 == f0
                }
            }),
            final(self).spec_frame() <= final(self).spec_length(),
            final(self).spec_budget() < old(self).spec_budget(),
    {
        proof {
            use_type_invariant(&*self);
        }
        let frame = self.frame_index;
        let emitted = if token_id != self.blank_id {
            Some(TokenDuration::new(token_id, frame, duration))
        } else {
            None
        };
        let ghost old_budget = self.spec_budget();
        let ghost len = self.encoded_length as nat;
        if duration != 0 {
            let next = if frame + duration <= self.encoded_length {
                frame + duration
            } else {
                self.encoded_length
            };
            self.attempts = 0;
            self.frame_index = next;
        } else if self.attempts + 1 == MAX_TOKENS_PER_FRAME {
            self.attempts = 0;
            self.frame_index = frame + 1;
        } else {
            self.attempts = self.attempts + 1;
        }
        proof {
            let f0 = frame as nat;
            let f1 = self.frame_index as nat;
            assert((len - f1) * 10 <= (len - f0) * 10 - 10 || f1 == f0) by (nonlinear_arith)
                requires
                    f0 <= f1 <= len,
            ;
        }
        emitted
    }
}

} // verus!
