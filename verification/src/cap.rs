//! Caption generation bookkeeping.

use vstd::prelude::*;
use crate::segment::SegmentConfig;

verus! {

/// The path `Path::with_extension` makes of `path` and `extension`.
pub uninterp spec fn path_with_extension(path: Seq<char>, extension: Seq<char>) -> Seq<char>;

/// Calls `std::path::Path::with_extension` on `path`. Both arguments are UTF-8,
/// so the result is too and converts to a `String` without loss. The extension
/// must hold no path separator (`/`, or `\\` on Windows): std panics on one.
/// Claimed: the result is `path_with_extension(path, extension)`, a function of
/// the two strings alone.
#[verifier::external_body]
fn with_extension(path: &str, extension: &str) -> (r: String)
    requires
        !extension@.contains('/'),
        !extension@.contains('\\'),
    ensures
        r@ == path_with_extension(path@, extension@),
{
    std::path::Path::new(path).with_extension(extension).to_string_lossy().into_owned()
}

/// Extension of generated subtitle files.
pub const SRT_EXTENSION: &'static str = "srt";

/// Validated configuration for caption generation.
#[derive(Debug)]
pub struct CapConfig {
    pub audio_path: String,
    pub output_path: String,
    pub preview: bool,
    pub segment_config: SegmentConfig,
}

impl CapConfig {
    /// Captions `audio_path` into `output`, by default the audio path with the
    /// extension replaced by `srt`.
    pub fn new(
        audio_path: String,
        output: Option<String>,
        preview: bool,
        segment_config: SegmentConfig,
    ) -> (c: Self)
        ensures
            c.audio_path@ == audio_path@,
            c.output_path@ == match output {
                Some(o) => o@,
                None => path_with_extension(audio_path@, SRT_EXTENSION@),
            },
            c.preview == preview,
            c.segment_config == segment_config,
    {
        let output_path = match output {
            Some(o) => o,
            None => {
                proof {
                    reveal_strlit("srt");
                    assert(!SRT_EXTENSION@.contains('/'));
                    assert(!SRT_EXTENSION@.contains('\\'));
                }
                with_extension(audio_path.as_str(), SRT_EXTENSION)
            },
        };
        CapConfig { audio_path, output_path, preview, segment_config }
    }
}

/// Summary of caption generation from a channel.
#[derive(Clone, Copy, Debug, PartialEq, Eq, Structural)]
pub struct CaptionSummary {
    pub completed: usize,
    pub failed: usize,
}

impl Default for CaptionSummary {
    fn default() -> (s: Self)
        ensures
            s.completed == 0,
            s.failed == 0,
    {
        CaptionSummary { completed: 0, failed: 0 }
    }
}

impl CaptionSummary {
    /// Returns true if all captions succeeded (no failures).
    pub fn is_success(&self) -> (b: bool)
        ensures
            b == (self.failed == 0),
    {
        self.failed == 0
    }

    /// Counts one caption attempt: a completed one when it succeeded, a
    /// failed one otherwise.
    pub fn record(&mut self, succeeded: bool)
        requires
            succeeded ==> old(self).completed < usize::MAX,
            !succeeded ==> old(self).failed < usize::MAX,
        ensures
            succeeded ==> *final(self) == (CaptionSummary {
                completed: (old(self).completed + 1) as usize,
                failed: old(self).failed,
            }),
            !succeeded ==> *final(self) == (CaptionSummary {
                completed: old(self).completed,
                failed: (old(self).failed + 1) as usize,
            }),
    {
        if succeeded {
            self.completed = self.completed + 1;
        } else {
            self.failed = self.failed + 1;
        }
    }
}

} // verus!
