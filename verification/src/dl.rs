//! Download bookkeeping: summaries, cached-path validation, configuration.

use vstd::prelude::*;

verus! {

/// Summary of download operations.
#[derive(Clone, Copy, Debug, PartialEq, Eq, Structural)]
pub struct DownloadSummary {
    pub completed: usize,
    pub failed: usize,
}

impl Default for DownloadSummary {
    fn default() -> (s: Self)
        ensures
            s.completed == 0,
            s.failed == 0,
    {
        DownloadSummary { completed: 0, failed: 0 }
    }
}

impl DownloadSummary {
    /// Returns true if all downloads succeeded (no failures).
    pub fn is_success(&self) -> (b: bool)
        ensures
            b == (self.failed == 0),
    {
        self.failed == 0
    }
}

/// Cached paths are usable when there is at least one and every one of them
/// still exists; `exists[i]` tells whether the `i`-th cached path exists.
pub open spec fn cache_is_valid(exists: Seq<bool>) -> bool {
    exists.len() > 0 && forall|i: int| 0 <= i < exists.len() ==> #[trigger] exists[i]
}

/// A cache entry is valid exactly when it names at least one path and no
/// named path is missing; adding a path keeps a valid entry valid exactly when
/// the new path exists, and one missing path anywhere, the last one included,
/// makes the entry invalid.
pub proof fn law_cache_validity(exists: Seq<bool>, more: bool, i: int)
    ensures
        cache_is_valid(exists) <==> (exists.len() > 0 && !exists.contains(false)),
        cache_is_valid(exists.push(more)) <==> (more && (exists.len() == 0 || cache_is_valid(
            exists,
        ))),
        0 <= i < exists.len() && !exists[i] ==> !cache_is_valid(exists),
        exists.len() > 0 && !exists.last() ==> !cache_is_valid(exists),
        !cache_is_valid(Seq::<bool>::empty()),
{
    if cache_is_valid(exists) {
        if exists.contains(false) {
            let j = choose|j: int| 0 <= j < exists.len() && exists[j] == false;
            assert(exists[j]);
        }
    }
    if exists.len() > 0 && !exists.contains(false) {
        assert forall|j: int| 0 <= j < exists.len() implies #[trigger] exists[j] by {
            if !exists[j] {
                assert(exists.contains(false));
            }
        }
    }
    let e = exists.push(more);
    if cache_is_valid(e) {
        assert(e[exists.len() as int]);
        assert forall|j: int| 0 <= j < exists.len() implies #[trigger] exists[j] by {
            assert(e[j]);
        }
    }
    if more && (exists.len() == 0 || cache_is_valid(exists)) {
        assert forall|j: int| 0 <= j < e.len() implies #[trigger] e[j] by {
            if j < exists.len() {
                assert(exists[j]);
            }
        }
    }
    if exists.len() > 0 && !exists.last() {
        assert(!exists[exists.len() - 1]);
    }
}

/// Validate that a cache entry names at least one path and that all cached
/// paths still exist.
pub fn validate_cache(exists: &[bool]) -> (valid: bool)
    ensures
        valid == cache_is_valid(exists@),
{
    if exists.len() == 0 {
        return false;
    }
    let mut is_valid = true;
    let n = exists.len();
    for i in 0..n
        invariant
            n == exists@.len(),
            is_valid == forall|j: int| 0 <= j < i ==> #[trigger] exists@[j],
    {
        if !exists[i] {
            is_valid = false;
        }
    }
    is_valid
}

/// Validated download configuration.
#[derive(Clone, Debug)]
pub struct DownloadConfig {
    pub url: String,
    pub output_dir: Option<String>,
}

} // verus!
