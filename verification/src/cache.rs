//! Cache layout and cache strategies of melops.
//!
//! Cache directory structure:
//! ```text
//! <system_cache_dir>/melops/
//! ├── artifacts/
//! │   ├── pages/          # Web page URL → media URLs
//! │   ├── downloads/      # Media URL → audio paths
//! │   └── transcriptions/ # Audio data → transcription segments
//! ├── models/             # ONNX models from melops-export
//! └── ort/                # OpenVINO execution provider cache
//! ```

use vstd::prelude::*;
use crate::cli::CacheArgs;
use crate::text::{path_join, join_path, lemma_join_extends_base};

verus! {

/// Cache operation strategy for resource access.
///
/// - `Use`: read-only, fails if not cached
/// - `Auto`: default behavior, computes if missing
/// - `Force`: forces recomputation, ignores cache
#[derive(Clone, Copy, Debug, PartialEq, Eq, Structural)]
pub enum CacheStrategy {
    /// Use existing cached value only (error if missing)
    Use,
    /// Use cache or compute if missing (default)
    Auto,
    /// Always recompute and update cache
    Force,
}

impl Default for CacheStrategy {
    fn default() -> (s: Self)
        ensures
            s == CacheStrategy::Auto,
    {
        CacheStrategy::Auto
    }
}

/// First move of a cached computation.
#[derive(Clone, Copy, Debug, PartialEq, Eq, Structural)]
pub enum CacheLookup {
    /// Read the cache entry first.
    ReadCache,
    /// Compute without looking at the cache.
    Compute,
}

/// What to do once the cache entry has been read (or failed to be read).
#[derive(Clone, Copy, Debug, PartialEq, Eq, Structural)]
pub enum AfterRead {
    /// Take the cached value.
    UseCached,
    /// Compute the value anew.
    Compute,
    /// Give up with the read error.
    Fail,
}

/// The first move of `strategy`: `Force` computes, the others read the cache.
pub open spec fn spec_first_step(strategy: CacheStrategy) -> CacheLookup {
    match strategy {
        CacheStrategy::Force => CacheLookup::Compute,
        _ => CacheLookup::ReadCache,
    }
}

/// The move after reading: `Use` takes whatever was read and fails when the
/// read failed; `Auto` takes the cached value when it was read and is still
/// valid, and computes otherwise.
pub open spec fn spec_after_read(strategy: CacheStrategy, read_ok: bool, valid: bool) -> AfterRead {
    match strategy {
        CacheStrategy::Use => if read_ok {
            AfterRead::UseCached
        } else {
            AfterRead::Fail
        },
        CacheStrategy::Auto => if read_ok && valid {
            AfterRead::UseCached
        } else {
            AfterRead::Compute
        },
        CacheStrategy::Force => AfterRead::Compute,
    }
}

/// Whether the result is written back to the cache: always but for `Use`.
pub open spec fn spec_writes_back(strategy: CacheStrategy) -> bool {
    strategy != CacheStrategy::Use
}

impl CacheStrategy {
    /// The first move of a cached computation.
    pub fn first_step(self) -> (step: CacheLookup)
        ensures
            step == spec_first_step(self),
    {
        match self {
            CacheStrategy::Force => CacheLookup::Compute,
            _ => CacheLookup::ReadCache,
        }
    }

    /// The move after reading the cache entry: `read_ok` tells whether the
    /// entry was read, `valid` whether what it names is still usable.
    pub fn after_read(self, read_ok: bool, valid: bool) -> (next: AfterRead)
        ensures
            next == spec_after_read(self, read_ok, valid),
    {
        match self {
            CacheStrategy::Use => if read_ok {
                AfterRead::UseCached
            } else {
                AfterRead::Fail
            },
            CacheStrategy::Auto => if read_ok && valid {
                AfterRead::UseCached
            } else {
                AfterRead::Compute
            },
            CacheStrategy::Force => AfterRead::Compute,
        }
    }

    /// Whether the result is written back to the cache.
    pub fn writes_back(self) -> (w: bool)
        ensures
            w == spec_writes_back(self),
    {
        self != CacheStrategy::Use
    }
}

/// `Use` never computes, never writes, and fails when nothing is cached;
/// `Force` never reads; `Auto` computes exactly when the cache entry is
/// missing or no longer valid.
pub proof fn law_cache_strategies(read_ok: bool, valid: bool)
    ensures
        spec_after_read(CacheStrategy::Use, read_ok, valid) != AfterRead::Compute,
        !read_ok ==> spec_after_read(CacheStrategy::Use, read_ok, valid) == AfterRead::Fail,
        !spec_writes_back(CacheStrategy::Use),
        spec_first_step(CacheStrategy::Force) == CacheLookup::Compute,
        spec_first_step(CacheStrategy::Auto) == CacheLookup::ReadCache,
        spec_first_step(CacheStrategy::Use) == CacheLookup::ReadCache,
        (spec_after_read(CacheStrategy::Auto, read_ok, valid) == AfterRead::Compute) <==> !(read_ok
            && valid),
        spec_after_read(CacheStrategy::Auto, read_ok, valid) != AfterRead::Fail,
{
}

/// `Use` hands back whatever the cache read gave: it takes the cached value
/// whenever the read succeeded, whether or not the value is still valid, and
/// fails exactly when the read failed. `Force` recomputes whatever was read.
/// `Auto` takes the cached value exactly when it was read and is valid.
pub proof fn law_after_read(read_ok: bool, valid: bool, other_valid: bool)
    ensures
        read_ok ==> spec_after_read(CacheStrategy::Use, read_ok, valid) == AfterRead::UseCached,
        spec_after_read(CacheStrategy::Use, read_ok, valid) == spec_after_read(
            CacheStrategy::Use,
            read_ok,
            other_valid,
        ),
        (spec_after_read(CacheStrategy::Use, read_ok, valid) == AfterRead::Fail) <==> !read_ok,
        spec_after_read(CacheStrategy::Force, read_ok, valid) == AfterRead::Compute,
        (spec_after_read(CacheStrategy::Auto, read_ok, valid) == AfterRead::UseCached) <==> (
        read_ok && valid),
{
}

/// Artifact subdirectory names
pub const ARTIFACTS_DIR: &'static str = "artifacts";

pub const PAGES_DIR: &'static str = "pages";

pub const DOWNLOADS_DIR: &'static str = "downloads";

pub const TRANSCRIPTIONS_DIR: &'static str = "transcriptions";

/// Models directory name
pub const MODELS_DIR: &'static str = "models";

/// ONNX Runtime cache directory name
pub const ORT_DIR: &'static str = "ort";

/// Name of the melops directory inside the system cache directory.
pub const APP_DIR: &'static str = "melops";

pub open spec fn spec_artifacts(base: Seq<char>) -> Seq<char> {
    path_join(base, ARTIFACTS_DIR@)
}

pub open spec fn spec_pages(base: Seq<char>) -> Seq<char> {
    path_join(spec_artifacts(base), PAGES_DIR@)
}

pub open spec fn spec_downloads(base: Seq<char>) -> Seq<char> {
    path_join(spec_artifacts(base), DOWNLOADS_DIR@)
}

pub open spec fn spec_transcriptions(base: Seq<char>) -> Seq<char> {
    path_join(spec_artifacts(base), TRANSCRIPTIONS_DIR@)
}

pub open spec fn spec_models(base: Seq<char>) -> Seq<char> {
    path_join(base, MODELS_DIR@)
}

pub open spec fn spec_ort(base: Seq<char>) -> Seq<char> {
    path_join(base, ORT_DIR@)
}

/// With no directory given, the cache lives in the `melops` directory inside
/// the system cache directory `system`: the base starts with `system`, ends
/// with `melops`, and is longer than `melops` alone, so it is never a
/// `melops` directory relative to the working directory.
pub proof fn law_default_base(system: Seq<char>)
    requires
        system.len() > 0,
    ensures
        system.is_prefix_of(path_join(system, APP_DIR@)),
        APP_DIR@.is_suffix_of(path_join(system, APP_DIR@)),
        path_join(system, APP_DIR@).len() > APP_DIR@.len(),
{
    reveal_strlit("melops");
    let r = path_join(system, APP_DIR@);
    lemma_join_extends_base(system, APP_DIR@);
    assert(r.subrange(r.len() - APP_DIR@.len(), r.len() as int) =~= APP_DIR@);
}

/// The system cache directory could not be determined.
#[derive(Clone, Copy, Debug, PartialEq, Eq, Structural)]
pub struct CacheDirUnavailable;

/// Calls `dirs::cache_dir`, converting the path to a `String` (lossily, for
/// paths that are not UTF-8).
/// Claimed: a directory it returns is not the empty path (it is an absolute
/// `XDG_CACHE_HOME`, or the home directory joined with `.cache`, or the
/// platform's known cache folder). Which directory it is depends on the
/// environment and the platform and is left unsaid.
#[verifier::external_body]
fn system_cache_dir() -> (dir: Option<String>)
    ensures
        dir matches Some(d) ==> d@.len() > 0,
{
    dirs::cache_dir().map(|p| p.to_string_lossy().into_owned())
}

/// Validated cache directory: a base directory and the directories below it.
#[derive(Debug)]
pub struct CacheDir {
    base: String,
    artifacts: String,
    pages: String,
    downloads: String,
    transcriptions: String,
    models: String,
    ort: String,
}

impl CacheDir {
    /// The base cache directory.
    pub closed spec fn spec_base(self) -> Seq<char> {
        self.base@
    }

    #[verifier::type_invariant]
    closed spec fn wf(self) -> bool {
        &&& self.artifacts@ == spec_artifacts(self.base@)
        &&& self.pages@ == spec_pages(self.base@)
        &&& self.downloads@ == spec_downloads(self.base@)
        &&& self.transcriptions@ == spec_transcriptions(self.base@)
        &&& self.models@ == spec_models(self.base@)
        &&& self.ort@ == spec_ort(self.base@)
    }

    /// The cache layout below `base`.
    pub fn from_base(base: String) -> (d: Self)
        ensures
            d.spec_base() == base@,
    {
        let artifacts = join_path(base.as_str(), ARTIFACTS_DIR);
        let pages = join_path(artifacts.as_str(), PAGES_DIR);
        let downloads = join_path(artifacts.as_str(), DOWNLOADS_DIR);
        let transcriptions = join_path(artifacts.as_str(), TRANSCRIPTIONS_DIR);
        let models = join_path(base.as_str(), MODELS_DIR);
        let ort = join_path(base.as_str(), ORT_DIR);
        CacheDir { base, artifacts, pages, downloads, transcriptions, models, ort }
    }

    /// The cache layout below `<system>/melops`, given the system cache
    /// directory; fails when there is none.
    pub fn from_system_dir(system: Option<String>) -> (res: Result<Self, CacheDirUnavailable>)
        ensures
            system is None <==> res is Err,
            system matches Some(s) ==> res matches Ok(d) && d.spec_base() == path_join(
                s@,
                APP_DIR@,
            ),
    {
        match system {
            Some(dir) => Ok(Self::from_base(join_path(dir.as_str(), APP_DIR))),
            None => Err(CacheDirUnavailable),
        }
    }

    /// Create cache directory from optional path. When none is given, uses the
    /// `melops` directory inside the system cache directory, and fails when the
    /// system has none.
    pub fn new(cache_dir: Option<String>) -> (res: Result<Self, CacheDirUnavailable>)
        ensures
            cache_dir matches Some(dir) ==> res matches Ok(d) && d.spec_base() == dir@,
            cache_dir is None ==> (res matches Ok(d) ==> exists|s: Seq<char>|
                s.len() > 0 && d.spec_base() == path_join(s, APP_DIR@)),
    {
        match cache_dir {
            Some(dir) => Ok(Self::from_base(dir)),
            None => Self::from_system_dir(system_cache_dir()),
        }
    }

    /// Get path to pages cache (web page URL → media URLs)
    pub fn pages(&self) -> (p: &str)
        ensures
            p@ == spec_pages(self.spec_base()),
    {
        proof {
            use_type_invariant(self);
        }
        self.pages.as_str()
    }

    /// Get path to downloads cache (media URL → audio paths)
    pub fn downloads(&self) -> (p: &str)
        ensures
            p@ == spec_downloads(self.spec_base()),
    {
        proof {
            use_type_invariant(self);
        }
        self.downloads.as_str()
    }

    /// Get path to transcriptions cache (audio data → segments)
    pub fn transcriptions(&self) -> (p: &str)
        ensures
            p@ == spec_transcriptions(self.spec_base()),
    {
        proof {
            use_type_invariant(self);
        }
        self.transcriptions.as_str()
    }

    /// Get path to artifacts cache directory
    pub fn artifacts(&self) -> (p: &str)
        ensures
            p@ == spec_artifacts(self.spec_base()),
    {
        proof {
            use_type_invariant(self);
        }
        self.artifacts.as_str()
    }

    /// Get path to models cache directory
    pub fn models(&self) -> (p: &str)
        ensures
            p@ == spec_models(self.spec_base()),
    {
        proof {
            use_type_invariant(self);
        }
        self.models.as_str()
    }

    /// Get path to a model in the cache
    pub fn model(&self, model_id: &str) -> (p: String)
        ensures
            p@ == path_join(spec_models(self.spec_base()), model_id@),
    {
        proof {
            use_type_invariant(self);
        }
        join_path(self.models.as_str(), model_id)
    }

    /// Get path to ONNX Runtime cache
    pub fn ort(&self) -> (p: &str)
        ensures
            p@ == spec_ort(self.spec_base()),
    {
        proof {
            use_type_invariant(self);
        }
        self.ort.as_str()
    }

    /// Get the base cache directory path
    pub fn base(&self) -> (p: &str)
        ensures
            p@ == self.spec_base(),
    {
        self.base.as_str()
    }
}

impl Clone for CacheDir {
    fn clone(&self) -> (c: Self)
        ensures
            c == *self,
    {
        proof {
            use_type_invariant(self);
        }
        CacheDir {
            base: self.base.clone(),
            artifacts: self.artifacts.clone(),
            pages: self.pages.clone(),
            downloads: self.downloads.clone(),
            transcriptions: self.transcriptions.clone(),
            models: self.models.clone(),
            ort: self.ort.clone(),
        }
    }
}

/// Kinds of cache, one per cache directory.
#[derive(Clone, Copy, Debug, PartialEq, Eq, Structural)]
pub enum CacheType {
    /// All cache (entire melops directory)
    All,
    /// All artifacts (pages, downloads, transcriptions)
    Artifacts,
    /// Web page URL cache
    Pages,
    /// Downloaded audio cache
    Downloads,
    /// Transcription results cache
    Transcriptions,
    /// Exported models
    Models,
    /// ONNX Runtime cache
    Ort,
}

impl Default for CacheType {
    fn default() -> (t: Self)
        ensures
            t == CacheType::Artifacts,
    {
        CacheType::Artifacts
    }
}

impl CacheType {
    /// The directory of this cache type below `base`.
    pub open spec fn spec_path(self, base: Seq<char>) -> Seq<char> {
        match self {
            CacheType::All => base,
            CacheType::Artifacts => spec_artifacts(base),
            CacheType::Pages => spec_pages(base),
            CacheType::Downloads => spec_downloads(base),
            CacheType::Transcriptions => spec_transcriptions(base),
            CacheType::Models => spec_models(base),
            CacheType::Ort => spec_ort(base),
        }
    }

    /// Get the path for this cache type
    pub fn path<'a>(&self, cache_dir: &'a CacheDir) -> (p: &'a str)
        ensures
            p@ == self.spec_path(cache_dir.spec_base()),
    {
        match self {
            CacheType::All => cache_dir.base(),
            CacheType::Artifacts => cache_dir.artifacts(),
            CacheType::Pages => cache_dir.pages(),
            CacheType::Downloads => cache_dir.downloads(),
            CacheType::Transcriptions => cache_dir.transcriptions(),
            CacheType::Models => cache_dir.models(),
            CacheType::Ort => cache_dir.ort(),
        }
    }
}

/// Every cache directory lies below the base directory: its path extends the
/// base path.
pub proof fn law_cache_paths_below_base(cache_type: CacheType, base: Seq<char>)
    ensures
        base.is_prefix_of(cache_type.spec_path(base)),
{
    reveal_strlit("artifacts");
    reveal_strlit("pages");
    reveal_strlit("downloads");
    reveal_strlit("transcriptions");
    reveal_strlit("models");
    reveal_strlit("ort");
    let art = spec_artifacts(base);
    lemma_join_extends_base(base, ARTIFACTS_DIR@);
    lemma_join_extends_base(base, MODELS_DIR@);
    lemma_join_extends_base(base, ORT_DIR@);
    lemma_join_extends_base(art, PAGES_DIR@);
    lemma_join_extends_base(art, DOWNLOADS_DIR@);
    lemma_join_extends_base(art, TRANSCRIPTIONS_DIR@);
    let p = cache_type.spec_path(base);
    match cache_type {
        CacheType::Pages | CacheType::Downloads | CacheType::Transcriptions => {
            assert(base.is_prefix_of(p)) by {
                assert forall|i: int| 0 <= i < base.len() implies p[i] == base[i] by {
                    assert(art[i] == base[i]);
                }
            }
        },
        CacheType::All => {
            assert(base.subrange(0, base.len() as int) =~= base);
        },
        _ => {},
    }
}

/// Subcommands of cache management.
#[derive(Clone, Copy, Debug, PartialEq, Eq, Structural)]
pub enum CacheSubcommand {
    /// Show cache directory path
    Dir,
    /// Clean cache directory
    Clean {
        /// Cache type to clean
        cache_type: CacheType,
    },
}

/// Arguments of cache management.
#[derive(Clone, Debug)]
pub struct CacheCommand {
    pub cache_args: CacheArgs,
    pub command: CacheSubcommand,
}

} // verus!
