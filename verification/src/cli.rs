//! Arguments of the melops commands.

use vstd::prelude::*;
use crate::cache::CacheStrategy;

verus! {

/// Model source type selection.
#[derive(Clone, Copy, Debug, PartialEq, Eq, Structural)]
pub enum ModelSource {
    /// Automatically detect: try cache first, fall back to HuggingFace Hub
    Auto,
    /// Load from local filesystem path
    Path,
    /// Load from HuggingFace cache only (error if not cached)
    Cache,
    /// Download from HuggingFace Hub (may use cache)
    Api,
}

impl Default for ModelSource {
    fn default() -> (s: Self)
        ensures
            s == ModelSource::Auto,
    {
        ModelSource::Auto
    }
}

/// Arguments for model loading.
#[derive(Clone, Debug)]
pub struct ModelArgs {
    /// Model repository ID or local path
    pub model_id: String,
    /// Model source type (auto, path, cache, api)
    pub model_source: ModelSource,
}

/// Arguments for the cache directory.
#[derive(Clone, Debug)]
pub struct CacheArgs {
    /// Cache directory (default: system cache directory)
    pub cache_dir: Option<String>,
}

/// Arguments for downloads.
#[derive(Clone, Debug)]
pub struct DownloadArgs {
    /// Output directory for downloaded audio (default: system download directory)
    pub output_dir: Option<String>,
    /// Cache strategy for downloaded audio files
    pub cache_dl: CacheStrategy,
}

/// Arguments for web scraping.
#[derive(Clone, Copy, Debug)]
pub struct WebArgs {
    /// Cache strategy for scraped page URLs
    pub cache_web: CacheStrategy,
}

} // verus!
