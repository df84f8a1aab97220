//! yt-dlp output templates and download directories.

use vstd::prelude::*;
use crate::index::ResourceCache;

verus! {

/// The entries of an optional string map; none when there is no map.
pub open spec fn entries_of(m: Option<ResourceCache<String, String>>) -> Map<Seq<char>, String> {
    match m {
        Some(c) => c@,
        None => Map::empty(),
    }
}

/// Filename templates using `%(field)s` syntax, by output type. Key `default`
/// is required.
pub struct OutputTemplates(pub Option<ResourceCache<String, String>>);

impl Default for OutputTemplates {
    fn default() -> (t: Self)
        ensures
            t.0 is None,
    {
        OutputTemplates(None)
    }
}

/// Key of the template used for every output type without one of its own.
pub const DEFAULT_KEY: &'static str = "default";

/// Key of the download directory.
pub const HOME_KEY: &'static str = "home";

/// Key of the directory for intermediate files.
pub const TEMP_KEY: &'static str = "temp";

impl OutputTemplates {
    /// Creates templates with the single `default` pattern.
    pub fn simple(default: String) -> (t: Self)
        ensures
            t.0 is Some,
            entries_of(t.0) == Map::<Seq<char>, String>::empty().insert(DEFAULT_KEY@, default),
    {
        let mut m: ResourceCache<String, String> = ResourceCache::new();
        m.insert(DEFAULT_KEY.to_owned(), default);
        OutputTemplates(Some(m))
    }
}

/// Download directories: `home`, `temp`, optional type-specific paths.
pub struct OutputPaths(pub Option<ResourceCache<String, String>>);

impl Default for OutputPaths {
    fn default() -> (p: Self)
        ensures
            p.0 is None,
    {
        OutputPaths(None)
    }
}

impl OutputPaths {
    /// Creates paths with home and temp directories.
    pub fn simple(home: &str, temp: &str) -> (p: Self)
        ensures
            p.0 is Some,
            entries_of(p.0).dom() =~= set![HOME_KEY@, TEMP_KEY@],
            entries_of(p.0)[TEMP_KEY@]@ == temp@,
            entries_of(p.0)[HOME_KEY@]@ == home@,
    {
        proof {
            reveal_strlit("home");
            reveal_strlit("temp");
            assert(HOME_KEY@[0] != TEMP_KEY@[0]);
        }
        Self::default().with_home(home).with_temp(temp)
    }

    /// Sets the `home` directory.
    pub fn with_home(self, home: &str) -> (p: Self)
        ensures
            p.0 is Some,
            entries_of(p.0).dom() == entries_of(self.0).dom().insert(HOME_KEY@),
            entries_of(p.0)[HOME_KEY@]@ == home@,
            forall|k: Seq<char>| k != HOME_KEY@ && entries_of(self.0).contains_key(k) ==> #[trigger] entries_of(p.0)[k] == entries_of(self.0)[k],
    {
        self.with_key(HOME_KEY.to_owned(), home)
    }

    /// Sets the `temp` directory.
    pub fn with_temp(self, temp: &str) -> (p: Self)
        ensures
            p.0 is Some,
            entries_of(p.0).dom() == entries_of(self.0).dom().insert(TEMP_KEY@),
            entries_of(p.0)[TEMP_KEY@]@ == temp@,
            forall|k: Seq<char>| k != TEMP_KEY@ && entries_of(self.0).contains_key(k) ==> #[trigger] entries_of(p.0)[k] == entries_of(self.0)[k],
    {
        self.with_key(TEMP_KEY.to_owned(), temp)
    }

    fn with_key(self, key: String, value: &str) -> (p: Self)
        ensures
            p.0 is Some,
            entries_of(p.0).dom() == entries_of(self.0).dom().insert(key@),
            entries_of(p.0)[key@]@ == value@,
            forall|k: Seq<char>| k != key@ && entries_of(self.0).contains_key(k) ==> #[trigger] entries_of(p.0)[k] == entries_of(self.0)[k],
    {
        let mut inner = match self.0 {
            Some(m) => m,
            None => ResourceCache::new(),
        };
        let v = value.to_owned();
        inner.insert(key, v);
        OutputPaths(Some(inner))
    }
}

} // verus!
