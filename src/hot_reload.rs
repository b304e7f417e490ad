//! Settings for reloading the interface when source files change.
use vstd::prelude::*;
use crate::text::{lower_of, lowercase, str_eq};

verus! {

/// Which paths to watch, which file extensions count, and how long to wait
/// after one reload before the next.
#[derive(Debug, Clone)]
pub struct HotReloadConfig {
    /// Paths to watch.
    pub watch_paths: Vec<String>,
    /// File extensions that trigger a reload, without the dot.
    pub extensions: Vec<String>,
    /// The least time between two reloads, in milliseconds.
    pub debounce_ms: u64,
}

/// The debounce a new configuration has, in milliseconds.
pub const DEFAULT_DEBOUNCE_MS: u64 = 100;

/// The extensions a new configuration watches.
pub open spec fn default_extensions() -> Seq<Seq<char>> {
    seq!["rs"@, "css"@, "html"@]
}

/// The views of `v`.
pub open spec fn views(v: Seq<String>) -> Seq<Seq<char>> {
    Seq::new(v.len(), |i: int| v[i]@)
}

fn default_extension_list() -> (r: Vec<String>)
    ensures
        views(r@) == default_extensions(),
{
    let r = vec![String::from_str("rs"), String::from_str("css"), String::from_str("html")];
    assert(views(r@) =~= default_extensions());
    r
}

impl Default for HotReloadConfig {
    /// Watches `src` for `rs`, `css` and `html` files, with the default
    /// debounce.
    fn default() -> (r: Self)
        ensures
            views(r.watch_paths@) == seq!["src"@],
            views(r.extensions@) == default_extensions(),
            r.debounce_ms == DEFAULT_DEBOUNCE_MS,
    {
        let paths = vec![String::from_str("src")];
        assert(views(paths@) =~= seq!["src"@]);
        HotReloadConfig { watch_paths: paths, extensions: default_extension_list(), debounce_ms: DEFAULT_DEBOUNCE_MS }
    }
}

impl HotReloadConfig {
    /// Watches `paths`, with the default extensions and debounce.
    pub fn new(paths: Vec<String>) -> (r: Self)
        ensures
            r.watch_paths@ == paths@,
            views(r.extensions@) == default_extensions(),
            r.debounce_ms == DEFAULT_DEBOUNCE_MS,
    {
        HotReloadConfig { watch_paths: paths, extensions: default_extension_list(), debounce_ms: DEFAULT_DEBOUNCE_MS }
    }

    /// The configuration, watching `extensions` instead.
    pub fn with_extensions(self, extensions: Vec<String>) -> (r: Self)
        ensures
            r.watch_paths@ == self.watch_paths@,
            r.extensions@ == extensions@,
            r.debounce_ms == self.debounce_ms,
    {
        HotReloadConfig { watch_paths: self.watch_paths, extensions, debounce_ms: self.debounce_ms }
    }

    /// The configuration, with a debounce of `debounce_ms` milliseconds.
    pub fn with_debounce(self, debounce_ms: u64) -> (r: Self)
        ensures
            r.watch_paths@ == self.watch_paths@,
            r.extensions@ == self.extensions@,
            r.debounce_ms == debounce_ms,
    {
        HotReloadConfig { watch_paths: self.watch_paths, extensions: self.extensions, debounce_ms }
    }
}


/// What happened to a watched file, as far as reloading cares.
#[derive(Debug, Clone, Copy, PartialEq, Eq, Structural)]
pub enum ChangeKind {
    /// A file's contents changed.
    DataModified,
    /// A file was created.
    Created,
    /// Anything else: metadata, renames, removals, access.
    Other,
}

/// Whether `ext`, lowered, is one of `watched`.
pub open spec fn watched_extension(watched: Seq<Seq<char>>, ext: Seq<char>) -> bool {
    watched.contains(lower_of(ext))
}

impl HotReloadConfig {
    /// Whether a change of kind `kind` to files with the given extensions
    /// (`None` for a file without one) calls for a reload: only changed or
    /// created files count, and only when one of them has a watched
    /// extension, compared in lower case.
    pub fn should_reload(&self, kind: ChangeKind, extensions: &Vec<Option<String>>) -> (r: bool)
        ensures
            r == ((kind == ChangeKind::DataModified || kind == ChangeKind::Created) && exists|i: int|
                0 <= i < extensions@.len() && (#[trigger] extensions@[i]) is Some && watched_extension(
                    views(self.extensions@),
                    extensions@[i]->0@,
                )),
    {
        if kind == ChangeKind::Other {
            return false;
        }
        let mut i: usize = 0;
        while i < extensions.len()
            invariant
                i <= extensions@.len(),
                kind != ChangeKind::Other,
                forall|j: int|
                    0 <= j < i ==> !((#[trigger] extensions@[j]) is Some && watched_extension(
                        views(self.extensions@),
                        extensions@[j]->0@,
                    )),
            decreases extensions@.len() - i,
        {
            match &extensions[i] {
                Some(ext) => {
                    let lower = lowercase(ext.as_str());
                    if self.watches(lower.as_str()) {
                        assert(extensions@[i as int] is Some && watched_extension(views(self.extensions@), extensions@[i as int]->0@));
                        return true;
                    }
                },
                None => {},
            }
            i = i + 1;
        }
        false
    }

    /// Whether `ext` is one of the watched extensions, exactly.
    fn watches(&self, ext: &str) -> (r: bool)
        ensures
            r == views(self.extensions@).contains(ext@),
    {
        let mut i: usize = 0;
        while i < self.extensions.len()
            invariant
                i <= self.extensions@.len(),
                forall|j: int| 0 <= j < i ==> views(self.extensions@)[j] != ext@,
            decreases self.extensions@.len() - i,
        {
            if str_eq(self.extensions[i].as_str(), ext) {
                assert(views(self.extensions@)[i as int] == ext@);
                return true;
            }
            i = i + 1;
        }
        false
    }

    /// Whether a reload at `now_ms` is far enough from the last one, at
    /// `last_ms`: at least the debounce apart. A clock that went back counts
    /// as no time having passed.
    pub fn reload_due(&self, last_ms: u64, now_ms: u64) -> (r: bool)
        ensures
            r == ((if now_ms >= last_ms {
                now_ms - last_ms
            } else {
                0
            }) >= self.debounce_ms),
    {
        let elapsed = if now_ms >= last_ms {
            now_ms - last_ms
        } else {
            0
        };
        elapsed >= self.debounce_ms
    }
}

} // verus!
