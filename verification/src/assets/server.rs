//! The asset server: loads assets once, hands out handles, and caches them.

use vstd::prelude::*;

use super::cache::{assets_of, AssetCache};
use super::handle::{AssetId, Handle};
use crate::erased::ErasedValue;

verus! {

/// `anyhow::Error`, the error an asset loader reports. Its contents are not modelled.
#[verifier::external_type_specification]
#[verifier::external_body]
pub struct ExAnyhowError(anyhow::Error);

/// What `std::path::Path::extension` gives for a path: the part of the file
/// name after its last dot, or nothing.
pub uninterp spec fn path_extension(path: Seq<char>) -> Option<Seq<char>>;

/// The extension handed to an asset parser for `path`: the path's extension,
/// or the empty string when it has none.
pub open spec fn extension_or_empty(path: Seq<char>) -> Seq<char> {
    match path_extension(path) {
        Some(e) => e,
        None => Seq::empty(),
    }
}

/// The extension of `path` (`Path::new(path).extension()`), as a string; a
/// part of a `&str` is always valid text, so `OsStr::to_str` keeps it.
#[verifier::external_body]
fn extension_of(path: &str) -> (r: Option<String>)
    ensures
        match r {
            Some(s) => path_extension(path@) == Some(s@),
            None => path_extension(path@) is None,
        },
{
    std::path::Path::new(path).extension().and_then(|e| e.to_str()).map(|e| e.to_string())
}

/// Whether two paths are equal as `std::path::Path`s (`<Path as PartialEq>::eq`),
/// which compares them component by component: repeated separators and
/// interior `.` components do not count.
pub uninterp spec fn same_path(a: Seq<char>, b: Seq<char>) -> bool;

/// Whether two path strings name the same path: always when they are the
/// same text, else as `Path` equality says.
pub open spec fn path_matches(a: Seq<char>, b: Seq<char>) -> bool {
    a == b || same_path(a, b)
}

/// `Path::new(a) == Path::new(b)`. `Path` equality is reflexive, so equal
/// texts always compare equal.
#[verifier::external_body]
fn paths_equal(a: &str, b: &str) -> (r: bool)
    ensures
        r == (a@ == b@ || same_path(a@, b@)),
{
    std::path::Path::new(a) == std::path::Path::new(b)
}

/// Calls the user's closure once on an asset (`FnOnce::call_once`). Nothing
/// is promised of the result.
#[verifier::external_body]
fn call_with_asset<T, R, F: FnOnce(&T) -> R>(f: F, asset: &T) -> R {
    f(asset)
}

/// Calls the user's closure once on an asset, mutably (`FnOnce::call_once`).
/// Nothing is promised of the result or of what it writes.
#[verifier::external_body]
fn call_with_asset_mut<T, R, F: FnOnce(&mut T) -> R>(f: F, asset: &mut T) -> R {
    f(asset)
}

/// A loadable asset type.
pub trait Asset: Send + Sync + 'static {
    /// Whether `r` is what parsing `bytes` with file extension `ext` gives.
    /// A type that states nothing of its parser keeps this default, which
    /// holds of every outcome.
    closed spec fn parses_to(bytes: Seq<u8>, ext: Seq<char>, r: Result<Self, anyhow::Error>) -> bool where
        Self: Sized,
    {
        true
    }

    /// Parse the asset from its bytes; `ext` is the file extension.
    fn load(bytes: &[u8], ext: &str) -> (r: Result<Self, anyhow::Error>) where Self: Sized
        ensures
            Self::parses_to(bytes@, ext@, r),
    ;
}

/// The first step of loading a path: what the server already knows of it.
pub enum LoadStep<T> {
    /// The path was loaded before; here is its handle.
    Cached(Handle<T>),
    /// Bytes were embedded for the path; parse these.
    Embedded(Vec<u8>),
    /// The bytes must be read from the file system, under the root.
    NeedsDisk,
}

/// The main entry point for loading and fetching assets.
pub struct AssetServer {
    /// The cache of loaded assets.
    cache: AssetCache,
    /// Path -> id of each asset loaded from a path.
    paths: Vec<(String, AssetId)>,
    /// Bundled bytes, by path, used in place of the file system.
    embedded_assets: Vec<(String, Vec<u8>)>,
    /// The next id to hand out.
    next_id: u64,
    /// Asset root folder (e.g. `assets/`).
    root: String,
}

/// The value of `name` in a list of named entries.
pub open spec fn lookup<V>(entries: Seq<(String, V)>, name: Seq<char>) -> Option<V>
    decreases entries.len(),
{
    if entries.len() == 0 {
        None
    } else if path_matches(entries.last().0@, name) {
        Some(entries.last().1)
    } else {
        lookup(entries.drop_last(), name)
    }
}

proof fn lemma_lookup_found<V>(entries: Seq<(String, V)>, name: Seq<char>, i: int)
    requires
        0 <= i < entries.len(),
        path_matches(entries[i].0@, name),
        forall|j: int| i < j < entries.len() ==> !path_matches((#[trigger] entries[j]).0@, name),
    ensures
        lookup(entries, name) == Some(entries[i].1),
    decreases entries.len(),
{
    if i < entries.len() - 1 {
        lemma_lookup_found(entries.drop_last(), name, i);
    }
}

proof fn lemma_lookup_missing<V>(entries: Seq<(String, V)>, name: Seq<char>)
    requires
        forall|j: int| 0 <= j < entries.len() ==> !path_matches((#[trigger] entries[j]).0@, name),
    ensures
        lookup(entries, name) is None,
    decreases entries.len(),
{
    if entries.len() > 0 {
        lemma_lookup_missing(entries.drop_last(), name);
    }
}

proof fn lemma_lookup_push<V>(entries: Seq<(String, V)>, e: (String, V), name: Seq<char>)
    ensures
        lookup(entries.push(e), name) == (if path_matches(e.0@, name) {
            Some(e.1)
        } else {
            lookup(entries, name)
        }),
{
    assert(entries.push(e).drop_last() =~= entries);
}

/// A path that has loaded once is a cache hit from then on: loading it again
/// hands back the handle of the first load, and neither embedded bytes nor
/// the file system are read.
pub proof fn lemma_loaded_path_hits_cache<T>(
    server: AssetServer,
    path: Seq<char>,
    id: AssetId,
    step: LoadStep<T>,
)
    requires
        server.path_id(path) == Some(id),
        server.reports(path, step),
    ensures
        step matches LoadStep::Cached(h) && h@ == id,
{
}

/// Searches from the newest entry back for `name`.
fn find_last<V>(entries: &Vec<(String, V)>, name: &str) -> (r: Option<usize>)
    ensures
        match r {
            Some(i) => i < entries@.len() && lookup(entries@, name@) == Some(entries@[i as int].1),
            None => lookup(entries@, name@) is None,
        },
{
    let mut i = entries.len();
    while i > 0
        invariant
            i <= entries@.len(),
            forall|j: int| i <= j < entries@.len() ==> !path_matches((#[trigger] entries@[j]).0@, name@),
        decreases i,
    {
        i = i - 1;
        if paths_equal(entries[i].0.as_str(), name) {
            proof {
                lemma_lookup_found(entries@, name@, i as int);
            }
            return Some(i);
        }
    }
    proof {
        lemma_lookup_missing(entries@, name@);
    }
    None
}

impl AssetServer {
    /// The server's invariant: the cache is well formed, ids start at 1, and
    /// every id in use is below the next id to hand out.
    pub closed spec fn wf(&self) -> bool {
        &&& self.cache.wf()
        &&& self.next_id >= 1
        &&& forall|k: std::any::TypeId, id: u64| #[trigger]
            assets_of(self.cache@, k).contains_key(id) ==> id < self.next_id
        &&& forall|j: int|
            0 <= j < self.paths@.len() ==> (#[trigger] self.paths@[j]).1.0 < self.next_id
    }

    /// The cached assets, by type and id.
    pub closed spec fn cached(&self) -> Map<std::any::TypeId, Map<u64, ErasedValue>> {
        self.cache@
    }

    /// The id recorded for a loaded path.
    pub closed spec fn path_id(&self, path: Seq<char>) -> Option<AssetId> {
        lookup(self.paths@, path)
    }

    /// The bytes embedded for a path.
    pub closed spec fn embedded(&self, path: Seq<char>) -> Option<Vec<u8>> {
        lookup(self.embedded_assets@, path)
    }

    /// The id the next asset will get.
    pub closed spec fn next_id(&self) -> u64 {
        self.next_id
    }

    /// The root folder.
    pub closed spec fn root_dir(&self) -> Seq<char> {
        self.root@
    }

    /// Whether `step` is what the server knows of `path` before loading it:
    /// the handle of an earlier load, else the bytes embedded for it, else
    /// that the file must be read.
    pub open spec fn reports<T>(&self, path: Seq<char>, step: LoadStep<T>) -> bool {
        match step {
            LoadStep::Cached(h) => self.path_id(path) == Some(h@),
            LoadStep::Embedded(b) => {
                &&& self.path_id(path) is None
                &&& self.embedded(path) matches Some(e) && e@ == b@
            },
            LoadStep::NeedsDisk => self.path_id(path) is None && self.embedded(path) is None,
        }
    }

    /// Create an asset server for the given root directory.
    pub fn new(root: &str) -> (s: Self)
        ensures
            s.wf(),
            s.cached() == Map::<std::any::TypeId, Map<u64, ErasedValue>>::empty(),
            forall|p: Seq<char>| #[trigger] s.path_id(p) is None && s.embedded(p) is None,
            s.next_id() == 1,
            s.root_dir() == root@,
    {
        let s = AssetServer {
            cache: AssetCache::new(),
            paths: Vec::new(),
            embedded_assets: Vec::new(),
            next_id: 1,
            root: root.to_owned(),
        };
        s
    }

    /// The asset root folder.
    pub fn root(&self) -> (r: &str)
        ensures
            r@ == self.root_dir(),
    {
        self.root.as_str()
    }

    /// Whether another asset can still get a fresh id: ids are `u64` counted
    /// up from 1 and never reused.
    pub fn has_free_id(&self) -> (r: bool)
        ensures
            r == (self.next_id() < u64::MAX),
    {
        self.next_id < u64::MAX
    }

    /// Cache `asset` under a fresh id and return its handle.
    fn store<T: 'static>(&mut self, asset: T) -> (h: Handle<T>)
        requires
            old(self).wf(),
            old(self).next_id() < u64::MAX,
        ensures
            final(self).wf(),
            h@ == AssetId(old(self).next_id()),
            final(self).next_id() == old(self).next_id() + 1,
            exists|k: std::any::TypeId, v: ErasedValue|
                #[trigger] final(self).cached() == old(self).cached().insert(
                    k,
                    assets_of(old(self).cached(), k).insert(old(self).next_id(), v),
                ),
            final(self).paths == old(self).paths,
            final(self).embedded_assets == old(self).embedded_assets,
            final(self).root == old(self).root,
    {
        let id = AssetId(self.next_id);
        self.cache.insert(id, asset);
        self.next_id = self.next_id + 1;
        proof {
            let old_next = old(self).next_id;
            let (k1, v1): (std::any::TypeId, ErasedValue) = choose|k1: std::any::TypeId, v1: ErasedValue|
                self.cache@ == old(self).cache@.insert(
                    k1,
                    assets_of(old(self).cache@, k1).insert(old_next, v1),
                );
            assert(self.cached() == old(self).cached().insert(
                k1,
                assets_of(old(self).cached(), k1).insert(old(self).next_id(), v1),
            ));
            assert forall|k: std::any::TypeId, i: u64| #[trigger] assets_of(self.cache@, k).contains_key(i) implies i
                < self.next_id by {
                let (k0, v0): (std::any::TypeId, ErasedValue) = choose|k0: std::any::TypeId, v0: ErasedValue|
                    self.cache@ == old(self).cache@.insert(
                        k0,
                        assets_of(old(self).cache@, k0).insert(old_next, v0),
                    );
                if k != k0 || i != old_next {
                    assert(assets_of(old(self).cache@, k).contains_key(i));
                }
            }
            assert forall|j: int| 0 <= j < self.paths@.len() implies (#[trigger] self.paths@[j]).1.0
                < self.next_id by {
                assert(old(self).paths@[j].1.0 < old_next);
            }
        }
        Handle::new(id)
    }

    /// Add an asset created at run time (not loaded from disk). It gets an id
    /// no asset had before.
    pub fn add<T: Send + Sync + 'static>(&mut self, asset: T) -> (h: Handle<T>)
        requires
            old(self).wf(),
            old(self).next_id() < u64::MAX,
        ensures
            final(self).wf(),
            h@ == AssetId(old(self).next_id()),
            forall|k: std::any::TypeId| !(#[trigger] assets_of(old(self).cached(), k)).contains_key(h@.0),
            final(self).next_id() == old(self).next_id() + 1,
            exists|k: std::any::TypeId, v: ErasedValue|
                #[trigger] final(self).cached() == old(self).cached().insert(
                    k,
                    assets_of(old(self).cached(), k).insert(h@.0, v),
                ),
            forall|p: Seq<char>|
                #[trigger] final(self).path_id(p) == old(self).path_id(p) && final(self).embedded(p)
                    == old(self).embedded(p),
    {
        let h = self.store(asset);
        proof {
            let (k1, v1): (std::any::TypeId, ErasedValue) = choose|k1: std::any::TypeId, v1: ErasedValue|
                self.cached() == old(self).cached().insert(
                    k1,
                    assets_of(old(self).cached(), k1).insert(old(self).next_id(), v1),
                );
            assert(self.cached() == old(self).cached().insert(
                k1,
                assets_of(old(self).cached(), k1).insert(h@.0, v1),
            ));
            assert forall|p: Seq<char>| #[trigger] self.path_id(p) == old(self).path_id(p) && self.embedded(p)
                == old(self).embedded(p) by {}
        }
        h
    }

    /// Embed the raw bytes of an asset: a later load of `path` parses these
    /// bytes instead of reading the file system.
    pub fn embed_asset(&mut self, path: &str, bytes: Vec<u8>)
        requires
            old(self).wf(),
        ensures
            final(self).wf(),
            final(self).embedded(path@) == Some(bytes),
            forall|p: Seq<char>|
                !path_matches(path@, p) ==> #[trigger] final(self).embedded(p) == old(self).embedded(p),
            forall|p: Seq<char>| #[trigger] final(self).path_id(p) == old(self).path_id(p),
            final(self).cached() == old(self).cached(),
            final(self).next_id() == old(self).next_id(),
    {
        let entry = (path.to_owned(), bytes);
        proof {
            assert forall|p: Seq<char>| #[trigger] lookup(self.embedded_assets@.push(entry), p) == (if path_matches(
                path@,
                p,
            ) {
                Some(bytes)
            } else {
                lookup(self.embedded_assets@, p)
            }) by {
                lemma_lookup_push(self.embedded_assets@, entry, p);
            }
        }
        self.embedded_assets.push(entry);
    }

    /// What the server knows of `path` before loading it: the handle of an
    /// earlier load, else embedded bytes, else that the file must be read.
    pub fn begin_load<T>(&self, path: &str) -> (r: LoadStep<T>)
        requires
            self.wf(),
        ensures
            self.reports(path@, r),
    {
        match find_last(&self.paths, path) {
            Some(i) => {
                let id = self.paths[i].1;
                assert(self.path_id(path@) == Some(id));
                LoadStep::Cached(Handle::new(id))
            },
            None => match find_last(&self.embedded_assets, path) {
                Some(i) => LoadStep::Embedded(self.embedded_assets[i].1.clone()),
                None => LoadStep::NeedsDisk,
            },
        }
    }

    /// Cache the outcome of parsing the asset at `path`: a parsed asset is
    /// cached under a fresh id recorded for the path and its handle returned;
    /// a parse error is returned as it is and changes nothing.
    pub fn store_parsed<T: Send + Sync + 'static>(&mut self, path: &str, parsed: Result<T, anyhow::Error>) -> (r:
        Result<Handle<T>, anyhow::Error>)
        requires
            old(self).wf(),
            old(self).next_id() < u64::MAX,
        ensures
            final(self).wf(),
            r is Ok <==> parsed is Ok,
            parsed matches Err(e) ==> r == Err::<Handle<T>, anyhow::Error>(e),
            match r {
                Ok(h) => {
                    &&& h@ == AssetId(old(self).next_id())
                    &&& forall|k: std::any::TypeId|
                        !(#[trigger] assets_of(old(self).cached(), k)).contains_key(h@.0)
                    &&& final(self).next_id() == old(self).next_id() + 1
                    &&& final(self).path_id(path@) == Some(h@)
                    &&& forall|p: Seq<char>|
                        !path_matches(path@, p) ==> #[trigger] final(self).path_id(p) == old(self).path_id(p)
                    &&& exists|k: std::any::TypeId, v: ErasedValue|
                        #[trigger] final(self).cached() == old(self).cached().insert(
                            k,
                            assets_of(old(self).cached(), k).insert(h@.0, v),
                        )
                },
                Err(_) => {
                    &&& final(self).next_id() == old(self).next_id()
                    &&& final(self).cached() == old(self).cached()
                    &&& forall|p: Seq<char>| #[trigger] final(self).path_id(p) == old(self).path_id(p)
                },
            },
            forall|p: Seq<char>| #[trigger] final(self).embedded(p) == old(self).embedded(p),
    {
        match parsed {
            Ok(asset) => {
                let handle = self.store(asset);
                let entry = (path.to_owned(), handle.id());
                proof {
                    assert forall|p: Seq<char>| #[trigger] lookup(self.paths@.push(entry), p) == (if path_matches(
                        path@,
                        p,
                    ) {
                        Some(handle@)
                    } else {
                        lookup(self.paths@, p)
                    }) by {
                        lemma_lookup_push(self.paths@, entry, p);
                    }
                }
                self.paths.push(entry);
                proof {
                    assert(self.path_id(path@) == Some(handle@));
                    assert(handle@ == AssetId(old(self).next_id()));
                    assert(self.next_id() == old(self).next_id() + 1);
                    assert forall|p: Seq<char>| !path_matches(path@, p) implies #[trigger] self.path_id(p) == old(self).path_id(p) by {}
                    assert forall|j: int| 0 <= j < self.paths@.len() implies (#[trigger] self.paths@[j]).1.0
                        < self.next_id by {
                        if j < self.paths@.len() - 1 {
                            assert(self.paths@[j] == old(self).paths@[j]);
                        }
                    }
                }
                proof {
                    let (k1, v1): (std::any::TypeId, ErasedValue) = choose|k1: std::any::TypeId, v1: ErasedValue|
                        self.cached() == old(self).cached().insert(
                            k1,
                            assets_of(old(self).cached(), k1).insert(old(self).next_id(), v1),
                        );
                    assert(self.cached() == old(self).cached().insert(
                        k1,
                        assets_of(old(self).cached(), k1).insert(handle@.0, v1),
                    ));
                }
                Ok(handle)
            },
            Err(e) => Err(e),
        }
    }

    /// Parse `bytes` as the asset at `path` with `T::load`, handing it the
    /// path's extension (empty when it has none), and cache the outcome as
    /// [`store_parsed`](AssetServer::store_parsed) does.
    pub fn finish_load<T: Asset>(&mut self, path: &str, bytes: &[u8]) -> (r: Result<
        Handle<T>,
        anyhow::Error,
    >)
        requires
            old(self).wf(),
            old(self).next_id() < u64::MAX,
        ensures
            final(self).wf(),
            exists|parsed: Result<T, anyhow::Error>|
                {
                    &&& #[trigger] T::parses_to(bytes@, extension_or_empty(path@), parsed)
                    &&& (r is Ok <==> parsed is Ok)
                    &&& (parsed matches Err(e) ==> r == Err::<Handle<T>, anyhow::Error>(e))
                },
            match r {
                Ok(h) => {
                    &&& h@ == AssetId(old(self).next_id())
                    &&& forall|k: std::any::TypeId|
                        !(#[trigger] assets_of(old(self).cached(), k)).contains_key(h@.0)
                    &&& final(self).next_id() == old(self).next_id() + 1
                    &&& final(self).path_id(path@) == Some(h@)
                    &&& forall|p: Seq<char>|
                        !path_matches(path@, p) ==> #[trigger] final(self).path_id(p) == old(self).path_id(p)
                    &&& exists|k: std::any::TypeId, v: ErasedValue|
                        #[trigger] final(self).cached() == old(self).cached().insert(
                            k,
                            assets_of(old(self).cached(), k).insert(h@.0, v),
                        )
                },
                Err(_) => {
                    &&& final(self).next_id() == old(self).next_id()
                    &&& final(self).cached() == old(self).cached()
                    &&& forall|p: Seq<char>| #[trigger] final(self).path_id(p) == old(self).path_id(p)
                },
            },
            forall|p: Seq<char>| #[trigger] final(self).embedded(p) == old(self).embedded(p),
    {
        let ext = match extension_of(path) {
            Some(e) => e,
            None => String::new(),
        };
        assert(ext@ == extension_or_empty(path@));
        let parsed = T::load(bytes, ext.as_str());
        self.store_parsed(path, parsed)
    }

    /// Run `f` on the cached asset of `handle`, if there is one.
    pub fn with_asset<T: 'static, R, F: FnOnce(&T) -> R>(&self, handle: &Handle<T>, f: F) -> (r:
        Option<R>)
        requires
            self.wf(),
        ensures
            r is Some ==> exists|k: std::any::TypeId| #[trigger] assets_of(self.cached(), k).contains_key(handle@.0),
    {
        match self.cache.get::<T>(handle.id()) {
            Some(asset) => {
                proof {
                    let k1 = choose|k1: std::any::TypeId| #[trigger] assets_of(self.cache@, k1).contains_key(handle@.0);
                    assert(assets_of(self.cached(), k1).contains_key(handle@.0));
                }
                Some(call_with_asset(f, asset))
            },
            None => None,
        }
    }

    /// Run `f` on the cached asset of `handle` mutably (useful for hot
    /// reload), if there is one. Which assets are cached does not change.
    pub fn with_asset_mut<T: 'static, R, F: FnOnce(&mut T) -> R>(
        &mut self,
        handle: &Handle<T>,
        f: F,
    ) -> (r: Option<R>)
        requires
            old(self).wf(),
        ensures
            final(self).wf(),
            final(self).cached().dom() == old(self).cached().dom(),
            forall|k: std::any::TypeId| #[trigger]
                assets_of(final(self).cached(), k).dom() == assets_of(old(self).cached(), k).dom(),
            r is Some ==> exists|k: std::any::TypeId| #[trigger] assets_of(old(self).cached(), k).contains_key(handle@.0),
            forall|p: Seq<char>|
                #[trigger] final(self).path_id(p) == old(self).path_id(p) && final(self).embedded(p)
                    == old(self).embedded(p),
            final(self).next_id() == old(self).next_id(),
    {
        match self.cache.get_mut::<T>(handle.id()) {
            Some(asset) => {
                proof {
                    let k1 = choose|k1: std::any::TypeId| #[trigger] assets_of(old(self).cache@, k1).contains_key(handle@.0);
                    assert(assets_of(old(self).cached(), k1).contains_key(handle@.0));
                }
                Some(call_with_asset_mut(f, asset))
            },
            None => None,
        }
    }
}

} // verus!
