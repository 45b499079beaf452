//! What the server asks of a storage engine.

use vstd::prelude::*;
use crate::errors::KvsError;
use crate::records::EntryView;
use crate::store::KvStore;

verus! {

/// The engines that a server can be opened with.
#[derive(Debug, Clone, Copy, PartialEq, Eq, Structural)]
pub enum EngineKind {
    /// The log-structured store of this library.
    Kvs,
    /// The embedded tree store.
    Sled,
}

/// The engine that a name, in lower case, stands for.
pub open spec fn named_engine(name: Seq<char>) -> Option<EngineKind> {
    if name == "kvs"@ {
        Some(EngineKind::Kvs)
    } else if name == "sled"@ {
        Some(EngineKind::Sled)
    } else {
        None
    }
}

impl EngineKind {
    /// The engine that a name stands for, whatever the case of its letters.
    pub fn from_name(name: &str) -> (r: Option<EngineKind>)
        ensures
            r == named_engine(crate::text::lowercase_text(name@)),
    {
        let lower = crate::text::lowercase(name);
        EngineKind::from_lower(lower.as_str())
    }

    /// Whether a directory refuses this engine: it holds a file of the
    /// other one.
    pub fn conflicts(self, holds_kvs_file: bool, holds_sled_file: bool) -> (r: bool)
        ensures
            r == match self {
                EngineKind::Kvs => holds_sled_file,
                EngineKind::Sled => holds_kvs_file,
            },
    {
        match self {
            EngineKind::Kvs => holds_sled_file,
            EngineKind::Sled => holds_kvs_file,
        }
    }

    /// The engine that a name in lower case stands for.
    pub fn from_lower(name: &str) -> (r: Option<EngineKind>)
        ensures
            r == named_engine(name@),
    {
        if crate::text::same_str(name, "kvs") {
            Some(EngineKind::Kvs)
        } else if crate::text::same_str(name, "sled") {
            Some(EngineKind::Sled)
        } else {
            None
        }
    }
}

/// A storage engine: a map from keys to values that can be opened, read and
/// changed.
///
/// An engine may state which engine it is, when it is in order, and what
/// each of its operations comes to. Of an engine that states nothing,
/// nothing is claimed.
pub trait KvsEngine: Sized {
    /// What the engine is opened from.
    type Source;

    /// Which engine this is, where the engine states it.
    open spec fn kind_spec() -> Option<EngineKind> {
        None
    }

    /// The engine is in order.
    open spec fn inv(&self) -> bool {
        true
    }

    /// What opening the engine from `source` comes to: `r` is what the open
    /// gives.
    open spec fn opens(source: Self::Source, r: Result<Self, KvsError>) -> bool {
        true
    }

    /// What giving `key` the value `value` comes to: `before` is the engine
    /// before, `self` after, `r` what the call gives.
    open spec fn sets(&self, before: &Self, key: Seq<char>, value: Seq<char>, r: Result<(), KvsError>) -> bool {
        true
    }

    /// What reading `key` comes to: `r` is what the call gives.
    open spec fn gets(&self, key: Seq<char>, r: Result<Option<String>, KvsError>) -> bool {
        true
    }

    /// What removing `key` comes to: `before` is the engine before, `self`
    /// after, `r` what the call gives.
    open spec fn removes(&self, before: &Self, key: Seq<char>, r: Result<(), KvsError>) -> bool {
        true
    }

    /// Which engine this is.
    fn kind() -> (r: EngineKind)
        ensures
            Self::kind_spec() matches Some(kind) ==> r == kind,
    ;

    /// Gives a key a value.
    fn set(&mut self, key: String, value: String) -> (r: Result<(), KvsError>)
        requires
            old(self).inv(),
        ensures
            final(self).inv(),
            final(self).sets(old(self), key@, value@, r),
    ;

    /// The value of a key, or `None` where the key has none.
    fn get(&self, key: String) -> (r: Result<Option<String>, KvsError>)
        requires
            self.inv(),
        ensures
            self.gets(key@, r),
    ;

    /// Takes a key's value away; fails with `KeyNotExist` where the key has none.
    fn remove(&mut self, key: String) -> (r: Result<(), KvsError>)
        requires
            old(self).inv(),
        ensures
            final(self).inv(),
            final(self).removes(old(self), key@, r),
    ;

    /// Opens the engine.
    fn open(source: Self::Source) -> (r: Result<Self, KvsError>)
        ensures
            Self::opens(source, r),
            r is Ok ==> r->Ok_0.inv(),
    ;
}

/// What the log-structured store is opened from: the image of the data
/// file, the image of the index file, and the time in milliseconds since
/// the epoch.
pub struct StoreFiles {
    pub data: Vec<u8>,
    pub index: Vec<u8>,
    pub now: u64,
}

impl KvsEngine for KvStore {
    type Source = StoreFiles;

    open spec fn kind_spec() -> Option<EngineKind> {
        Some(EngineKind::Kvs)
    }

    open spec fn inv(&self) -> bool {
        self.wf()
    }

    open spec fn opens(source: StoreFiles, r: Result<KvStore, KvsError>) -> bool {
        KvStore::opened(source.data@, source.index@, source.now, r)
    }

    open spec fn sets(&self, before: &KvStore, key: Seq<char>, value: Seq<char>, r: Result<(), KvsError>) -> bool {
        self.put(before, EntryView::SET(key, value), r)
    }

    open spec fn gets(&self, key: Seq<char>, r: Result<Option<String>, KvsError>) -> bool {
        self.got(key, r)
    }

    open spec fn removes(&self, before: &KvStore, key: Seq<char>, r: Result<(), KvsError>) -> bool {
        self.removed(before, key, r)
    }

    fn kind() -> (r: EngineKind) {
        EngineKind::Kvs
    }

    fn set(&mut self, key: String, value: String) -> (r: Result<(), KvsError>) {
        KvStore::set(self, key, value)
    }

    fn get(&self, key: String) -> (r: Result<Option<String>, KvsError>) {
        KvStore::get(self, key)
    }

    fn remove(&mut self, key: String) -> (r: Result<(), KvsError>) {
        KvStore::remove(self, key)
    }

    fn open(source: StoreFiles) -> (r: Result<KvStore, KvsError>) {
        KvStore::open(source.data, source.index.as_slice(), source.now)
    }
}

} // verus!
