use crate::error::Error;
use crate::record::{copy_opt, opt_view, FileData, RecordModel};
use crate::text::{chars_eq, chars_of, concat_chars, lower_of, lowercase, string_of};
use vstd::prelude::*;

verus! {

/// What the cache holds for one path: the record and the modification time (seconds
/// since the epoch) it was stored with.
pub struct StoredModel {
    pub record: RecordModel,
    pub mtime: nat,
}

/// The contents of a cache, by path.
pub type CacheModel = Map<Seq<char>, StoredModel>;

/// A stored record answers a query for `path` at `mtime` only if it was stored with a
/// modification time no earlier than the one queried.
pub open spec fn lookup(m: CacheModel, path: Seq<char>, mtime: nat) -> Option<RecordModel> {
    if m.contains_key(path) && m[path].mtime >= mtime {
        Some(m[path].record)
    } else {
        None
    }
}

/// The cache after storing `rec` with `mtime`: its path's entry is replaced whole.
pub open spec fn stored(m: CacheModel, rec: RecordModel, mtime: nat) -> CacheModel {
    m.insert(rec.path, StoredModel { record: rec, mtime })
}

/// The cache after storing each `(record, mtime)` pair in order.
pub open spec fn stored_all(m: CacheModel, recs: Seq<RecordModel>, mtimes: Seq<nat>) -> CacheModel
    decreases recs.len(),
{
    if recs.len() == 0 || recs.len() != mtimes.len() {
        m
    } else {
        stored(stored_all(m, recs.drop_last(), mtimes.drop_last()), recs.last(), mtimes.last())
    }
}

/// The answers to a batch of queries, position by position.
pub open spec fn lookup_all(m: CacheModel, paths: Seq<Seq<char>>, mtimes: Seq<nat>) -> Seq<Option<RecordModel>> {
    Seq::new(paths.len(), |i: int| lookup(m, paths[i], mtimes[i]))
}

/// The view of an optional record.
pub open spec fn opt_record(o: Option<FileData>) -> Option<RecordModel> {
    match o {
        Some(r) => Some(r@),
        None => None,
    }
}

/// The views of a sequence of optional records.
pub open spec fn opt_records(v: Seq<Option<FileData>>) -> Seq<Option<RecordModel>> {
    v.map_values(|o: Option<FileData>| opt_record(o))
}

/// The views of a sequence of records.
pub open spec fn records(v: Seq<FileData>) -> Seq<RecordModel> {
    v.map_values(|r: FileData| r@)
}

/// Modification times as naturals.
pub open spec fn times(v: Seq<u64>) -> Seq<nat> {
    v.map_values(|t: u64| t as nat)
}

/// The views of a sequence of strings.
pub open spec fn paths(v: Seq<String>) -> Seq<Seq<char>> {
    v.map_values(|s: String| s@)
}

/// The prefix that the key-value layout puts before a path.
pub open spec fn key_prefix() -> Seq<char> {
    seq!['f', 'i', 'l', 'e', ':']
}

/// The key under which the key-value layout stores `path`.
pub open spec fn key_of(path: Seq<char>) -> Seq<char> {
    key_prefix() + path
}

/// The path that a key-value key stands for.
pub open spec fn path_of(key: Seq<char>) -> Seq<char> {
    key.subrange(5, key.len() as int)
}

/// Descriptive information about a cache.
pub struct Info {
    /// The number of records stored.
    pub records: u64,
    /// The number of bytes the storage occupies.
    pub allocated: u64,
}

/// Where a cache backend keeps its storage.
pub struct CacheConfig {
    /// Directory for the backend's files; it exists before the backend is built.
    pub cache_dir: String,
}

/// The cache backends that can be selected by name.
#[derive(Debug, Clone, Copy, PartialEq, Eq)]
pub enum CacheProvider {
    /// Relational store.
    Sqlite,
    /// Key-value store.
    Rocksdb,
    /// Caching disabled.
    Disabled,
}

/// Cache administration requests.
#[derive(Debug, Clone, Copy, PartialEq, Eq)]
pub enum CacheOperation {
    /// Remove every entry.
    Clear,
    /// Report the backend and its location.
    Info,
}

/// A no-op backend: every lookup misses, every store succeeds and keeps nothing.
pub struct NoneCache;

impl NoneCache {
    /// A new no-op cache.
    pub fn new(config: CacheConfig) -> (r: Result<Self, Error>)
        ensures
            r is Ok,
    {
        Ok(NoneCache)
    }
}

/// The value stored for one key of the key-value backend.
pub struct CachedFileEntry {
    pub content: String,
    pub tokens: usize,
    pub mtime: u64,
    pub error: Option<String>,
}

/// One key-value pair of the key-value backend.
struct KvRow {
    key: String,
    value: CachedFileEntry,
}

/// The stored form of a row, for the path its key stands for.
pub open spec fn row_model(path: Seq<char>, v: CachedFileEntry) -> StoredModel {
    StoredModel {
        record: RecordModel {
            path,
            content: v.content@,
            tokens: v.tokens as nat,
            error: opt_view(v.error),
        },
        mtime: v.mtime as nat,
    }
}

/// Key-value backend: each record lives under the key `file:` + path, its value holding
/// content, token count, modification time and error. Keys are unique; storing a path
/// again replaces its value. The table is held in memory: it keeps nothing across runs.
pub struct RocksDBCache {
    rows: Vec<KvRow>,
    model: Ghost<CacheModel>,
}

impl RocksDBCache {
    /// The entries, by path.
    pub closed spec fn view(&self) -> CacheModel {
        self.model@
    }

    /// The rows and the model agree; keys are unique and all carry the prefix.
    pub closed spec fn wf(&self) -> bool {
        &&& forall|i: int|
            0 <= i < self.rows@.len() ==> #[trigger] self.rows@[i].key@.len() >= 5
                && self.rows@[i].key@.subrange(0, 5) == key_prefix()
        &&& forall|i: int, j: int|
            0 <= i < self.rows@.len() && 0 <= j < self.rows@.len() && i != j ==> #[trigger] self.rows@[i].key@
                != #[trigger] self.rows@[j].key@
        &&& forall|i: int|
            0 <= i < self.rows@.len() ==> self.model@.contains_key(path_of(#[trigger] self.rows@[i].key@))
                && self.model@[path_of(self.rows@[i].key@)] == row_model(
                path_of(self.rows@[i].key@),
                self.rows@[i].value,
            )
        &&& forall|p: Seq<char>|
            #[trigger] self.model@.contains_key(p) ==> exists|i: int|
                0 <= i < self.rows@.len() && #[trigger] self.rows@[i].key@ == key_of(p)
        &&& self.model@.dom().finite()
        &&& self.model@.dom().len() == self.rows@.len()
    }

    /// The key for a path: `file:` followed by the path.
    pub fn create_key(path: &str) -> (r: String)
        ensures
            r@ == key_of(path@),
    {
        let prefix: Vec<char> = vec!['f', 'i', 'l', 'e', ':'];
        assert(prefix@ =~= key_prefix());
        string_of(&concat_chars(&prefix, &chars_of(path)))
    }

    /// A new, empty key-value cache.
    pub fn new(config: CacheConfig) -> (r: Result<Self, Error>)
        ensures
            r is Ok,
            r is Ok ==> r->Ok_0.wf() && r->Ok_0.view() == CacheModel::empty(),
    {
        Ok(RocksDBCache { rows: Vec::new(), model: Ghost(CacheModel::empty()) })
    }

    /// The index of the row with key `key`, if any.
    fn find(&self, key: &String) -> (r: Option<usize>)
        requires
            self.wf(),
        ensures
            r is Some ==> r->0 < self.rows@.len() && self.rows@[r->0 as int].key@ == key@,
            r is None ==> forall|i: int| 0 <= i < self.rows@.len() ==> self.rows@[i].key@ != key@,
    {
        let mut i: usize = 0;
        while i < self.rows.len()
            invariant
                i <= self.rows@.len(),
                forall|j: int| 0 <= j < i ==> self.rows@[j].key@ != key@,
            decreases self.rows.len() - i,
        {
            if self.rows[i].key == *key {
                return Some(i);
            }
            i = i + 1;
        }
        None
    }

    /// The record stored for `path`, if it was stored with a modification time no earlier
    /// than `mtime`.
    pub fn get_file_data(&self, path: &str, mtime: u64) -> (r: Option<FileData>)
        requires
            self.wf(),
        ensures
            opt_record(r) == lookup(self.view(), path@, mtime as nat),
            r is Some ==> r->0.path@ == path@,
    {
        let key = Self::create_key(path);
        proof {
            lemma_path_of_key(path@);
        }
        match self.find(&key) {
            Some(i) => row_record(path, &self.rows[i].value, mtime),
            None => {
                proof {
                    if self.model@.contains_key(path@) {
                        let j = choose|j: int| 0 <= j < self.rows@.len() && #[trigger] self.rows@[j].key@ == key_of(path@);
                        assert(self.rows@[j].key@ == key@);
                    }
                }
                None
            },
        }
    }

    /// Stores `record` with `mtime`, replacing whatever its path held.
    pub fn store_file_data(&mut self, record: &FileData, mtime: u64) -> (r: Result<(), Error>)
        requires
            old(self).wf(),
        ensures
            r is Ok,
            final(self).wf(),
            final(self).view() == stored(old(self).view(), record@, mtime as nat),
    {
        let key = Self::create_key(record.path.as_str());
        let value = CachedFileEntry {
            content: record.content.clone(),
            tokens: record.tokens,
            mtime,
            error: copy_opt(&record.error),
        };
        let ghost p = record.path@;
        let ghost entry = row_model(p, value);
        proof {
            lemma_path_of_key(p);
        }
        assert(entry == StoredModel { record: record@, mtime: mtime as nat });
        let ghost old_model = self.model@;
        let ghost old_rows = self.rows@;
        match self.find(&key) {
            Some(i) => {
                assert(old_model.contains_key(p));
                self.rows.set(i, KvRow { key, value });
                self.model = Ghost(old_model.insert(p, entry));
                assert(old_model.dom().insert(p) =~= old_model.dom());
                assert forall|j: int| 0 <= j < self.rows@.len() && j != i implies path_of(
                    #[trigger] self.rows@[j].key@,
                ) != p by {
                    assert(old_rows[j].key@ != old_rows[i as int].key@);
                    lemma_key_of_path(self.rows@[j].key@);
                }
                assert forall|q: Seq<char>| #[trigger] self.model@.contains_key(q) implies exists|k: int|
                    0 <= k < self.rows@.len() && #[trigger] self.rows@[k].key@ == key_of(q) by {
                    if q == p {
                        assert(self.rows@[i as int].key@ == key_of(q));
                    } else {
                        let k = choose|k: int| 0 <= k < old_rows.len() && #[trigger] old_rows[k].key@ == key_of(q);
                        if k == i {
                            lemma_path_of_key(q);
                        }
                        assert(self.rows@[k].key@ == key_of(q));
                    }
                }
            },
            None => {
                assert(!old_model.contains_key(p)) by {
                    if old_model.contains_key(p) {
                        let k = choose|k: int| 0 <= k < old_rows.len() && #[trigger] old_rows[k].key@ == key_of(p);
                        assert(old_rows[k].key@ == key@);
                    }
                }
                self.rows.push(KvRow { key, value });
                self.model = Ghost(old_model.insert(p, entry));
                let ghost n = old_rows.len() as int;
                assert forall|j: int| 0 <= j < n implies path_of(#[trigger] self.rows@[j].key@) != p by {
                    lemma_key_of_path(self.rows@[j].key@);
                }
                assert forall|q: Seq<char>| #[trigger] self.model@.contains_key(q) implies exists|k: int|
                    0 <= k < self.rows@.len() && #[trigger] self.rows@[k].key@ == key_of(q) by {
                    if q == p {
                        assert(self.rows@[n].key@ == key_of(q));
                    } else {
                        let k = choose|k: int| 0 <= k < old_rows.len() && #[trigger] old_rows[k].key@ == key_of(q);
                        assert(self.rows@[k].key@ == key_of(q));
                    }
                }
            },
        }
        Ok(())
    }

    /// Removes every entry, one key at a time.
    pub fn clear(&mut self) -> (r: Result<(), Error>)
        requires
            old(self).wf(),
        ensures
            r is Ok,
            final(self).wf(),
            final(self).view() == CacheModel::empty(),
    {
        while self.rows.len() > 0
            invariant
                self.rows@.len() <= old(self).rows@.len(),
                forall|i: int|
                    0 <= i < self.rows@.len() ==> #[trigger] self.rows@[i] == old(self).rows@[i],
            decreases self.rows.len(),
        {
            self.rows.pop();
        }
        self.model = Ghost(CacheModel::empty());
        assert(self.model@.dom() =~= Set::<Seq<char>>::empty());
        Ok(())
    }

    /// The number of records held; the storage is in memory, so no bytes are allocated on disk.
    pub fn info(&self) -> (r: Result<Info, Error>)
        requires
            self.wf(),
        ensures
            r is Ok,
            r->Ok_0.records as nat == self.view().dom().len(),
            r->Ok_0.allocated == 0,
    {
        Ok(Info { records: self.rows.len() as u64, allocated: 0 })
    }
}

/// A key is the prefix followed by its path.
proof fn lemma_key_of_path(key: Seq<char>)
    requires
        key.len() >= 5,
        key.subrange(0, 5) == key_prefix(),
    ensures
        key_of(path_of(key)) == key,
{
    assert(key_of(path_of(key)) =~= key);
}

/// The path of a path's key is the path.
proof fn lemma_path_of_key(p: Seq<char>)
    ensures
        path_of(key_of(p)) == p,
        key_of(p).len() >= 5,
        key_of(p).subrange(0, 5) == key_prefix(),
{
    assert(path_of(key_of(p)) =~= p);
    assert(key_of(p).subrange(0, 5) =~= key_prefix());
}


/// The record a stored row gives for a query of `path` at `mtime`: the row's record when
/// it was stored no earlier than `mtime`, else nothing.
pub fn row_record(path: &str, row: &CachedFileEntry, mtime: u64) -> (r: Option<FileData>)
    ensures
        opt_record(r) == lookup(map![path@ => row_model(path@, *row)], path@, mtime as nat),
{
    if row.mtime < mtime {
        None
    } else {
        Some(
            FileData {
                path: path.to_string(),
                content: row.content.clone(),
                tokens: row.tokens,
                error: copy_opt(&row.error),
            },
        )
    }
}

/// The most keys one relational query may carry.
pub const MAX_KEYS_PER_QUERY: usize = 900;

/// Consecutive `[start, end)` ranges of at most `size` positions that cover `0..n` in order.
pub fn chunk_bounds(n: usize, size: usize) -> (r: Vec<(usize, usize)>)
    requires
        size > 0,
    ensures
        forall|k: int|
            0 <= k < r@.len() ==> #[trigger] r@[k].0 < r@[k].1 && r@[k].1 - r@[k].0 <= size,
        n == 0 ==> r@.len() == 0,
        n > 0 ==> r@.len() > 0 && r@[0].0 == 0 && r@[r@.len() - 1].1 == n,
        forall|k: int| 0 <= k < r@.len() - 1 ==> #[trigger] r@[k].1 == r@[k + 1].0,
        forall|k: int| 0 <= k < r@.len() - 1 ==> #[trigger] r@[k].1 - r@[k].0 == size,
{
    let mut out: Vec<(usize, usize)> = Vec::new();
    let mut start: usize = 0;
    while start < n
        invariant
            size > 0,
            start <= n,
            out@.len() == 0 <==> start == 0,
            out@.len() > 0 ==> out@[0].0 == 0 && out@[out@.len() - 1].1 == start,
            forall|k: int|
                0 <= k < out@.len() ==> #[trigger] out@[k].0 < out@[k].1 && out@[k].1 - out@[k].0 <= size,
            forall|k: int| 0 <= k < out@.len() - 1 ==> #[trigger] out@[k].1 == out@[k + 1].0,
            forall|k: int| 0 <= k < out@.len() ==> #[trigger] out@[k].1 - out@[k].0 == size || out@[k].1 == n,
            forall|k: int| 0 <= k < out@.len() - 1 ==> #[trigger] out@[k].1 - out@[k].0 == size,
        decreases n - start,
    {
        let end = if n - start > size {
            start + size
        } else {
            n
        };
        let ghost before = out@;
        out.push((start, end));
        proof {
            if before.len() > 0 {
                let last = before.len() - 1;
                assert(before[last].1 == start);
                assert(before[last].1 - before[last].0 == size || before[last].1 == n);
                assert(out@[last] == before[last]);
            }
            assert forall|k: int| 0 <= k < out@.len() - 1 implies #[trigger] out@[k].1 == out@[k + 1].0 by {
                if k < before.len() - 1 {
                    assert(out@[k] == before[k] && out@[k + 1] == before[k + 1]);
                }
            }
            assert forall|k: int| 0 <= k < out@.len() - 1 implies #[trigger] out@[k].1 - out@[k].0 == size by {
                assert(out@[k] == before[k]);
                if k == before.len() - 1 {
                    assert(before[k].1 == start);
                }
            }
        }
        start = end;
    }
    out
}

/// The cache interface: one of the backends this library holds, chosen at construction.
pub enum CacheStore {
    /// Key-value backend.
    KeyValue(RocksDBCache),
    /// Caching disabled.
    Disabled(NoneCache),
}

impl CacheStore {
    /// The entries, by path (always empty when caching is disabled).
    pub open spec fn view(&self) -> CacheModel {
        match self {
            CacheStore::KeyValue(c) => c.view(),
            CacheStore::Disabled(_) => CacheModel::empty(),
        }
    }

    /// Whether stores are kept.
    pub open spec fn keeps(&self) -> bool {
        self is KeyValue
    }

    /// The backend's own invariant.
    pub open spec fn wf(&self) -> bool {
        match self {
            CacheStore::KeyValue(c) => c.wf(),
            CacheStore::Disabled(_) => true,
        }
    }

    /// The record stored for `path`, if it was stored with a modification time no earlier
    /// than `mtime`. A disabled cache always misses.
    pub fn get_file_data(&self, path: &str, mtime: u64) -> (r: Option<FileData>)
        requires
            self.wf(),
        ensures
            opt_record(r) == lookup(self.view(), path@, mtime as nat),
            r is Some ==> r->0.path@ == path@,
    {
        match self {
            CacheStore::KeyValue(c) => c.get_file_data(path, mtime),
            CacheStore::Disabled(_) => None,
        }
    }

    /// One answer per query, in the order of the queries; each is what
    /// [`CacheStore::get_file_data`] gives for that path and time.
    pub fn get_file_data_batch(&self, paths: &Vec<String>, mtimes: &Vec<u64>) -> (r: Vec<Option<FileData>>)
        requires
            self.wf(),
            paths.len() == mtimes.len(),
        ensures
            r@.len() == paths@.len(),
            forall|i: int| 0 <= i < paths@.len() ==> #[trigger] opt_record(r@[i]) == lookup(self.view(), paths@[i]@, mtimes@[i] as nat),
            forall|i: int| 0 <= i < paths@.len() && (#[trigger] r@[i]) is Some ==> r@[i]->0.path@ == paths@[i]@,
            opt_records(r@) == lookup_all(self.view(), self::paths(paths@), times(mtimes@)),
    {
        let mut out: Vec<Option<FileData>> = Vec::new();
        let mut i: usize = 0;
        while i < paths.len()
            invariant
                self.wf(),
                paths.len() == mtimes.len(),
                i <= paths.len(),
                out@.len() == i,
                forall|j: int| 0 <= j < i ==> #[trigger] opt_record(out@[j]) == lookup(self.view(), paths@[j]@, mtimes@[j] as nat),
                forall|j: int| 0 <= j < i && (#[trigger] out@[j]) is Some ==> out@[j]->0.path@ == paths@[j]@,
            decreases paths.len() - i,
        {
            out.push(self.get_file_data(paths[i].as_str(), mtimes[i]));
            i = i + 1;
        }
        assert(opt_records(out@) =~= lookup_all(self.view(), self::paths(paths@), times(mtimes@)));
        out
    }

    /// Stores `record` with `mtime`, replacing whatever its path held; a disabled cache
    /// keeps nothing.
    pub fn store_file_data(&mut self, record: &FileData, mtime: u64) -> (r: Result<(), Error>)
        requires
            old(self).wf(),
        ensures
            r is Ok,
            final(self).wf(),
            final(self).keeps() == old(self).keeps(),
            final(self).view() == (if old(self).keeps() {
                stored(old(self).view(), record@, mtime as nat)
            } else {
                old(self).view()
            }),
    {
        match self {
            CacheStore::KeyValue(c) => c.store_file_data(record, mtime),
            CacheStore::Disabled(_) => Ok(()),
        }
    }

    /// Stores each record with its time, in order, as one batch.
    pub fn store_file_data_batch(&mut self, records: &Vec<FileData>, mtimes: &Vec<u64>) -> (r: Result<(), Error>)
        requires
            old(self).wf(),
            records.len() == mtimes.len(),
        ensures
            r is Ok,
            final(self).wf(),
            final(self).keeps() == old(self).keeps(),
            final(self).view() == (if old(self).keeps() {
                stored_all(old(self).view(), self::records(records@), times(mtimes@))
            } else {
                old(self).view()
            }),
    {
        let ghost start = self.view();
        let mut i: usize = 0;
        while i < records.len()
            invariant
                self.wf(),
                records.len() == mtimes.len(),
                i <= records.len(),
                self.keeps() == old(self).keeps(),
                start == old(self).view(),
                self.view() == (if self.keeps() {
                    stored_all(start, self::records(records@).subrange(0, i as int), times(mtimes@).subrange(0, i as int))
                } else {
                    start
                }),
            decreases records.len() - i,
        {
            let ghost rs = self::records(records@).subrange(0, i + 1);
            let ghost ts = times(mtimes@).subrange(0, i + 1);
            assert(rs.drop_last() =~= self::records(records@).subrange(0, i as int));
            assert(ts.drop_last() =~= times(mtimes@).subrange(0, i as int));
            let _ = self.store_file_data(&records[i], mtimes[i]);
            i = i + 1;
        }
        assert(self::records(records@).subrange(0, records.len() as int) =~= self::records(records@));
        assert(times(mtimes@).subrange(0, records.len() as int) =~= times(mtimes@));
        Ok(())
    }

    /// Removes every entry.
    pub fn clear(&mut self) -> (r: Result<(), Error>)
        requires
            old(self).wf(),
        ensures
            r is Ok,
            final(self).wf(),
            final(self).keeps() == old(self).keeps(),
            final(self).view() == CacheModel::empty(),
    {
        match self {
            CacheStore::KeyValue(c) => c.clear(),
            CacheStore::Disabled(_) => Ok(()),
        }
    }

    /// The number of records held and the bytes the storage occupies (none: both
    /// backends held here keep their entries in memory).
    pub fn info(&self) -> (r: Result<Info, Error>)
        requires
            self.wf(),
        ensures
            r is Ok,
            r->Ok_0.records as nat == self.view().dom().len(),
            r->Ok_0.allocated == 0,
    {
        match self {
            CacheStore::KeyValue(c) => c.info(),
            CacheStore::Disabled(_) => {
                assert(CacheModel::empty().dom() =~= Set::<Seq<char>>::empty());
                Ok(Info { records: 0, allocated: 0 })
            },
        }
    }
}

/// The backend that a provider name selects once lower-cased.
pub open spec fn provider_named(name: Seq<char>) -> Option<CacheProvider> {
    let l = lower_of(name);
    if l == seq!['s', 'q', 'l', 'i', 't', 'e'] {
        Some(CacheProvider::Sqlite)
    } else if l == seq!['r', 'o', 'c', 'k', 's', 'd', 'b'] {
        Some(CacheProvider::Rocksdb)
    } else if l == seq!['n', 'o', 'n', 'e'] {
        Some(CacheProvider::Disabled)
    } else {
        Option::None
    }
}

/// The message for a provider name that selects no backend.
pub open spec fn unknown_provider_text(name: Seq<char>) -> Seq<char> {
    "Unknown cache provider: "@ + name
}

/// The backend a provider name selects (`sqlite`, `rocksdb` or `none`, after lower-casing);
/// any other name is a configuration error naming it.
pub fn parse_provider(name: &str) -> (r: Result<CacheProvider, Error>)
    ensures
        provider_named(name@) is Some ==> r == Ok::<CacheProvider, Error>(provider_named(name@)->0),
        provider_named(name@) is None ==> r is Err && r->Err_0 is Config
            && r->Err_0->Config_0@ == unknown_provider_text(name@),
{
    let l = lowercase(name);
    let a = chars_of(l.as_str());
    let sqlite: Vec<char> = vec!['s', 'q', 'l', 'i', 't', 'e'];
    let rocksdb: Vec<char> = vec!['r', 'o', 'c', 'k', 's', 'd', 'b'];
    let none: Vec<char> = vec!['n', 'o', 'n', 'e'];
    assert(sqlite@ =~= seq!['s', 'q', 'l', 'i', 't', 'e']);
    assert(rocksdb@ =~= seq!['r', 'o', 'c', 'k', 's', 'd', 'b']);
    assert(none@ =~= seq!['n', 'o', 'n', 'e']);
    if chars_eq(&a, &sqlite) {
        Ok(CacheProvider::Sqlite)
    } else if chars_eq(&a, &rocksdb) {
        Ok(CacheProvider::Rocksdb)
    } else if chars_eq(&a, &none) {
        Ok(CacheProvider::Disabled)
    } else {
        let msg = concat_chars(&chars_of("Unknown cache provider: "), &chars_of(name));
        Err(Error::Config(string_of(&msg)))
    }
}

/// The cache for a backend this library holds: the key-value backend or the disabled
/// one. The relational backend lives with the application, which owns its database
/// connection; asking for it here is a configuration error.
pub fn create_cache(provider: CacheProvider, config: CacheConfig) -> (r: Result<CacheStore, Error>)
    ensures
        provider == CacheProvider::Rocksdb ==> r is Ok && r->Ok_0.keeps() && r->Ok_0.wf() && r->Ok_0.view() == CacheModel::empty(),
        provider == CacheProvider::Disabled ==> r is Ok && !r->Ok_0.keeps() && r->Ok_0.wf(),
        provider == CacheProvider::Sqlite ==> r is Err && r->Err_0 is Config,
{
    match provider {
        CacheProvider::Rocksdb => match RocksDBCache::new(config) {
            Ok(c) => Ok(CacheStore::KeyValue(c)),
            Err(e) => Err(e),
        },
        CacheProvider::Disabled => match NoneCache::new(config) {
            Ok(c) => Ok(CacheStore::Disabled(c)),
            Err(e) => Err(e),
        },
        CacheProvider::Sqlite => Err(Error::Config("the relational backend is opened by the application".to_string())),
    }
}

/// The cache directory: the explicit override if given, else `codemerge` under the
/// platform's cache directory if it has one, else `.cache/codemerge`.
pub fn get_cache_dir(cache_dir: Option<String>, platform_dir: Option<String>) -> (r: String)
    ensures
        cache_dir is Some ==> r@ == cache_dir->0@,
        cache_dir is None && platform_dir is Some ==> r@ == platform_dir->0@ + "/codemerge"@,
        cache_dir is None && platform_dir is None ==> r@ == ".cache/codemerge"@,
{
    match cache_dir {
        Some(d) => d,
        None => {
            let base = match platform_dir {
                Some(p) => chars_of(p.as_str()),
                None => chars_of(".cache"),
            };
            let joined = concat_chars(&base, &chars_of("/codemerge"));
            proof {
                reveal_strlit(".cache");
                reveal_strlit(".cache/codemerge");
                reveal_strlit("/codemerge");
                assert(seq!['.', 'c', 'a', 'c', 'h', 'e'] + "/codemerge"@ =~= ".cache/codemerge"@);
            }
            string_of(&joined)
        },
    }
}

/// Storing a record and querying its path with a time no later than the stored one
/// returns exactly that record.
pub proof fn lemma_round_trip(m: CacheModel, rec: RecordModel, t: nat, q: nat)
    requires
        q <= t,
    ensures
        lookup(stored(m, rec, t), rec.path, q) == Some(rec),
{
}

/// Querying a stored path with a time later than the stored one misses.
pub proof fn lemma_newer_mtime_misses(m: CacheModel, rec: RecordModel, t: nat, q: nat)
    requires
        q > t,
    ensures
        lookup(stored(m, rec, t), rec.path, q) is None,
{
}

/// A batch lookup answers, position by position, what single lookups answer.
pub proof fn lemma_batch_is_pointwise(m: CacheModel, ps: Seq<Seq<char>>, ts: Seq<nat>, i: int)
    requires
        ps.len() == ts.len(),
        0 <= i < ps.len(),
    ensures
        lookup_all(m, ps, ts).len() == ps.len(),
        lookup_all(m, ps, ts)[i] == lookup(m, ps[i], ts[i]),
{
}

/// After clearing, every path misses at every time and no record is counted.
pub proof fn lemma_cleared_misses(p: Seq<char>, t: nat)
    ensures
        lookup(CacheModel::empty(), p, t) is None,
        CacheModel::empty().dom().len() == 0,
{
    assert(CacheModel::empty().dom() =~= Set::<Seq<char>>::empty());
}

} // verus!
