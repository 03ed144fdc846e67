use codemerge::cache::{
    create_cache, get_cache_dir, parse_provider, CacheConfig, CacheProvider, CacheStore, NoneCache,
    RocksDBCache,
};
use codemerge::error::Error;
use codemerge::record::FileData;

fn record(path: &str, content: &str, tokens: usize) -> FileData {
    FileData { path: path.to_string(), content: content.to_string(), tokens, error: None }
}

fn config() -> CacheConfig {
    CacheConfig { cache_dir: "/tmp/cache".to_string() }
}

fn kv() -> CacheStore {
    create_cache(CacheProvider::Rocksdb, config()).unwrap()
}

fn same(a: &FileData, b: &FileData) -> bool {
    a.path == b.path && a.content == b.content && a.tokens == b.tokens && a.error == b.error
}

#[test]
fn round_trip_at_same_and_earlier_time() {
    let mut c = kv();
    let r = record("src/a.rs", "fn main() {}", 4);
    c.store_file_data(&r, 100).unwrap();
    assert!(same(&c.get_file_data("src/a.rs", 100).unwrap(), &r));
    assert!(same(&c.get_file_data("src/a.rs", 50).unwrap(), &r));
}

#[test]
fn round_trip_keeps_error_field() {
    let mut c = kv();
    let r = FileData::with_error("bad.bin", "Invalid UTF-8");
    c.store_file_data(&r, 7).unwrap();
    let got = c.get_file_data("bad.bin", 7).unwrap();
    assert_eq!(got.error, Some("Invalid UTF-8".to_string()));
    assert_eq!(got.content, "");
    assert_eq!(got.tokens, 0);
}

#[test]
fn later_mtime_misses() {
    let mut c = kv();
    c.store_file_data(&record("a", "x", 1), 100).unwrap();
    assert!(c.get_file_data("a", 101).is_none());
    assert!(c.get_file_data("b", 0).is_none());
}

#[test]
fn store_replaces_whole_entry() {
    let mut c = kv();
    c.store_file_data(&record("a", "old", 1), 10).unwrap();
    c.store_file_data(&record("a", "new", 2), 20).unwrap();
    let got = c.get_file_data("a", 15).unwrap();
    assert_eq!(got.content, "new");
    assert_eq!(got.tokens, 2);
    assert_eq!(c.info().unwrap().records, 1);
}

#[test]
fn batch_matches_single_lookups() {
    let mut c = kv();
    c.store_file_data(&record("a", "1", 1), 10).unwrap();
    c.store_file_data(&record("b", "2", 2), 20).unwrap();
    let paths: Vec<String> = ["a", "b", "c", "a"].iter().map(|s| s.to_string()).collect();
    let times = vec![10, 21, 0, 11];
    let batch = c.get_file_data_batch(&paths, &times);
    assert_eq!(batch.len(), 4);
    for i in 0..4 {
        let single = c.get_file_data(&paths[i], times[i]);
        match (&batch[i], &single) {
            (Some(x), Some(y)) => assert!(same(x, y)),
            (None, None) => {}
            _ => panic!("batch and single lookups differ at {}", i),
        }
    }
    assert!(batch[0].is_some() && batch[1].is_none() && batch[2].is_none() && batch[3].is_none());
}

#[test]
fn store_batch_then_lookup() {
    let mut c = kv();
    let recs = vec![record("a", "1", 1), record("b", "2", 2)];
    c.store_file_data_batch(&recs, &vec![5, 6]).unwrap();
    assert!(c.get_file_data("a", 5).is_some());
    assert!(c.get_file_data("b", 7).is_none());
    assert_eq!(c.info().unwrap().records, 2);
}

#[test]
fn clear_forgets_everything() {
    let mut c = kv();
    c.store_file_data(&record("a", "1", 1), 10).unwrap();
    c.store_file_data(&record("b", "2", 2), 10).unwrap();
    c.clear().unwrap();
    assert!(c.get_file_data("a", 0).is_none());
    assert!(c.get_file_data("b", 0).is_none());
    assert_eq!(c.info().unwrap().records, 0);
    c.clear().unwrap();
    assert_eq!(c.info().unwrap().records, 0);
}

#[test]
fn disabled_cache_never_hits() {
    let mut c = create_cache(CacheProvider::Disabled, config()).unwrap();
    c.store_file_data(&record("a", "1", 1), 10).unwrap();
    assert!(c.get_file_data("a", 0).is_none());
    assert_eq!(c.info().unwrap().records, 0);
    assert!(c.clear().is_ok());
    let _ = NoneCache::new(config()).unwrap();
}

#[test]
fn relational_backend_is_not_built_here() {
    assert!(matches!(create_cache(CacheProvider::Sqlite, config()), Err(Error::Config(_))));
}

#[test]
fn key_layout() {
    assert_eq!(RocksDBCache::create_key("src/a.rs"), "file:src/a.rs");
}

#[test]
fn provider_names() {
    assert_eq!(parse_provider("sqlite").unwrap(), CacheProvider::Sqlite);
    assert_eq!(parse_provider("RocksDB").unwrap(), CacheProvider::Rocksdb);
    assert_eq!(parse_provider("None").unwrap(), CacheProvider::Disabled);
    assert!(matches!(parse_provider("redis"), Err(Error::Config(_))));
}

#[test]
fn cache_dir_resolution() {
    assert_eq!(get_cache_dir(Some("/x".to_string()), Some("/home/u/.cache".to_string())), "/x");
    assert_eq!(get_cache_dir(None, Some("/home/u/.cache".to_string())), "/home/u/.cache/codemerge");
    assert_eq!(get_cache_dir(None, None), ".cache/codemerge");
}

#[test]
fn unknown_provider_message_names_it() {
    match parse_provider("redis") {
        Err(Error::Config(m)) => assert_eq!(m, "Unknown cache provider: redis"),
        _ => panic!("redis must be unknown"),
    }
    assert_eq!(parse_provider("ROCKSDB").unwrap(), CacheProvider::Rocksdb);
}

#[test]
fn info_reports_no_allocation() {
    let mut c = kv();
    c.store_file_data(&record("a", "1", 1), 10).unwrap();
    assert_eq!(c.info().unwrap().allocated, 0);
    let d = create_cache(CacheProvider::Disabled, config()).unwrap();
    let i = d.info().unwrap();
    assert_eq!((i.records, i.allocated), (0, 0));
}

#[test]
fn hit_carries_queried_path() {
    let mut c = kv();
    c.store_file_data(&record("dir/x.rs", "x", 1), 3).unwrap();
    assert_eq!(c.get_file_data("dir/x.rs", 3).unwrap().path, "dir/x.rs");
}
