use codemerge::cache::{create_cache, CacheConfig, CacheProvider, CacheStore};
use codemerge::pipeline::{
    complete_files, merge_results, miss_indices, record_from_read, run_files, ReadOutcome,
};
use codemerge::record::FileData;

fn kv() -> CacheStore {
    create_cache(CacheProvider::Rocksdb, CacheConfig { cache_dir: "/tmp/c".to_string() }).unwrap()
}

fn record(path: &str, content: &str, tokens: usize) -> FileData {
    FileData { path: path.to_string(), content: content.to_string(), tokens, error: None }
}

fn run(cache: &mut CacheStore, paths: &Vec<String>, mtimes: &Vec<u64>, reads: &dyn Fn(&str) -> ReadOutcome) -> (Vec<FileData>, usize) {
    let found = cache.get_file_data_batch(paths, mtimes);
    let misses = miss_indices(&found);
    let fresh: Vec<FileData> = misses.iter().map(|&i| record_from_read(&paths[i], &reads(&paths[i]))).collect();
    let (out, warning) = complete_files(cache, mtimes, &found, &fresh);
    assert!(warning.is_none());
    (out, misses.len())
}

#[test]
fn whitespace_only_file_has_zero_tokens() {
    let r = record_from_read("w.txt", &ReadOutcome::Bytes(b"  \n\t \n".to_vec()));
    assert_eq!(r.tokens, 0);
    assert!(r.error.is_none());
    assert_eq!(r.content, "  \n\t \n");
}

#[test]
fn empty_file_has_zero_tokens() {
    let r = record_from_read("e.txt", &ReadOutcome::Bytes(vec![]));
    assert_eq!(r.tokens, 0);
    assert!(r.error.is_none());
}

#[test]
fn invalid_utf8_gives_error_record() {
    let r = record_from_read("b.bin", &ReadOutcome::Bytes(vec![0x66, 0xff, 0xfe]));
    assert!(r.error.is_some());
    assert_eq!(r.content, "");
    assert_eq!(r.tokens, 0);
}

#[test]
fn read_failure_gives_error_record() {
    let r = record_from_read("gone.txt", &ReadOutcome::Failed("No such file".to_string()));
    assert_eq!(r.error, Some("No such file".to_string()));
    assert_eq!(r.content, "");
    assert_eq!(r.tokens, 0);
}

#[test]
fn text_file_is_counted() {
    let r = record_from_read("t.txt", &ReadOutcome::Bytes(b"Hello, world!".to_vec()));
    assert!(r.tokens > 0);
    assert_eq!(r.content, "Hello, world!");
    assert_eq!(r.path, "t.txt");
}

#[test]
fn misses_are_merged_back_in_order() {
    let mut c = kv();
    c.store_file_data(&record("a", "A", 1), 10).unwrap();
    c.store_file_data(&record("c", "C", 3), 10).unwrap();
    let paths: Vec<String> = ["a", "b", "c"].iter().map(|s| s.to_string()).collect();
    let mtimes = vec![10, 10, 10];
    let found = c.get_file_data_batch(&paths, &mtimes);
    let misses = miss_indices(&found);
    assert_eq!(misses, vec![1]);
    let fresh = vec![record("b", "B", 2)];
    let (out, warning) = complete_files(&mut c, &mtimes, &found, &fresh);
    assert!(warning.is_none());
    let order: Vec<&str> = out.iter().map(|r| r.path.as_str()).collect();
    assert_eq!(order, vec!["a", "b", "c"]);
    assert_eq!(out[1].content, "B");
    assert!(c.get_file_data("b", 10).is_some());
}

#[test]
fn merge_without_misses_keeps_hits() {
    let found = vec![Some(record("x", "1", 1)), Some(record("y", "2", 2))];
    let out = merge_results(&found, &vec![]);
    assert_eq!(out.len(), 2);
    assert_eq!(out[0].path, "x");
    assert_eq!(out[1].path, "y");
}

#[test]
fn second_run_hits_every_file_and_matches_first() {
    let mut c = kv();
    let paths: Vec<String> = ["p/one.txt", "p/two.txt", "p/bad.bin"].iter().map(|s| s.to_string()).collect();
    let mtimes = vec![100, 200, 300];
    let reads = |p: &str| -> ReadOutcome {
        if p.ends_with(".bin") {
            ReadOutcome::Bytes(vec![0xc3, 0x28])
        } else {
            ReadOutcome::Bytes(format!("contents of {}", p).into_bytes())
        }
    };
    let (first, first_misses) = run(&mut c, &paths, &mtimes, &reads);
    assert_eq!(first_misses, 3);
    let (second, second_misses) = run(&mut c, &paths, &mtimes, &reads);
    assert_eq!(second_misses, 0);
    assert_eq!(first.len(), second.len());
    for (a, b) in first.iter().zip(second.iter()) {
        assert_eq!(a.path, b.path);
        assert_eq!(a.content, b.content);
        assert_eq!(a.tokens, b.tokens);
        assert_eq!(a.error, b.error);
    }
}

#[test]
fn modified_file_is_reprocessed() {
    let mut c = kv();
    let paths = vec!["f.txt".to_string()];
    let (_, m1) = run(&mut c, &paths, &vec![10], &|_: &str| ReadOutcome::Bytes(b"v1".to_vec()));
    assert_eq!(m1, 1);
    let (out, m2) = run(&mut c, &paths, &vec![11], &|_: &str| ReadOutcome::Bytes(b"v2".to_vec()));
    assert_eq!(m2, 1);
    assert_eq!(out[0].content, "v2");
}

#[test]
fn disabled_cache_processes_every_file() {
    let mut c = create_cache(CacheProvider::Disabled, CacheConfig { cache_dir: String::new() }).unwrap();
    let paths = vec!["f.txt".to_string()];
    let (_, m1) = run(&mut c, &paths, &vec![10], &|_: &str| ReadOutcome::Bytes(b"v".to_vec()));
    let (_, m2) = run(&mut c, &paths, &vec![10], &|_: &str| ReadOutcome::Bytes(b"v".to_vec()));
    assert_eq!((m1, m2), (1, 1));
}

#[test]
fn whole_run_twice_is_identical() {
    let mut c = kv();
    let paths: Vec<String> = ["a.txt", "b.bin", "c.txt"].iter().map(|s| s.to_string()).collect();
    let mtimes = vec![1, 2, 3];
    let reads = vec![
        ReadOutcome::Bytes(b"alpha".to_vec()),
        ReadOutcome::Bytes(vec![0xff]),
        ReadOutcome::Failed("denied".to_string()),
    ];
    let (first, w1) = run_files(&mut c, &paths, &mtimes, &reads);
    assert!(w1.is_none());
    assert_eq!(c.info().unwrap().records, 3);
    let other_reads = vec![
        ReadOutcome::Bytes(b"changed".to_vec()),
        ReadOutcome::Bytes(b"changed".to_vec()),
        ReadOutcome::Bytes(b"changed".to_vec()),
    ];
    let (second, _) = run_files(&mut c, &paths, &mtimes, &other_reads);
    for (a, b) in first.iter().zip(second.iter()) {
        assert_eq!((&a.path, &a.content, a.tokens, &a.error), (&b.path, &b.content, b.tokens, &b.error));
    }
    assert_eq!(second[0].content, "alpha");
    assert_eq!(second[2].error, Some("denied".to_string()));
}

#[test]
fn huge_space_run_never_panics() {
    let mut text = vec![b' '; 1_100_000];
    text.push(b'x');
    let r = record_from_read("spaces.txt", &ReadOutcome::Bytes(text));
    match &r.error {
        None => assert!(r.tokens > 0),
        Some(e) => {
            assert_eq!(e, "Tokenization failed");
            assert_eq!(r.content, "");
            assert_eq!(r.tokens, 0);
        }
    }
}
