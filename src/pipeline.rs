use crate::cache::{lookup_all, opt_records, records, stored_all, times, CacheModel, CacheStore};
use crate::error::Error;
use crate::record::{error_record, text_record, FileData, RecordModel};
use crate::text::{all_ws, decode_text};
use vstd::prelude::*;
use vstd::utf8::{decode_utf8, valid_utf8};

verus! {

/// What reading a file gave: its bytes, or the reason it could not be read.
pub enum ReadOutcome {
    Bytes(Vec<u8>),
    Failed(String),
}

/// The record for a file at `path` whose read gave `read`: its text when the bytes are
/// valid UTF-8, otherwise an error record.
pub open spec fn read_record(path: Seq<char>, read: ReadOutcome) -> RecordModel {
    match read {
        ReadOutcome::Bytes(b) => if valid_utf8(b@) {
            text_record(path, decode_utf8(b@))
        } else {
            error_record(path, "Invalid UTF-8"@)
        },
        ReadOutcome::Failed(m) => error_record(path, m@),
    }
}

/// The positions, in increasing order, at which the cache had no answer.
pub open spec fn miss_positions(found: Seq<Option<RecordModel>>) -> Seq<int>
    decreases found.len(),
{
    if found.len() == 0 {
        seq![]
    } else {
        let rest = miss_positions(found.drop_last());
        if found.last() is None {
            rest.push(found.len() - 1)
        } else {
            rest
        }
    }
}

/// Cache answers and freshly processed misses merged back into input order: a hit keeps
/// its place, and the misses take the fresh records in turn.
pub open spec fn merged(found: Seq<Option<RecordModel>>, fresh: Seq<RecordModel>) -> Seq<RecordModel>
    decreases found.len(),
{
    if found.len() == 0 {
        seq![]
    } else if found.last() is Some {
        merged(found.drop_last(), fresh).push(found.last()->0)
    } else {
        merged(found.drop_last(), fresh.drop_last()).push(fresh.last())
    }
}

/// The elements of `v` at the given positions.
pub open spec fn pick<T>(v: Seq<T>, at: Seq<int>) -> Seq<T> {
    Seq::new(at.len(), |k: int| v[at[k]])
}

/// The records made for the misses, where `reads[i]` is what reading the `i`-th path gives.
pub open spec fn fresh_records(ps: Seq<Seq<char>>, reads: Seq<ReadOutcome>, miss: Seq<int>) -> Seq<RecordModel> {
    Seq::new(miss.len(), |k: int| read_record(ps[miss[k]], reads[miss[k]]))
}

/// One run over paths `ps` at times `ts` against cache contents `m`: the records returned,
/// in input order, and the cache contents afterwards.
pub open spec fn run(m: CacheModel, ps: Seq<Seq<char>>, ts: Seq<nat>, reads: Seq<ReadOutcome>) -> (Seq<RecordModel>, CacheModel) {
    let found = lookup_all(m, ps, ts);
    let miss = miss_positions(found);
    let fresh = fresh_records(ps, reads, miss);
    (merged(found, fresh), stored_all(m, fresh, pick(ts, miss)))
}

/// The record for a file whose read gave `read`.
///
/// Valid UTF-8 becomes the file's text (white space only counts zero tokens); anything
/// else becomes an error record with empty content and zero tokens.
pub fn record_from_read(path: &str, read: &ReadOutcome) -> (r: FileData)
    ensures
        r@ == read_record(path@, *read),
{
    match read {
        ReadOutcome::Bytes(b) => match decode_text(b.as_slice()) {
            Some(text) => FileData::new(path, text.as_str()),
            None => FileData::with_error(path, "Invalid UTF-8"),
        },
        ReadOutcome::Failed(m) => FileData::with_error(path, m.as_str()),
    }
}

/// The positions at which the cache had no answer, in increasing order.
pub fn miss_indices(found: &Vec<Option<FileData>>) -> (r: Vec<usize>)
    ensures
        r@.map_values(|i: usize| i as int) == miss_positions(opt_records(found@)),
{
    let ghost f = opt_records(found@);
    let mut out: Vec<usize> = Vec::new();
    let mut i: usize = 0;
    while i < found.len()
        invariant
            i <= found.len(),
            f == opt_records(found@),
            out@.map_values(|i: usize| i as int) == miss_positions(f.subrange(0, i as int)),
        decreases found.len() - i,
    {
        assert(f.subrange(0, i + 1).drop_last() =~= f.subrange(0, i as int));
        if found[i].is_none() {
            let ghost before = out@;
            out.push(i);
            assert(out@.map_values(|i: usize| i as int) =~= before.map_values(|i: usize| i as int).push(i as int));
        }
        i = i + 1;
    }
    assert(f.subrange(0, found.len() as int) =~= f);
    out
}

/// Cache answers and fresh records merged back into input order; see [`merged`].
pub fn merge_results(found: &Vec<Option<FileData>>, fresh: &Vec<FileData>) -> (r: Vec<FileData>)
    requires
        fresh.len() == miss_positions(opt_records(found@)).len(),
    ensures
        records(r@) == merged(opt_records(found@), records(fresh@)),
{
    let ghost f = opt_records(found@);
    let ghost g = records(fresh@);
    let mut out: Vec<FileData> = Vec::new();
    let mut i: usize = 0;
    let mut k: usize = 0;
    while i < found.len()
        invariant
            i <= found.len(),
            f == opt_records(found@),
            g == records(fresh@),
            fresh.len() == miss_positions(f).len(),
            k == miss_positions(f.subrange(0, i as int)).len(),
            records(out@) == merged(f.subrange(0, i as int), g.subrange(0, k as int)),
        decreases found.len() - i,
    {
        proof {
            assert(f.subrange(0, i + 1).drop_last() =~= f.subrange(0, i as int));
            lemma_miss_prefix_len(f, i as int + 1);
        }
        let ghost before = out@;
        match &found[i] {
            Some(rec) => {
                out.push(rec.duplicate());
                assert(records(out@) =~= records(before).push(rec@));
            },
            None => {
                assert(g.subrange(0, k + 1).drop_last() =~= g.subrange(0, k as int));
                out.push(fresh[k].duplicate());
                assert(records(out@) =~= records(before).push(fresh@[k as int]@));
                k = k + 1;
            },
        }
        i = i + 1;
    }
    assert(f.subrange(0, found.len() as int) =~= f);
    assert(g.subrange(0, k as int) =~= g);
    out
}

/// The times at the given positions.
pub fn pick_times(mtimes: &Vec<u64>, at: &Vec<usize>) -> (r: Vec<u64>)
    requires
        forall|k: int| 0 <= k < at@.len() ==> #[trigger] at@[k] < mtimes@.len(),
    ensures
        times(r@) == pick(times(mtimes@), at@.map_values(|i: usize| i as int)),
        r@.len() == at@.len(),
{
    let mut out: Vec<u64> = Vec::new();
    let mut k: usize = 0;
    while k < at.len()
        invariant
            k <= at.len(),
            forall|j: int| 0 <= j < at@.len() ==> #[trigger] at@[j] < mtimes@.len(),
            out@.len() == k,
            forall|j: int| 0 <= j < k ==> #[trigger] out@[j] == mtimes@[at@[j] as int],
        decreases at.len() - k,
    {
        out.push(mtimes[at[k]]);
        k = k + 1;
    }
    assert(times(out@) =~= pick(times(mtimes@), at@.map_values(|i: usize| i as int)));
    out
}

/// Finishes a run once the misses are processed: stores the fresh records in one batch,
/// with the times of their paths, and returns every record in input order with the
/// store's error, if any.
///
/// `found` is the cache's answer for the run's paths at `mtimes`; `fresh` holds one record per
/// miss, in the order of [`miss_indices`].
pub fn complete_files(
    cache: &mut CacheStore,
    mtimes: &Vec<u64>,
    found: &Vec<Option<FileData>>,
    fresh: &Vec<FileData>,
) -> (r: (Vec<FileData>, Option<Error>))
    requires
        old(cache).wf(),
        found.len() == mtimes.len(),
        fresh.len() == miss_positions(opt_records(found@)).len(),
    ensures
        final(cache).wf(),
        final(cache).keeps() == old(cache).keeps(),
        records(r.0@) == merged(opt_records(found@), records(fresh@)),
        r.1 is None,
        final(cache).view() == (if old(cache).keeps() {
            stored_all(old(cache).view(), records(fresh@), pick(times(mtimes@), miss_positions(opt_records(found@))))
        } else {
            old(cache).view()
        }),
{
    let miss = miss_indices(found);
    proof {
        lemma_miss_positions_in_range(opt_records(found@));
        assert forall|k: int| 0 <= k < miss@.len() implies #[trigger] miss@[k] < mtimes@.len() by {
            assert(miss@.map_values(|i: usize| i as int)[k] == miss@[k] as int);
        }
    }
    let miss_times = pick_times(mtimes, &miss);
    let stored_ok = cache.store_file_data_batch(fresh, &miss_times);
    let out = merge_results(found, fresh);
    let warning = match stored_ok {
        Ok(()) => None,
        Err(e) => Some(e),
    };
    (out, warning)
}

/// One whole run: looks every path up in one batch, turns the reads of the misses into
/// records, stores those in one batch and returns all records in input order.
///
/// `reads[i]` is what reading the `i`-th path gives; it is consulted only for misses. The
/// records are exactly those of [`run`]; a cache that keeps its entries ends holding what
/// [`run`] says.
pub fn run_files(
    cache: &mut CacheStore,
    paths: &Vec<String>,
    mtimes: &Vec<u64>,
    reads: &Vec<ReadOutcome>,
) -> (r: (Vec<FileData>, Option<Error>))
    requires
        old(cache).wf(),
        paths.len() == mtimes.len(),
        paths.len() == reads.len(),
    ensures
        final(cache).wf(),
        final(cache).keeps() == old(cache).keeps(),
        records(r.0@) == run(old(cache).view(), crate::cache::paths(paths@), times(mtimes@), reads@).0,
        old(cache).keeps() ==> final(cache).view() == run(old(cache).view(), crate::cache::paths(paths@), times(mtimes@), reads@).1,
        !old(cache).keeps() ==> final(cache).view() == old(cache).view(),
        r.0@.len() == paths@.len(),
        forall|i: int| 0 <= i < paths@.len() ==> (#[trigger] r.0@[i]).path@ == paths@[i]@,
        r.1 is None,
{
    let ghost ps = crate::cache::paths(paths@);
    let found = cache.get_file_data_batch(paths, mtimes);
    let miss = miss_indices(&found);
    let ghost mp = miss_positions(opt_records(found@));
    proof {
        lemma_miss_positions_in_range(opt_records(found@));
    }
    let mut fresh: Vec<FileData> = Vec::new();
    let mut k: usize = 0;
    while k < miss.len()
        invariant
            k <= miss.len(),
            found@.len() == paths@.len(),
            paths@.len() == reads@.len(),
            ps == crate::cache::paths(paths@),
            mp == miss_positions(opt_records(found@)),
            miss@.map_values(|i: usize| i as int) == mp,
            forall|j: int| 0 <= j < mp.len() ==> 0 <= #[trigger] mp[j] < opt_records(found@).len(),
            fresh@.len() == k,
            forall|j: int| 0 <= j < k ==> (#[trigger] fresh@[j])@ == read_record(ps[mp[j]], reads@[mp[j]]),
        decreases miss.len() - k,
    {
        let i = miss[k];
        assert(mp[k as int] == i as int);
        fresh.push(record_from_read(paths[i].as_str(), &reads[i]));
        k = k + 1;
    }
    assert(records(fresh@) =~= fresh_records(ps, reads@, mp));
    let ghost f = opt_records(found@);
    let ghost g = records(fresh@);
    let out = complete_files(cache, mtimes, &found, &fresh);
    proof {
        lemma_order_preserved(f, g);
        assert forall|i: int| 0 <= i < paths@.len() implies (#[trigger] out.0@[i]).path@ == paths@[i]@ by {
            assert(records(out.0@)[i] == out.0@[i]@);
            if f[i] is Some {
                assert(found@[i] is Some);
            } else {
                let k = choose|k: int| 0 <= k < mp.len() && #[trigger] mp[k] == i;
                match reads@[i] {
                    ReadOutcome::Bytes(_) => {},
                    ReadOutcome::Failed(_) => {},
                }
                assert(g[k] == fresh@[k]@);
            }
        }
    }
    out
}

/// Every miss position lies within the answers.
proof fn lemma_miss_positions_in_range(found: Seq<Option<RecordModel>>)
    ensures
        forall|k: int| 0 <= k < miss_positions(found).len() ==> 0 <= #[trigger] miss_positions(found)[k] < found.len(),
        forall|k: int| 0 <= k < miss_positions(found).len() ==> #[trigger] found[miss_positions(found)[k]] is None,
        forall|a: int, b: int| 0 <= a < b < miss_positions(found).len() ==> #[trigger] miss_positions(found)[a] < #[trigger] miss_positions(found)[b],
        forall|i: int| 0 <= i < found.len() && #[trigger] found[i] is None ==> exists|k: int| 0 <= k < miss_positions(found).len() && #[trigger] miss_positions(found)[k] == i,
    decreases found.len(),
{
    if found.len() > 0 {
        let f0 = found.drop_last();
        let rest = miss_positions(f0);
        lemma_miss_positions_in_range(f0);
        let all = miss_positions(found);
        assert forall|k: int| 0 <= k < all.len() implies 0 <= #[trigger] all[k] < found.len() && found[all[k]] is None by {
            if k < rest.len() {
                assert(all[k] == rest[k]);
                assert(f0[rest[k]] == found[rest[k]]);
            }
        }
        assert forall|a: int, b: int| 0 <= a < b < all.len() implies #[trigger] all[a] < #[trigger] all[b] by {
            if b < rest.len() {
                assert(all[a] == rest[a] && all[b] == rest[b]);
            } else {
                assert(all[a] == rest[a]);
            }
        }
        assert forall|i: int| 0 <= i < found.len() && #[trigger] found[i] is None implies exists|k: int| 0 <= k < all.len() && #[trigger] all[k] == i by {
            if i < found.len() - 1 {
                assert(f0[i] is None);
                let k = choose|k: int| 0 <= k < rest.len() && #[trigger] rest[k] == i;
                assert(all[k] == i);
            } else {
                assert(all[rest.len() as int] == i);
            }
        }
    }
}

/// Merging keeps input order: each hit stays at its position and the `k`-th fresh record
/// lands at the `k`-th miss position.
pub proof fn lemma_order_preserved(found: Seq<Option<RecordModel>>, fresh: Seq<RecordModel>)
    requires
        fresh.len() == miss_positions(found).len(),
    ensures
        merged(found, fresh).len() == found.len(),
        forall|i: int| 0 <= i < found.len() && #[trigger] found[i] is Some ==> merged(found, fresh)[i] == found[i]->0,
        forall|k: int| 0 <= k < fresh.len() ==> merged(found, fresh)[#[trigger] miss_positions(found)[k]] == fresh[k],
    decreases found.len(),
{
    if found.len() > 0 {
        let f0 = found.drop_last();
        let n = found.len() - 1;
        lemma_miss_positions_in_range(f0);
        let out = merged(found, fresh);
        if found.last() is Some {
            lemma_order_preserved(f0, fresh);
            let o0 = merged(f0, fresh);
            assert forall|i: int| 0 <= i < found.len() && #[trigger] found[i] is Some implies out[i] == found[i]->0 by {
                if i < n {
                    assert(f0[i] == found[i]);
                }
            }
            assert forall|k: int| 0 <= k < fresh.len() implies out[#[trigger] miss_positions(found)[k]] == fresh[k] by {
                assert(miss_positions(found)[k] == miss_positions(f0)[k]);
            }
        } else {
            let g0 = fresh.drop_last();
            lemma_order_preserved(f0, g0);
            assert forall|i: int| 0 <= i < found.len() && #[trigger] found[i] is Some implies out[i] == found[i]->0 by {
                assert(f0[i] == found[i]);
            }
            assert forall|k: int| 0 <= k < fresh.len() implies out[#[trigger] miss_positions(found)[k]] == fresh[k] by {
                if k < g0.len() {
                    assert(miss_positions(found)[k] == miss_positions(f0)[k]);
                    assert(g0[k] == fresh[k]);
                }
            }
        }
    }
}

/// Storing a batch leaves a path that none of its records has as it was.
proof fn lemma_stored_all_other(m: CacheModel, recs: Seq<RecordModel>, ts: Seq<nat>, p: Seq<char>)
    requires
        recs.len() == ts.len(),
        forall|k: int| 0 <= k < recs.len() ==> (#[trigger] recs[k]).path != p,
    ensures
        stored_all(m, recs, ts).contains_key(p) == m.contains_key(p),
        m.contains_key(p) ==> stored_all(m, recs, ts)[p] == m[p],
    decreases recs.len(),
{
    if recs.len() > 0 {
        let r0 = recs.drop_last();
        assert forall|k: int| 0 <= k < r0.len() implies (#[trigger] r0[k]).path != p by {
            assert(r0[k] == recs[k]);
        }
        lemma_stored_all_other(m, r0, ts.drop_last(), p);
        assert(recs.last() == recs[recs.len() - 1]);
    }
}

/// After storing a batch, a path that exactly one record has holds that record and its time.
proof fn lemma_stored_all_at(m: CacheModel, recs: Seq<RecordModel>, ts: Seq<nat>, k: int)
    requires
        recs.len() == ts.len(),
        0 <= k < recs.len(),
        forall|j: int| 0 <= j < recs.len() && j != k ==> (#[trigger] recs[j]).path != recs[k].path,
    ensures
        stored_all(m, recs, ts).contains_key(recs[k].path),
        stored_all(m, recs, ts)[recs[k].path] == (crate::cache::StoredModel { record: recs[k], mtime: ts[k] }),
    decreases recs.len(),
{
    let n = recs.len() - 1;
    let r0 = recs.drop_last();
    let t0 = ts.drop_last();
    if k < n {
        assert forall|j: int| 0 <= j < r0.len() && j != k implies (#[trigger] r0[j]).path != r0[k].path by {
            assert(r0[j] == recs[j]);
        }
        lemma_stored_all_at(m, r0, t0, k);
        assert(recs[n].path != recs[k].path);
        assert(r0[k] == recs[k] && t0[k] == ts[k]);
    }
}

/// Running the same paths at the same times a second time, after a first run has filled
/// the cache, finds every path in the cache and returns the same records in the same order
/// (so two successive calls of [`run_files`] return the same records, and the second
/// reads no file).
///
/// Paths within a run are distinct.
pub proof fn lemma_second_run_hits(m: CacheModel, ps: Seq<Seq<char>>, ts: Seq<nat>, reads: Seq<ReadOutcome>)
    requires
        ps.len() == ts.len(),
        ps.len() == reads.len(),
        forall|i: int, j: int| 0 <= i < ps.len() && 0 <= j < ps.len() && i != j ==> #[trigger] ps[i] != #[trigger] ps[j],
    ensures
        miss_positions(lookup_all(run(m, ps, ts, reads).1, ps, ts)).len() == 0,
        run(run(m, ps, ts, reads).1, ps, ts, reads).0 == run(m, ps, ts, reads).0,
{
    let found = lookup_all(m, ps, ts);
    let miss = miss_positions(found);
    let fresh = fresh_records(ps, reads, miss);
    let mts = pick(ts, miss);
    let m1 = stored_all(m, fresh, mts);
    let o1 = merged(found, fresh);
    lemma_miss_positions_in_range(found);
    lemma_order_preserved(found, fresh);
    assert forall|k: int| 0 <= k < fresh.len() implies (#[trigger] fresh[k]).path == ps[miss[k]] by {
        match reads[miss[k]] {
            ReadOutcome::Bytes(_) => {},
            ReadOutcome::Failed(_) => {},
        }
    }
    let found2 = lookup_all(m1, ps, ts);
    assert forall|i: int| 0 <= i < ps.len() implies #[trigger] found2[i] == Some(o1[i]) by {
        if found[i] is Some {
            assert forall|k: int| 0 <= k < fresh.len() implies (#[trigger] fresh[k]).path != ps[i] by {
                assert(miss[k] != i);
            }
            lemma_stored_all_other(m, fresh, mts, ps[i]);
        } else {
            let k = choose|k: int| 0 <= k < miss.len() && #[trigger] miss[k] == i;
            assert forall|j: int| 0 <= j < fresh.len() && j != k implies (#[trigger] fresh[j]).path != fresh[k].path by {
                if miss[j] < miss[k] || miss[k] < miss[j] {
                } else {
                    if j < k {
                        assert(miss[j] < miss[k]);
                    } else {
                        assert(miss[k] < miss[j]);
                    }
                }
            }
            lemma_stored_all_at(m, fresh, mts, k);
        }
    }
    let miss2 = miss_positions(found2);
    lemma_miss_positions_in_range(found2);
    if miss2.len() > 0 {
        assert(found2[miss2[0]] is None);
    }
    let fresh2 = fresh_records(ps, reads, miss2);
    lemma_order_preserved(found2, fresh2);
    let o2 = merged(found2, fresh2);
    assert forall|i: int| 0 <= i < o2.len() implies o2[i] == o1[i] by {
        assert(found2[i] is Some);
    }
    assert(o2 =~= o1);
}

/// The misses of a prefix one longer gain one exactly when the new answer is a miss.
proof fn lemma_miss_prefix_len(found: Seq<Option<RecordModel>>, n: int)
    requires
        0 < n <= found.len(),
    ensures
        miss_positions(found.subrange(0, n)).len() == miss_positions(found.subrange(0, n - 1)).len()
            + (if found[n - 1] is None { 1int } else { 0int }),
        miss_positions(found.subrange(0, n)).len() <= miss_positions(found).len(),
    decreases found.len() - n,
{
    assert(found.subrange(0, n).drop_last() =~= found.subrange(0, n - 1));
    if n < found.len() {
        lemma_miss_prefix_len(found, n + 1);
    } else {
        assert(found.subrange(0, n) =~= found);
    }
}

/// A readable file holding only white space (or nothing) records zero tokens, with no
/// error.
pub proof fn lemma_blank_file_has_no_tokens(path: Seq<char>, b: Vec<u8>)
    requires
        valid_utf8(b@),
        all_ws(decode_utf8(b@)),
    ensures
        read_record(path, ReadOutcome::Bytes(b)).tokens == 0,
        read_record(path, ReadOutcome::Bytes(b)).error is None,
{
}

/// Bytes that are not valid UTF-8 give an error record with empty content and zero tokens.
pub proof fn lemma_invalid_utf8_is_error(path: Seq<char>, b: Vec<u8>)
    requires
        !valid_utf8(b@),
    ensures
        read_record(path, ReadOutcome::Bytes(b)).error is Some,
        read_record(path, ReadOutcome::Bytes(b)).content.len() == 0,
        read_record(path, ReadOutcome::Bytes(b)).tokens == 0,
{
}

} // verus!
