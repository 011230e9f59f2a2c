use vstd::prelude::*;
use crate::column::{Column, field_of};
use crate::levenshtein::{edit_distance, levenshtein};
use crate::vehicle::{Vehicle, VehicleView, views};
use vstd::set_lib::{lemma_int_range, lemma_len_subset, set_int_range};

verus! {

/// How far a record's model is from a query, in edits.
pub open spec fn model_distance(v: VehicleView, query: Seq<char>) -> nat {
    edit_distance(v.model, query)
}

/// `out` is a ranked selection of `rows` for `query`: it takes the rows at
/// the distinct positions `idx`, closest model first, at most `limit` of them;
/// no row left out is closer to the query than a row taken; and fewer than
/// `limit` are taken only when every row is.
pub open spec fn ranked_selection(
    rows: Seq<VehicleView>,
    query: Seq<char>,
    limit: nat,
    out: Seq<VehicleView>,
    idx: Seq<int>,
) -> bool {
    &&& out.len() <= limit
    &&& idx.len() == out.len()
    &&& forall|p: int| 0 <= p < idx.len() ==> 0 <= #[trigger] idx[p] < rows.len()
    &&& forall|p: int, q: int| 0 <= p < q < idx.len() ==> idx[p] != idx[q]
    &&& forall|p: int| 0 <= p < out.len() ==> #[trigger] out[p] == rows[idx[p]]
    &&& forall|p: int, q: int|
        0 <= p < q < out.len() ==> model_distance(out[p], query) <= model_distance(out[q], query)
    &&& forall|p: int, t: int|
        0 <= p < out.len() && 0 <= t < rows.len() && !idx.contains(t) ==> model_distance(
            out[p],
            query,
        ) <= model_distance(rows[t], query)
    &&& out.len() < limit ==> forall|t: int| 0 <= t < rows.len() ==> idx.contains(t)
}

/// The records whose model is closest to `query` by edit distance, closest
/// first, at most `limit` of them. Among records at equal distance the earlier
/// one comes first.
pub fn fuzzy_search(records: &Vec<Vehicle>, query: &str, limit: usize) -> (r: Vec<Vehicle>)
    ensures
        exists|idx: Seq<int>| ranked_selection(views(records@), query@, limit as nat, views(r@), idx),
{
    let n = records.len();
    let ghost rows = views(records@);
    let mut dist: Vec<usize> = Vec::new();
    let mut taken: Vec<bool> = Vec::new();
    let mut k: usize = 0;
    while k < n
        invariant
            n == records@.len(),
            rows == views(records@),
            k <= n,
            dist@.len() == k,
            taken@.len() == k,
            forall|t: int| 0 <= t < k ==> dist@[t] == model_distance(rows[t], query@),
            forall|t: int| 0 <= t < k ==> !taken@[t],
        decreases n - k,
    {
        dist.push(levenshtein(&records[k].model, query));
        taken.push(false);
        k = k + 1;
    }
    let mut out: Vec<Vehicle> = Vec::new();
    let ghost mut idx: Seq<int> = Seq::empty();
    while out.len() < limit
        invariant
            n == records@.len(),
            rows == views(records@),
            dist@.len() == n,
            taken@.len() == n,
            forall|t: int| 0 <= t < n ==> dist@[t] == model_distance(rows[t], query@),
            forall|t: int| 0 <= t < n ==> (taken@[t] <==> idx.contains(t)),
            out@.len() <= limit,
            ranked_selection(rows, query@, out@.len() as nat, views(out@), idx),
            forall|p: int, t: int|
                0 <= p < idx.len() && 0 <= t < n && !taken@[t] ==> dist@[idx[p]] <= dist@[t],
        decreases limit - out@.len(),
    {
        let mut best: Option<usize> = None;
        let mut k: usize = 0;
        while k < n
            invariant
                n == records@.len(),
                dist@.len() == n,
                taken@.len() == n,
                k <= n,
                best matches Some(b) ==> b < k && !taken@[b as int] && forall|t: int|
                    0 <= t < k && !taken@[t] ==> dist@[b as int] <= dist@[t],
                best is None ==> forall|t: int| 0 <= t < k ==> taken@[t],
            decreases n - k,
        {
            if !taken[k] {
                match best {
                    None => {
                        best = Some(k);
                    },
                    Some(b) => {
                        if dist[k] < dist[b] {
                            best = Some(k);
                        }
                    },
                }
            }
            k = k + 1;
        }
        match best {
            None => {
                assert(forall|t: int| 0 <= t < rows.len() ==> idx.contains(t));
                assert(ranked_selection(rows, query@, limit as nat, views(out@), idx));
                return out;
            },
            Some(b) => {
                let ghost old_idx = idx;
                let ghost old_out = views(out@);
                let ghost old_taken = taken@;
                taken.set(b, true);
                out.push(records[b].duplicate());
                proof {
                    idx = idx.push(b as int);
                    assert(views(out@) =~= old_out.push(rows[b as int]));
                    assert forall|t: int| 0 <= t < n implies (taken@[t] <==> idx.contains(t)) by {
                        if t == b {
                            assert(idx[idx.len() - 1] == t);
                        } else {
                            assert(taken@[t] == old_taken[t]);
                            if idx.contains(t) {
                                let p = choose|p: int| 0 <= p < idx.len() && idx[p] == t;
                                assert(old_idx[p] == t);
                            }
                            if old_idx.contains(t) {
                                let p = choose|p: int| 0 <= p < old_idx.len() && old_idx[p] == t;
                                assert(idx[p] == t);
                            }
                        }
                    }
                    assert forall|p: int, t: int|
                        0 <= p < views(out@).len() && 0 <= t < rows.len() && !idx.contains(t)
                        implies model_distance(views(out@)[p], query@) <= model_distance(rows[t], query@) by {
                        assert(!taken@[t]);
                        assert(t != b);
                        if p < old_idx.len() {
                            assert(idx[p] == old_idx[p]);
                        }
                    }
                    assert forall|p: int, q: int| 0 <= p < q < idx.len() implies idx[p] != idx[q] by {
                        if q == idx.len() - 1 {
                            assert(old_idx.contains(old_idx[p]));
                            assert(old_taken[old_idx[p]]);
                            assert(!old_taken[b as int]);
                        }
                    }
                }
            },
        }
    }
    out
}

/// Whether a text occurs among the given strings.
fn contains_text(values: &Vec<String>, s: &String) -> (r: bool)
    ensures
        r == exists|p: int| 0 <= p < values@.len() && #[trigger] values@[p]@ == s@,
{
    let mut i: usize = 0;
    while i < values.len()
        invariant
            i <= values@.len(),
            forall|p: int| 0 <= p < i ==> values@[p]@ != s@,
        decreases values@.len() - i,
    {
        if values[i] == *s {
            return true;
        }
        i = i + 1;
    }
    false
}

/// The texts of a sequence of strings, one for one.
pub open spec fn texts(values: Seq<String>) -> Seq<Seq<char>> {
    values.map_values(|s: String| s@)
}

/// `out` lists each value of column `c` over `rows` exactly once.
pub open spec fn lists_distinct_values(rows: Seq<VehicleView>, c: Column, out: Seq<Seq<char>>) -> bool {
    &&& out.no_duplicates()
    &&& forall|s: Seq<char>|
        out.contains(s) <==> exists|t: int| 0 <= t < rows.len() && field_of(c, #[trigger] rows[t]) == s
}

/// The distinct values of a column over the given records, each once, in the
/// order of their first occurrence.
pub fn distinct_values(records: &Vec<Vehicle>, c: Column) -> (r: Vec<String>)
    ensures
        lists_distinct_values(views(records@), c, texts(r@)),
{
    let mut out: Vec<String> = Vec::new();
    let mut i: usize = 0;
    while i < records.len()
        invariant
            i <= records@.len(),
            texts(out@).no_duplicates(),
            forall|s: Seq<char>|
                texts(out@).contains(s) <==> exists|t: int|
                    0 <= t < i && field_of(c, #[trigger] records@[t]@) == s,
        decreases records@.len() - i,
    {
        let f = c.field(&records[i]);
        let ghost before = texts(out@);
        if !contains_text(&out, f) {
            out.push(f.clone());
            assert(texts(out@) =~= before.push(f@));
        } else {
            assert(before.contains(f@)) by {
                let p = choose|p: int| 0 <= p < out@.len() && #[trigger] out@[p]@ == f@;
                assert(before[p] == f@);
            }
        }
        proof {
            assert forall|s: Seq<char>|
                texts(out@).contains(s) <==> exists|t: int|
                    0 <= t < i + 1 && field_of(c, #[trigger] records@[t]@) == s by {
                if texts(out@).contains(s) && s != f@ {
                    assert(before.contains(s)) by {
                        let p = choose|p: int| 0 <= p < texts(out@).len() && texts(out@)[p] == s;
                        if p < before.len() {
                            assert(before[p] == s);
                        }
                    }
                }
                if s == f@ {
                    assert(field_of(c, records@[i as int]@) == s);
                    if !before.contains(s) {
                        assert(texts(out@)[texts(out@).len() - 1] == s);
                    }
                }
                if before.contains(s) {
                    let p = choose|p: int| 0 <= p < before.len() && before[p] == s;
                    assert(texts(out@)[p] == s);
                }
            }
        }
        i = i + 1;
    }
    proof {
        let rows = views(records@);
        assert forall|s: Seq<char>|
            texts(out@).contains(s) <==> exists|t: int|
                0 <= t < rows.len() && field_of(c, #[trigger] rows[t]) == s by {
            if texts(out@).contains(s) {
                let t = choose|t: int| 0 <= t < records@.len() && field_of(c, #[trigger] records@[t]@) == s;
                assert(rows[t] == records@[t]@);
            }
            if exists|t: int| 0 <= t < rows.len() && field_of(c, #[trigger] rows[t]) == s {
                let t = choose|t: int| 0 <= t < rows.len() && field_of(c, #[trigger] rows[t]) == s;
                assert(rows[t] == records@[t]@);
            }
        }
    }
    out
}

/// A fuzzy search returns at most `limit` records, and no record that it
/// leaves out has a model closer to the query than any record it returns.
pub proof fn law_fuzzy_no_closer_excluded(
    rows: Seq<VehicleView>,
    query: Seq<char>,
    limit: nat,
    out: Seq<VehicleView>,
    idx: Seq<int>,
)
    requires
        ranked_selection(rows, query, limit, out, idx),
    ensures
        out.len() <= limit,
        forall|p: int, t: int|
            0 <= p < out.len() && 0 <= t < rows.len() && !out.contains(rows[t]) ==> model_distance(
                #[trigger] out[p],
                query,
            ) <= model_distance(#[trigger] rows[t], query),
{
    assert forall|p: int, t: int|
        0 <= p < out.len() && 0 <= t < rows.len() && !out.contains(rows[t]) implies model_distance(
            #[trigger] out[p],
            query,
        ) <= model_distance(#[trigger] rows[t], query) by {
        if idx.contains(t) {
            let q = choose|q: int| 0 <= q < idx.len() && idx[q] == t;
            assert(out[q] == rows[t]);
        }
    }
}

/// A fuzzy search returns exactly `limit` records, or every record when
/// there are fewer.
pub proof fn law_fuzzy_count(
    rows: Seq<VehicleView>,
    query: Seq<char>,
    limit: nat,
    out: Seq<VehicleView>,
    idx: Seq<int>,
)
    requires
        ranked_selection(rows, query, limit, out, idx),
    ensures
        out.len() == if limit <= rows.len() { limit } else { rows.len() },
{
    let n = rows.len() as int;
    assert(idx.no_duplicates()) by {
        assert forall|p: int, q: int| 0 <= p < idx.len() && 0 <= q < idx.len() && p != q implies idx[p] != idx[q] by {
            if p < q {
                assert(idx[p] != idx[q]);
            } else {
                assert(idx[q] != idx[p]);
            }
        }
    }
    idx.unique_seq_to_set();
    lemma_int_range(0, n);
    assert(idx.to_set().subset_of(set_int_range(0, n))) by {
        assert forall|v: int| idx.to_set().contains(v) implies set_int_range(0, n).contains(v) by {
            let p = choose|p: int| 0 <= p < idx.len() && idx[p] == v;
            assert(0 <= idx[p] < n);
        }
    }
    lemma_len_subset(idx.to_set(), set_int_range(0, n));
    if out.len() < limit {
        assert(set_int_range(0, n).subset_of(idx.to_set())) by {
            assert forall|v: int| set_int_range(0, n).contains(v) implies idx.to_set().contains(v) by {
                assert(idx.contains(v));
            }
        }
        lemma_len_subset(set_int_range(0, n), idx.to_set());
    }
}

} // verus!
