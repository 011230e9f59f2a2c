use vstd::prelude::*;
use crate::text::chars_of;

verus! {

/// The edit distance of two texts: the least number of single-character
/// insertions, deletions and substitutions that turn one into the other.
pub open spec fn edit_distance(a: Seq<char>, b: Seq<char>) -> nat
    decreases a.len() + b.len(),
{
    if a.len() == 0 {
        b.len()
    } else if b.len() == 0 {
        a.len()
    } else {
        let del = edit_distance(a.drop_last(), b) + 1;
        let ins = edit_distance(a, b.drop_last()) + 1;
        let sub = edit_distance(a.drop_last(), b.drop_last()) + if a.last() == b.last() {
            0nat
        } else {
            1nat
        };
        if del <= ins && del <= sub {
            del
        } else if ins <= sub {
            ins
        } else {
            sub
        }
    }
}

/// No two texts are further apart than the longer of them is long.
pub proof fn lemma_edit_distance_bound(a: Seq<char>, b: Seq<char>)
    ensures
        edit_distance(a, b) <= if a.len() >= b.len() { a.len() } else { b.len() },
    decreases a.len() + b.len(),
{
    if a.len() > 0 && b.len() > 0 {
        lemma_edit_distance_bound(a.drop_last(), b.drop_last());
    }
}

/// The edit distance of two strings, by the row-by-row dynamic programme.
pub fn levenshtein(a: &str, b: &str) -> (r: usize)
    ensures
        r == edit_distance(a@, b@),
{
    let x = chars_of(a);
    let y = chars_of(b);
    let n = x.len();
    let m = y.len();
    let mut prev: Vec<usize> = Vec::new();
    prev.push(0);
    let mut j: usize = 0;
    while j < m
        invariant
            m == y@.len(),
            j <= m,
            prev@.len() == j + 1,
            forall|k: int| 0 <= k <= j ==> prev@[k] == edit_distance(x@.take(0), y@.take(k)),
        decreases m - j,
    {
        prev.push(j + 1);
        j = j + 1;
    }
    let plen = prev.len();
    assert(plen == m + 1);
    let mut i: usize = 0;
    while i < n
        invariant
            n == x@.len(),
            m == y@.len(),
            m < usize::MAX,
            i <= n,
            prev@.len() == m + 1,
            forall|k: int| 0 <= k <= m ==> prev@[k] == edit_distance(x@.take(i as int), y@.take(k)),
        decreases n - i,
    {
        let ghost a1 = x@.take(i + 1);
        assert(a1.drop_last() =~= x@.take(i as int));
        assert(y@.take(0).len() == 0);
        let mut cur: Vec<usize> = Vec::new();
        cur.push(i + 1);
        let xi = x[i];
        let mut j: usize = 0;
        while j < m
            invariant
                n == x@.len(),
                m == y@.len(),
                m < usize::MAX,
                i < n,
                j <= m,
                a1 == x@.take(i + 1),
                a1.drop_last() == x@.take(i as int),
                xi == x@[i as int],
                prev@.len() == m + 1,
                forall|k: int| 0 <= k <= m ==> prev@[k] == edit_distance(x@.take(i as int), y@.take(k)),
                cur@.len() == j + 1,
                forall|k: int| 0 <= k <= j ==> cur@[k] == edit_distance(a1, y@.take(k)),
            decreases m - j,
        {
            let ghost b1 = y@.take(j + 1);
            assert(b1.drop_last() =~= y@.take(j as int));
            proof {
                lemma_edit_distance_bound(x@.take(i as int), y@.take(j + 1));
                lemma_edit_distance_bound(a1, y@.take(j as int));
                lemma_edit_distance_bound(x@.take(i as int), y@.take(j as int));
            }
            let nearer = if prev[j + 1] <= cur[j] {
                prev[j + 1]
            } else {
                cur[j]
            };
            let step = nearer + 1;
            let cost: usize = if xi == y[j] {
                0
            } else {
                1
            };
            let sub = prev[j] + cost;
            let best = if step <= sub {
                step
            } else {
                sub
            };
            assert(best == edit_distance(a1, b1));
            cur.push(best);
            j = j + 1;
        }
        prev = cur;
        i = i + 1;
    }
    assert(x@.take(n as int) =~= x@);
    assert(y@.take(m as int) =~= y@);
    prev[m]
}

} // verus!
