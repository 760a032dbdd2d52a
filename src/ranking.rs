//! Selection of the best-scored candidates: the highest scores first, ties
//! kept in the order of the candidates, at most `MAX_RESULTS` of them.

use vstd::prelude::*;

verus! {

/// The most results a search returns.
pub const MAX_RESULTS: usize = 20;

/// A scored candidate: its position in the input and its score.
#[derive(Debug, Clone, Copy, PartialEq, Eq, Structural)]
pub struct Ranked {
    pub index: usize,
    pub score: u16,
}

/// `a` is listed before `b`: a higher score, or the same score and an
/// earlier position.
pub open spec fn ranks_before(a: Ranked, b: Ranked) -> bool {
    a.score > b.score || (a.score == b.score && a.index < b.index)
}

pub open spec fn sorted_ranks(s: Seq<Ranked>) -> bool {
    forall|j: int, k: int| 0 <= j < k < s.len() ==> ranks_before(s[j], s[k])
}

/// `c` is a candidate among the first `n` scores: that score is present and
/// is `c.score`.
pub open spec fn is_candidate(scores: Seq<Option<u16>>, n: int, c: Ranked) -> bool {
    &&& 0 <= c.index < n
    &&& c.index < scores.len()
    &&& scores[c.index as int] == Some(c.score)
}

/// `top` lists the best candidates among the first `n` scores, best first:
/// at most `MAX_RESULTS` of them, and any candidate left out ranks after
/// every one listed, which only happens when the list is full.
pub open spec fn is_top(top: Seq<Ranked>, scores: Seq<Option<u16>>, n: int) -> bool {
    &&& top.len() <= MAX_RESULTS
    &&& sorted_ranks(top)
    &&& forall|j: int| 0 <= j < top.len() ==> is_candidate(scores, n, #[trigger] top[j])
    &&& forall|c: Ranked|
        #![trigger is_candidate(scores, n, c)]
        is_candidate(scores, n, c) && !top.contains(c) ==> top.len() == MAX_RESULTS && forall|
            j: int,
        |
            0 <= j < top.len() ==> ranks_before(#[trigger] top[j], c)
}

/// Puts `item` into the sorted list `top`, which holds only earlier
/// positions, keeping at most `MAX_RESULTS` entries.
fn insert_ranked(top: &mut Vec<Ranked>, item: Ranked)
    requires
        old(top)@.len() <= MAX_RESULTS,
        sorted_ranks(old(top)@),
        forall|j: int| 0 <= j < old(top)@.len() ==> #[trigger] old(top)@[j].index < item.index,
    ensures
        sorted_ranks(final(top)@),
        final(top)@.len() as int == if old(top)@.len() < MAX_RESULTS {
            old(top)@.len() + 1 as int
        } else {
            MAX_RESULTS as int
        },
        forall|x: Ranked| #[trigger]
            final(top)@.contains(x) ==> old(top)@.contains(x) || x == item,
        forall|x: Ranked|
            (old(top)@.contains(x) || x == item) && !(#[trigger] final(top)@.contains(x))
                ==> final(top)@.len() == MAX_RESULTS && forall|j: int|
                0 <= j < final(top)@.len() ==> ranks_before(#[trigger] final(top)@[j], x),
        final(top)@.contains(item) && old(top)@.len() == MAX_RESULTS ==> ranks_before(
            item,
            old(top)@[MAX_RESULTS - 1],
        ),
{
    let ghost t0 = top@;
    let mut p: usize = 0;
    while p < top.len() && top[p].score >= item.score
        invariant
            top@ == t0,
            p <= t0.len(),
            forall|j: int| 0 <= j < p ==> #[trigger] t0[j].score >= item.score,
        decreases t0.len() - p,
    {
        p = p + 1;
    }
    // Everything before `p` ranks before `item`, which ranks before the rest.
    assert forall|j: int| 0 <= j < p implies ranks_before(#[trigger] t0[j], item) by {}
    assert forall|j: int| p <= j < t0.len() implies ranks_before(item, #[trigger] t0[j]) by {
        assert(ranks_before(t0[p as int], t0[j]) || j == p);
    }
    if p < MAX_RESULTS {
        top.insert(p, item);
        let ghost t1 = top@;
        assert(t1 == t0.insert(p as int, item));
        assert forall|j: int| 0 <= j < t1.len() implies #[trigger] t1[j] == if j < p {
            t0[j]
        } else if j == p {
            item
        } else {
            t0[j - 1]
        } by {}
        if top.len() > MAX_RESULTS {
            top.pop();
        }
        let ghost t2 = top@;
        assert(t2 =~= t1.subrange(0, t2.len() as int));
        assert(t2[p as int] == item);
        assert forall|x: Ranked| #[trigger] t2.contains(x) implies t0.contains(x) || x == item by {
            let k = choose|k: int| 0 <= k < t2.len() && t2[k] == x;
            if k < p {
                assert(t0[k] == x);
            } else if k > p {
                assert(t0[k - 1] == x);
            }
        }
        assert forall|x: Ranked|
            (t0.contains(x) || x == item) && !(#[trigger] t2.contains(x)) implies t2.len()
            == MAX_RESULTS && forall|j: int|
            0 <= j < t2.len() ==> ranks_before(#[trigger] t2[j], x) by {
            if x == item {
                assert(t2.contains(item));
            } else {
                let k = choose|k: int| 0 <= k < t0.len() && t0[k] == x;
                if k < p {
                    assert(t2[k] == x);
                } else if k + 1 < t2.len() {
                    assert(t2[k + 1] == x);
                }
                assert(k == t0.len() - 1);
                assert(t2.len() == MAX_RESULTS);
            }
        }
    } else {
        assert forall|x: Ranked|
            (t0.contains(x) || x == item) && !(#[trigger] top@.contains(x)) implies top@.len()
            == MAX_RESULTS && forall|j: int|
            0 <= j < top@.len() ==> ranks_before(#[trigger] top@[j], x) by {
            if x != item {
                let k = choose|k: int| 0 <= k < t0.len() && t0[k] == x;
                assert(top@.contains(t0[k]));
            }
        }
    }
}

/// The best candidates among `scores`, best first: what `is_top` describes.
pub fn top_ranked(scores: &Vec<Option<u16>>) -> (r: Vec<Ranked>)
    ensures
        is_top(r@, scores@, scores@.len() as int),
{
    let mut top: Vec<Ranked> = Vec::new();
    let mut i: usize = 0;
    while i < scores.len()
        invariant
            i <= scores@.len(),
            is_top(top@, scores@, i as int),
        decreases scores@.len() - i,
    {
        let ghost t0 = top@;
        if let Some(s) = scores[i] {
            let item = Ranked { index: i, score: s };
            insert_ranked(&mut top, item);
            assert forall|c: Ranked|
                is_candidate(scores@, i + 1, c) && !top@.contains(c) implies top@.len()
                == MAX_RESULTS && forall|j: int|
                0 <= j < top@.len() ==> ranks_before(#[trigger] top@[j], c) by {
                if !(t0.contains(c) || c == item) {
                    assert(is_candidate(scores@, i as int, c));
                    assert forall|j: int| 0 <= j < top@.len() implies ranks_before(
                        #[trigger] top@[j],
                        c,
                    ) by {
                        assert(top@.contains(top@[j]));
                        if top@[j] == item {
                            assert(ranks_before(t0[MAX_RESULTS - 1], c));
                        } else {
                            let k = choose|k: int| 0 <= k < t0.len() && t0[k] == top@[j];
                            assert(ranks_before(t0[k], c));
                        }
                    }
                }
            }
            assert forall|j: int| 0 <= j < top@.len() implies is_candidate(
                scores@,
                i + 1,
                #[trigger] top@[j],
            ) by {
                assert(top@.contains(top@[j]));
                if top@[j] != item {
                    let k = choose|k: int| 0 <= k < t0.len() && t0[k] == top@[j];
                    assert(is_candidate(scores@, i as int, t0[k]));
                }
            }
        } else {
            assert forall|c: Ranked|
                is_candidate(scores@, i + 1, c) && !top@.contains(c) implies top@.len()
                == MAX_RESULTS && forall|j: int|
                0 <= j < top@.len() ==> ranks_before(#[trigger] top@[j], c) by {
                assert(is_candidate(scores@, i as int, c));
            }
            assert forall|j: int| 0 <= j < top@.len() implies is_candidate(
                scores@,
                i + 1,
                #[trigger] top@[j],
            ) by {
                assert(is_candidate(scores@, i as int, top@[j]));
            }
        }
        i = i + 1;
    }
    top
}

/// The best candidates are determined by the scores: two lists that both
/// meet `is_top` for the same scores are equal.
pub proof fn lemma_top_unique(a: Seq<Ranked>, b: Seq<Ranked>, scores: Seq<Option<u16>>, n: int)
    requires
        is_top(a, scores, n),
        is_top(b, scores, n),
    ensures
        a == b,
{
    let m = if a.len() < b.len() {
        a.len() as int
    } else {
        b.len() as int
    };
    assert forall|j: int| 0 <= j < m implies a[j] == b[j] by {
        lemma_top_prefix_equal(a, b, scores, n, j);
    }
    if a.len() < b.len() {
        lemma_top_tail(a, b, scores, n);
    } else if b.len() < a.len() {
        assert forall|j: int| 0 <= j < m implies b[j] == a[j] by {}
        lemma_top_tail(b, a, scores, n);
    }
    assert(a =~= b);
}

proof fn lemma_top_prefix_equal(
    a: Seq<Ranked>,
    b: Seq<Ranked>,
    scores: Seq<Option<u16>>,
    n: int,
    j: int,
)
    requires
        is_top(a, scores, n),
        is_top(b, scores, n),
        0 <= j < a.len(),
        j < b.len(),
    ensures
        a[j] == b[j],
    decreases j,
{
    if j > 0 {
        lemma_top_prefix_equal(a, b, scores, n, j - 1);
    }
    assert forall|k: int| 0 <= k < j implies a[k] == b[k] by {
        lemma_top_prefix_equal(a, b, scores, n, k);
    }
    if a[j] != b[j] {
        assert(is_candidate(scores, n, a[j]));
        assert(is_candidate(scores, n, b[j]));
        assert(a[j].index != b[j].index);
        if ranks_before(a[j], b[j]) {
            lemma_left_out_of_top(a, b, scores, n, j);
        } else {
            assert(ranks_before(b[j], a[j]));
            assert forall|k: int| 0 <= k < j implies b[k] == a[k] by {}
            lemma_left_out_of_top(b, a, scores, n, j);
        }
    }
}

/// Where the lists agree before `j`, `a[j]` does not rank before `b[j]`.
proof fn lemma_left_out_of_top(
    a: Seq<Ranked>,
    b: Seq<Ranked>,
    scores: Seq<Option<u16>>,
    n: int,
    j: int,
)
    requires
        is_top(a, scores, n),
        is_top(b, scores, n),
        0 <= j < a.len(),
        j < b.len(),
        forall|k: int| 0 <= k < j ==> a[k] == b[k],
    ensures
        !ranks_before(a[j], b[j]),
{
    assert(is_candidate(scores, n, a[j]));
    if ranks_before(a[j], b[j]) {
        if b.contains(a[j]) {
            let k = choose|k: int| 0 <= k < b.len() && b[k] == a[j];
            if k < j {
                assert(a[k] == a[j]);
                assert(ranks_before(a[k], a[j]));
            } else if k > j {
                assert(ranks_before(b[j], b[k]));
            }
        } else {
            assert(ranks_before(b[j], a[j]));
        }
    }
}

/// A list that agrees with another on its whole length is as long as it.
proof fn lemma_top_tail(a: Seq<Ranked>, b: Seq<Ranked>, scores: Seq<Option<u16>>, n: int)
    requires
        is_top(a, scores, n),
        is_top(b, scores, n),
        a.len() <= b.len(),
        forall|j: int| 0 <= j < a.len() ==> a[j] == b[j],
    ensures
        a.len() == b.len(),
{
    if a.len() < b.len() {
        let c = b[a.len() as int];
        assert(is_candidate(scores, n, c));
        if a.contains(c) {
            let k = choose|k: int| 0 <= k < a.len() && a[k] == c;
            assert(b[k] == c);
            assert(ranks_before(b[k], b[a.len() as int]));
        }
    }
}

} // verus!
