//! What a search returns: the kept positions, ordered by score.
use vstd::prelude::*;
use crate::scoring::{CriteriaModel, score};
use crate::types::PatternModel;

verus! {

/// The pattern satisfies the framework and category filters of the criteria.
pub open spec fn passes_filters(p: PatternModel, c: CriteriaModel) -> bool {
    &&& match c.framework {
        Some(f) => p.framework == f,
        None => true,
    }
    &&& match c.category {
        Some(k) => p.category == k,
        None => true,
    }
}

/// The pattern passes the filters and reaches the minimum score.
pub open spec fn kept(p: PatternModel, c: CriteriaModel, now: i64) -> bool {
    passes_filters(p, c) && score(p, c, now) >= c.min_score
}

/// Scores never increase along `ps`.
pub open spec fn sorted_desc(ps: Seq<(usize, u64)>) -> bool {
    forall|i: int, j: int| 0 <= i < j < ps.len() ==> (#[trigger] ps[i]).1 >= (#[trigger] ps[j]).1
}

/// Entries of equal score keep the order of their positions.
pub open spec fn stable(ps: Seq<(usize, u64)>) -> bool {
    forall|i: int, j: int|
        0 <= i < j < ps.len() && (#[trigger] ps[i]).1 == (#[trigger] ps[j]).1 ==> ps[i].0 < ps[j].0
}

/// No position occurs twice.
pub open spec fn distinct_positions(ps: Seq<(usize, u64)>) -> bool {
    forall|i: int, j: int| 0 <= i < j < ps.len() ==> (#[trigger] ps[i]).0 != (#[trigger] ps[j]).0
}

/// Position `j` occurs in `ps`.
pub open spec fn has_position(ps: Seq<(usize, u64)>, j: int) -> bool {
    exists|i: int| 0 <= i < ps.len() && (#[trigger] ps[i]).0 == j
}

/// `ps` is the search result over `pats`: each kept pattern exactly once with
/// its score, by score from high to low, ties in insertion order.
pub open spec fn ranked(
    ps: Seq<(usize, u64)>,
    pats: Seq<PatternModel>,
    c: CriteriaModel,
    now: i64,
) -> bool {
    &&& forall|i: int|
        0 <= i < ps.len() ==> {
            &&& (#[trigger] ps[i]).0 < pats.len()
            &&& kept(pats[ps[i].0 as int], c, now)
            &&& ps[i].1 == score(pats[ps[i].0 as int], c, now)
        }
    &&& forall|j: int| 0 <= j < pats.len() && kept(#[trigger] pats[j], c, now) ==> has_position(ps, j)
    &&& distinct_positions(ps)
    &&& sorted_desc(ps)
    &&& stable(ps)
}

/// Inserting `x` before the first entry of lower score keeps the order, when
/// every entry before that point scores at least as much and has a smaller
/// position than `x`.
pub proof fn lemma_insert_ranked(ps: Seq<(usize, u64)>, q: int, x: (usize, u64))
    requires
        0 <= q <= ps.len(),
        sorted_desc(ps),
        stable(ps),
        distinct_positions(ps),
        forall|i: int| 0 <= i < q ==> (#[trigger] ps[i]).1 >= x.1,
        q < ps.len() ==> ps[q].1 < x.1,
        forall|i: int| 0 <= i < ps.len() ==> (#[trigger] ps[i]).0 < x.0,
    ensures
        sorted_desc(ps.insert(q, x)),
        stable(ps.insert(q, x)),
        distinct_positions(ps.insert(q, x)),
{
    ps.insert_ensures(q, x);
    let n = ps.insert(q, x);
    assert forall|i: int, j: int| 0 <= i < j < n.len() implies (#[trigger] n[i]).1 >= (
    #[trigger] n[j]).1 && (n[i].1 == n[j].1 ==> n[i].0 < n[j].0) && n[i].0 != n[j].0 by {
        if j < q {
        } else if j == q {
        } else if i < q {
            assert(n[j] == ps[j - 1]);
        } else if i == q {
            assert(n[j] == ps[j - 1]);
            assert(ps[q].1 >= ps[j - 1].1);
        } else {
            assert(n[j] == ps[j - 1]);
            assert(n[i] == ps[i - 1]);
        }
    }
}

} // verus!
