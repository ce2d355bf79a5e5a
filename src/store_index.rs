//! Secondary indices of the pattern store: for each distinct key of one field,
//! the increasing list of positions of the patterns that carry it.
//!
//! An index is a list of entries with distinct keys rather than a
//! `HashMap<String, Vec<usize>>`: vstd's `HashMap` contracts hold only for key
//! types that satisfy `obeys_key_model`, which vstd establishes for integers,
//! `bool` and `char` but not for `String`, and establishing it here would take
//! an assumption.
use vstd::prelude::*;
use crate::types::PatternModel;

verus! {

/// The field an index groups patterns by.
#[derive(Clone, Copy, Debug, PartialEq, Eq, Structural)]
pub enum IndexKind {
    Category,
    Framework,
}

/// The value of the indexed field of a pattern.
pub open spec fn key_of(p: PatternModel, kind: IndexKind) -> Seq<char> {
    match kind {
        IndexKind::Category => p.category,
        IndexKind::Framework => p.framework,
    }
}

/// The positions, in increasing order, of the patterns whose indexed field is `key`.
pub open spec fn positions_of(pats: Seq<PatternModel>, kind: IndexKind, key: Seq<char>) -> Seq<usize>
    decreases pats.len(),
{
    if pats.len() == 0 {
        Seq::empty()
    } else {
        let prev = positions_of(pats.drop_last(), kind, key);
        if key_of(pats.last(), kind) == key {
            prev.push((pats.len() - 1) as usize)
        } else {
            prev
        }
    }
}

/// What `positions_of` holds: exactly the matching positions, increasing.
pub proof fn lemma_positions_of(pats: Seq<PatternModel>, kind: IndexKind, key: Seq<char>)
    requires
        pats.len() <= usize::MAX,
    ensures
        forall|k: int|
            0 <= k < positions_of(pats, kind, key).len() ==> {
                &&& (#[trigger] positions_of(pats, kind, key)[k]) < pats.len()
                &&& key_of(pats[positions_of(pats, kind, key)[k] as int], kind) == key
            },
        forall|k1: int, k2: int|
            0 <= k1 < k2 < positions_of(pats, kind, key).len() ==> (#[trigger] positions_of(
                pats,
                kind,
                key,
            )[k1]) < (#[trigger] positions_of(pats, kind, key)[k2]),
        forall|i: int|
            0 <= i < pats.len() && key_of(#[trigger] pats[i], kind) == key ==> positions_of(
                pats,
                kind,
                key,
            ).contains(i as usize),
    decreases pats.len(),
{
    if pats.len() > 0 {
        let prev = pats.drop_last();
        lemma_positions_of(prev, kind, key);
        let ps = positions_of(pats, kind, key);
        let pp = positions_of(prev, kind, key);
        assert forall|i: int|
            0 <= i < pats.len() && key_of(#[trigger] pats[i], kind) == key implies ps.contains(
            i as usize,
        ) by {
            if i < pats.len() - 1 {
                assert(prev[i] == pats[i]);
                let k = choose|k: int| 0 <= k < pp.len() && pp[k] == i as usize;
                assert(ps[k] == pp[k]);
            } else {
                assert(ps[ps.len() - 1] == i as usize);
            }
        }
        assert forall|k: int| 0 <= k < ps.len() implies {
            &&& (#[trigger] ps[k]) < pats.len()
            &&& key_of(pats[ps[k] as int], kind) == key
        } by {
            if k < pp.len() {
                assert(ps[k] == pp[k]);
                assert(prev[pp[k] as int] == pats[pp[k] as int]);
            }
        }
    }
}

/// One entry of an index: a key and the positions that carry it.
pub struct IndexEntry {
    pub key: String,
    pub positions: Vec<usize>,
}

/// `index` is exactly the grouping of `pats` by the field `kind`: keys are
/// distinct, each lists precisely its positions, none is empty, and every
/// pattern's key has an entry.
pub open spec fn index_ok(index: Seq<IndexEntry>, pats: Seq<PatternModel>, kind: IndexKind) -> bool {
    &&& forall|i: int, j: int|
        0 <= i < j < index.len() ==> (#[trigger] index[i]).key@ != (#[trigger] index[j]).key@
    &&& forall|i: int|
        0 <= i < index.len() ==> (#[trigger] index[i]).positions@ == positions_of(
            pats,
            kind,
            index[i].key@,
        )
    &&& forall|i: int| 0 <= i < index.len() ==> (#[trigger] index[i]).positions@.len() > 0
    &&& forall|p: int|
        0 <= p < pats.len() ==> exists|i: int|
            0 <= i < index.len() && (#[trigger] index[i]).key@ == key_of(#[trigger] pats[p], kind)
}

/// The entry of `index` whose key is `key`, if any.
pub fn find_entry(index: &Vec<IndexEntry>, key: &String) -> (r: Option<usize>)
    ensures
        match r {
            Some(k) => k < index@.len() && index@[k as int].key@ == key@,
            None => forall|i: int| 0 <= i < index@.len() ==> (#[trigger] index@[i]).key@ != key@,
        },
{
    let mut i: usize = 0;
    while i < index.len()
        invariant
            i <= index.len(),
            forall|j: int| 0 <= j < i ==> (#[trigger] index@[j]).key@ != key@,
        decreases index.len() - i,
    {
        if index[i].key == *key {
            return Some(i);
        }
        i += 1;
    }
    None
}

/// A copy of a list of positions.
pub fn copy_positions(v: &Vec<usize>) -> (r: Vec<usize>)
    ensures
        r@ == v@,
{
    let mut r: Vec<usize> = Vec::new();
    let mut i: usize = 0;
    while i < v.len()
        invariant
            i <= v.len(),
            r@ == v@.subrange(0, i as int),
        decreases v.len() - i,
    {
        r.push(v[i]);
        proof {
            assert(v@.subrange(0, i + 1) =~= v@.subrange(0, i as int).push(v@[i as int]));
        }
        i += 1;
    }
    assert(v@.subrange(0, v@.len() as int) =~= v@);
    r
}

/// Records that the pattern at `pos`, the last of `pats`, has key `key`.
pub fn index_insert(
    index: &mut Vec<IndexEntry>,
    key: &String,
    pos: usize,
    Ghost(pats): Ghost<Seq<PatternModel>>,
    Ghost(kind): Ghost<IndexKind>,
)
    requires
        pats.len() == pos + 1,
        index_ok(old(index)@, pats.drop_last(), kind),
        key_of(pats.last(), kind) == key@,
    ensures
        index_ok(final(index)@, pats, kind),
{
    let ghost prev = pats.drop_last();
    assert forall|k: Seq<char>| k != key@ implies positions_of(pats, kind, k) == positions_of(
        prev,
        kind,
        k,
    ) by {}
    assert(positions_of(pats, kind, key@) == positions_of(prev, kind, key@).push(pos));
    let mut i: usize = 0;
    while i < index.len()
        invariant
            i <= index.len(),
            index@ == old(index)@,
            forall|j: int| 0 <= j < i ==> (#[trigger] index@[j]).key@ != key@,
            prev == pats.drop_last(),
            pats.len() == pos + 1,
            index_ok(old(index)@, prev, kind),
            key_of(pats.last(), kind) == key@,
            forall|k: Seq<char>|
                k != key@ ==> positions_of(pats, kind, k) == positions_of(prev, kind, k),
            positions_of(pats, kind, key@) == positions_of(prev, kind, key@).push(pos),
        decreases index.len() - i,
    {
        if index[i].key == *key {
            let mut entry = index.remove(i);
            entry.positions.push(pos);
            index.insert(i, entry);
            proof {
                assert(index@ =~= old(index)@.update(i as int, entry));
                assert forall|p: int| 0 <= p < pats.len() implies exists|j: int|
                    0 <= j < index@.len() && (#[trigger] index@[j]).key@ == key_of(
                        #[trigger] pats[p],
                        kind,
                    ) by {
                    if p < pats.len() - 1 {
                        assert(prev[p] == pats[p]);
                        let j = choose|j: int|
                            0 <= j < old(index)@.len() && (#[trigger] old(index)@[j]).key@
                                == key_of(#[trigger] prev[p], kind);
                        assert(index@[j].key@ == old(index)@[j].key@);
                    } else {
                        assert(index@[i as int].key@ == key@);
                    }
                }
            }
            return;
        }
        i += 1;
    }
    let mut positions: Vec<usize> = Vec::new();
    positions.push(pos);
    let entry = IndexEntry { key: key.clone(), positions };
    let ghost before = index@;
    index.push(entry);
    proof {
        assert(positions_of(prev, kind, key@).len() == 0) by {
            if positions_of(prev, kind, key@).len() > 0 {
                lemma_positions_of(prev, kind, key@);
                let q = positions_of(prev, kind, key@)[0];
                let j = choose|j: int|
                    0 <= j < before.len() && (#[trigger] before[j]).key@ == key_of(
                        #[trigger] prev[q as int],
                        kind,
                    );
            }
        }
        assert(positions_of(pats, kind, key@) =~= positions@);
        assert forall|p: int| 0 <= p < pats.len() implies exists|j: int|
            0 <= j < index@.len() && (#[trigger] index@[j]).key@ == key_of(
                #[trigger] pats[p],
                kind,
            ) by {
            if p < pats.len() - 1 {
                assert(prev[p] == pats[p]);
                let j = choose|j: int|
                    0 <= j < before.len() && (#[trigger] before[j]).key@ == key_of(
                        #[trigger] prev[p],
                        kind,
                    );
                assert(index@[j] == before[j]);
            } else {
                assert(index@[index@.len() - 1].key@ == key@);
            }
        }
    }
}

} // verus!
