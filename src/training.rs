//! The pattern store: an insertion-ordered list of patterns with a category
//! index and a framework index kept exact at every step.
use vstd::prelude::*;
use crate::ranking::{distinct_positions, has_position, kept, lemma_insert_ranked, ranked, sorted_desc, stable};
use crate::scoring::{SearchCriteria, score, score_pattern_at};
use crate::store_index::{
    IndexEntry, IndexKind, copy_positions, find_entry, index_insert, index_ok, key_of,
    lemma_positions_of, positions_of,
};
use crate::types::{CodePattern, PatternModel};
use crate::validate::{
    FrameworkError, MAX_CATEGORY_LEN, MAX_ID_LEN, framework_error, sanitize_framework_name,
    valid_framework,
};

verus! {

/// Why a pattern is refused.
#[derive(Clone, Copy, Debug, PartialEq, Eq, Structural)]
pub enum PatternError {
    InvalidFramework(FrameworkError),
    EmptyId,
    IdTooLong,
    EmptyCategory,
    CategoryTooLong,
}

/// The sentence that describes each refusal.
pub open spec fn pattern_error_text(e: PatternError) -> Seq<char> {
    match e {
        PatternError::InvalidFramework(f) => crate::validate::framework_error_text(f),
        PatternError::EmptyId => "Pattern ID cannot be empty"@,
        PatternError::IdTooLong => "Pattern ID too long (max 128 characters)"@,
        PatternError::EmptyCategory => "Pattern category cannot be empty"@,
        PatternError::CategoryTooLong => "Pattern category too long (max 64 characters)"@,
    }
}

impl PatternError {
    /// A sentence describing the refusal.
    pub fn message(&self) -> (r: String)
        ensures
            r@ == pattern_error_text(*self),
    {
        match self {
            PatternError::InvalidFramework(e) => e.message(),
            PatternError::EmptyId => String::from_str("Pattern ID cannot be empty"),
            PatternError::IdTooLong => String::from_str("Pattern ID too long (max 128 characters)"),
            PatternError::EmptyCategory => String::from_str("Pattern category cannot be empty"),
            PatternError::CategoryTooLong => String::from_str(
                "Pattern category too long (max 64 characters)",
            ),
        }
    }
}

/// The first rule that the pattern breaks, checked in a fixed order, if any.
pub open spec fn pattern_error(p: PatternModel) -> Option<PatternError> {
    if framework_error(p.framework) is Some {
        Some(PatternError::InvalidFramework(framework_error(p.framework)->0))
    } else if p.id.len() == 0 {
        Some(PatternError::EmptyId)
    } else if p.id.len() > MAX_ID_LEN {
        Some(PatternError::IdTooLong)
    } else if p.category.len() == 0 {
        Some(PatternError::EmptyCategory)
    } else if p.category.len() > MAX_CATEGORY_LEN {
        Some(PatternError::CategoryTooLong)
    } else {
        None
    }
}

/// A pattern that the store accepts.
pub open spec fn valid_pattern(p: PatternModel) -> bool {
    pattern_error(p) is None
}

/// The pattern as the store keeps it when it is added at time `now`: a zero
/// creation time becomes `now`, and the update time becomes `now`.
pub open spec fn stamped(p: PatternModel, now: i64) -> PatternModel {
    PatternModel {
        created_at: if p.created_at == 0 {
            now
        } else {
            p.created_at
        },
        updated_at: now,
        ..p
    }
}

/// Checks the framework tag, the id and the category of a pattern.
pub fn validate_pattern(pattern: &CodePattern) -> (r: Result<(), PatternError>)
    ensures
        match r {
            Ok(()) => valid_pattern(pattern@),
            Err(e) => pattern_error(pattern@) == Some(e),
        },
{
    match sanitize_framework_name(pattern.framework.as_str()) {
        Err(e) => {
            return Err(PatternError::InvalidFramework(e));
        },
        Ok(_) => {},
    }
    let id_len = pattern.id.as_str().unicode_len();
    if id_len == 0 {
        return Err(PatternError::EmptyId);
    }
    if id_len > MAX_ID_LEN {
        return Err(PatternError::IdTooLong);
    }
    let category_len = pattern.category.as_str().unicode_len();
    if category_len == 0 {
        return Err(PatternError::EmptyCategory);
    }
    if category_len > MAX_CATEGORY_LEN {
        return Err(PatternError::CategoryTooLong);
    }
    Ok(())
}

/// Manages the library of code patterns.
pub struct TrainingManager {
    patterns: Vec<CodePattern>,
    storage_path: String,
    category_index: Vec<IndexEntry>,
    framework_index: Vec<IndexEntry>,
}

/// The field values of a list of patterns.
pub open spec fn models(v: Seq<CodePattern>) -> Seq<PatternModel> {
    v.map_values(|p: CodePattern| p@)
}

impl View for TrainingManager {
    type V = Seq<PatternModel>;

    /// The stored patterns, in insertion order.
    closed spec fn view(&self) -> Seq<PatternModel> {
        models(self.patterns@)
    }
}

impl TrainingManager {
    /// Both indices describe the stored patterns exactly.
    pub closed spec fn wf(&self) -> bool {
        &&& index_ok(self.category_index@, self@, IndexKind::Category)
        &&& index_ok(self.framework_index@, self@, IndexKind::Framework)
    }

    /// The storage directory that the store was made for.
    pub closed spec fn root(&self) -> Seq<char> {
        self.storage_path@
    }

    /// An empty store for the storage directory `storage_path`; no I/O.
    pub fn new(storage_path: String) -> (r: TrainingManager)
        ensures
            r.wf(),
            r@ == Seq::<PatternModel>::empty(),
            r.root() == storage_path@,
    {
        let r = TrainingManager {
            patterns: Vec::new(),
            storage_path,
            category_index: Vec::new(),
            framework_index: Vec::new(),
        };
        assert(r@ =~= Seq::<PatternModel>::empty());
        r
    }

    /// The storage directory.
    pub fn storage_path(&self) -> (r: &str)
        ensures
            r@ == self.root(),
    {
        self.storage_path.as_str()
    }

    /// Appends a pattern already known to fit, and indexes it.
    fn push_indexed(&mut self, pattern: CodePattern)
        requires
            old(self).wf(),
            old(self)@.len() < usize::MAX,
        ensures
            final(self).wf(),
            final(self)@ == old(self)@.push(pattern@),
            final(self).root() == old(self).root(),
    {
        let pos = self.patterns.len();
        let category = pattern.category.clone();
        let framework = pattern.framework.clone();
        self.patterns.push(pattern);
        let ghost pats = self@;
        proof {
            assert(pats =~= old(self)@.push(pattern@));
            assert(pats.drop_last() =~= old(self)@);
        }
        index_insert(
            &mut self.category_index,
            &category,
            pos,
            Ghost(pats),
            Ghost(IndexKind::Category),
        );
        index_insert(
            &mut self.framework_index,
            &framework,
            pos,
            Ghost(pats),
            Ghost(IndexKind::Framework),
        );
    }

    /// Replaces the contents with `patterns`, in order, and rebuilds both
    /// indices. What the store holds afterwards depends on `patterns` alone,
    /// not on what it held before, so loading the same files again leaves it
    /// as it was.
    pub fn load_patterns_from(&mut self, patterns: Vec<CodePattern>)
        requires
            patterns@.len() < usize::MAX,
        ensures
            final(self).wf(),
            final(self)@ == models(patterns@),
            final(self).root() == old(self).root(),
    {
        self.patterns = Vec::new();
        self.category_index = Vec::new();
        self.framework_index = Vec::new();
        assert(self@ =~= Seq::<PatternModel>::empty());
        for p in it: patterns
            invariant
                self.wf(),
                self@ == models(it.seq().subrange(0, it.index() as int)),
                it.seq() == patterns@,
                patterns@.len() < usize::MAX,
                self.root() == old(self).root(),
        {
            proof {
                assert(models(it.seq().subrange(0, it.index() + 1)) =~= models(
                    it.seq().subrange(0, it.index() as int),
                ).push(p@));
            }
            self.push_indexed(p);
        }
        assert(patterns@.subrange(0, patterns@.len() as int) =~= patterns@);
    }

    /// Validates `pattern`; if it is accepted, stamps it with time `now` and
    /// appends it. A refused pattern leaves the store unchanged.
    pub fn add_pattern(&mut self, pattern: CodePattern, now: i64) -> (r: Result<(), PatternError>)
        requires
            old(self).wf(),
            old(self)@.len() < usize::MAX,
        ensures
            final(self).wf(),
            final(self).root() == old(self).root(),
            match r {
                Ok(()) => valid_pattern(pattern@) && final(self)@ == old(self)@.push(
                    stamped(pattern@, now),
                ),
                Err(e) => pattern_error(pattern@) == Some(e) && final(self)@ == old(self)@,
            },
    {
        match validate_pattern(&pattern) {
            Err(e) => {
                return Err(e);
            },
            Ok(()) => {},
        }
        let mut pattern = pattern;
        if pattern.created_at == 0 {
            pattern.created_at = now;
        }
        pattern.updated_at = now;
        self.push_indexed(pattern);
        Ok(())
    }

}

/// The pattern satisfies the framework filter of the criteria.
pub open spec fn framework_filter(p: PatternModel, c: crate::scoring::CriteriaModel) -> bool {
    match c.framework {
        Some(f) => p.framework == f,
        None => true,
    }
}

impl TrainingManager {
    /// The positions and scores of the patterns kept by `criteria` at time
    /// `now`, highest score first, ties in insertion order. An unknown
    /// framework or category ends the search before any pattern is scored.
    pub fn search_ranked_at(&self, criteria: &SearchCriteria, now: i64) -> (r: Vec<(usize, u64)>)
        requires
            self.wf(),
        ensures
            ranked(r@, self@, criteria@, now),
    {
        let ghost pats = self@;
        let ghost c = criteria@;
        let n = self.patterns.len();
        let mut cand: Vec<usize> = Vec::new();
        match &criteria.framework {
            Some(f) => {
                match find_entry(&self.framework_index, f) {
                    Some(k) => {
                        cand = copy_positions(&self.framework_index[k].positions);
                        proof {
                            lemma_positions_of(pats, IndexKind::Framework, f@);
                        }
                    },
                    None => {
                        proof {
                            assert forall|j: int|
                                0 <= j < pats.len() && kept(#[trigger] pats[j], c, now) implies false by {
                                let i = choose|i: int|
                                    0 <= i < self.framework_index@.len()
                                        && (#[trigger] self.framework_index@[i]).key@ == key_of(
                                        #[trigger] pats[j],
                                        IndexKind::Framework,
                                    );
                            }
                        }
                        return Vec::new();
                    },
                }
            },
            None => {
                let mut i: usize = 0;
                while i < n
                    invariant
                        i <= n,
                        cand@.len() == i,
                        forall|t: int| 0 <= t < i ==> cand@[t] == t,
                    decreases n - i,
                {
                    cand.push(i);
                    i += 1;
                }
            },
        }
        match &criteria.category {
            Some(k) => {
                if find_entry(&self.category_index, k).is_none() {
                    proof {
                        assert forall|j: int|
                            0 <= j < pats.len() && kept(#[trigger] pats[j], c, now) implies false by {
                            let i = choose|i: int|
                                0 <= i < self.category_index@.len()
                                    && (#[trigger] self.category_index@[i]).key@ == key_of(
                                    #[trigger] pats[j],
                                    IndexKind::Category,
                                );
                        }
                    }
                    return Vec::new();
                }
            },
            None => {},
        }
        assert(forall|t: int| 0 <= t < cand@.len() ==> (#[trigger] cand@[t]) < n);
        assert(forall|t1: int, t2: int|
            0 <= t1 < t2 < cand@.len() ==> (#[trigger] cand@[t1]) < (#[trigger] cand@[t2]));
        assert(forall|t: int|
            0 <= t < cand@.len() ==> framework_filter(pats[#[trigger] cand@[t] as int], c));
        assert forall|j: int| 0 <= j < n && framework_filter(#[trigger] pats[j], c) implies cand@.contains(
            j as usize,
        ) by {
            if criteria.framework is None {
                assert(cand@[j] == j as usize);
            }
        }
        let mut out: Vec<(usize, u64)> = Vec::new();
        let mut t: usize = 0;
        while t < cand.len()
            invariant
                pats == self@,
                c == criteria@,
                n == pats.len(),
                t <= cand@.len(),
                forall|t: int| 0 <= t < cand@.len() ==> (#[trigger] cand@[t]) < n,
                forall|t1: int, t2: int|
                    0 <= t1 < t2 < cand@.len() ==> (#[trigger] cand@[t1]) < (#[trigger] cand@[t2]),
                forall|t: int|
                    0 <= t < cand@.len() ==> framework_filter(pats[#[trigger] cand@[t] as int], c),
                forall|i: int|
                    0 <= i < out@.len() ==> {
                        &&& (#[trigger] out@[i]).0 < n
                        &&& kept(pats[out@[i].0 as int], c, now)
                        &&& out@[i].1 == score(pats[out@[i].0 as int], c, now)
                        &&& t < cand@.len() ==> out@[i].0 < cand@[t as int]
                    },
                forall|t2: int|
                    0 <= t2 < t && kept(pats[#[trigger] cand@[t2] as int], c, now) ==> has_position(
                        out@,
                        cand@[t2] as int,
                    ),
                distinct_positions(out@),
                sorted_desc(out@),
                stable(out@),
            decreases cand@.len() - t,
        {
            let j = cand[t];
            let p = &self.patterns[j];
            assert(pats[j as int] == p@);
            let pass = match &criteria.category {
                Some(k) => p.category == *k,
                None => true,
            };
            if pass {
                let s = score_pattern_at(p, criteria, now);
                if s >= criteria.min_score {
                    let mut q: usize = 0;
                    while q < out.len() && out[q].1 >= s
                        invariant
                            q <= out@.len(),
                            forall|i: int| 0 <= i < q ==> (#[trigger] out@[i]).1 >= s,
                        decreases out@.len() - q,
                    {
                        q += 1;
                    }
                    let ghost before = out@;
                    proof {
                        lemma_insert_ranked(before, q as int, (j, s));
                        before.insert_ensures(q as int, (j, s));
                    }
                    out.insert(q, (j, s));
                    proof {
                        assert forall|t2: int|
                            0 <= t2 < t + 1 && kept(
                                pats[#[trigger] cand@[t2] as int],
                                c,
                                now,
                            ) implies has_position(out@, cand@[t2] as int) by {
                            if t2 == t {
                                assert(out@[q as int].0 == j);
                            } else {
                                let i = choose|i: int|
                                    0 <= i < before.len() && (#[trigger] before[i]).0 == cand@[t2];
                                if i < q {
                                    assert(out@[i] == before[i]);
                                } else {
                                    assert(out@[i + 1] == before[i]);
                                }
                            }
                        }
                        assert forall|i: int| 0 <= i < out@.len() implies {
                            &&& (#[trigger] out@[i]).0 < n
                            &&& kept(pats[out@[i].0 as int], c, now)
                            &&& out@[i].1 == score(pats[out@[i].0 as int], c, now)
                            &&& t + 1 < cand@.len() ==> out@[i].0 < cand@[t + 1]
                        } by {
                            if i < q {
                                assert(out@[i] == before[i]);
                            } else if i > q {
                                assert(out@[i] == before[i - 1]);
                            }
                        }
                    }
                }
            }
            t += 1;
        }
        proof {
            assert forall|j: int| 0 <= j < pats.len() && kept(#[trigger] pats[j], c, now) implies has_position(
                out@,
                j,
            ) by {
                assert(framework_filter(pats[j], c));
                assert(cand@.contains(j as usize));
                let t2 = choose|t2: int| 0 <= t2 < cand@.len() && cand@[t2] == j as usize;
                assert(kept(pats[cand@[t2] as int], c, now));
            }
        }
        out
    }

    /// The patterns kept by `criteria` at time `now`, each with its score,
    /// highest score first, ties in insertion order.
    pub fn search_patterns(&self, criteria: &SearchCriteria, now: i64) -> (r: Vec<(&CodePattern, u64)>)
        requires
            self.wf(),
        ensures
            exists|ps: Seq<(usize, u64)>|
                {
                    &&& ranked(ps, self@, criteria@, now)
                    &&& r@.len() == ps.len()
                    &&& forall|i: int|
                        0 <= i < ps.len() ==> (#[trigger] r@[i]).0@ == self@[ps[i].0 as int]
                            && r@[i].1 == ps[i].1
                },
    {
        let ps = self.search_ranked_at(criteria, now);
        let mut r: Vec<(&CodePattern, u64)> = Vec::new();
        let mut i: usize = 0;
        while i < ps.len()
            invariant
                i <= ps@.len(),
                ranked(ps@, self@, criteria@, now),
                r@.len() == i,
                forall|k: int|
                    0 <= k < i ==> (#[trigger] r@[k]).0@ == self@[ps@[k].0 as int] && r@[k].1
                        == ps@[k].1,
            decreases ps@.len() - i,
        {
            let (j, s) = ps[i];
            assert(j < self.patterns@.len());
            r.push((&self.patterns[j], s));
            i += 1;
        }
        r
    }

    /// The patterns of one framework and category, by score at time `now`,
    /// scores left out.
    pub fn search_by_framework_and_category(&self, framework: &str, category: &str, now: i64) -> (r: Vec<&CodePattern>)
        requires
            self.wf(),
        ensures
            exists|ps: Seq<(usize, u64)>|
                {
                    &&& ranked(ps, self@, plain_criteria(framework@, category@), now)
                    &&& r@.len() == ps.len()
                    &&& forall|i: int| 0 <= i < ps.len() ==> (#[trigger] r@[i])@ == self@[ps[i].0 as int]
                },
    {
        let criteria = SearchCriteria {
            query: None,
            category: Some(String::from_str(category)),
            framework: Some(String::from_str(framework)),
            tags: Vec::new(),
            min_score: 0,
        };
        assert(criteria@ == plain_criteria(framework@, category@)) by {
            assert(criteria@.tags =~= Seq::<Seq<char>>::empty());
        }
        let scored = self.search_patterns(&criteria, now);
        let mut r: Vec<&CodePattern> = Vec::new();
        let mut i: usize = 0;
        while i < scored.len()
            invariant
                i <= scored@.len(),
                r@.len() == i,
                forall|k: int| 0 <= k < i ==> (#[trigger] r@[k])@ == scored@[k].0@,
            decreases scored@.len() - i,
        {
            r.push(scored[i].0);
            i += 1;
        }
        r
    }

    /// What the `get-patterns` tool lists at time `now`: the patterns of
    /// `framework`, narrowed to `category` when one is given, by score, scores
    /// left out.
    pub fn get_patterns(&self, framework: &str, category: Option<&str>, now: i64) -> (r: Vec<&CodePattern>)
        requires
            self.wf(),
        ensures
            exists|ps: Seq<(usize, u64)>|
                {
                    &&& ranked(ps, self@, tool_criteria(framework@, opt_str_view(category)), now)
                    &&& r@.len() == ps.len()
                    &&& forall|i: int| 0 <= i < ps.len() ==> (#[trigger] r@[i])@ == self@[ps[i].0 as int]
                },
    {
        match category {
            Some(c) => self.search_by_framework_and_category(framework, c, now),
            None => {
                let criteria = SearchCriteria {
                    query: None,
                    category: None,
                    framework: Some(String::from_str(framework)),
                    tags: Vec::new(),
                    min_score: 0,
                };
                assert(criteria@ == tool_criteria(framework@, None)) by {
                    assert(criteria@.tags =~= Seq::<Seq<char>>::empty());
                }
                let scored = self.search_patterns(&criteria, now);
                let mut r: Vec<&CodePattern> = Vec::new();
                let mut i: usize = 0;
                while i < scored.len()
                    invariant
                        i <= scored@.len(),
                        r@.len() == i,
                        forall|k: int| 0 <= k < i ==> (#[trigger] r@[k])@ == scored@[k].0@,
                    decreases scored@.len() - i,
                {
                    r.push(scored[i].0);
                    i += 1;
                }
                r
            },
        }
    }

    /// The first pattern whose id is `id`.
    pub fn get_pattern_by_id(&self, id: &str) -> (r: Option<&CodePattern>)
        ensures
            match r {
                Some(p) => exists|i: int| first_with_id(self@, id@, i) && p@ == self@[i],
                None => forall|i: int| 0 <= i < self@.len() ==> (#[trigger] self@[i]).id != id@,
            },
    {
        match self.find_id(id) {
            Some(i) => Some(&self.patterns[i]),
            None => None,
        }
    }

    fn find_id(&self, id: &str) -> (r: Option<usize>)
        ensures
            match r {
                Some(i) => first_with_id(self@, id@, i as int),
                None => forall|i: int| 0 <= i < self@.len() ==> (#[trigger] self@[i]).id != id@,
            },
    {
        let target = String::from_str(id);
        let mut i: usize = 0;
        while i < self.patterns.len()
            invariant
                i <= self@.len(),
                target@ == id@,
                forall|j: int| 0 <= j < i ==> (#[trigger] self@[j]).id != id@,
            decreases self@.len() - i,
        {
            if self.patterns[i].id == target {
                return Some(i);
            }
            i += 1;
        }
        None
    }

    /// Counts one more use of the first pattern with id `id` at time `now`
    /// (the counter stops at its largest value) and refreshes its update time.
    pub fn increment_usage(&mut self, pattern_id: &str, now: i64) -> (r: Result<(), String>)
        requires
            old(self).wf(),
        ensures
            final(self).wf(),
            final(self).root() == old(self).root(),
            match r {
                Ok(()) => exists|i: int|
                    first_with_id(old(self)@, pattern_id@, i) && final(self)@ == old(self)@.update(
                        i,
                        used(old(self)@[i], now),
                    ),
                Err(m) => (forall|i: int|
                    0 <= i < old(self)@.len() ==> (#[trigger] old(self)@[i]).id != pattern_id@)
                    && final(self)@ == old(self)@ && m@ == "Pattern not found: "@ + pattern_id@,
            },
    {
        match self.find_id(pattern_id) {
            None => Err(String::from_str("Pattern not found: ").concat(pattern_id)),
            Some(i) => {
                let mut p = self.patterns[i].copy();
                p.usage_count = if p.usage_count < u64::MAX {
                    p.usage_count + 1
                } else {
                    p.usage_count
                };
                p.updated_at = now;
                let ghost before = self@;
                self.patterns.set(i, p);
                proof {
                    assert(self@ =~= before.update(i as int, used(before[i as int], now)));
                    lemma_same_keys(before, self@, IndexKind::Category);
                    lemma_same_keys(before, self@, IndexKind::Framework);
                }
                Ok(())
            },
        }
    }

    /// All stored patterns, in insertion order.
    pub fn get_all_patterns(&self) -> (r: &[CodePattern])
        ensures
            models(r@) == self@,
    {
        self.patterns.as_slice()
    }
}

/// Criteria with only a framework and a category.
pub open spec fn plain_criteria(framework: Seq<char>, category: Seq<char>) -> crate::scoring::CriteriaModel {
    crate::scoring::CriteriaModel {
        query: None,
        category: Some(category),
        framework: Some(framework),
        tags: Seq::empty(),
        min_score: 0,
    }
}

/// The characters of an optional string slice.
pub open spec fn opt_str_view(o: Option<&str>) -> Option<Seq<char>> {
    match o {
        Some(s) => Some(s@),
        None => None,
    }
}

/// The criteria of the `get-patterns` tool: the framework, and the category
/// when one is given.
pub open spec fn tool_criteria(framework: Seq<char>, category: Option<Seq<char>>) -> crate::scoring::CriteriaModel {
    crate::scoring::CriteriaModel {
        query: None,
        category: category,
        framework: Some(framework),
        tags: Seq::empty(),
        min_score: 0,
    }
}

/// Position `i` holds the first pattern whose id is `id`.
pub open spec fn first_with_id(pats: Seq<PatternModel>, id: Seq<char>, i: int) -> bool {
    &&& 0 <= i < pats.len()
    &&& pats[i].id == id
    &&& forall|j: int| 0 <= j < i ==> (#[trigger] pats[j]).id != id
}

/// The pattern after one more use at time `now`.
pub open spec fn used(p: PatternModel, now: i64) -> PatternModel {
    PatternModel {
        usage_count: if p.usage_count < u64::MAX {
            (p.usage_count + 1) as u64
        } else {
            p.usage_count
        },
        updated_at: now,
        ..p
    }
}

/// Patterns with the same keys, position by position, have the same index.
proof fn lemma_same_keys(a: Seq<PatternModel>, b: Seq<PatternModel>, kind: IndexKind)
    requires
        a.len() == b.len(),
        forall|i: int| 0 <= i < a.len() ==> key_of(#[trigger] a[i], kind) == key_of(b[i], kind),
    ensures
        forall|k: Seq<char>| #[trigger] positions_of(a, kind, k) == positions_of(b, kind, k),
    decreases a.len(),
{
    if a.len() > 0 {
        lemma_same_keys(a.drop_last(), b.drop_last(), kind);
        assert forall|k: Seq<char>| #[trigger] positions_of(a, kind, k) == positions_of(b, kind, k) by {
            assert(positions_of(a.drop_last(), kind, k) == positions_of(b.drop_last(), kind, k));
            assert(key_of(a.last(), kind) == key_of(b.last(), kind));
        }
    }
}

/// Totals over the pattern store. `avg_relevance` is in millionths.
#[derive(Clone, Debug)]
pub struct PatternStatistics {
    pub total_patterns: usize,
    pub categories: Vec<String>,
    pub frameworks: Vec<String>,
    pub total_usage: u128,
    pub avg_relevance: u64,
}

/// The sum of the usage counts.
pub open spec fn usage_sum(pats: Seq<PatternModel>) -> nat
    decreases pats.len(),
{
    if pats.len() == 0 {
        0
    } else {
        usage_sum(pats.drop_last()) + pats.last().usage_count as nat
    }
}

/// The sum of the baseline relevances.
pub open spec fn relevance_sum(pats: Seq<PatternModel>) -> nat
    decreases pats.len(),
{
    if pats.len() == 0 {
        0
    } else {
        relevance_sum(pats.drop_last()) + pats.last().relevance_score as nat
    }
}

/// The mean baseline relevance, rounded down; zero for no patterns.
pub open spec fn avg_relevance(pats: Seq<PatternModel>) -> nat {
    if pats.len() == 0 {
        0
    } else {
        relevance_sum(pats) / pats.len()
    }
}

/// `keys` lists, each once, exactly the values of the field `kind` in `pats`.
pub open spec fn lists_keys(keys: Seq<Seq<char>>, pats: Seq<PatternModel>, kind: IndexKind) -> bool {
    &&& keys.no_duplicates()
    &&& forall|k: Seq<char>|
        keys.contains(k) <==> exists|i: int| 0 <= i < pats.len() && key_of(#[trigger] pats[i], kind) == k
}

/// The keys of an exact index.
fn index_keys(index: &Vec<IndexEntry>, Ghost(pats): Ghost<Seq<PatternModel>>, Ghost(kind): Ghost<IndexKind>) -> (r: Vec<String>)
    requires
        index_ok(index@, pats, kind),
        pats.len() <= usize::MAX,
    ensures
        lists_keys(crate::types::strings_view(r@), pats, kind),
        r@.len() == index@.len(),
        forall|j: int| 0 <= j < index@.len() ==> (#[trigger] r@[j])@ == index@[j].key@,
{
    let mut r: Vec<String> = Vec::new();
    let mut i: usize = 0;
    while i < index.len()
        invariant
            i <= index@.len(),
            r@.len() == i,
            forall|j: int| 0 <= j < i ==> (#[trigger] r@[j])@ == index@[j].key@,
        decreases index@.len() - i,
    {
        r.push(index[i].key.clone());
        i += 1;
    }
    let ghost keys = crate::types::strings_view(r@);
    proof {
        assert forall|a: int, b: int| 0 <= a < keys.len() && 0 <= b < keys.len() && a != b implies keys[a] != keys[b] by {
            if a < b {
                assert(index@[a].key@ != index@[b].key@);
            } else {
                assert(index@[b].key@ != index@[a].key@);
            }
        }
        assert forall|k: Seq<char>| keys.contains(k) <==> exists|p: int| 0 <= p < pats.len() && key_of(#[trigger] pats[p], kind) == k by {
            if keys.contains(k) {
                let j = choose|j: int| 0 <= j < keys.len() && keys[j] == k;
                lemma_positions_of(pats, kind, k);
                assert(index@[j].positions@.len() > 0);
                let q = positions_of(pats, kind, k)[0];
                assert(key_of(pats[q as int], kind) == k);
            }
            if exists|p: int| 0 <= p < pats.len() && key_of(#[trigger] pats[p], kind) == k {
                let p = choose|p: int| 0 <= p < pats.len() && key_of(#[trigger] pats[p], kind) == k;
                let j = choose|j: int| 0 <= j < index@.len() && (#[trigger] index@[j]).key@ == key_of(#[trigger] pats[p], kind);
                assert(keys[j] == k);
            }
        }
    }
    r
}

impl TrainingManager {
    /// Totals over the store: the number of patterns, the distinct categories
    /// and frameworks, the summed usage and the mean baseline relevance.
    pub fn get_statistics(&self) -> (r: PatternStatistics)
        requires
            self.wf(),
        ensures
            r.total_patterns == self@.len(),
            lists_keys(crate::types::strings_view(r.categories@), self@, IndexKind::Category),
            lists_keys(crate::types::strings_view(r.frameworks@), self@, IndexKind::Framework),
            r.total_usage == usage_sum(self@),
            r.avg_relevance == avg_relevance(self@),
    {
        let n = self.patterns.len();
        assert(self@.len() == n);
        let categories = index_keys(&self.category_index, Ghost(self@), Ghost(IndexKind::Category));
        let frameworks = index_keys(&self.framework_index, Ghost(self@), Ghost(IndexKind::Framework));
        let mut usage: u128 = 0;
        let mut relevance: u128 = 0;
        let mut i: usize = 0;
        while i < n
            invariant
                n == self@.len(),
                i <= n,
                usage == usage_sum(self@.subrange(0, i as int)),
                relevance == relevance_sum(self@.subrange(0, i as int)),
                usage <= i * 0xFFFF_FFFF_FFFF_FFFFu128,
                relevance <= i * 0xFFFF_FFFFu128,
            decreases n - i,
        {
            proof {
                let next = self@.subrange(0, i + 1);
                assert(next.drop_last() =~= self@.subrange(0, i as int));
                assert(next.last() == self.patterns@[i as int]@);
            }
            usage = usage + self.patterns[i].usage_count as u128;
            relevance = relevance + self.patterns[i].relevance_score as u128;
            i += 1;
        }
        assert(self@.subrange(0, n as int) =~= self@);
        let avg: u64 = if n == 0 {
            0
        } else {
            proof {
                let s = relevance as int;
                let m = n as int;
                assert(s / m <= 0xFFFF_FFFF) by (nonlinear_arith)
                    requires
                        s <= m * 0xFFFF_FFFF,
                        m > 0,
                ;
            }
            (relevance / (n as u128)) as u64
        };
        PatternStatistics {
            total_patterns: n,
            categories,
            frameworks,
            total_usage: usage,
            avg_relevance: avg,
        }
    }
}

/// The name of the file that holds the patterns of `framework`.
pub open spec fn file_name_for(framework: Seq<char>) -> Seq<char> {
    framework + "-patterns.json"@
}

/// The file name for a framework tag, when the tag passes validation.
pub fn pattern_file_name(framework: &str) -> (r: Result<String, FrameworkError>)
    ensures
        match r {
            Ok(name) => valid_framework(framework@) && name@ == file_name_for(framework@),
            Err(e) => framework_error(framework@) == Some(e),
        },
{
    match sanitize_framework_name(framework) {
        Ok(safe) => {
            let mut name = safe;
            name.append("-patterns.json");
            Ok(name)
        },
        Err(e) => Err(e),
    }
}

/// One file to write on save: its name and its patterns, in store order.
#[derive(Debug)]
pub struct PatternFile {
    pub framework: String,
    pub file_name: String,
    pub patterns: Vec<CodePattern>,
}

/// The patterns at the positions `ps`, in that order.
pub open spec fn select(pats: Seq<PatternModel>, ps: Seq<usize>) -> Seq<PatternModel> {
    ps.map_values(|i: usize| pats[i as int])
}

/// `files` is the save layout of `pats`: one file per distinct framework,
/// each named after its framework and holding that framework's patterns in
/// store order.
pub open spec fn save_layout(files: Seq<PatternFile>, pats: Seq<PatternModel>) -> bool {
    &&& lists_keys(files.map_values(|f: PatternFile| f.framework@), pats, IndexKind::Framework)
    &&& forall|f: int|
        0 <= f < files.len() ==> {
            &&& valid_framework((#[trigger] files[f]).framework@)
            &&& files[f].file_name@ == file_name_for(files[f].framework@)
            &&& models(files[f].patterns@) == select(
                pats,
                positions_of(pats, IndexKind::Framework, files[f].framework@),
            )
        }
}

impl TrainingManager {
    /// Groups the patterns by framework for saving. Fails, naming the tag,
    /// when some stored framework tag would not be a safe file name.
    pub fn save_plan(&self) -> (r: Result<Vec<PatternFile>, (String, FrameworkError)>)
        requires
            self.wf(),
        ensures
            match r {
                Ok(files) => save_layout(files@, self@),
                Err((fw, e)) => (exists|i: int|
                    0 <= i < self@.len() && (#[trigger] self@[i]).framework == fw@)
                    && framework_error(fw@) == Some(e),
            },
    {
        let ghost pats = self@;
        let n = self.patterns.len();
        proof {
            assert(pats.len() == n);
        }
        let keys = index_keys(&self.framework_index, Ghost(pats), Ghost(IndexKind::Framework));
        let mut files: Vec<PatternFile> = Vec::new();
        let mut f: usize = 0;
        while f < self.framework_index.len()
            invariant
                pats == self@,
                n == pats.len(),
                self.wf(),
                f <= self.framework_index@.len(),
                files@.len() == f,
                forall|g: int|
                    0 <= g < f ==> {
                        &&& (#[trigger] files@[g]).framework@ == self.framework_index@[g].key@
                        &&& valid_framework(files@[g].framework@)
                        &&& files@[g].file_name@ == file_name_for(files@[g].framework@)
                        &&& models(files@[g].patterns@) == select(
                            pats,
                            positions_of(pats, IndexKind::Framework, files@[g].framework@),
                        )
                    },
            decreases self.framework_index@.len() - f,
        {
            let entry = &self.framework_index[f];
            proof {
                lemma_positions_of(pats, IndexKind::Framework, entry.key@);
            }
            let name = match pattern_file_name(entry.key.as_str()) {
                Ok(name) => name,
                Err(e) => {
                    proof {
                        let q = entry.positions@[0];
                        assert(self@[q as int].framework == entry.key@);
                    }
                    return Err((entry.key.clone(), e));
                },
            };
            let mut group: Vec<CodePattern> = Vec::new();
            let mut k: usize = 0;
            while k < entry.positions.len()
                invariant
                    pats == self@,
                    n == pats.len(),
                    k <= entry.positions@.len(),
                    entry.positions@ == positions_of(pats, IndexKind::Framework, entry.key@),
                    forall|t: int| 0 <= t < entry.positions@.len() ==> (#[trigger] entry.positions@[t]) < n,
                    models(group@) == select(pats, entry.positions@.subrange(0, k as int)),
                decreases entry.positions@.len() - k,
            {
                let j = entry.positions[k];
                let p = self.patterns[j].copy();
                assert(p@ == pats[j as int]);
                let ghost before = group@;
                group.push(p);
                proof {
                    assert(entry.positions@.subrange(0, k + 1) =~= entry.positions@.subrange(0, k as int).push(j));
                    assert(models(group@) =~= models(before).push(p@));
                    assert(models(group@) =~= select(pats, entry.positions@.subrange(0, k + 1)));
                }
                k += 1;
            }
            proof {
                assert(entry.positions@.subrange(0, entry.positions@.len() as int) =~= entry.positions@);
            }
            files.push(PatternFile { framework: entry.key.clone(), file_name: name, patterns: group });
            f += 1;
        }
        proof {
            let names = files@.map_values(|g: PatternFile| g.framework@);
            assert(names =~= crate::types::strings_view(keys@)) by {
                assert forall|g: int| 0 <= g < names.len() implies names[g] == crate::types::strings_view(keys@)[g] by {
                    assert(names[g] == files@[g].framework@);
                    assert(keys@[g]@ == self.framework_index@[g].key@);
                }
            }
        }
        Ok(files)
    }
}

} // verus!
