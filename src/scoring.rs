//! The composite relevance score of a pattern against search criteria.
//!
//! Scores are fixed-point numbers counting millionths: `1_000_000` is 1.0.
//! They are not capped, so strong matches stay apart from merely popular ones.
use vstd::prelude::*;
use crate::bignum::{at_least_ten, base_pow, div10, limbs_value, mul_u64, power};
use crate::text::{chars_of, contains_seq, lower_of, lowercase, seq_contains};
use crate::types::{CodePattern, PatternModel, strings_view};

verus! {

/// Added when the lower-cased query occurs in the lower-cased title.
pub const TITLE_BONUS: u64 = 300_000;

/// Added when the lower-cased query occurs in the lower-cased description.
pub const DESCRIPTION_BONUS: u64 = 150_000;

/// Added when the lower-cased query occurs in the lower-cased code.
pub const CODE_BONUS: u64 = 50_000;

/// Weight of the share of requested tags that a pattern carries.
pub const TAG_WEIGHT: u64 = 200_000;

/// Added when a pattern was updated less than `RECENT_SECONDS` ago.
pub const RECENCY_BONUS: u64 = 50_000;

/// Thirty days, in seconds.
pub const RECENT_SECONDS: i64 = 2_592_000;

/// One thousandth of a score, in millionths: the popularity term is
/// `0.05 · log10(usage_count)` rounded down to a thousandth.
pub const POPULARITY_STEP: u64 = 1_000;

/// `0.05 · log10(n)` in thousandths is `log10(n^50)`.
pub const POPULARITY_EXPONENT: u64 = 50;

/// Search criteria: every part is optional; `min_score` is in millionths.
pub struct SearchCriteria {
    pub query: Option<String>,
    pub category: Option<String>,
    pub framework: Option<String>,
    pub tags: Vec<String>,
    pub min_score: u64,
}

/// The values of search criteria.
pub struct CriteriaModel {
    pub query: Option<Seq<char>>,
    pub category: Option<Seq<char>>,
    pub framework: Option<Seq<char>>,
    pub tags: Seq<Seq<char>>,
    pub min_score: u64,
}

/// The character sequence of an optional string.
pub open spec fn opt_view(o: Option<String>) -> Option<Seq<char>> {
    match o {
        Some(s) => Some(s@),
        None => None,
    }
}

impl View for SearchCriteria {
    type V = CriteriaModel;

    open spec fn view(&self) -> CriteriaModel {
        CriteriaModel {
            query: opt_view(self.query),
            category: opt_view(self.category),
            framework: opt_view(self.framework),
            tags: strings_view(self.tags@),
            min_score: self.min_score,
        }
    }
}

/// The floor of the decimal logarithm of `n` (zero below ten).
pub open spec fn decades(n: nat) -> nat
    decreases n,
{
    if n < 10 {
        0
    } else {
        1 + decades(n / 10)
    }
}

/// Popularity term: `0.05 · log10(usage_count)` rounded down to a thousandth,
/// that is `POPULARITY_STEP` times the largest `q` with `10^q <= usage_count^50`
/// (none for a count of zero or one).
pub open spec fn popularity_bonus(usage_count: u64) -> nat {
    (POPULARITY_STEP as nat * decades(power(usage_count as nat, 50))) as nat
}

/// Query term over already lower-cased title, description, code and query.
pub open spec fn folded_query_bonus(
    title: Seq<char>,
    description: Seq<char>,
    code: Seq<char>,
    query: Seq<char>,
) -> nat {
    (if seq_contains(title, query) {
        TITLE_BONUS as nat
    } else {
        0
    }) + (if seq_contains(description, query) {
        DESCRIPTION_BONUS as nat
    } else {
        0
    }) + (if seq_contains(code, query) {
        CODE_BONUS as nat
    } else {
        0
    })
}

/// Query term: case-insensitive occurrences of the query in the title, the
/// description and the code.
pub open spec fn query_bonus(p: PatternModel, query: Option<Seq<char>>) -> nat {
    match query {
        Some(q) => folded_query_bonus(
            lower_of(p.title),
            lower_of(p.description),
            lower_of(p.code),
            lower_of(q),
        ),
        None => 0,
    }
}

/// How many distinct values of `wanted` occur in `have`.
pub open spec fn distinct_hits(wanted: Seq<Seq<char>>, have: Seq<Seq<char>>) -> nat
    decreases wanted.len(),
{
    if wanted.len() == 0 {
        0
    } else {
        distinct_hits(wanted.drop_last(), have) + if have.contains(wanted.last())
            && !wanted.drop_last().contains(wanted.last()) {
            1nat
        } else {
            0nat
        }
    }
}

/// Tag term: `TAG_WEIGHT` times the number of distinct requested tags that the
/// pattern carries, divided by the number of requested tags (rounded down).
pub open spec fn tag_bonus(pattern_tags: Seq<Seq<char>>, wanted: Seq<Seq<char>>) -> nat {
    if wanted.len() == 0 {
        0
    } else {
        ((TAG_WEIGHT as nat * distinct_hits(wanted, pattern_tags)) as nat / wanted.len()) as nat
    }
}

/// Recency term: granted when the pattern was updated less than thirty days
/// before `now` (or after it).
pub open spec fn recency_bonus(updated_at: i64, now: i64) -> nat {
    if (now as int) - (updated_at as int) < RECENT_SECONDS as int {
        RECENCY_BONUS as nat
    } else {
        0
    }
}

/// The score of a pattern against criteria at time `now`.
pub open spec fn score(p: PatternModel, c: CriteriaModel, now: i64) -> nat {
    p.relevance_score as nat + popularity_bonus(p.usage_count) + query_bonus(p, c.query)
        + tag_bonus(p.tags, c.tags) + recency_bonus(p.updated_at, now)
}

pub open spec fn pow10(k: nat) -> nat
    decreases k,
{
    if k == 0 {
        1
    } else {
        10 * pow10((k - 1) as nat)
    }
}

proof fn lemma_decades_below(n: nat, k: nat)
    requires
        n < pow10(k + 1),
    ensures
        decades(n) <= k,
    decreases k,
{
    if n >= 10 {
        if k == 0 {
            assert(pow10(1) == 10) by {
                reveal_with_fuel(pow10, 2);
            }
        } else {
            let p = pow10(k);
            assert(pow10(k + 1) == 10 * p);
            assert(n / 10 < p) by (nonlinear_arith)
                requires
                    n < 10 * p,
            ;
            lemma_decades_below(n / 10, (k - 1) as nat);
        }
    }
}

proof fn lemma_pow10_add(a: nat, b: nat)
    ensures
        pow10(a + b) == pow10(a) * pow10(b),
    decreases a,
{
    if a > 0 {
        lemma_pow10_add((a - 1) as nat, b);
        assert(pow10(a + b) == 10 * pow10((a - 1 + b) as nat));
        assert(10 * (pow10((a - 1) as nat) * pow10(b)) == (10 * pow10((a - 1) as nat)) * pow10(b))
            by (nonlinear_arith);
    } else {
        assert(pow10(0) == 1);
        assert(a + b == b);
    }
}

proof fn lemma_pow10_pos(k: nat)
    ensures
        pow10(k) >= 1,
    decreases k,
{
    if k > 0 {
        lemma_pow10_pos((k - 1) as nat);
    }
}

/// A power of a number below 10^20 stays below the same power of 10^20.
proof fn lemma_power_below(n: nat, k: nat)
    requires
        n < pow10(20),
        k >= 1,
    ensures
        power(n, k) < pow10(20 * k),
    decreases k,
{
    if k == 1 {
        assert(power(n, 0) == 1);
        assert(power(n, 1) == n * power(n, 0));
        assert(20 * k == 20);
    } else {
        lemma_power_below(n, (k - 1) as nat);
        lemma_pow10_add(20, 20 * (k - 1) as nat);
        assert(20 + 20 * (k - 1) as nat == 20 * k);
        let y = power(n, (k - 1) as nat);
        let p = pow10(20);
        let q = pow10(20 * (k - 1) as nat);
        lemma_pow10_pos(20 * (k - 1) as nat);
        assert(n * y < p * q) by (nonlinear_arith)
            requires
                n < p,
                y < q,
                q >= 1,
        ;
        assert(power(n, k) == n * y);
        assert(pow10(20 * k) == p * q);
    }
}

/// The fiftieth power of a usage count spans at most 999 decades.
proof fn lemma_popularity_bound(n: u64)
    ensures
        decades(power(n as nat, 50)) <= 999,
{
    assert(pow10(20) == 100_000_000_000_000_000_000nat) by {
        reveal_with_fuel(pow10, 21);
    }
    lemma_power_below(n as nat, 50);
    lemma_decades_below(power(n as nat, 50), 999);
}

/// The popularity term of a usage count.
pub fn popularity_of(usage_count: u64) -> (r: u64)
    ensures
        r == popularity_bonus(usage_count),
        r <= 999 * POPULARITY_STEP,
{
    proof {
        lemma_popularity_bound(usage_count);
    }
    let mut x: Vec<u32> = vec![1u32];
    proof {
        assert(x@ =~= seq![1u32]);
        assert(x@.drop_last() =~= Seq::<u32>::empty());
        assert(limbs_value(Seq::<u32>::empty()) == 0);
        assert(base_pow(0) == 1);
        assert(x@.len() == 1);
        assert(x@.last() == 1u32);
        assert(limbs_value(x@) == limbs_value(x@.drop_last()) + 1 * base_pow(0));
        assert(limbs_value(x@) == 1);
        assert(power(usage_count as nat, 0) == 1);
    }
    let mut k: u64 = 0;
    while k < POPULARITY_EXPONENT
        invariant
            k <= POPULARITY_EXPONENT,
            limbs_value(x@) == power(usage_count as nat, k as nat),
        decreases POPULARITY_EXPONENT - k,
    {
        let ghost before = limbs_value(x@);
        x = mul_u64(&x, usage_count);
        proof {
            let m = usage_count as nat;
            assert(power(m, (k + 1) as nat) == m * power(m, k as nat));
            assert(before * m == m * before) by (nonlinear_arith);
        }
        k += 1;
    }
    let mut d: u64 = 0;
    while at_least_ten(&x)
        invariant
            d + decades(limbs_value(x@)) == decades(power(usage_count as nat, 50)),
            decades(power(usage_count as nat, 50)) <= 999,
        decreases limbs_value(x@),
    {
        let (q, rem) = div10(&x);
        proof {
            let v = limbs_value(x@);
            let w = limbs_value(q@);
            assert(w == v / 10) by (nonlinear_arith)
                requires
                    w * 10 + rem == v,
                    rem < 10,
            ;
        }
        x = q;
        d += 1;
    }
    POPULARITY_STEP * d
}

/// The query term over already lower-cased title, description, code and query.
pub fn query_bonus_folded(title: &str, description: &str, code: &str, query: &str) -> (r: u64)
    ensures
        r == folded_query_bonus(title@, description@, code@, query@),
        r <= TITLE_BONUS + DESCRIPTION_BONUS + CODE_BONUS,
{
    let q = chars_of(query);
    let mut r: u64 = 0;
    if contains_seq(&chars_of(title), &q) {
        r = r + TITLE_BONUS;
    }
    if contains_seq(&chars_of(description), &q) {
        r = r + DESCRIPTION_BONUS;
    }
    if contains_seq(&chars_of(code), &q) {
        r = r + CODE_BONUS;
    }
    r
}

/// Whether `s` equals one of the first `end` strings of `v`.
fn contains_string_before(v: &Vec<String>, end: usize, s: &String) -> (b: bool)
    requires
        end <= v.len(),
    ensures
        b == strings_view(v@.subrange(0, end as int)).contains(s@),
{
    let ghost pre = strings_view(v@.subrange(0, end as int));
    let mut i: usize = 0;
    while i < end
        invariant
            end <= v.len(),
            i <= end,
            pre == strings_view(v@.subrange(0, end as int)),
            forall|j: int| 0 <= j < i ==> pre[j] != s@,
        decreases end - i,
    {
        if v[i] == *s {
            assert(pre[i as int] == s@);
            return true;
        }
        i += 1;
    }
    false
}

proof fn lemma_distinct_hits_bound(wanted: Seq<Seq<char>>, have: Seq<Seq<char>>)
    ensures
        distinct_hits(wanted, have) <= wanted.len(),
    decreases wanted.len(),
{
    if wanted.len() > 0 {
        lemma_distinct_hits_bound(wanted.drop_last(), have);
    }
}

/// The tag term of a pattern's tags against the requested tags.
pub fn tag_bonus_of(pattern_tags: &Vec<String>, wanted: &Vec<String>) -> (r: u64)
    ensures
        r == tag_bonus(strings_view(pattern_tags@), strings_view(wanted@)),
        r <= TAG_WEIGHT,
{
    if wanted.len() == 0 {
        return 0;
    }
    let ghost w = strings_view(wanted@);
    let ghost h = strings_view(pattern_tags@);
    let mut hits: usize = 0;
    let mut i: usize = 0;
    while i < wanted.len()
        invariant
            i <= wanted.len(),
            w == strings_view(wanted@),
            h == strings_view(pattern_tags@),
            hits == distinct_hits(w.subrange(0, i as int), h),
            hits <= i,
        decreases wanted.len() - i,
    {
        let carried = contains_string_before(pattern_tags, pattern_tags.len(), &wanted[i]);
        let seen = contains_string_before(wanted, i, &wanted[i]);
        proof {
            let next = w.subrange(0, i + 1);
            assert(next.drop_last() =~= w.subrange(0, i as int));
            assert(next.last() == wanted@[i as int]@);
            assert(pattern_tags@.subrange(0, pattern_tags@.len() as int) =~= pattern_tags@);
            assert(strings_view(wanted@.subrange(0, i as int)) =~= w.subrange(0, i as int));
        }
        if carried && !seen {
            hits = hits + 1;
        }
        i += 1;
    }
    proof {
        assert(w.subrange(0, w.len() as int) =~= w);
        lemma_distinct_hits_bound(w, h);
        let n = wanted@.len() as nat;
        let k = hits as nat;
        assert((TAG_WEIGHT as nat * k) / n <= TAG_WEIGHT as nat) by (nonlinear_arith)
            requires
                k <= n,
                n > 0,
        ;
    }
    let r = (TAG_WEIGHT as u128 * hits as u128) / (wanted.len() as u128);
    r as u64
}

/// The recency term of an update time at time `now`.
pub fn recency_of(updated_at: i64, now: i64) -> (r: u64)
    ensures
        r == recency_bonus(updated_at, now),
        r <= RECENCY_BONUS,
{
    if (now as i128) - (updated_at as i128) < RECENT_SECONDS as i128 {
        RECENCY_BONUS
    } else {
        0
    }
}

/// The score of `pattern` against `criteria` at time `now` (seconds since
/// the Unix epoch).
pub fn score_pattern_at(pattern: &CodePattern, criteria: &SearchCriteria, now: i64) -> (r: u64)
    ensures
        r == score(pattern@, criteria@, now),
{
    let mut s: u64 = pattern.relevance_score as u64 + popularity_of(pattern.usage_count);
    match &criteria.query {
        Some(q) => {
            let query = lowercase(q.as_str());
            let title = lowercase(pattern.title.as_str());
            let description = lowercase(pattern.description.as_str());
            let code = lowercase(pattern.code.as_str());
            s = s + query_bonus_folded(
                title.as_str(),
                description.as_str(),
                code.as_str(),
                query.as_str(),
            );
        },
        None => {},
    }
    s = s + tag_bonus_of(&pattern.tags, &criteria.tags);
    s = s + recency_of(pattern.updated_at, now);
    s
}

} // verus!
