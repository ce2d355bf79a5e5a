//! Properties that hold across the library's operations, stated over the
//! models that the operations' contracts use.
use vstd::multiset::Multiset;
use vstd::prelude::*;
use crate::codec::{
    FrameMode, InboundModel, all_digits, decimal, digit_chars, digits_value, has_header_prefix,
    is_ws, length_field, line_event, next_colon, next_mode, outbound, parse_usize,
    sign_stripped, trim_end, trim_seq, trim_start,
};
use crate::ranking::{kept, passes_filters, ranked};
use crate::scoring::{
    CriteriaModel, TITLE_BONUS, recency_bonus, score, decades,
};
use crate::text::lower_of;
use crate::text::{seq_contains, seq_starts_with};
use crate::store_index::{IndexKind, lemma_positions_of, positions_of};
use crate::training::{PatternFile, file_name_for, lists_keys, models, save_layout, select, valid_pattern};
use crate::types::PatternModel;
use crate::validate::{is_framework_char, MAX_FRAMEWORK_LEN};

verus! {

/// A pattern that the store accepts has a framework tag of one to 64
/// characters, each an ASCII letter, digit, `-`, `_` or `.`, that neither
/// starts with a dot nor holds `..`; and the file it is saved to,
/// `root/<tag>-patterns.json`, is a direct child of the storage root: its name
/// is not hidden and holds no separator, colon or null byte.
pub proof fn lemma_accepted_pattern_is_safe(root: Seq<char>, p: PatternModel)
    requires
        valid_pattern(p),
    ensures
        0 < p.framework.len() <= MAX_FRAMEWORK_LEN,
        forall|i: int| 0 <= i < p.framework.len() ==> is_framework_char(#[trigger] p.framework[i]),
        p.framework[0] != '.',
        !seq_contains(p.framework, seq!['.', '.']),
        seq_starts_with(root + seq!['/'] + file_name_for(p.framework), root + seq!['/']),
        !file_name_for(p.framework).contains('/'),
        !file_name_for(p.framework).contains('\\'),
        !file_name_for(p.framework).contains(':'),
        !file_name_for(p.framework).contains('\0'),
        file_name_for(p.framework)[0] != '.',
{
    reveal_strlit("-patterns.json");
    let f = p.framework;
    let name = file_name_for(f);
    let path = root + seq!['/'] + name;
    assert(path.subrange(0, root.len() + 1int) =~= root + seq!['/']);
    assert(name[0] == f[0]);
    assert forall|c: char| !is_framework_char(c) implies !name.contains(c) by {
        if name.contains(c) {
            let k = choose|k: int| 0 <= k < name.len() && name[k] == c;
            if k < f.len() {
                assert(is_framework_char(f[k]));
            } else {
                assert(name[k] == "-patterns.json"@[k - f.len()]);
            }
        }
    }
}

/// Every entry of a search result satisfies the framework and category
/// filters of the criteria, and the scores never increase along the result.
pub proof fn lemma_search_respects_filters_and_order(
    pats: Seq<PatternModel>,
    c: CriteriaModel,
    now: i64,
    ps: Seq<(usize, u64)>,
)
    requires
        ranked(ps, pats, c, now),
    ensures
        forall|i: int|
            0 <= i < ps.len() ==> passes_filters(pats[(#[trigger] ps[i]).0 as int], c),
        forall|i: int|
            0 <= i < ps.len() && c.framework is Some ==> pats[(#[trigger] ps[i]).0 as int].framework
                == c.framework->0,
        forall|i: int|
            0 <= i < ps.len() && c.category is Some ==> pats[(#[trigger] ps[i]).0 as int].category
                == c.category->0,
        forall|i: int, j: int| 0 <= i < j < ps.len() ==> (#[trigger] ps[i]).1 >= (#[trigger] ps[j]).1,
{
    assert forall|i: int| 0 <= i < ps.len() implies passes_filters(pats[(#[trigger] ps[i]).0 as int], c) by {
        assert(kept(pats[ps[i].0 as int], c, now));
    }
}

/// A search over a store in which no pattern has the requested framework
/// returns nothing.
pub proof fn lemma_unknown_framework_finds_nothing(
    pats: Seq<PatternModel>,
    c: CriteriaModel,
    now: i64,
    ps: Seq<(usize, u64)>,
)
    requires
        ranked(ps, pats, c, now),
        c.framework is Some,
        forall|i: int| 0 <= i < pats.len() ==> (#[trigger] pats[i]).framework != c.framework->0,
    ensures
        ps.len() == 0,
{
    if ps.len() > 0 {
        assert(kept(pats[ps[0].0 as int], c, now));
    }
}

/// The framing a session is in after the lines `lines`, from framing `m`.
pub open spec fn mode_after(m: FrameMode, lines: Seq<Seq<char>>) -> FrameMode
    decreases lines.len(),
{
    if lines.len() == 0 {
        m
    } else {
        mode_after(next_mode(m, lines[0]), lines.drop_first())
    }
}

/// Once a session has seen a line that starts with `Content-Length:`, it stays
/// length-prefixed whatever lines follow, and every reply it frames starts
/// with a `Content-Length` header.
pub proof fn lemma_length_prefix_is_sticky(
    m: FrameMode,
    header: Seq<char>,
    lines: Seq<Seq<char>>,
    json: Seq<char>,
    nbytes: nat,
)
    requires
        has_header_prefix(trim_seq(header)),
    ensures
        mode_after(next_mode(m, header), lines) == FrameMode::LengthPrefixed,
        seq_starts_with(
            outbound(mode_after(next_mode(m, header), lines), json, nbytes),
            "Content-Length: "@,
        ),
    decreases lines.len(),
{
    lemma_sticky_from(lines);
    let o = outbound(FrameMode::LengthPrefixed, json, nbytes);
    let h = "Content-Length: "@;
    assert(o.subrange(0, h.len() as int) =~= h);
}

proof fn lemma_sticky_from(lines: Seq<Seq<char>>)
    ensures
        mode_after(FrameMode::LengthPrefixed, lines) == FrameMode::LengthPrefixed,
    decreases lines.len(),
{
    if lines.len() > 0 {
        lemma_sticky_from(lines.drop_first());
    }
}

proof fn lemma_decimal(n: nat)
    ensures
        decimal(n).len() > 0,
        all_digits(decimal(n)),
        digits_value(decimal(n)) == n,
    decreases n,
{
    lemma_digit_chars();
    if n < 10 {
        let d = decimal(n);
        assert(d.drop_last() =~= Seq::<char>::empty());
        assert(digits_value(d.drop_last()) == 0);
        assert(d.last() == digit_chars()[n as int]);
        assert(digits_value(d) == crate::codec::digit_value(d.last()));
    } else {
        lemma_decimal(n / 10);
        let d = decimal(n);
        assert(d.drop_last() =~= decimal(n / 10));
        assert(forall|i: int| 0 <= i < d.len() - 1 ==> d[i] == decimal(n / 10)[i]);
        assert(d.last() == digit_chars()[(n % 10) as int]);
        assert(digits_value(d) == digits_value(decimal(n / 10)) * 10 + crate::codec::digit_value(d.last()));
        assert(crate::codec::digit_value(d.last()) == n % 10);
    }
}

proof fn lemma_digit_chars()
    ensures
        forall|k: int| 0 <= k < 10 ==> crate::codec::digit_value(#[trigger] digit_chars()[k]) == k,
{
    assert(crate::codec::digit_value('0') == 0);
    assert(crate::codec::digit_value('1') == 1);
    assert(crate::codec::digit_value('2') == 2);
    assert(crate::codec::digit_value('3') == 3);
    assert(crate::codec::digit_value('4') == 4);
    assert(crate::codec::digit_value('5') == 5);
    assert(crate::codec::digit_value('6') == 6);
    assert(crate::codec::digit_value('7') == 7);
    assert(crate::codec::digit_value('8') == 8);
    assert(crate::codec::digit_value('9') == 9);
}

proof fn lemma_no_colon_to_end(t: Seq<char>, i: int)
    requires
        0 <= i <= t.len(),
        forall|k: int| i <= k < t.len() ==> t[k] != ':',
    ensures
        next_colon(t, i) == t.len(),
    decreases t.len() - i,
{
    if i < t.len() {
        lemma_no_colon_to_end(t, i + 1);
    }
}

proof fn lemma_trim_end_ws_suffix(s: Seq<char>, w: Seq<char>)
    requires
        s.len() > 0,
        !is_ws(s.last()),
        forall|k: int| 0 <= k < w.len() ==> is_ws(#[trigger] w[k]),
    ensures
        trim_end(s + w) == s,
    decreases w.len(),
{
    if w.len() == 0 {
        assert(s + w =~= s);
    } else {
        assert((s + w).drop_last() =~= s + w.drop_last());
        lemma_trim_end_ws_suffix(s, w.drop_last());
    }
}

/// Trimming a line made of a non-blank text and trailing whitespace gives
/// back the text.
proof fn lemma_trim_line(s: Seq<char>, w: Seq<char>)
    requires
        s.len() > 0,
        !is_ws(s[0]),
        !is_ws(s.last()),
        forall|k: int| 0 <= k < w.len() ==> is_ws(#[trigger] w[k]),
    ensures
        trim_seq(s + w) == s,
{
    assert((s + w)[0] == s[0]);
    assert(trim_start(s + w) == s + w);
    lemma_trim_end_ws_suffix(s, w);
}

/// A message framed with a `Content-Length` header and the same message on a
/// line of its own reach the handler alike: the header line announces exactly
/// the body's byte count and fixes length-prefixed framing, and the line
/// yields the message unchanged.
pub proof fn lemma_framings_agree(json: Seq<char>, nbytes: usize)
    requires
        json.len() > 0,
        json[0] == '{',
        !is_ws(json.last()),
    ensures
        line_event("Content-Length: "@ + decimal(nbytes as nat) + "\r\n"@) == Ok::<
            InboundModel,
            crate::codec::CodecError,
        >(InboundModel::Body(nbytes)),
        line_event(json + "\n"@) == Ok::<InboundModel, crate::codec::CodecError>(
            InboundModel::Message(json),
        ),
        forall|m: FrameMode|
            #[trigger] next_mode(m, "Content-Length: "@ + decimal(nbytes as nat) + "\r\n"@)
                == FrameMode::LengthPrefixed,
{
    reveal_strlit("Content-Length: ");
    reveal_strlit("\r\n");
    reveal_strlit("\n");
    let d = decimal(nbytes as nat);
    lemma_decimal(nbytes as nat);
    let head = "Content-Length: "@;
    let t = head + d;
    assert(t.last() == d.last());
    assert(!is_ws(d.last())) by {
        assert(crate::codec::is_digit(d[d.len() - 1]));
    }
    lemma_trim_line(t, "\r\n"@);
    assert(has_header_prefix(t));
    assert forall|k: int| 15 <= k < t.len() implies t[k] != ':' by {
        if k > 15 {
            assert(t[k] == d[k - 16]);
            assert(crate::codec::is_digit(d[k - 16]));
        }
    }
    lemma_no_colon_to_end(t, 15);
    let field = length_field(t);
    assert(field =~= seq![' '] + d);
    assert(trim_start(field) == trim_start(field.drop_first()));
    assert(field.drop_first() =~= d);
    assert(crate::codec::is_digit(d[0]));
    assert(trim_start(d) == d);
    assert(d.last() == t.last());
    lemma_trim_end_ws_suffix(d, Seq::<char>::empty());
    assert(d + Seq::<char>::empty() =~= d);
    assert(trim_seq(field) == d);
    assert(sign_stripped(d) == d);
    assert(parse_usize(d) == Some(nbytes));
    lemma_trim_line(json, "\n"@);
    assert(!has_header_prefix(json)) by {
        assert(!crate::codec::ascii_ci_eq(json[0], 'c'));
    }
}

/// The patterns of framework `k`, in store order.
pub open spec fn group(pats: Seq<PatternModel>, k: Seq<char>) -> Seq<PatternModel> {
    select(pats, positions_of(pats, IndexKind::Framework, k))
}

/// The patterns of all files, file after file, as a load reads them back.
pub open spec fn concat_files(files: Seq<PatternFile>) -> Seq<PatternModel>
    decreases files.len(),
{
    if files.len() == 0 {
        Seq::empty()
    } else {
        models(files[0].patterns@) + concat_files(files.drop_first())
    }
}

/// The multisets of the groups of the keys `ks`, added up.
pub open spec fn group_sum(ks: Seq<Seq<char>>, pats: Seq<PatternModel>) -> Multiset<PatternModel>
    decreases ks.len(),
{
    if ks.len() == 0 {
        Multiset::empty()
    } else {
        group(pats, ks[0]).to_multiset().add(group_sum(ks.drop_first(), pats))
    }
}

proof fn lemma_group_push(q: Seq<PatternModel>, p: PatternModel, k: Seq<char>)
    requires
        q.len() < usize::MAX,
    ensures
        group(q.push(p), k) == if p.framework == k {
            group(q, k).push(p)
        } else {
            group(q, k)
        },
{
    let n = q.push(p);
    assert(n.drop_last() =~= q);
    lemma_positions_of(q, IndexKind::Framework, k);
    let ps = positions_of(q, IndexKind::Framework, k);
    assert(select(n, ps) =~= select(q, ps)) by {
        assert forall|i: int| 0 <= i < ps.len() implies select(n, ps)[i] == select(q, ps)[i] by {
            assert(ps[i] < q.len());
        }
    }
    if p.framework == k {
        assert(select(n, ps.push(q.len() as usize)) =~= select(n, ps).push(p));
    }
}

proof fn lemma_group_empty(ks: Seq<Seq<char>>)
    ensures
        group_sum(ks, Seq::empty()) =~= Multiset::empty(),
    decreases ks.len(),
{
    broadcast use vstd::seq_lib::group_to_multiset_ensures, vstd::multiset::lemma_multiset_empty_len;

    if ks.len() > 0 {
        lemma_group_empty(ks.drop_first());
        let g = group(Seq::<PatternModel>::empty(), ks[0]);
        assert(g.len() == 0);
        assert(g.to_multiset().len() == 0);
    }
}

proof fn lemma_group_sum_push(ks: Seq<Seq<char>>, q: Seq<PatternModel>, p: PatternModel)
    requires
        q.len() < usize::MAX,
        ks.no_duplicates(),
    ensures
        group_sum(ks, q.push(p)) =~= if ks.contains(p.framework) {
            group_sum(ks, q).insert(p)
        } else {
            group_sum(ks, q)
        },
    decreases ks.len(),
{
    broadcast use vstd::seq_lib::group_to_multiset_ensures;

    if ks.len() > 0 {
        let rest = ks.drop_first();
        assert(rest.no_duplicates()) by {
            assert forall|i: int, j: int| 0 <= i < rest.len() && 0 <= j < rest.len() && i != j implies rest[i] != rest[j] by {
                assert(rest[i] == ks[i + 1] && rest[j] == ks[j + 1]);
            }
        }
        lemma_group_sum_push(rest, q, p);
        lemma_group_push(q, p, ks[0]);
        if ks[0] == p.framework {
            assert(!rest.contains(p.framework)) by {
                if rest.contains(p.framework) {
                    let j = choose|j: int| 0 <= j < rest.len() && rest[j] == p.framework;
                    assert(ks[j + 1] == ks[0]);
                }
            }
        } else {
            assert(ks.contains(p.framework) == rest.contains(p.framework)) by {
                if ks.contains(p.framework) {
                    let j = choose|j: int| 0 <= j < ks.len() && ks[j] == p.framework;
                    assert(rest[j - 1] == p.framework);
                }
                if rest.contains(p.framework) {
                    let j = choose|j: int| 0 <= j < rest.len() && rest[j] == p.framework;
                    assert(ks[j + 1] == p.framework);
                }
            }
        }
    }
}

proof fn lemma_group_sum_whole(ks: Seq<Seq<char>>, pats: Seq<PatternModel>)
    requires
        pats.len() <= usize::MAX,
        ks.no_duplicates(),
        forall|i: int| 0 <= i < pats.len() ==> ks.contains(#[trigger] pats[i].framework),
    ensures
        group_sum(ks, pats) =~= pats.to_multiset(),
    decreases pats.len(),
{
    broadcast use vstd::seq_lib::group_to_multiset_ensures, vstd::multiset::lemma_multiset_empty_len;

    if pats.len() == 0 {
        assert(pats =~= Seq::<PatternModel>::empty());
        lemma_group_empty(ks);
    } else {
        let q = pats.drop_last();
        let p = pats.last();
        assert(q.push(p) =~= pats);
        assert forall|i: int| 0 <= i < q.len() implies ks.contains(#[trigger] q[i].framework) by {
            assert(q[i] == pats[i]);
        }
        lemma_group_sum_whole(ks, q);
        lemma_group_sum_push(ks, q, p);
        assert(ks.contains(pats[pats.len() - 1].framework));
    }
}

proof fn lemma_concat_files(files: Seq<PatternFile>, pats: Seq<PatternModel>)
    requires
        forall|f: int|
            0 <= f < files.len() ==> models((#[trigger] files[f]).patterns@) == group(
                pats,
                files[f].framework@,
            ),
    ensures
        concat_files(files).to_multiset() =~= group_sum(
            files.map_values(|f: PatternFile| f.framework@),
            pats,
        ),
    decreases files.len(),
{
    broadcast use vstd::seq_lib::group_to_multiset_ensures, vstd::multiset::lemma_multiset_empty_len;

    let ks = files.map_values(|f: PatternFile| f.framework@);
    if files.len() > 0 {
        let rest = files.drop_first();
        assert forall|f: int| 0 <= f < rest.len() implies models((#[trigger] rest[f]).patterns@) == group(
            pats,
            rest[f].framework@,
        ) by {
            assert(rest[f] == files[f + 1]);
        }
        lemma_concat_files(rest, pats);
        assert(rest.map_values(|f: PatternFile| f.framework@) =~= ks.drop_first());
        vstd::seq_lib::lemma_multiset_commutative(models(files[0].patterns@), concat_files(rest));
    } else {
        assert(concat_files(files) =~= Seq::<PatternModel>::empty());
        assert(concat_files(files).to_multiset().len() == 0);
    }
}

/// Saving and loading back gives the same patterns: reading the files of a
/// save layout one after another yields exactly the stored patterns, each as
/// often as the store holds it (only the order may differ).
pub proof fn lemma_save_load_round_trip(files: Seq<PatternFile>, pats: Seq<PatternModel>)
    requires
        save_layout(files, pats),
        pats.len() <= usize::MAX,
    ensures
        concat_files(files).to_multiset() == pats.to_multiset(),
{
    let ks = files.map_values(|f: PatternFile| f.framework@);
    assert(lists_keys(ks, pats, IndexKind::Framework));
    assert forall|i: int| 0 <= i < pats.len() implies ks.contains(#[trigger] pats[i].framework) by {
        assert(crate::store_index::key_of(pats[i], IndexKind::Framework) == pats[i].framework);
    }
    lemma_concat_files(files, pats);
    lemma_group_sum_whole(ks, pats);
}

/// A never-used pattern whose lower-cased title, and nothing else, holds the
/// lower-cased query scores its baseline relevance plus the title bonus, plus
/// the recency bonus when it was updated in the last thirty days.
pub proof fn lemma_title_only_score(p: PatternModel, c: CriteriaModel, now: i64)
    requires
        p.usage_count == 0,
        c.query is Some,
        c.tags.len() == 0,
        seq_contains(lower_of(p.title), lower_of(c.query->0)),
        !seq_contains(lower_of(p.description), lower_of(c.query->0)),
        !seq_contains(lower_of(p.code), lower_of(c.query->0)),
    ensures
        score(p, c, now) == p.relevance_score + TITLE_BONUS + recency_bonus(p.updated_at, now),
{
    assert(decades(0) == 0);
}

} // verus!
