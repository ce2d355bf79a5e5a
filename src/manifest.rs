//! Line-based readers of project manifests: XML elements and attributes,
//! `key = value` lines, Cargo dependency sections, NuGet package references,
//! pip requirement lines and `go.mod` files.
use vstd::prelude::*;
use crate::analyzer::GenericAnalyzer;
use crate::codec::{is_ws, trim_chars, trim_seq, trim_start};
use crate::lines::{
    find_chars, find_from, lines_of, rows_view, slice_chars, split_lines, unquote, unquote_chars,
};
use crate::text::{chars_of, contains_seq, same_chars, seq_contains, seq_starts_with, starts_with_chars, string_of};
use crate::types::Dependency;

verus! {

/// The trimmed text between the first `<tag>` and the next `</tag>`.
pub open spec fn xml_value(content: Seq<char>, tag: Seq<char>) -> Option<Seq<char>> {
    let open = seq!['<'] + tag + seq!['>'];
    let close = seq!['<', '/'] + tag + seq!['>'];
    match find_from(content, open, 0) {
        Some(s) => match find_from(content, close, s + open.len()) {
            Some(e) => Some(trim_seq(content.subrange(s + open.len(), e))),
            None => None,
        },
        None => None,
    }
}

/// The text between the first `attr="` and the next double quote.
pub open spec fn xml_attr(line: Seq<char>, attr: Seq<char>) -> Option<Seq<char>> {
    let pat = attr + seq!['=', '"'];
    match find_from(line, pat, 0) {
        Some(s) => match find_from(line, seq!['"'], s + pat.len()) {
            Some(e) => Some(line.subrange(s + pat.len(), e)),
            None => None,
        },
        None => None,
    }
}

/// The value a line gives to `key`: the line, trimmed, starts with `key `
/// or `key=`, and the value is what follows its first `=`, trimmed and
/// without surrounding double quotes.
pub open spec fn toml_line_value(line: Seq<char>, key: Seq<char>) -> Option<Seq<char>> {
    let t = trim_seq(line);
    if seq_starts_with(t, key + seq![' ']) || seq_starts_with(t, key + seq!['=']) {
        match find_from(t, seq!['='], 0) {
            Some(p) => Some(unquote(trim_seq(t.subrange(p + 1, t.len() as int)))),
            None => None,
        }
    } else {
        None
    }
}

/// The value of the first of the lines `ls` that gives one to `key`.
pub open spec fn toml_value_in(ls: Seq<Seq<char>>, key: Seq<char>) -> Option<Seq<char>>
    decreases ls.len(),
{
    if ls.len() == 0 {
        None
    } else {
        match toml_line_value(ls[0], key) {
            Some(v) => Some(v),
            None => toml_value_in(ls.drop_first(), key),
        }
    }
}

/// The value of the first line of `content` that gives one to `key`.
pub open spec fn toml_value(content: Seq<char>, key: Seq<char>) -> Option<Seq<char>> {
    toml_value_in(lines_of(content), key)
}

/// A dependency as name, version and whether it is for development only.
pub type DepModel = (Seq<char>, Seq<char>, bool);

/// The values of a list of dependencies.
pub open spec fn deps_view(d: Seq<Dependency>) -> Seq<DepModel> {
    d.map_values(|x: Dependency| (x.name@, x.version@, x.dev_only))
}

/// A Cargo dependency line: the name before the first `=`, and either a
/// quoted version or the `version` of an inline table that the line's value
/// gives.
pub open spec fn cargo_dep_line(line: Seq<char>) -> Option<(Seq<char>, Seq<char>)> {
    match find_from(line, seq!['='], 0) {
        None => None,
        Some(p) => {
            let name = trim_seq(line.subrange(0, p));
            let value = trim_seq(line.subrange(p + 1, line.len() as int));
            if value.len() > 0 && value[0] == '"' {
                Some((name, unquote(value)))
            } else if value.len() > 0 && value[0] == '{' {
                match toml_value(value, "version"@) {
                    Some(v) => Some((name, v)),
                    None => None,
                }
            } else {
                None
            }
        },
    }
}

/// The dependencies that the lines `ls` declare, in the section state given
/// by `in_deps` and `in_dev`.
pub open spec fn cargo_deps_from(ls: Seq<Seq<char>>, in_deps: bool, in_dev: bool) -> Seq<DepModel>
    decreases ls.len(),
{
    if ls.len() == 0 {
        Seq::empty()
    } else {
        let t = trim_seq(ls[0]);
        let rest = ls.drop_first();
        if t == "[dependencies]"@ {
            cargo_deps_from(rest, true, false)
        } else if t == "[dev-dependencies]"@ {
            cargo_deps_from(rest, false, true)
        } else if t.len() > 0 && t[0] == '[' {
            cargo_deps_from(rest, false, false)
        } else if (in_deps || in_dev) && t.len() > 0 && t[0] != '#' && cargo_dep_line(t) is Some {
            let nv = cargo_dep_line(t)->0;
            seq![(nv.0, nv.1, in_dev)] + cargo_deps_from(
                rest,
                in_deps,
                in_dev,
            )
        } else {
            cargo_deps_from(rest, in_deps, in_dev)
        }
    }
}

/// The NuGet package references of the lines `ls`.
pub open spec fn nuget_from(ls: Seq<Seq<char>>) -> Seq<DepModel>
    decreases ls.len(),
{
    if ls.len() == 0 {
        Seq::empty()
    } else {
        let l = ls[0];
        let here = if seq_contains(l, "PackageReference"@) && xml_attr(l, "Include"@) is Some {
            seq![
                (
                    xml_attr(l, "Include"@)->0,
                    match xml_attr(l, "Version"@) {
                        Some(v) => v,
                        None => "*"@,
                    },
                    false,
                ),
            ]
        } else {
            Seq::empty()
        };
        here + nuget_from(ls.drop_first())
    }
}

/// A requirement line split at its first `==`, else at its first `>=`,
/// else the whole line with version `*`.
pub open spec fn requirement(t: Seq<char>) -> DepModel {
    match find_from(t, "=="@, 0) {
        Some(p) => (t.subrange(0, p), t.subrange(p + 2, t.len() as int), false),
        None => match find_from(t, ">="@, 0) {
            Some(p) => (t.subrange(0, p), t.subrange(p + 2, t.len() as int), false),
            None => (t, "*"@, false),
        },
    }
}

/// The requirements of the lines `ls`, blank lines and comments left out.
pub open spec fn requirements_from(ls: Seq<Seq<char>>) -> Seq<DepModel>
    decreases ls.len(),
{
    if ls.len() == 0 {
        Seq::empty()
    } else {
        let t = trim_seq(ls[0]);
        if t.len() == 0 || t[0] == '#' {
            requirements_from(ls.drop_first())
        } else {
            seq![requirement(t)] + requirements_from(ls.drop_first())
        }
    }
}

/// The first whitespace position at or after `i`, or the length.
pub open spec fn word_end(t: Seq<char>, i: int) -> int
    decreases t.len() - i,
{
    if i >= t.len() {
        t.len() as int
    } else if is_ws(t[i]) {
        i
    } else {
        word_end(t, i + 1)
    }
}

/// The first two whitespace-separated words of a trimmed line, if it has two.
pub open spec fn two_words(t: Seq<char>) -> Option<(Seq<char>, Seq<char>)> {
    let e = word_end(t, 0);
    if e < 0 || e > t.len() {
        None
    } else {
        let r = trim_start(t.subrange(e, t.len() as int));
        if r.len() == 0 {
            None
        } else {
            let f = word_end(r, 0);
            if f < 0 || f > r.len() {
                None
            } else {
                Some((t.subrange(0, e), r.subrange(0, f)))
            }
        }
    }
}

/// The modules that the `require ( ... )` blocks of the lines `ls` list.
pub open spec fn go_deps_from(ls: Seq<Seq<char>>, in_require: bool) -> Seq<DepModel>
    decreases ls.len(),
{
    if ls.len() == 0 {
        Seq::empty()
    } else {
        let t = trim_seq(ls[0]);
        let rest = ls.drop_first();
        if t == "require ("@ {
            go_deps_from(rest, true)
        } else if t == ")"@ {
            go_deps_from(rest, false)
        } else if in_require && t.len() > 0 && !seq_starts_with(t, "//"@) && two_words(t) is Some {
            let w = two_words(t)->0;
            seq![(w.0, w.1, false)] + go_deps_from(rest, in_require)
        } else {
            go_deps_from(rest, in_require)
        }
    }
}

/// What follows `prefix`, trimmed, on the first line that starts with it.
pub open spec fn after_prefix(ls: Seq<Seq<char>>, prefix: Seq<char>) -> Option<Seq<char>>
    decreases ls.len(),
{
    if ls.len() == 0 {
        None
    } else if seq_starts_with(ls[0], prefix) {
        Some(trim_seq(ls[0].subrange(prefix.len() as int, ls[0].len() as int)))
    } else {
        after_prefix(ls.drop_first(), prefix)
    }
}

proof fn lemma_find_bounds(hay: Seq<char>, needle: Seq<char>, i: int)
    requires
        0 <= i,
    ensures
        find_from(hay, needle, i) is Some ==> i <= find_from(hay, needle, i)->0 && find_from(
            hay,
            needle,
            i,
        )->0 + needle.len() <= hay.len(),
    decreases hay.len() - i,
{
    if i + needle.len() <= hay.len() && !crate::text::occurs_at(hay, needle, i) && i < hay.len() {
        lemma_find_bounds(hay, needle, i + 1);
    }
}

fn xml_value_chars(content: &Vec<char>, tag: &Vec<char>) -> (r: Option<Vec<char>>)
    ensures
        match r {
            Some(v) => xml_value(content@, tag@) == Some(v@),
            None => xml_value(content@, tag@) is None,
        },
{
    let mut open: Vec<char> = vec!['<'];
    let mut close: Vec<char> = vec!['<', '/'];
    let mut k: usize = 0;
    while k < tag.len()
        invariant
            k <= tag@.len(),
            open@ == seq!['<'] + tag@.subrange(0, k as int),
            close@ == seq!['<', '/'] + tag@.subrange(0, k as int),
        decreases tag@.len() - k,
    {
        open.push(tag[k]);
        close.push(tag[k]);
        proof {
            assert(tag@.subrange(0, k + 1) =~= tag@.subrange(0, k as int).push(tag@[k as int]));
            assert(open@ =~= seq!['<'] + tag@.subrange(0, k + 1));
            assert(close@ =~= seq!['<', '/'] + tag@.subrange(0, k + 1));
        }
        k += 1;
    }
    open.push('>');
    close.push('>');
    proof {
        assert(tag@.subrange(0, tag@.len() as int) =~= tag@);
        assert(open@ =~= seq!['<'] + tag@ + seq!['>']);
        assert(close@ =~= seq!['<', '/'] + tag@ + seq!['>']);
    }
    match find_chars(content, &open, 0) {
        None => None,
        Some(s) => {
            proof {
                lemma_find_bounds(content@, open@, 0);
                assert(s + open@.len() <= content@.len());
            }
            let _n = content.len();
            let vs = s + open.len();
            match find_chars(content, &close, vs) {
                None => None,
                Some(e) => {
                    proof {
                        lemma_find_bounds(content@, close@, vs as int);
                    }
                    Some(trim_chars(&slice_chars(content, vs, e)))
                },
            }
        },
    }
}

fn xml_attr_chars(line: &Vec<char>, attr: &Vec<char>) -> (r: Option<Vec<char>>)
    ensures
        match r {
            Some(v) => xml_attr(line@, attr@) == Some(v@),
            None => xml_attr(line@, attr@) is None,
        },
{
    let mut pat: Vec<char> = Vec::new();
    let mut k: usize = 0;
    while k < attr.len()
        invariant
            k <= attr@.len(),
            pat@ == attr@.subrange(0, k as int),
        decreases attr@.len() - k,
    {
        pat.push(attr[k]);
        proof {
            assert(attr@.subrange(0, k + 1) =~= attr@.subrange(0, k as int).push(attr@[k as int]));
        }
        k += 1;
    }
    pat.push('=');
    pat.push('"');
    proof {
        assert(attr@.subrange(0, attr@.len() as int) =~= attr@);
        assert(pat@ =~= attr@ + seq!['=', '"']);
    }
    let quote: Vec<char> = vec!['"'];
    assert(quote@ =~= seq!['"']);
    match find_chars(line, &pat, 0) {
        None => None,
        Some(s) => {
            proof {
                lemma_find_bounds(line@, pat@, 0);
                assert(s + pat@.len() <= line@.len());
            }
            let _n = line.len();
            let vs = s + pat.len();
            match find_chars(line, &quote, vs) {
                None => None,
                Some(e) => {
                    proof {
                        lemma_find_bounds(line@, quote@, vs as int);
                    }
                    Some(slice_chars(line, vs, e))
                },
            }
        },
    }
}

fn toml_line_value_chars(line: &Vec<char>, key: &Vec<char>) -> (r: Option<Vec<char>>)
    ensures
        match r {
            Some(v) => toml_line_value(line@, key@) == Some(v@),
            None => toml_line_value(line@, key@) is None,
        },
{
    let t = trim_chars(line);
    let mut with_space = slice_chars(key, 0, key.len());
    let mut with_eq = slice_chars(key, 0, key.len());
    proof {
        assert(key@.subrange(0, key@.len() as int) =~= key@);
    }
    with_space.push(' ');
    with_eq.push('=');
    assert(with_space@ =~= key@ + seq![' ']);
    assert(with_eq@ =~= key@ + seq!['=']);
    if starts_with_chars(&t, &with_space) || starts_with_chars(&t, &with_eq) {
        let eq: Vec<char> = vec!['='];
        assert(eq@ =~= seq!['=']);
        match find_chars(&t, &eq, 0) {
            Some(p) => {
                proof {
                    lemma_find_bounds(t@, eq@, 0);
                    assert(p + 1 <= t@.len());
                }
                let _n = t.len();
                let rest = slice_chars(&t, p + 1, t.len());
                Some(unquote_chars(&trim_chars(&rest)))
            },
            None => None,
        }
    } else {
        None
    }
}

fn toml_value_chars(content: &Vec<char>, key: &Vec<char>) -> (r: Option<Vec<char>>)
    ensures
        match r {
            Some(v) => toml_value(content@, key@) == Some(v@),
            None => toml_value(content@, key@) is None,
        },
{
    let ls = split_lines(content);
    let ghost all = rows_view(ls@);
    let mut i: usize = 0;
    assert(all.subrange(0, all.len() as int) =~= all);
    while i < ls.len()
        invariant
            i <= ls@.len(),
            all == rows_view(ls@),
            all == lines_of(content@),
            toml_value_in(all.subrange(i as int, all.len() as int), key@) == toml_value(content@, key@),
        decreases ls@.len() - i,
    {
        proof {
            let rest = all.subrange(i as int, all.len() as int);
            assert(rest[0] == ls@[i as int]@);
            assert(rest.drop_first() =~= all.subrange(i + 1, all.len() as int));
        }
        match toml_line_value_chars(&ls[i], key) {
            Some(v) => {
                return Some(v);
            },
            None => {},
        }
        i += 1;
    }
    None
}

fn lit(s: &str) -> (r: Vec<char>)
    ensures
        r@ == s@,
{
    chars_of(s)
}

fn cargo_dep_line_chars(line: &Vec<char>) -> (r: Option<(Vec<char>, Vec<char>)>)
    ensures
        match r {
            Some((n, v)) => cargo_dep_line(line@) == Some((n@, v@)),
            None => cargo_dep_line(line@) is None,
        },
{
    let eq: Vec<char> = vec!['='];
    assert(eq@ =~= seq!['=']);
    match find_chars(line, &eq, 0) {
        None => None,
        Some(p) => {
            proof {
                lemma_find_bounds(line@, eq@, 0);
                assert(p + 1 <= line@.len());
            }
            let _n = line.len();
            let name = trim_chars(&slice_chars(line, 0, p));
            let value = trim_chars(&slice_chars(line, p + 1, line.len()));
            if value.len() > 0 && value[0] == '"' {
                Some((name, unquote_chars(&value)))
            } else if value.len() > 0 && value[0] == '{' {
                match toml_value_chars(&value, &lit("version")) {
                    Some(v) => Some((name, v)),
                    None => None,
                }
            } else {
                None
            }
        },
    }
}

fn dependency(name: &Vec<char>, version: &Vec<char>, dev_only: bool) -> (r: Dependency)
    ensures
        r.name@ == name@,
        r.version@ == version@,
        r.dev_only == dev_only,
{
    Dependency { name: string_of(name), version: string_of(version), dev_only }
}

fn push_dep(out: &mut Vec<Dependency>, d: Dependency)
    ensures
        deps_view(final(out)@) == deps_view(old(out)@) + seq![(d.name@, d.version@, d.dev_only)],
{
    out.push(d);
    assert(deps_view(out@) =~= deps_view(old(out)@) + seq![(d.name@, d.version@, d.dev_only)]);
}

impl GenericAnalyzer {
    /// The trimmed text of the first `<tag>...</tag>` element of `content`.
    pub fn extract_xml_value(content: &str, tag: &str) -> (r: Option<String>)
        ensures
            match r {
                Some(v) => xml_value(content@, tag@) == Some(v@),
                None => xml_value(content@, tag@) is None,
            },
    {
        match xml_value_chars(&chars_of(content), &chars_of(tag)) {
            Some(v) => Some(string_of(&v)),
            None => None,
        }
    }

    /// The value of the first `attr="..."` of `line`.
    pub fn extract_xml_attr(line: &str, attr: &str) -> (r: Option<String>)
        ensures
            match r {
                Some(v) => xml_attr(line@, attr@) == Some(v@),
                None => xml_attr(line@, attr@) is None,
            },
    {
        match xml_attr_chars(&chars_of(line), &chars_of(attr)) {
            Some(v) => Some(string_of(&v)),
            None => None,
        }
    }

    /// The value of the first `key = value` line of `content`.
    pub fn extract_toml_value(content: &str, key: &str) -> (r: Option<String>)
        ensures
            match r {
                Some(v) => toml_value(content@, key@) == Some(v@),
                None => toml_value(content@, key@) is None,
            },
    {
        match toml_value_chars(&chars_of(content), &chars_of(key)) {
            Some(v) => Some(string_of(&v)),
            None => None,
        }
    }

    /// The name and version that one Cargo dependency line declares.
    pub fn parse_cargo_dep_line(line: &str) -> (r: Option<(String, String)>)
        ensures
            match r {
                Some((n, v)) => cargo_dep_line(line@) == Some((n@, v@)),
                None => cargo_dep_line(line@) is None,
            },
    {
        match cargo_dep_line_chars(&chars_of(line)) {
            Some((n, v)) => Some((string_of(&n), string_of(&v))),
            None => None,
        }
    }

    /// The dependencies of the `[dependencies]` and `[dev-dependencies]`
    /// sections of a `Cargo.toml`.
    pub fn parse_cargo_dependencies(content: &str) -> (r: Vec<Dependency>)
        ensures
            deps_view(r@) == cargo_deps_from(lines_of(content@), false, false),
    {
        let ls = split_lines(&chars_of(content));
        let ghost all = rows_view(ls@);
        let deps_header = lit("[dependencies]");
        let dev_header = lit("[dev-dependencies]");
        let mut out: Vec<Dependency> = Vec::new();
        let mut in_deps = false;
        let mut in_dev = false;
        let mut i: usize = 0;
        proof {
            assert(all.subrange(0, all.len() as int) =~= all);
            assert(deps_view(out@) =~= Seq::<DepModel>::empty());
        }
        while i < ls.len()
            invariant
                i <= ls@.len(),
                all == rows_view(ls@),
                all == lines_of(content@),
                deps_header@ == "[dependencies]"@,
                dev_header@ == "[dev-dependencies]"@,
                deps_view(out@) + cargo_deps_from(all.subrange(i as int, all.len() as int), in_deps, in_dev)
                    == cargo_deps_from(all, false, false),
            decreases ls@.len() - i,
        {
            let ghost rest = all.subrange(i as int, all.len() as int);
            proof {
                assert(rest[0] == ls@[i as int]@);
                assert(rest.drop_first() =~= all.subrange(i + 1, all.len() as int));
            }
            let ghost before = deps_view(out@);
            let t = trim_chars(&ls[i]);
            if same_chars(&t, &deps_header) {
                in_deps = true;
                in_dev = false;
            } else if same_chars(&t, &dev_header) {
                in_deps = false;
                in_dev = true;
            } else if t.len() > 0 && t[0] == '[' {
                in_deps = false;
                in_dev = false;
            } else if (in_deps || in_dev) && t.len() > 0 && t[0] != '#' {
                match cargo_dep_line_chars(&t) {
                    Some((n, v)) => {
                        let d = dependency(&n, &v, in_dev);
                        push_dep(&mut out, d);
                        proof {
                            assert(deps_view(out@) + cargo_deps_from(all.subrange(i + 1, all.len() as int), in_deps, in_dev)
                                =~= before + (seq![(n@, v@, in_dev)] + cargo_deps_from(all.subrange(i + 1, all.len() as int), in_deps, in_dev)));
                        }
                    },
                    None => {},
                }
            }
            i += 1;
        }
        proof {
            assert(all.subrange(all.len() as int, all.len() as int) =~= Seq::<Seq<char>>::empty());
            assert(deps_view(out@) + Seq::<DepModel>::empty() =~= deps_view(out@));
        }
        out
    }

    /// The `PackageReference` lines of a project file, each with its
    /// `Include` name and its `Version` (`*` when absent).
    pub fn parse_nuget_packages(content: &str) -> (r: Vec<Dependency>)
        ensures
            deps_view(r@) == nuget_from(lines_of(content@)),
    {
        let ls = split_lines(&chars_of(content));
        let ghost all = rows_view(ls@);
        let marker = lit("PackageReference");
        let name_attr = lit("Include");
        let version = lit("Version");
        let mut out: Vec<Dependency> = Vec::new();
        let mut i: usize = 0;
        proof {
            assert(all.subrange(0, all.len() as int) =~= all);
            assert(deps_view(out@) =~= Seq::<DepModel>::empty());
        }
        while i < ls.len()
            invariant
                i <= ls@.len(),
                all == rows_view(ls@),
                all == lines_of(content@),
                marker@ == "PackageReference"@,
                name_attr@ == "Include"@,
                version@ == "Version"@,
                deps_view(out@) + nuget_from(all.subrange(i as int, all.len() as int)) == nuget_from(all),
            decreases ls@.len() - i,
        {
            let ghost rest = all.subrange(i as int, all.len() as int);
            proof {
                assert(rest[0] == ls@[i as int]@);
                assert(rest.drop_first() =~= all.subrange(i + 1, all.len() as int));
            }
            let ghost before = deps_view(out@);
            let line = &ls[i];
            if contains_seq(line, &marker) {
                match xml_attr_chars(line, &name_attr) {
                    Some(n) => {
                        let v = match xml_attr_chars(line, &version) {
                            Some(v) => v,
                            None => {
                                let star: Vec<char> = vec!['*'];
                                proof {
                                    reveal_strlit("*");
                                    assert(star@ =~= "*"@);
                                }
                                star
                            },
                        };
                        let d = dependency(&n, &v, false);
                        push_dep(&mut out, d);
                        proof {
                            assert(deps_view(out@) + nuget_from(all.subrange(i + 1, all.len() as int))
                                =~= before + (seq![(n@, v@, false)] + nuget_from(all.subrange(i + 1, all.len() as int))));
                        }
                    },
                    None => {
                        assert(deps_view(out@) + nuget_from(all.subrange(i + 1, all.len() as int))
                            =~= before + (Seq::<DepModel>::empty() + nuget_from(all.subrange(i + 1, all.len() as int))));
                    },
                }
            } else {
                assert(deps_view(out@) + nuget_from(all.subrange(i + 1, all.len() as int))
                    =~= before + (Seq::<DepModel>::empty() + nuget_from(all.subrange(i + 1, all.len() as int))));
            }
            i += 1;
        }
        proof {
            assert(all.subrange(all.len() as int, all.len() as int) =~= Seq::<Seq<char>>::empty());
            assert(deps_view(out@) + Seq::<DepModel>::empty() =~= deps_view(out@));
        }
        out
    }
}

fn requirement_chars(t: &Vec<char>) -> (r: Dependency)
    ensures
        (r.name@, r.version@, r.dev_only) == requirement(t@),
{
    let _n = t.len();
    let pin = lit("==");
    match find_chars(t, &pin, 0) {
        Some(p) => {
            proof {
                lemma_find_bounds(t@, pin@, 0);
                reveal_strlit("==");
            }
            return dependency(&slice_chars(t, 0, p), &slice_chars(t, p + 2, t.len()), false);
        },
        None => {},
    }
    let at_least = lit(">=");
    match find_chars(t, &at_least, 0) {
        Some(p) => {
            proof {
                lemma_find_bounds(t@, at_least@, 0);
                reveal_strlit(">=");
            }
            dependency(&slice_chars(t, 0, p), &slice_chars(t, p + 2, t.len()), false)
        },
        None => dependency(t, &lit("*"), false),
    }
}

/// The first whitespace position at or after `i` in `t`.
fn word_end_exec(t: &Vec<char>, i: usize) -> (r: usize)
    requires
        i <= t@.len(),
    ensures
        r == word_end(t@, i as int),
        i <= r <= t@.len(),
{
    let mut k: usize = i;
    while k < t.len() && !crate::codec::is_ws_char(t[k])
        invariant
            i <= k <= t@.len(),
            word_end(t@, i as int) == word_end(t@, k as int),
        decreases t@.len() - k,
    {
        k += 1;
    }
    k
}

fn two_words_chars(t: &Vec<char>) -> (r: Option<(Vec<char>, Vec<char>)>)
    ensures
        match r {
            Some((a, b)) => two_words(t@) == Some((a@, b@)),
            None => two_words(t@) is None,
        },
{
    let e = word_end_exec(t, 0);
    let rest = crate::codec::trim_start_chars(&slice_chars(t, e, t.len()));
    if rest.len() == 0 {
        return None;
    }
    let f = word_end_exec(&rest, 0);
    Some((slice_chars(t, 0, e), slice_chars(&rest, 0, f)))
}

impl GenericAnalyzer {
    /// The requirements of a `requirements.txt`: one per line that is
    /// neither blank nor a comment, split at `==` or `>=`.
    pub fn parse_requirements(content: &str) -> (r: Vec<Dependency>)
        ensures
            deps_view(r@) == requirements_from(lines_of(content@)),
    {
        let ls = split_lines(&chars_of(content));
        let ghost all = rows_view(ls@);
        let mut out: Vec<Dependency> = Vec::new();
        let mut i: usize = 0;
        proof {
            assert(all.subrange(0, all.len() as int) =~= all);
            assert(deps_view(out@) =~= Seq::<DepModel>::empty());
        }
        while i < ls.len()
            invariant
                i <= ls@.len(),
                all == rows_view(ls@),
                deps_view(out@) + requirements_from(all.subrange(i as int, all.len() as int)) == requirements_from(all),
            decreases ls@.len() - i,
        {
            let ghost rest = all.subrange(i as int, all.len() as int);
            proof {
                assert(rest[0] == ls@[i as int]@);
                assert(rest.drop_first() =~= all.subrange(i + 1, all.len() as int));
            }
            let ghost before = deps_view(out@);
            let t = trim_chars(&ls[i]);
            if t.len() > 0 && t[0] != '#' {
                let d = requirement_chars(&t);
                push_dep(&mut out, d);
                proof {
                    assert(deps_view(out@) + requirements_from(all.subrange(i + 1, all.len() as int))
                        =~= before + (seq![requirement(t@)] + requirements_from(all.subrange(i + 1, all.len() as int))));
                }
            }
            i += 1;
        }
        proof {
            assert(all.subrange(all.len() as int, all.len() as int) =~= Seq::<Seq<char>>::empty());
            assert(deps_view(out@) + Seq::<DepModel>::empty() =~= deps_view(out@));
        }
        out
    }

    /// A `go.mod` file's module name (`Unknown` when there is none), its Go
    /// version, and the modules of its `require ( ... )` blocks.
    pub fn parse_go_mod(content: &str) -> (r: (String, Option<String>, Vec<Dependency>))
        ensures
            r.0@ == match after_prefix(lines_of(content@), "module "@) {
                Some(n) => n,
                None => "Unknown"@,
            },
            match r.1 {
                Some(v) => after_prefix(lines_of(content@), "go "@) == Some(v@),
                None => after_prefix(lines_of(content@), "go "@) is None,
            },
            deps_view(r.2@) == go_deps_from(lines_of(content@), false),
    {
        let ls = split_lines(&chars_of(content));
        let ghost all = rows_view(ls@);
        let name = match first_after_prefix(&ls, &lit("module ")) {
            Some(n) => string_of(&n),
            None => String::from_str("Unknown"),
        };
        let version = match first_after_prefix(&ls, &lit("go ")) {
            Some(v) => Some(string_of(&v)),
            None => None,
        };
        let open = lit("require (");
        let close = lit(")");
        let comment = lit("//");
        let mut out: Vec<Dependency> = Vec::new();
        let mut in_require = false;
        let mut i: usize = 0;
        proof {
            assert(all.subrange(0, all.len() as int) =~= all);
            assert(deps_view(out@) =~= Seq::<DepModel>::empty());
        }
        while i < ls.len()
            invariant
                i <= ls@.len(),
                all == rows_view(ls@),
                open@ == "require ("@,
                close@ == ")"@,
                comment@ == "//"@,
                deps_view(out@) + go_deps_from(all.subrange(i as int, all.len() as int), in_require) == go_deps_from(all, false),
            decreases ls@.len() - i,
        {
            let ghost rest = all.subrange(i as int, all.len() as int);
            proof {
                assert(rest[0] == ls@[i as int]@);
                assert(rest.drop_first() =~= all.subrange(i + 1, all.len() as int));
            }
            let ghost before = deps_view(out@);
            let t = trim_chars(&ls[i]);
            if same_chars(&t, &open) {
                in_require = true;
            } else if same_chars(&t, &close) {
                in_require = false;
            } else if in_require && t.len() > 0 && !starts_with_chars(&t, &comment) {
                match two_words_chars(&t) {
                    Some((a, b)) => {
                        let d = dependency(&a, &b, false);
                        push_dep(&mut out, d);
                        proof {
                            assert(deps_view(out@) + go_deps_from(all.subrange(i + 1, all.len() as int), in_require)
                                =~= before + (seq![(a@, b@, false)] + go_deps_from(all.subrange(i + 1, all.len() as int), in_require)));
                        }
                    },
                    None => {},
                }
            }
            i += 1;
        }
        proof {
            assert(all.subrange(all.len() as int, all.len() as int) =~= Seq::<Seq<char>>::empty());
            assert(deps_view(out@) + Seq::<DepModel>::empty() =~= deps_view(out@));
        }
        (name, version, out)
    }

    /// The entry point and build command of a PHP project of framework
    /// `framework`.
    pub fn php_entry_point(framework: Option<&str>) -> (r: (String, String))
        ensures
            (r.0@, r.1@) == php_entry(match framework {
                Some(f) => Some(f@),
                None => None,
            }),
    {
        let laravel = match framework {
            Some(f) => String::from_str(f) == String::from_str("laravel"),
            None => false,
        };
        let symfony = match framework {
            Some(f) => String::from_str(f) == String::from_str("symfony"),
            None => false,
        };
        if laravel {
            (String::from_str("public/index.php"), String::from_str("php artisan serve"))
        } else if symfony {
            (String::from_str("public/index.php"), String::from_str("symfony server:start"))
        } else {
            (String::from_str("index.php"), String::from_str("php -S localhost:8000"))
        }
    }
}

/// The entry point and build command of a PHP project by framework.
pub open spec fn php_entry(framework: Option<Seq<char>>) -> (Seq<char>, Seq<char>) {
    if framework == Some("laravel"@) {
        ("public/index.php"@, "php artisan serve"@)
    } else if framework == Some("symfony"@) {
        ("public/index.php"@, "symfony server:start"@)
    } else {
        ("index.php"@, "php -S localhost:8000"@)
    }
}

/// What follows `prefix`, trimmed, on the first of the lines that starts with it.
fn first_after_prefix(ls: &Vec<Vec<char>>, prefix: &Vec<char>) -> (r: Option<Vec<char>>)
    ensures
        match r {
            Some(v) => after_prefix(rows_view(ls@), prefix@) == Some(v@),
            None => after_prefix(rows_view(ls@), prefix@) is None,
        },
{
    let ghost all = rows_view(ls@);
    let mut i: usize = 0;
    assert(all.subrange(0, all.len() as int) =~= all);
    while i < ls.len()
        invariant
            i <= ls@.len(),
            all == rows_view(ls@),
            after_prefix(all.subrange(i as int, all.len() as int), prefix@) == after_prefix(all, prefix@),
        decreases ls@.len() - i,
    {
        let ghost rest = all.subrange(i as int, all.len() as int);
        proof {
            assert(rest[0] == ls@[i as int]@);
            assert(rest.drop_first() =~= all.subrange(i + 1, all.len() as int));
        }
        let line = &ls[i];
        if starts_with_chars(line, prefix) {
            let _n = line.len();
            return Some(trim_chars(&slice_chars(line, prefix.len(), line.len())));
        }
        i += 1;
    }
    None
}

} // verus!
