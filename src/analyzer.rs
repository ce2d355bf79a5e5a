//! Decisions of the project analyzers that need no file access: the PHP
//! framework a project uses, and the summary of a project of unknown type.
use vstd::prelude::*;
use crate::context::{dep_named, has_dep_named};
use crate::detector::names_view;
use crate::text::{chars_of, seq_starts_with, starts_with_chars};
use crate::types::{Dependency, ProjectMetadata};

verus! {

/// The reader of .NET project files; it keeps the directory patterns to skip.
pub struct ProjectAnalyzer {
    pub ignore_patterns: Vec<String>,
}

impl ProjectAnalyzer {
    /// An analyzer that skips `ignore_patterns`.
    pub fn new(ignore_patterns: Vec<String>) -> (r: ProjectAnalyzer)
        ensures
            r.ignore_patterns == ignore_patterns,
    {
        ProjectAnalyzer { ignore_patterns }
    }
}

/// The analyzer for projects of any ecosystem.
pub struct GenericAnalyzer;

/// Some dependency name starts with `prefix`.
pub open spec fn dep_prefixed(deps: Seq<Dependency>, prefix: Seq<char>) -> bool {
    exists|i: int| 0 <= i < deps.len() && seq_starts_with(#[trigger] deps[i].name@, prefix)
}

/// The PHP framework of a project from its dependencies and the names at the
/// top of its directory, checked in a fixed order.
pub open spec fn php_framework(d: Seq<Dependency>, entries: Seq<Seq<char>>) -> Option<Seq<char>> {
    if dep_named(d, "laravel/framework"@) || entries.contains("artisan"@) {
        Some("laravel"@)
    } else if dep_prefixed(d, "symfony/"@) && dep_named(d, "symfony/framework-bundle"@) {
        Some("symfony"@)
    } else if entries.contains("wp-config.php"@) || entries.contains("wp-content"@) {
        Some("wordpress"@)
    } else if dep_named(d, "codeigniter4/framework"@) {
        Some("codeigniter"@)
    } else if dep_prefixed(d, "yiisoft/"@) {
        Some("yii"@)
    } else if dep_named(d, "cakephp/cakephp"@) {
        Some("cakephp"@)
    } else if dep_named(d, "slim/slim"@) {
        Some("slim"@)
    } else if dep_named(d, "drupal/core"@) {
        Some("drupal"@)
    } else {
        None
    }
}

fn has_dep_prefixed(deps: &Vec<Dependency>, prefix: &str) -> (b: bool)
    ensures
        b == dep_prefixed(deps@, prefix@),
{
    let p = chars_of(prefix);
    let mut i: usize = 0;
    while i < deps.len()
        invariant
            i <= deps@.len(),
            p@ == prefix@,
            forall|k: int| 0 <= k < i ==> !seq_starts_with(#[trigger] deps@[k].name@, prefix@),
        decreases deps@.len() - i,
    {
        if starts_with_chars(&chars_of(deps[i].name.as_str()), &p) {
            return true;
        }
        i += 1;
    }
    false
}

fn has_name(entries: &Vec<String>, n: &str) -> (b: bool)
    ensures
        b == names_view(entries@).contains(n@),
{
    let target = String::from_str(n);
    let mut i: usize = 0;
    while i < entries.len()
        invariant
            i <= entries@.len(),
            target@ == n@,
            forall|k: int| 0 <= k < i ==> names_view(entries@)[k] != n@,
        decreases entries@.len() - i,
    {
        if entries[i] == target {
            assert(names_view(entries@)[i as int] == n@);
            return true;
        }
        i += 1;
    }
    false
}

fn some_text(s: &str) -> (r: Option<String>)
    ensures
        r is Some && r->0@ == s@,
{
    Some(String::from_str(s))
}

impl GenericAnalyzer {
    /// The PHP framework of a project whose top directory holds `entries`.
    pub fn detect_php_framework(dependencies: &Vec<Dependency>, entries: &Vec<String>) -> (r: Option<String>)
        ensures
            match r {
                Some(f) => php_framework(dependencies@, names_view(entries@)) == Some(f@),
                None => php_framework(dependencies@, names_view(entries@)) is None,
            },
    {
        let d = dependencies;
        if has_dep_named(d, "laravel/framework") || has_name(entries, "artisan") {
            some_text("laravel")
        } else if has_dep_prefixed(d, "symfony/") && has_dep_named(d, "symfony/framework-bundle") {
            some_text("symfony")
        } else if has_name(entries, "wp-config.php") || has_name(entries, "wp-content") {
            some_text("wordpress")
        } else if has_dep_named(d, "codeigniter4/framework") {
            some_text("codeigniter")
        } else if has_dep_prefixed(d, "yiisoft/") {
            some_text("yii")
        } else if has_dep_named(d, "cakephp/cakephp") {
            some_text("cakephp")
        } else if has_dep_named(d, "slim/slim") {
            some_text("slim")
        } else if has_dep_named(d, "drupal/core") {
            some_text("drupal")
        } else {
            None
        }
    }

    /// The summary of a project of unknown type: named after its directory
    /// (`Unknown` when the directory has no usable name), no version, no
    /// dependencies, no metadata.
    pub fn parse_unknown_project(dir_name: Option<String>) -> (r: (String, Option<String>, Vec<Dependency>, ProjectMetadata))
        ensures
            r.0@ == match dir_name {
                Some(n) => n@,
                None => "Unknown"@,
            },
            r.1 is None,
            r.2@.len() == 0,
            r.3.extra@.len() == 0,
    {
        let name = match dir_name {
            Some(n) => n,
            None => String::from_str("Unknown"),
        };
        (name, None, Vec::new(), ProjectMetadata::empty())
    }
}

/// Each key of the extra metadata occurs once.
pub open spec fn extra_keys_unique(extra: Seq<(String, String)>) -> bool {
    forall|i: int, j: int| 0 <= i < j < extra.len() ==> (#[trigger] extra[i]).0@ != (#[trigger] extra[j]).0@
}

impl ProjectMetadata {
    /// The extra metadata holds each key once.
    pub open spec fn wf(&self) -> bool {
        extra_keys_unique(self.extra@)
    }

    /// Records `value` under `key` in the extra metadata: in place of the
    /// entry that holds the key, or as a new last entry.
    pub fn set_extra(&mut self, key: &str, value: String)
        ensures
            old(self).wf() ==> final(self).wf(),
            final(self).target_framework == old(self).target_framework,
            final(self).entry_point == old(self).entry_point,
            final(self).build_command == old(self).build_command,
            final(self).rust_edition == old(self).rust_edition,
            final(self).node_version == old(self).node_version,
            final(self).python_version == old(self).python_version,
            ({
                let o = old(self).extra@;
                let f = final(self).extra@;
                ||| exists|i: int|
                    0 <= i < o.len() && o[i].0@ == key@ && (forall|j: int| 0 <= j < i ==> (#[trigger] o[j]).0@ != key@)
                        && f.len() == o.len() && f[i].0@ == key@ && f[i].1@ == value@
                        && (forall|j: int| 0 <= j < o.len() && j != i ==> #[trigger] f[j] == o[j])
                ||| (forall|i: int| 0 <= i < o.len() ==> (#[trigger] o[i]).0@ != key@) && f.len() == o.len() + 1
                    && f[o.len() as int].0@ == key@ && f[o.len() as int].1@ == value@
                    && (forall|j: int| 0 <= j < o.len() ==> #[trigger] f[j] == o[j])
            }),
    {
        let k = String::from_str(key);
        let mut i: usize = 0;
        while i < self.extra.len()
            invariant
                i <= self.extra@.len(),
                self.extra@ == old(self).extra@,
                *self == *old(self),
                k@ == key@,
                forall|j: int| 0 <= j < i ==> (#[trigger] self.extra@[j]).0@ != key@,
            decreases self.extra@.len() - i,
        {
            if self.extra[i].0 == k {
                let _ = self.extra.remove(i);
                self.extra.insert(i, (k, value));
                assert(self.extra@.len() == old(self).extra@.len());
                return;
            }
            i += 1;
        }
        self.extra.push((k, value));
    }

    /// Metadata that records nothing.
    pub fn empty() -> (r: ProjectMetadata)
        ensures
            r.wf(),
            r.target_framework is None,
            r.node_version is None,
            r.python_version is None,
            r.rust_edition is None,
            r.entry_point is None,
            r.build_command is None,
            r.extra@.len() == 0,
    {
        ProjectMetadata {
            target_framework: None,
            node_version: None,
            python_version: None,
            rust_edition: None,
            entry_point: None,
            build_command: None,
            extra: Vec::new(),
        }
    }
}

/// Some dependency of the given kind (development or not) is named `n`.
pub open spec fn dep_named_in(d: Seq<Dependency>, n: Seq<char>, dev: bool) -> bool {
    exists|i: int| 0 <= i < d.len() && (#[trigger] d[i]).name@ == n && d[i].dev_only == dev
}

/// The framework a Node project names among its production dependencies:
/// `react`, else `vue`, else `next`.
pub open spec fn node_framework(d: Seq<Dependency>) -> Option<Seq<char>> {
    if dep_named_in(d, "react"@, false) {
        Some("react"@)
    } else if dep_named_in(d, "vue"@, false) {
        Some("vue"@)
    } else if dep_named_in(d, "next"@, false) {
        Some("next"@)
    } else {
        None
    }
}

/// The front end and bundler that a PHP project's `package.json`
/// dependencies show: React wins over Vue; Laravel Mix over Vite, both as
/// development dependencies.
pub open spec fn php_frontend(d: Seq<Dependency>) -> (Option<Seq<char>>, Option<Seq<char>>) {
    (
        if dep_named(d, "react"@) {
            Some("react"@)
        } else if dep_named(d, "vue"@) {
            Some("vue"@)
        } else {
            None
        },
        if dep_named_in(d, "laravel-mix"@, true) {
            Some("laravel-mix"@)
        } else if dep_named_in(d, "vite"@, true) {
            Some("vite"@)
        } else {
            None
        },
    )
}

fn has_dep_in(deps: &Vec<Dependency>, n: &str, dev: bool) -> (b: bool)
    ensures
        b == dep_named_in(deps@, n@, dev),
{
    let target = String::from_str(n);
    let mut i: usize = 0;
    while i < deps.len()
        invariant
            i <= deps@.len(),
            target@ == n@,
            forall|k: int| 0 <= k < i ==> !((#[trigger] deps@[k]).name@ == n@ && deps@[k].dev_only == dev),
        decreases deps@.len() - i,
    {
        if deps[i].name == target && deps[i].dev_only == dev {
            return true;
        }
        i += 1;
    }
    false
}

impl GenericAnalyzer {
    /// The framework a Node project names among its production dependencies.
    pub fn node_framework(dependencies: &Vec<Dependency>) -> (r: Option<String>)
        ensures
            match r {
                Some(f) => node_framework(dependencies@) == Some(f@),
                None => node_framework(dependencies@) is None,
            },
    {
        if has_dep_in(dependencies, "react", false) {
            some_text("react")
        } else if has_dep_in(dependencies, "vue", false) {
            some_text("vue")
        } else if has_dep_in(dependencies, "next", false) {
            some_text("next")
        } else {
            None
        }
    }

    /// The front end and the bundler of a PHP project, from the dependencies
    /// of its `package.json`.
    pub fn php_frontend(dependencies: &Vec<Dependency>) -> (r: (Option<String>, Option<String>))
        ensures
            (match r.0 {
                Some(f) => Some(f@),
                None => None,
            }) == php_frontend(dependencies@).0,
            (match r.1 {
                Some(b) => Some(b@),
                None => None,
            }) == php_frontend(dependencies@).1,
    {
        let d = dependencies;
        let frontend = if has_dep_named(d, "react") {
            some_text("react")
        } else if has_dep_named(d, "vue") {
            some_text("vue")
        } else {
            None
        };
        let bundler = if has_dep_in(d, "laravel-mix", true) {
            some_text("laravel-mix")
        } else if has_dep_in(d, "vite", true) {
            some_text("vite")
        } else {
            None
        };
        (frontend, bundler)
    }
}

/// The `require` entries of `composer.json` other than `php` itself, in order.
pub open spec fn without_php(d: Seq<Dependency>) -> Seq<Dependency>
    decreases d.len(),
{
    if d.len() == 0 {
        Seq::empty()
    } else if d[0].name@ == "php"@ {
        without_php(d.drop_first())
    } else {
        seq![d[0]] + without_php(d.drop_first())
    }
}

impl GenericAnalyzer {
    /// Splits the `require` entries of `composer.json`: the PHP version
    /// constraint (of the first `php` entry) apart, the packages in order.
    pub fn split_php_requirement(require: Vec<Dependency>) -> (r: (Vec<Dependency>, Option<String>))
        ensures
            r.0@ == without_php(require@),
            match r.1 {
                Some(v) => exists|i: int|
                    0 <= i < require@.len() && require@[i].name@ == "php"@ && v@ == require@[i].version@
                        && forall|j: int| 0 <= j < i ==> (#[trigger] require@[j]).name@ != "php"@,
                None => forall|i: int| 0 <= i < require@.len() ==> (#[trigger] require@[i]).name@ != "php"@,
            },
    {
        let php = String::from_str("php");
        let mut kept: Vec<Dependency> = Vec::new();
        let mut version: Option<String> = None;
        let ghost all = require@;
        assert(all.subrange(0, all.len() as int) =~= all);
        for d in it: require
            invariant
                it.seq() == all,
                php@ == "php"@,
                kept@ + without_php(all.subrange(it.index() as int, all.len() as int)) == without_php(all),
                match version {
                    Some(v) => exists|i: int|
                        0 <= i < it.index() && all[i].name@ == "php"@ && v@ == all[i].version@
                            && forall|j: int| 0 <= j < i ==> (#[trigger] all[j]).name@ != "php"@,
                    None => forall|i: int| 0 <= i < it.index() ==> (#[trigger] all[i]).name@ != "php"@,
                },
        {
            let ghost idx = it.index() as int;
            let ghost rest = all.subrange(idx, all.len() as int);
            proof {
                assert(rest.drop_first() =~= all.subrange(idx + 1, all.len() as int));
                assert(rest[0] == d);
            }
            if d.name == php {
                if version.is_none() {
                    version = Some(d.version.clone());
                }
            } else {
                let ghost before = kept@;
                kept.push(d);
                proof {
                    assert(kept@ + without_php(all.subrange(idx + 1, all.len() as int)) =~= before + (seq![all[idx]] + without_php(all.subrange(idx + 1, all.len() as int))));
                }
            }
        }
        assert(kept@ + Seq::<Dependency>::empty() =~= kept@);
        assert(all.subrange(all.len() as int, all.len() as int) =~= Seq::<Dependency>::empty());
        (kept, version)
    }
}

} // verus!
