//! What the core derives from a project summary: the framework tag that picks
//! patterns, the advice, the counts, and the patterns that fit.
use vstd::prelude::*;
use crate::detector::names_view;
use crate::text::{chars_of, contains_seq, seq_contains, seq_starts_with, starts_with_chars};
use crate::codec::{decimal, decimal_string};
use crate::ranking::ranked;
use crate::scoring::{CriteriaModel, SearchCriteria};
use crate::training::TrainingManager;
use crate::types::{
    AnalysisResult, CodePattern, Dependency, PatternModel, Project, ProjectType, SeverityLevel,
    SourceFile, Statistics, Suggestion,
};

verus! {

/// The names of a list of dependencies.
pub open spec fn dep_names(deps: Seq<Dependency>) -> Seq<Seq<char>> {
    deps.map_values(|d: Dependency| d.name@)
}

/// Some dependency is named exactly `n`.
pub open spec fn dep_named(deps: Seq<Dependency>, n: Seq<char>) -> bool {
    dep_names(deps).contains(n)
}

/// Some dependency name contains `s`.
pub open spec fn dep_mentions(deps: Seq<Dependency>, s: Seq<char>) -> bool {
    exists|i: int| 0 <= i < deps.len() && seq_contains(#[trigger] deps[i].name@, s)
}

/// The value of the first extra metadata entry with key `k`.
pub open spec fn extra_get(extra: Seq<(String, String)>, k: Seq<char>) -> Option<Seq<char>>
    decreases extra.len(),
{
    if extra.len() == 0 {
        None
    } else if extra[0].0@ == k {
        Some(extra[0].1@)
    } else {
        extra_get(extra.drop_first(), k)
    }
}

/// The framework tag of a project: its type refined by well-known
/// dependencies and by the framework its metadata records.
pub open spec fn framework_of(p: Project) -> Seq<char> {
    let d = p.dependencies@;
    let extra = p.metadata.extra@;
    match p.project_type {
        ProjectType::DotNet => if dep_mentions(d, "AspNetCore.Components"@) {
            "blazor-server"@
        } else if dep_mentions(d, "AspNetCore"@) {
            "aspnet-core"@
        } else {
            "dotnet"@
        },
        ProjectType::Rust => if dep_named(d, "actix-web"@) {
            "actix-web"@
        } else if dep_named(d, "axum"@) {
            "axum"@
        } else if dep_named(d, "tokio"@) {
            "tokio"@
        } else {
            "rust"@
        },
        ProjectType::Node => if extra_get(extra, "framework"@) is Some {
            extra_get(extra, "framework"@)->0
        } else if dep_named(d, "express"@) {
            "express"@
        } else if dep_named(d, "react"@) {
            "react"@
        } else if dep_named(d, "vue"@) {
            "vue"@
        } else if dep_named(d, "next"@) {
            "nextjs"@
        } else {
            "node"@
        },
        ProjectType::Python => if dep_named(d, "django"@) {
            "django"@
        } else if dep_named(d, "flask"@) {
            "flask"@
        } else if dep_named(d, "fastapi"@) {
            "fastapi"@
        } else {
            "python"@
        },
        ProjectType::Go => if dep_mentions(d, "gin-gonic"@) {
            "gin"@
        } else if dep_mentions(d, "fiber"@) {
            "fiber"@
        } else {
            "go"@
        },
        ProjectType::Java => if dep_mentions(d, "spring"@) {
            "spring"@
        } else {
            "java"@
        },
        ProjectType::Php => match extra_get(extra, "framework"@) {
            Some(fw) => if fw == "laravel"@ && extra_get(extra, "frontend"@) is Some {
                "laravel-"@ + extra_get(extra, "frontend"@)->0
            } else {
                fw
            },
            None => "php"@,
        },
        ProjectType::Unknown => "generic"@,
    }
}

/// Whether some dependency is named exactly `n`.
pub fn has_dep_named(deps: &Vec<Dependency>, n: &str) -> (b: bool)
    ensures
        b == dep_named(deps@, n@),
{
    let target = String::from_str(n);
    let mut i: usize = 0;
    while i < deps.len()
        invariant
            i <= deps@.len(),
            target@ == n@,
            forall|k: int| 0 <= k < i ==> dep_names(deps@)[k] != n@,
        decreases deps@.len() - i,
    {
        if deps[i].name == target {
            assert(dep_names(deps@)[i as int] == n@);
            return true;
        }
        i += 1;
    }
    false
}

/// Whether some dependency name contains `s`.
pub fn has_dep_mentioning(deps: &Vec<Dependency>, s: &str) -> (b: bool)
    ensures
        b == dep_mentions(deps@, s@),
{
    let needle = chars_of(s);
    let mut i: usize = 0;
    while i < deps.len()
        invariant
            i <= deps@.len(),
            needle@ == s@,
            forall|k: int| 0 <= k < i ==> !seq_contains(#[trigger] deps@[k].name@, s@),
        decreases deps@.len() - i,
    {
        if contains_seq(&chars_of(deps[i].name.as_str()), &needle) {
            return true;
        }
        i += 1;
    }
    false
}

/// The value of the first extra metadata entry with key `k`.
pub fn extra_value<'a>(extra: &'a Vec<(String, String)>, k: &str) -> (r: Option<&'a String>)
    ensures
        match r {
            Some(v) => extra_get(extra@, k@) == Some(v@),
            None => extra_get(extra@, k@) is None,
        },
{
    let key = String::from_str(k);
    let mut i: usize = 0;
    assert(extra@.subrange(0, extra@.len() as int) =~= extra@);
    while i < extra.len()
        invariant
            i <= extra@.len(),
            key@ == k@,
            extra_get(extra@, k@) == extra_get(extra@.subrange(i as int, extra@.len() as int), k@),
        decreases extra@.len() - i,
    {
        let ghost rest = extra@.subrange(i as int, extra@.len() as int);
        assert(rest.drop_first() =~= extra@.subrange(i + 1, extra@.len() as int));
        if extra[i].0 == key {
            return Some(&extra[i].1);
        }
        i += 1;
    }
    None
}

fn text(s: &str) -> (r: String)
    ensures
        r@ == s@,
{
    String::from_str(s)
}

/// The framework tag of a project.
pub fn detect_framework_from_project(project: &Project) -> (r: String)
    ensures
        r@ == framework_of(*project),
{
    let d = &project.dependencies;
    let extra = &project.metadata.extra;
    match project.project_type {
        ProjectType::DotNet => if has_dep_mentioning(d, "AspNetCore.Components") {
            text("blazor-server")
        } else if has_dep_mentioning(d, "AspNetCore") {
            text("aspnet-core")
        } else {
            text("dotnet")
        },
        ProjectType::Rust => if has_dep_named(d, "actix-web") {
            text("actix-web")
        } else if has_dep_named(d, "axum") {
            text("axum")
        } else if has_dep_named(d, "tokio") {
            text("tokio")
        } else {
            text("rust")
        },
        ProjectType::Node => match extra_value(extra, "framework") {
            Some(fw) => fw.clone(),
            None => if has_dep_named(d, "express") {
                text("express")
            } else if has_dep_named(d, "react") {
                text("react")
            } else if has_dep_named(d, "vue") {
                text("vue")
            } else if has_dep_named(d, "next") {
                text("nextjs")
            } else {
                text("node")
            },
        },
        ProjectType::Python => if has_dep_named(d, "django") {
            text("django")
        } else if has_dep_named(d, "flask") {
            text("flask")
        } else if has_dep_named(d, "fastapi") {
            text("fastapi")
        } else {
            text("python")
        },
        ProjectType::Go => if has_dep_mentioning(d, "gin-gonic") {
            text("gin")
        } else if has_dep_mentioning(d, "fiber") {
            text("fiber")
        } else {
            text("go")
        },
        ProjectType::Java => if has_dep_mentioning(d, "spring") {
            text("spring")
        } else {
            text("java")
        },
        ProjectType::Php => match extra_value(extra, "framework") {
            Some(fw) => {
                let laravel = text("laravel");
                match extra_value(extra, "frontend") {
                    Some(fe) => if *fw == laravel {
                        let mut r = text("laravel-");
                        r.append(fe.as_str());
                        r
                    } else {
                        fw.clone()
                    },
                    None => fw.clone(),
                }
            },
            None => text("php"),
        },
        ProjectType::Unknown => text("generic"),
    }
}

/// A dependency named `n` has a version that starts with `v`.
pub open spec fn dep_version_starts(deps: Seq<Dependency>, n: Seq<char>, v: Seq<char>) -> bool {
    exists|i: int|
        0 <= i < deps.len() && (#[trigger] deps[i]).name@ == n && seq_starts_with(deps[i].version@, v)
}

/// One piece of advice as severity, category and message.
pub type Advice = (SeverityLevel, Seq<char>, Seq<char>);

/// The one-item list `[a]` when `c` holds, else the empty list.
pub open spec fn advice_if(c: bool, a: Advice) -> Seq<Advice> {
    if c {
        seq![a]
    } else {
        Seq::empty()
    }
}

/// The advice that depends on the project's ecosystem; `entries` are the
/// names at the top of the project directory.
pub open spec fn type_advice(p: Project, entries: Seq<Seq<char>>) -> Seq<Advice> {
    let d = p.dependencies@;
    let extra = p.metadata.extra@;
    match p.project_type {
        ProjectType::Node => advice_if(
            dep_version_starts(d, "express"@, "3."@),
            (
                SeverityLevel::Warning,
                "security"@,
                "Express 3.x is outdated. Consider upgrading to Express 4.x or 5.x"@,
            ),
        ),
        ProjectType::Python => advice_if(
            !entries.contains("requirements.txt"@) && !entries.contains("pyproject.toml"@),
            (
                SeverityLevel::Info,
                "best-practices"@,
                "Consider adding a requirements.txt or pyproject.toml for dependency management"@,
            ),
        ),
        ProjectType::Rust => advice_if(
            dep_named(d, "unwrap"@),
            (
                SeverityLevel::Warning,
                "error-handling"@,
                "Avoid using .unwrap() in production code. Use proper error handling with Result"@,
            ),
        ),
        ProjectType::Php => {
            let laravel = extra_get(extra, "framework"@) == Some("laravel"@);
            advice_if(
                laravel && !entries.contains(".env"@),
                (
                    SeverityLevel::Warning,
                    "configuration"@,
                    "Missing .env file. Copy .env.example to .env and configure your environment"@,
                ),
            ) + advice_if(
                laravel && dep_version_starts(d, "laravel/framework"@, "^8"@),
                (
                    SeverityLevel::Info,
                    "upgrade"@,
                    "Laravel 8.x is in maintenance mode. Consider upgrading to Laravel 10 or 11"@,
                ),
            ) + advice_if(
                extra_get(extra, "frontend"@) == Some("vue"@) && dep_named(
                    d,
                    "inertiajs/inertia-laravel"@,
                ),
                (
                    SeverityLevel::Info,
                    "architecture"@,
                    "Inertia.js detected. Consider using shared data for common props across pages"@,
                ),
            ) + advice_if(
                !(dep_named(d, "paragonie/random_compat"@) || dep_named(
                    d,
                    "defuse/php-encryption"@,
                )) && d.len() > 5,
                (
                    SeverityLevel::Info,
                    "security"@,
                    "Consider adding security packages like paragonie/random_compat for cryptographic operations"@,
                ),
            )
        },
        _ => Seq::empty(),
    }
}

/// All advice for a project: the ecosystem's, then one on size beyond a
/// hundred files, then one when the library has no pattern for the project's
/// framework (`no_patterns`).
pub open spec fn project_advice(
    p: Project,
    entries: Seq<Seq<char>>,
    framework: Seq<char>,
    no_patterns: bool,
) -> Seq<Advice> {
    type_advice(p, entries) + advice_if(
        p.files@.len() > 100,
        (
            SeverityLevel::Info,
            "architecture"@,
            "Large project with "@ + decimal(p.files@.len() as nat)
                + " files. Consider modular organization."@,
        ),
    ) + advice_if(
        no_patterns,
        (
            SeverityLevel::Info,
            "patterns"@,
            "No patterns found for framework '"@ + framework
                + "'. Consider adding patterns with train-pattern."@,
        ),
    )
}

/// The advice that a list of suggestions carries.
pub open spec fn advice_of(s: Seq<Suggestion>) -> Seq<Advice> {
    s.map_values(|x: Suggestion| (x.severity, x.category@, x.message@))
}

fn advise(out: &mut Vec<Suggestion>, severity: SeverityLevel, category: &str, message: String)
    ensures
        advice_of(final(out)@) == advice_of(old(out)@) + seq![(severity, category@, message@)],
{
    out.push(Suggestion { severity, category: text(category), message, file: None, line: None });
    assert(advice_of(out@) =~= advice_of(old(out)@) + seq![(severity, category@, message@)]);
}

/// Whether some dependency named `n` has a version starting with `v`.
fn has_dep_version(deps: &Vec<Dependency>, n: &str, v: &str) -> (b: bool)
    ensures
        b == dep_version_starts(deps@, n@, v@),
{
    let name = String::from_str(n);
    let prefix = chars_of(v);
    let mut i: usize = 0;
    while i < deps.len()
        invariant
            i <= deps@.len(),
            name@ == n@,
            prefix@ == v@,
            forall|k: int|
                0 <= k < i ==> !((#[trigger] deps@[k]).name@ == n@ && seq_starts_with(
                    deps@[k].version@,
                    v@,
                )),
        decreases deps@.len() - i,
    {
        if deps[i].name == name && starts_with_chars(&chars_of(deps[i].version.as_str()), &prefix) {
            return true;
        }
        i += 1;
    }
    false
}

fn has_name(entries: &Vec<String>, n: &str) -> (b: bool)
    ensures
        b == names_view(entries@).contains(n@),
{
    let target = String::from_str(n);
    let mut i: usize = 0;
    while i < entries.len()
        invariant
            i <= entries@.len(),
            target@ == n@,
            forall|k: int| 0 <= k < i ==> names_view(entries@)[k] != n@,
        decreases entries@.len() - i,
    {
        if entries[i] == target {
            assert(names_view(entries@)[i as int] == n@);
            return true;
        }
        i += 1;
    }
    false
}

fn extra_is(extra: &Vec<(String, String)>, k: &str, v: &str) -> (b: bool)
    ensures
        b == (extra_get(extra@, k@) == Some(v@)),
{
    match extra_value(extra, k) {
        Some(x) => *x == text(v),
        None => false,
    }
}

/// Advice for a project whose top directory holds the names `entries`;
/// `no_patterns` tells that the library has no pattern for `framework`.
pub fn generate_project_suggestions(
    project: &Project,
    entries: &Vec<String>,
    framework: &str,
    no_patterns: bool,
) -> (r: Vec<Suggestion>)
    ensures
        advice_of(r@) == project_advice(*project, names_view(entries@), framework@, no_patterns),
{
    let mut out: Vec<Suggestion> = Vec::new();
    let d = &project.dependencies;
    let extra = &project.metadata.extra;
    match project.project_type {
        ProjectType::Node => {
            if has_dep_version(d, "express", "3.") {
                advise(&mut out, SeverityLevel::Warning, "security", text("Express 3.x is outdated. Consider upgrading to Express 4.x or 5.x"));
            }
        },
        ProjectType::Python => {
            if !has_name(entries, "requirements.txt") && !has_name(entries, "pyproject.toml") {
                advise(&mut out, SeverityLevel::Info, "best-practices", text("Consider adding a requirements.txt or pyproject.toml for dependency management"));
            }
        },
        ProjectType::Rust => {
            if has_dep_named(d, "unwrap") {
                advise(&mut out, SeverityLevel::Warning, "error-handling", text("Avoid using .unwrap() in production code. Use proper error handling with Result"));
            }
        },
        ProjectType::Php => {
            let laravel = extra_is(extra, "framework", "laravel");
            if laravel && !has_name(entries, ".env") {
                advise(&mut out, SeverityLevel::Warning, "configuration", text("Missing .env file. Copy .env.example to .env and configure your environment"));
            }
            if laravel && has_dep_version(d, "laravel/framework", "^8") {
                advise(&mut out, SeverityLevel::Info, "upgrade", text("Laravel 8.x is in maintenance mode. Consider upgrading to Laravel 10 or 11"));
            }
            if extra_is(extra, "frontend", "vue") && has_dep_named(d, "inertiajs/inertia-laravel") {
                advise(&mut out, SeverityLevel::Info, "architecture", text("Inertia.js detected. Consider using shared data for common props across pages"));
            }
            if !(has_dep_named(d, "paragonie/random_compat") || has_dep_named(d, "defuse/php-encryption")) && d.len() > 5 {
                advise(&mut out, SeverityLevel::Info, "security", text("Consider adding security packages like paragonie/random_compat for cryptographic operations"));
            }
        },
        _ => {},
    }
    let ghost typed = advice_of(out@);
    assert(typed =~= type_advice(*project, names_view(entries@)));
    if project.files.len() > 100 {
        let mut m = text("Large project with ");
        let count = decimal_string(project.files.len());
        m.append(count.as_str());
        m.append(" files. Consider modular organization.");
        advise(&mut out, SeverityLevel::Info, "architecture", m);
    }
    let ghost sized = advice_of(out@);
    if no_patterns {
        let mut m = text("No patterns found for framework '");
        m.append(framework);
        m.append("'. Consider adding patterns with train-pattern.");
        advise(&mut out, SeverityLevel::Info, "patterns", m);
    }
    assert(advice_of(out@) =~= project_advice(*project, names_view(entries@), framework@, no_patterns));
    out
}

/// Least score of a pattern offered with a project analysis, in millionths.
pub const PROJECT_MIN_SCORE: u64 = 700_000;

/// Most patterns offered with a project analysis.
pub const PROJECT_PATTERN_LIMIT: usize = 10;

/// The criteria used to pick patterns for a project of framework `framework`.
pub open spec fn project_criteria(framework: Seq<char>) -> CriteriaModel {
    CriteriaModel {
        query: None,
        category: None,
        framework: Some(framework),
        tags: Seq::empty(),
        min_score: PROJECT_MIN_SCORE,
    }
}

/// The patterns for a project of framework `framework` at time `now`: the
/// first ten of the search with that framework and a minimum score of 0.7.
pub fn get_patterns_for_project_at(store: &TrainingManager, framework: &str, now: i64) -> (r: Vec<CodePattern>)
    requires
        store.wf(),
    ensures
        exists|ps: Seq<(usize, u64)>|
            {
                &&& ranked(ps, store@, project_criteria(framework@), now)
                &&& r@.len() == if ps.len() < PROJECT_PATTERN_LIMIT {
                    ps.len()
                } else {
                    PROJECT_PATTERN_LIMIT as nat
                }
                &&& forall|i: int| 0 <= i < r@.len() ==> (#[trigger] r@[i])@ == store@[ps[i].0 as int]
            },
{
    let criteria = SearchCriteria {
        query: None,
        category: None,
        framework: Some(String::from_str(framework)),
        tags: Vec::new(),
        min_score: PROJECT_MIN_SCORE,
    };
    assert(criteria@ == project_criteria(framework@)) by {
        assert(criteria@.tags =~= Seq::<Seq<char>>::empty());
    }
    let found = store.search_patterns(&criteria, now);
    let mut r: Vec<CodePattern> = Vec::new();
    let mut i: usize = 0;
    while i < found.len() && i < PROJECT_PATTERN_LIMIT
        invariant
            i <= found@.len(),
            i <= PROJECT_PATTERN_LIMIT,
            r@.len() == i,
            forall|k: int| 0 <= k < i ==> (#[trigger] r@[k])@ == found@[k].0@,
        decreases found@.len() - i,
    {
        r.push(found[i].0.copy());
        i += 1;
    }
    r
}

/// No stored pattern has framework `framework`.
pub open spec fn lacks_patterns(pats: Seq<PatternModel>, framework: Seq<char>) -> bool {
    forall|i: int| 0 <= i < pats.len() ==> (#[trigger] pats[i]).framework != framework
}

/// The number of symbols over a list of files.
pub open spec fn symbol_count(files: Seq<SourceFile>) -> nat
    decreases files.len(),
{
    if files.len() == 0 {
        0
    } else {
        symbol_count(files.drop_last()) + files.last().symbols@.len()
    }
}

/// The version that stands for the project's framework: its target framework,
/// else its Rust edition, else its Node version, else `unknown`.
pub open spec fn framework_version_of(p: Project) -> Seq<char> {
    if p.metadata.target_framework is Some {
        p.metadata.target_framework->0@
    } else if p.metadata.rust_edition is Some {
        p.metadata.rust_edition->0@
    } else if p.metadata.node_version is Some {
        p.metadata.node_version->0@
    } else {
        "unknown"@
    }
}

/// Counts over a project summary; the symbol count stops at the largest `usize`.
pub fn project_statistics(project: &Project) -> (r: Statistics)
    ensures
        r.total_files == project.files@.len(),
        r.total_classes == if symbol_count(project.files@) > usize::MAX {
            usize::MAX as nat
        } else {
            symbol_count(project.files@)
        },
        r.total_methods == 0,
        r.total_lines == 0,
        r.framework_version@ == framework_version_of(*project),
        r.package_count == project.dependencies@.len(),
{
    let mut classes: usize = 0;
    let mut i: usize = 0;
    while i < project.files.len()
        invariant
            i <= project.files@.len(),
            classes == if symbol_count(project.files@.subrange(0, i as int)) > usize::MAX {
                usize::MAX as nat
            } else {
                symbol_count(project.files@.subrange(0, i as int))
            },
        decreases project.files@.len() - i,
    {
        proof {
            let next = project.files@.subrange(0, i + 1);
            assert(next.drop_last() =~= project.files@.subrange(0, i as int));
        }
        classes = classes.saturating_add(project.files[i].symbols.len());
        i += 1;
    }
    assert(project.files@.subrange(0, project.files@.len() as int) =~= project.files@);
    let framework_version = match &project.metadata.target_framework {
        Some(v) => v.clone(),
        None => match &project.metadata.rust_edition {
            Some(v) => v.clone(),
            None => match &project.metadata.node_version {
                Some(v) => v.clone(),
                None => text("unknown"),
            },
        },
    };
    Statistics {
        total_files: project.files.len(),
        total_classes: classes,
        total_methods: 0,
        total_lines: 0,
        framework_version,
        package_count: project.dependencies.len(),
    }
}

/// The full analysis of a project at time `now`: the patterns for its
/// framework (none without a library), the advice, and the counts. `entries`
/// are the names at the top of the project directory.
pub fn build_generic_analysis_at(
    project: Project,
    entries: &Vec<String>,
    store: Option<&TrainingManager>,
    now: i64,
) -> (r: AnalysisResult)
    requires
        store is Some ==> store->0.wf(),
    ensures
        store is None ==> r.patterns@.len() == 0,
        store is Some ==> exists|ps: Seq<(usize, u64)>|
            {
                &&& ranked(ps, store->0@, project_criteria(framework_of(project)), now)
                &&& r.patterns@.len() == if ps.len() < PROJECT_PATTERN_LIMIT {
                    ps.len()
                } else {
                    PROJECT_PATTERN_LIMIT as nat
                }
                &&& forall|i: int| 0 <= i < r.patterns@.len() ==> (#[trigger] r.patterns@[i])@ == store->0@[ps[i].0 as int]
            },
        advice_of(r.suggestions@) == project_advice(
            project,
            names_view(entries@),
            framework_of(project),
            store is Some && lacks_patterns(store->0@, framework_of(project)),
        ),
        r.project == project,
        r.statistics.total_files == project.files@.len(),
        r.statistics.total_classes == if symbol_count(project.files@) > usize::MAX {
            usize::MAX as nat
        } else {
            symbol_count(project.files@)
        },
        r.statistics.total_methods == 0,
        r.statistics.total_lines == 0,
        r.statistics.package_count == project.dependencies@.len(),
        r.statistics.framework_version@ == framework_version_of(project),
{
    let framework = detect_framework_from_project(&project);
    let (patterns, no_patterns) = match store {
        Some(m) => {
            let found = get_patterns_for_project_at(m, framework.as_str(), now);
            let any = m.get_patterns(framework.as_str(), None, now);
            proof {
                let c = crate::training::tool_criteria(framework@, None);
                let ps = choose|ps: Seq<(usize, u64)>|
                    {
                        &&& ranked(ps, m@, c, now)
                        &&& any@.len() == ps.len()
                        &&& forall|i: int| 0 <= i < ps.len() ==> (#[trigger] any@[i])@ == m@[ps[i].0 as int]
                    };
                if any@.len() == 0 {
                    assert forall|i: int| 0 <= i < m@.len() implies (#[trigger] m@[i]).framework != framework@ by {
                        if m@[i].framework == framework@ {
                            assert(crate::ranking::kept(m@[i], c, now));
                            assert(crate::ranking::has_position(ps, i));
                        }
                    }
                } else {
                    assert(crate::ranking::kept(m@[ps[0].0 as int], c, now));
                }
            }
            (found, any.len() == 0)
        },
        None => (Vec::new(), false),
    };
    let suggestions = generate_project_suggestions(&project, entries, framework.as_str(), no_patterns);
    let statistics = project_statistics(&project);
    AnalysisResult { project, patterns, suggestions, statistics }
}

} // verus!
