//! Project-type detection from the names found at the top of a project
//! directory.
use vstd::prelude::*;
use crate::text::{chars_of, same_chars};
use crate::types::ProjectType;

verus! {

/// What `Path::extension` gives for a file name: the text after the last dot,
/// unless the name has no dot, is `..`, or has nothing before its last dot.
pub open spec fn extension_of(name: Seq<char>) -> Option<Seq<char>> {
    if name == seq!['.', '.'] || !name.contains('.') {
        None
    } else {
        let d = last_dot(name);
        if d == 0 {
            None
        } else {
            Some(name.subrange(d + 1, name.len() as int))
        }
    }
}

/// The position of the last dot in `name` (or -1).
pub open spec fn last_dot(name: Seq<char>) -> int
    decreases name.len(),
{
    if name.len() == 0 {
        -1
    } else if name.last() == '.' {
        name.len() - 1
    } else {
        last_dot(name.drop_last())
    }
}

proof fn lemma_last_dot(name: Seq<char>)
    ensures
        -1 <= last_dot(name) < name.len(),
        last_dot(name) >= 0 ==> name[last_dot(name)] == '.',
        forall|k: int| last_dot(name) < k < name.len() ==> name[k] != '.',
        name.contains('.') <==> last_dot(name) >= 0,
    decreases name.len(),
{
    if name.len() > 0 {
        lemma_last_dot(name.drop_last());
        if name.last() != '.' {
            assert forall|k: int| last_dot(name) < k < name.len() implies name[k] != '.' by {
                if k < name.len() - 1 {
                    assert(name.drop_last()[k] == name[k]);
                }
            }
            if name.contains('.') {
                let k = choose|k: int| 0 <= k < name.len() && name[k] == '.';
                assert(name.drop_last()[k] == name[k]);
            }
            if last_dot(name) >= 0 {
                assert(name.drop_last()[last_dot(name)] == name[last_dot(name)]);
            }
        }
    }
}

/// The extension of a file name, as `Path::extension` gives it.
pub fn file_extension(name: &str) -> (r: Option<Vec<char>>)
    ensures
        match r {
            Some(e) => extension_of(name@) == Some(e@),
            None => extension_of(name@) is None,
        },
{
    let v = chars_of(name);
    proof {
        lemma_last_dot(v@);
    }
    if v.len() == 2 && v[0] == '.' && v[1] == '.' {
        assert(v@ =~= seq!['.', '.']);
        return None;
    }
    assert(v@ != seq!['.', '.']) by {
        if v@ == seq!['.', '.'] {
            assert(v@.len() == 2);
        }
    }
    let mut i: usize = v.len();
    while i > 0 && v[i - 1] != '.'
        invariant
            i <= v@.len(),
            forall|k: int| i <= k < v@.len() ==> v@[k] != '.',
        decreases i,
    {
        i -= 1;
    }
    if i == 0 {
        assert(!v@.contains('.'));
        return None;
    }
    assert(last_dot(v@) == i - 1);
    if i == 1 {
        return None;
    }
    let mut e: Vec<char> = Vec::new();
    let mut k: usize = i;
    while k < v.len()
        invariant
            i <= k <= v@.len(),
            e@ == v@.subrange(i as int, k as int),
        decreases v@.len() - k,
    {
        e.push(v[k]);
        proof {
            assert(v@.subrange(i as int, k + 1) =~= v@.subrange(i as int, k as int).push(
                v@[k as int],
            ));
        }
        k += 1;
    }
    Some(e)
}

/// The names of a directory's entries as character sequences.
pub open spec fn names_view(entries: Seq<String>) -> Seq<Seq<char>> {
    entries.map_values(|s: String| s@)
}

/// Some entry has extension `ext`.
pub open spec fn has_extension(entries: Seq<Seq<char>>, ext: Seq<char>) -> bool {
    exists|i: int| 0 <= i < entries.len() && extension_of(#[trigger] entries[i]) == Some(ext)
}

/// The project type that the entry names of a directory point to, checked in
/// a fixed order of priority.
pub open spec fn detected_type(e: Seq<Seq<char>>) -> ProjectType {
    if has_extension(e, "csproj"@) || has_extension(e, "fsproj"@) || has_extension(e, "sln"@) {
        ProjectType::DotNet
    } else if e.contains("Cargo.toml"@) {
        ProjectType::Rust
    } else if e.contains("composer.json"@) {
        ProjectType::Php
    } else if e.contains("package.json"@) {
        ProjectType::Node
    } else if e.contains("pyproject.toml"@) || e.contains("setup.py"@) || e.contains(
        "requirements.txt"@,
    ) {
        ProjectType::Python
    } else if e.contains("go.mod"@) {
        ProjectType::Go
    } else if e.contains("pom.xml"@) || e.contains("build.gradle"@) || e.contains(
        "build.gradle.kts"@,
    ) {
        ProjectType::Java
    } else {
        ProjectType::Unknown
    }
}

/// Whether some entry has extension `ext`.
fn any_extension(entries: &Vec<String>, ext: &str) -> (b: bool)
    ensures
        b == has_extension(names_view(entries@), ext@),
{
    let want = chars_of(ext);
    let ghost e = names_view(entries@);
    let mut i: usize = 0;
    while i < entries.len()
        invariant
            i <= entries@.len(),
            e == names_view(entries@),
            want@ == ext@,
            forall|k: int| 0 <= k < i ==> extension_of(#[trigger] e[k]) != Some(ext@),
        decreases entries@.len() - i,
    {
        match file_extension(entries[i].as_str()) {
            Some(x) => {
                if same_chars(&x, &want) {
                    assert(e[i as int] == entries@[i as int]@);
                    return true;
                }
            },
            None => {},
        }
        i += 1;
    }
    false
}

/// Whether some entry is named `name`.
fn has_entry(entries: &Vec<String>, name: &str) -> (b: bool)
    ensures
        b == names_view(entries@).contains(name@),
{
    let target = String::from_str(name);
    let ghost e = names_view(entries@);
    let mut i: usize = 0;
    while i < entries.len()
        invariant
            i <= entries@.len(),
            e == names_view(entries@),
            target@ == name@,
            forall|k: int| 0 <= k < i ==> e[k] != name@,
        decreases entries@.len() - i,
    {
        if entries[i] == target {
            assert(e[i as int] == name@);
            return true;
        }
        i += 1;
    }
    false
}

/// Detects the type of a project.
pub struct ProjectDetector;

impl ProjectDetector {
    /// The project type of a directory whose entries are named `entries`.
    pub fn detect(entries: &Vec<String>) -> (r: ProjectType)
        ensures
            r == detected_type(names_view(entries@)),
    {
        if any_extension(entries, "csproj") || any_extension(entries, "fsproj") || any_extension(
            entries,
            "sln",
        ) {
            ProjectType::DotNet
        } else if has_entry(entries, "Cargo.toml") {
            ProjectType::Rust
        } else if has_entry(entries, "composer.json") {
            ProjectType::Php
        } else if has_entry(entries, "package.json") {
            ProjectType::Node
        } else if has_entry(entries, "pyproject.toml") || has_entry(entries, "setup.py")
            || has_entry(entries, "requirements.txt") {
            ProjectType::Python
        } else if has_entry(entries, "go.mod") {
            ProjectType::Go
        } else if has_entry(entries, "pom.xml") || has_entry(entries, "build.gradle") || has_entry(
            entries,
            "build.gradle.kts",
        ) {
            ProjectType::Java
        } else {
            ProjectType::Unknown
        }
    }

    /// The file extensions worth analysing for each project type.
    pub fn get_source_extensions(project_type: &ProjectType) -> (r: Vec<&'static str>)
        ensures
            r@.map_values(|s: &str| s@) == source_extensions(*project_type),
    {
        let r = match project_type {
            ProjectType::DotNet => vec!["cs", "fs", "vb", "razor"],
            ProjectType::Rust => vec!["rs"],
            ProjectType::Node => vec!["js", "ts", "jsx", "tsx", "mjs", "cjs", "vue", "svelte"],
            ProjectType::Python => vec!["py", "pyi"],
            ProjectType::Go => vec!["go"],
            ProjectType::Java => vec!["java", "kt", "kts", "scala"],
            ProjectType::Php => vec!["php", "blade.php", "twig", "js", "ts", "vue"],
            ProjectType::Unknown => vec![],
        };
        assert(r@.map_values(|s: &str| s@) =~= source_extensions(*project_type));
        r
    }

    /// The main manifest file of each project type, where it has a fixed name.
    pub fn get_config_file(project_type: &ProjectType) -> (r: Option<&'static str>)
        ensures
            match r {
                Some(s) => config_file(*project_type) == Some(s@),
                None => config_file(*project_type) is None,
            },
    {
        match project_type {
            ProjectType::DotNet => None,
            ProjectType::Rust => Some("Cargo.toml"),
            ProjectType::Node => Some("package.json"),
            ProjectType::Python => Some("pyproject.toml"),
            ProjectType::Go => Some("go.mod"),
            ProjectType::Java => Some("pom.xml"),
            ProjectType::Php => Some("composer.json"),
            ProjectType::Unknown => None,
        }
    }
}

/// The file extensions worth analysing for each project type.
pub open spec fn source_extensions(t: ProjectType) -> Seq<Seq<char>> {
    match t {
        ProjectType::DotNet => seq!["cs"@, "fs"@, "vb"@, "razor"@],
        ProjectType::Rust => seq!["rs"@],
        ProjectType::Node => seq!["js"@, "ts"@, "jsx"@, "tsx"@, "mjs"@, "cjs"@, "vue"@, "svelte"@],
        ProjectType::Python => seq!["py"@, "pyi"@],
        ProjectType::Go => seq!["go"@],
        ProjectType::Java => seq!["java"@, "kt"@, "kts"@, "scala"@],
        ProjectType::Php => seq!["php"@, "blade.php"@, "twig"@, "js"@, "ts"@, "vue"@],
        ProjectType::Unknown => Seq::empty(),
    }
}

/// The main manifest file of each project type, where it has a fixed name.
pub open spec fn config_file(t: ProjectType) -> Option<Seq<char>> {
    match t {
        ProjectType::DotNet => None,
        ProjectType::Rust => Some("Cargo.toml"@),
        ProjectType::Node => Some("package.json"@),
        ProjectType::Python => Some("pyproject.toml"@),
        ProjectType::Go => Some("go.mod"@),
        ProjectType::Java => Some("pom.xml"@),
        ProjectType::Php => Some("composer.json"@),
        ProjectType::Unknown => None,
    }
}

} // verus!
