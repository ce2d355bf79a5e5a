//! Advice for .NET projects that the project-file reader summarised: the
//! framework their packages point to, and notes on Blazor components, async
//! methods and dependency injection.
use vstd::prelude::*;
use crate::scoring::opt_view;
use crate::text::{chars_of, contains_seq, seq_contains};
use crate::types::{
    CSharpFile, ClassInfo, DotNetProject, MethodInfo, NuGetPackage, SeverityLevel, Suggestion,
};

verus! {

/// Some package name contains `s`.
pub open spec fn package_mentions(ps: Seq<NuGetPackage>, s: Seq<char>) -> bool {
    exists|i: int| 0 <= i < ps.len() && seq_contains(#[trigger] ps[i].name@, s)
}

/// The framework tag that a .NET project's packages point to.
pub open spec fn dotnet_framework(ps: Seq<NuGetPackage>) -> Seq<char> {
    if package_mentions(ps, "AspNetCore.Components"@) {
        "blazor-server"@
    } else if package_mentions(ps, "AspNetCore"@) {
        "aspnet-core"@
    } else if package_mentions(ps, "EntityFrameworkCore"@) {
        "entity-framework"@
    } else {
        "dotnet"@
    }
}

/// A note as severity, category, message and file.
pub type Note = (SeverityLevel, Seq<char>, Seq<char>, Option<Seq<char>>);

/// The notes that a list of suggestions carries.
pub open spec fn notes_of(s: Seq<Suggestion>) -> Seq<Note> {
    s.map_values(
        |x: Suggestion|
            (
                x.severity,
                x.category@,
                x.message@,
                opt_view(x.file),
            ),
    )
}

/// The note on an `async void` method.
pub open spec fn async_void_note(method: Seq<char>, class: Seq<char>, path: Seq<char>) -> Note {
    (
        SeverityLevel::Warning,
        "async-patterns"@,
        "Method '"@ + method + "' in class '"@ + class
            + "' is async void. Use async Task instead for proper exception handling."@,
        Some(path),
    )
}

/// Notes on the `async void` methods among `ms`.
pub open spec fn async_in_methods(ms: Seq<MethodInfo>, class: Seq<char>, path: Seq<char>) -> Seq<Note>
    decreases ms.len(),
{
    if ms.len() == 0 {
        Seq::empty()
    } else {
        (if ms[0].is_async && ms[0].return_type@ == "void"@ {
            seq![async_void_note(ms[0].name@, class, path)]
        } else {
            Seq::empty()
        }) + async_in_methods(ms.drop_first(), class, path)
    }
}

/// Notes on the `async void` methods of the classes `cs`.
pub open spec fn async_in_classes(cs: Seq<ClassInfo>, path: Seq<char>) -> Seq<Note>
    decreases cs.len(),
{
    if cs.len() == 0 {
        Seq::empty()
    } else {
        async_in_methods(cs[0].methods@, cs[0].name@, path) + async_in_classes(cs.drop_first(), path)
    }
}

/// Notes on the `async void` methods of the files `fs`.
pub open spec fn async_in_files(fs: Seq<CSharpFile>) -> Seq<Note>
    decreases fs.len(),
{
    if fs.len() == 0 {
        Seq::empty()
    } else {
        async_in_classes(fs[0].classes@, fs[0].path@) + async_in_files(fs.drop_first())
    }
}

/// Some method of `ms` is a synchronous `OnInitialized`.
pub open spec fn has_sync_init(ms: Seq<MethodInfo>) -> bool {
    exists|i: int| 0 <= i < ms.len() && (#[trigger] ms[i]).name@ == "OnInitialized"@ && !ms[i].is_async
}

/// The class derives from a type whose name contains `ComponentBase`.
pub open spec fn is_component(c: ClassInfo) -> bool {
    match c.base_class {
        Some(b) => seq_contains(b@, "ComponentBase"@),
        None => false,
    }
}

/// Notes on the Blazor components of the classes `cs` that initialise synchronously.
pub open spec fn blazor_in_classes(cs: Seq<ClassInfo>, path: Seq<char>) -> Seq<Note>
    decreases cs.len(),
{
    if cs.len() == 0 {
        Seq::empty()
    } else {
        (if is_component(cs[0]) && has_sync_init(cs[0].methods@) {
            seq![
                (
                    SeverityLevel::Warning,
                    "blazor-lifecycle"@,
                    "Component '"@ + cs[0].name@
                        + "' uses synchronous OnInitialized(). Consider using OnInitializedAsync() for better performance."@,
                    Some(path),
                ),
            ]
        } else {
            Seq::empty()
        }) + blazor_in_classes(cs.drop_first(), path)
    }
}

/// Notes on the Blazor components of the files `fs`.
pub open spec fn blazor_in_files(fs: Seq<CSharpFile>) -> Seq<Note>
    decreases fs.len(),
{
    if fs.len() == 0 {
        Seq::empty()
    } else {
        blazor_in_classes(fs[0].classes@, fs[0].path@) + blazor_in_files(fs.drop_first())
    }
}

/// The standing note on dependency injection.
pub open spec fn di_note() -> Note {
    (
        SeverityLevel::Info,
        "dependency-injection"@,
        "Consider using dependency injection for data access and external services."@,
        None,
    )
}

/// All notes on a .NET project of framework `framework`: Blazor notes for
/// `blazor-server`, then `async void` notes, then the note on dependency
/// injection.
pub open spec fn dotnet_notes(p: DotNetProject, framework: Seq<char>) -> Seq<Note> {
    (if framework == "blazor-server"@ {
        blazor_in_files(p.files@)
    } else {
        Seq::empty()
    }) + async_in_files(p.files@) + seq![di_note()]
}

fn text(s: &str) -> (r: String)
    ensures
        r@ == s@,
{
    String::from_str(s)
}

fn push_note(out: &mut Vec<Suggestion>, s: Suggestion)
    ensures
        notes_of(final(out)@) == notes_of(old(out)@) + seq![
            (
                s.severity,
                s.category@,
                s.message@,
                opt_view(s.file),
            ),
        ],
{
    let ghost n = (s.severity, s.category@, s.message@, opt_view(s.file));
    out.push(s);
    assert(notes_of(out@) =~= notes_of(old(out)@) + seq![n]);
}

/// Whether some package name contains `s`.
fn any_package_mentions(ps: &Vec<NuGetPackage>, s: &str) -> (b: bool)
    ensures
        b == package_mentions(ps@, s@),
{
    let needle = chars_of(s);
    let mut i: usize = 0;
    while i < ps.len()
        invariant
            i <= ps@.len(),
            needle@ == s@,
            forall|k: int| 0 <= k < i ==> !seq_contains(#[trigger] ps@[k].name@, s@),
        decreases ps@.len() - i,
    {
        if contains_seq(&chars_of(ps[i].name.as_str()), &needle) {
            return true;
        }
        i += 1;
    }
    false
}

/// The framework tag that a .NET project's packages point to.
pub fn detect_dotnet_framework(project: &DotNetProject) -> (r: String)
    ensures
        r@ == dotnet_framework(project.packages@),
{
    let ps = &project.packages;
    if any_package_mentions(ps, "AspNetCore.Components") {
        text("blazor-server")
    } else if any_package_mentions(ps, "AspNetCore") {
        text("aspnet-core")
    } else if any_package_mentions(ps, "EntityFrameworkCore") {
        text("entity-framework")
    } else {
        text("dotnet")
    }
}

fn async_notes_methods(ms: &Vec<MethodInfo>, class: &String, path: &String, out: &mut Vec<Suggestion>)
    ensures
        notes_of(final(out)@) == notes_of(old(out)@) + async_in_methods(ms@, class@, path@),
{
    let void = text("void");
    let mut i: usize = 0;
    assert(ms@.subrange(0, ms@.len() as int) =~= ms@);
    assert(notes_of(out@) + async_in_methods(ms@, class@, path@) =~= notes_of(old(out)@) + async_in_methods(ms@, class@, path@));
    while i < ms.len()
        invariant
            i <= ms@.len(),
            void@ == "void"@,
            notes_of(out@) + async_in_methods(ms@.subrange(i as int, ms@.len() as int), class@, path@)
                == notes_of(old(out)@) + async_in_methods(ms@, class@, path@),
        decreases ms@.len() - i,
    {
        let ghost rest = ms@.subrange(i as int, ms@.len() as int);
        let ghost next = ms@.subrange(i + 1, ms@.len() as int);
        proof {
            assert(rest.drop_first() =~= next);
        }
        let ghost before = notes_of(out@);
        let m = &ms[i];
        if m.is_async && m.return_type == void {
            let mut msg = text("Method '");
            msg.append(m.name.as_str());
            msg.append("' in class '");
            msg.append(class.as_str());
            msg.append("' is async void. Use async Task instead for proper exception handling.");
            push_note(
                out,
                Suggestion {
                    severity: SeverityLevel::Warning,
                    category: text("async-patterns"),
                    message: msg,
                    file: Some(path.clone()),
                    line: None,
                },
            );
            proof {
                assert(notes_of(out@) + async_in_methods(next, class@, path@) =~= before + (seq![
                    async_void_note(m.name@, class@, path@),
                ] + async_in_methods(next, class@, path@)));
            }
        } else {
            assert(notes_of(out@) + async_in_methods(next, class@, path@) =~= before + (
            Seq::<Note>::empty() + async_in_methods(next, class@, path@)));
        }
        i += 1;
    }
    assert(notes_of(out@) + Seq::<Note>::empty() =~= notes_of(out@));
}

fn async_notes_classes(cs: &Vec<ClassInfo>, path: &String, out: &mut Vec<Suggestion>)
    ensures
        notes_of(final(out)@) == notes_of(old(out)@) + async_in_classes(cs@, path@),
{
    let mut i: usize = 0;
    assert(cs@.subrange(0, cs@.len() as int) =~= cs@);
    while i < cs.len()
        invariant
            i <= cs@.len(),
            notes_of(out@) + async_in_classes(cs@.subrange(i as int, cs@.len() as int), path@)
                == notes_of(old(out)@) + async_in_classes(cs@, path@),
        decreases cs@.len() - i,
    {
        let ghost rest = cs@.subrange(i as int, cs@.len() as int);
        let ghost next = cs@.subrange(i + 1, cs@.len() as int);
        proof {
            assert(rest.drop_first() =~= next);
        }
        let ghost before = notes_of(out@);
        async_notes_methods(&cs[i].methods, &cs[i].name, path, out);
        proof {
            assert(notes_of(out@) + async_in_classes(next, path@) =~= before + (async_in_methods(
                cs@[i as int].methods@,
                cs@[i as int].name@,
                path@,
            ) + async_in_classes(next, path@)));
        }
        i += 1;
    }
    assert(notes_of(out@) + Seq::<Note>::empty() =~= notes_of(out@));
}

fn has_sync_init_exec(ms: &Vec<MethodInfo>) -> (b: bool)
    ensures
        b == has_sync_init(ms@),
{
    let name = text("OnInitialized");
    let mut i: usize = 0;
    while i < ms.len()
        invariant
            i <= ms@.len(),
            name@ == "OnInitialized"@,
            forall|k: int| 0 <= k < i ==> !((#[trigger] ms@[k]).name@ == "OnInitialized"@ && !ms@[k].is_async),
        decreases ms@.len() - i,
    {
        if ms[i].name == name && !ms[i].is_async {
            return true;
        }
        i += 1;
    }
    false
}

fn is_component_exec(c: &ClassInfo) -> (b: bool)
    ensures
        b == is_component(*c),
{
    match &c.base_class {
        Some(b) => contains_seq(&chars_of(b.as_str()), &chars_of("ComponentBase")),
        None => false,
    }
}

fn blazor_notes_classes(cs: &Vec<ClassInfo>, path: &String, out: &mut Vec<Suggestion>)
    ensures
        notes_of(final(out)@) == notes_of(old(out)@) + blazor_in_classes(cs@, path@),
{
    let mut i: usize = 0;
    assert(cs@.subrange(0, cs@.len() as int) =~= cs@);
    while i < cs.len()
        invariant
            i <= cs@.len(),
            notes_of(out@) + blazor_in_classes(cs@.subrange(i as int, cs@.len() as int), path@)
                == notes_of(old(out)@) + blazor_in_classes(cs@, path@),
        decreases cs@.len() - i,
    {
        let ghost rest = cs@.subrange(i as int, cs@.len() as int);
        let ghost next = cs@.subrange(i + 1, cs@.len() as int);
        proof {
            assert(rest.drop_first() =~= next);
        }
        let ghost before = notes_of(out@);
        let c = &cs[i];
        if is_component_exec(c) && has_sync_init_exec(&c.methods) {
            let mut msg = text("Component '");
            msg.append(c.name.as_str());
            msg.append("' uses synchronous OnInitialized(). Consider using OnInitializedAsync() for better performance.");
            let s = Suggestion {
                severity: SeverityLevel::Warning,
                category: text("blazor-lifecycle"),
                message: msg,
                file: Some(path.clone()),
                line: None,
            };
            let ghost n = (s.severity, s.category@, s.message@, Some(path@));
            push_note(out, s);
            proof {
                assert(notes_of(out@) + blazor_in_classes(next, path@) =~= before + (seq![n]
                    + blazor_in_classes(next, path@)));
            }
        } else {
            assert(notes_of(out@) + blazor_in_classes(next, path@) =~= before + (
            Seq::<Note>::empty() + blazor_in_classes(next, path@)));
        }
        i += 1;
    }
    assert(notes_of(out@) + Seq::<Note>::empty() =~= notes_of(out@));
}

/// Notes on the Blazor components of a .NET project that initialise synchronously.
pub fn check_blazor_patterns(project: &DotNetProject) -> (r: Vec<Suggestion>)
    ensures
        notes_of(r@) == blazor_in_files(project.files@),
{
    let fs = &project.files;
    let mut out: Vec<Suggestion> = Vec::new();
    let mut i: usize = 0;
    assert(fs@.subrange(0, fs@.len() as int) =~= fs@);
    assert(notes_of(out@) + blazor_in_files(fs@) =~= blazor_in_files(fs@));
    while i < fs.len()
        invariant
            i <= fs@.len(),
            notes_of(out@) + blazor_in_files(fs@.subrange(i as int, fs@.len() as int)) == blazor_in_files(fs@),
        decreases fs@.len() - i,
    {
        let ghost rest = fs@.subrange(i as int, fs@.len() as int);
        let ghost next = fs@.subrange(i + 1, fs@.len() as int);
        proof {
            assert(rest.drop_first() =~= next);
        }
        let ghost before = notes_of(out@);
        blazor_notes_classes(&fs[i].classes, &fs[i].path, &mut out);
        proof {
            assert(notes_of(out@) + blazor_in_files(next) =~= before + (blazor_in_classes(
                fs@[i as int].classes@,
                fs@[i as int].path@,
            ) + blazor_in_files(next)));
        }
        i += 1;
    }
    assert(notes_of(out@) + Seq::<Note>::empty() =~= notes_of(out@));
    out
}

/// Notes on the `async void` methods of a .NET project.
pub fn check_async_patterns(project: &DotNetProject) -> (r: Vec<Suggestion>)
    ensures
        notes_of(r@) == async_in_files(project.files@),
{
    let fs = &project.files;
    let mut out: Vec<Suggestion> = Vec::new();
    let mut i: usize = 0;
    assert(fs@.subrange(0, fs@.len() as int) =~= fs@);
    assert(notes_of(out@) + async_in_files(fs@) =~= async_in_files(fs@));
    while i < fs.len()
        invariant
            i <= fs@.len(),
            notes_of(out@) + async_in_files(fs@.subrange(i as int, fs@.len() as int)) == async_in_files(fs@),
        decreases fs@.len() - i,
    {
        let ghost rest = fs@.subrange(i as int, fs@.len() as int);
        let ghost next = fs@.subrange(i + 1, fs@.len() as int);
        proof {
            assert(rest.drop_first() =~= next);
        }
        let ghost before = notes_of(out@);
        async_notes_classes(&fs[i].classes, &fs[i].path, &mut out);
        proof {
            assert(notes_of(out@) + async_in_files(next) =~= before + (async_in_classes(
                fs@[i as int].classes@,
                fs@[i as int].path@,
            ) + async_in_files(next)));
        }
        i += 1;
    }
    assert(notes_of(out@) + Seq::<Note>::empty() =~= notes_of(out@));
    out
}

/// The standing note on dependency injection.
pub fn check_di_patterns(project: &DotNetProject) -> (r: Vec<Suggestion>)
    ensures
        notes_of(r@) == seq![di_note()],
{
    let mut out: Vec<Suggestion> = Vec::new();
    push_note(
        &mut out,
        Suggestion {
            severity: SeverityLevel::Info,
            category: text("dependency-injection"),
            message: text(
                "Consider using dependency injection for data access and external services.",
            ),
            file: None,
            line: None,
        },
    );
    assert(notes_of(out@) =~= seq![di_note()]);
    out
}

/// All notes on a .NET project of framework `framework`.
pub fn generate_suggestions(project: &DotNetProject, framework: &str) -> (r: Vec<Suggestion>)
    ensures
        notes_of(r@) == dotnet_notes(*project, framework@),
{
    let mut out: Vec<Suggestion> = if String::from_str(framework) == text("blazor-server") {
        check_blazor_patterns(project)
    } else {
        let v: Vec<Suggestion> = Vec::new();
        assert(notes_of(v@) =~= Seq::<Note>::empty());
        v
    };
    let mut more = check_async_patterns(project);
    let mut di = check_di_patterns(project);
    let ghost a = notes_of(out@);
    let ghost b = notes_of(more@);
    out.append(&mut more);
    assert(notes_of(out@) =~= a + b);
    let ghost ab = notes_of(out@);
    out.append(&mut di);
    assert(notes_of(out@) =~= ab + seq![di_note()]);
    out
}

} // verus!
