//! The data shared across the library: code patterns, and the summary of a
//! project that the analyzers hand to the core.
use vstd::prelude::*;

verus! {

/// Detected project ecosystem.
#[derive(Clone, Copy, Debug, PartialEq, Eq, Structural)]
pub enum ProjectType {
    DotNet,
    Rust,
    Node,
    Python,
    Go,
    Java,
    Php,
    Unknown,
}

/// The short tag of each project type.
pub open spec fn project_type_tag(t: ProjectType) -> Seq<char> {
    match t {
        ProjectType::DotNet => "dotnet"@,
        ProjectType::Rust => "rust"@,
        ProjectType::Node => "node"@,
        ProjectType::Python => "python"@,
        ProjectType::Go => "go"@,
        ProjectType::Java => "java"@,
        ProjectType::Php => "php"@,
        ProjectType::Unknown => "unknown"@,
    }
}

impl ProjectType {
    /// The short lower-case tag of the project type.
    pub fn as_str(&self) -> (r: &'static str)
        ensures
            r@ == project_type_tag(*self),
    {
        match self {
            ProjectType::DotNet => "dotnet",
            ProjectType::Rust => "rust",
            ProjectType::Node => "node",
            ProjectType::Python => "python",
            ProjectType::Go => "go",
            ProjectType::Java => "java",
            ProjectType::Php => "php",
            ProjectType::Unknown => "unknown",
        }
    }
}

/// A project of any ecosystem, as the analyzers summarise it.
#[derive(Debug)]
pub struct Project {
    pub path: String,
    pub name: String,
    pub project_type: ProjectType,
    pub version: Option<String>,
    pub dependencies: Vec<Dependency>,
    pub files: Vec<SourceFile>,
    pub metadata: ProjectMetadata,
}

/// One declared dependency.
#[derive(Clone, Debug)]
pub struct Dependency {
    pub name: String,
    pub version: String,
    pub dev_only: bool,
}

/// One source file found in the project.
#[derive(Debug)]
pub struct SourceFile {
    pub path: String,
    pub language: String,
    pub size_bytes: u64,
    pub symbols: Vec<Symbol>,
}

/// A named symbol of a source file (class, function, ...).
#[derive(Debug)]
pub struct Symbol {
    pub name: String,
    pub kind: SymbolKind,
    pub modifiers: Vec<String>,
    pub children: Vec<Symbol>,
}

/// The kind of a symbol.
#[derive(Debug)]
pub enum SymbolKind {
    Class,
    Interface,
    Function,
    Method,
    Property,
    Field,
    Enum,
    Struct,
    Module,
    Trait,
    Impl,
    Component,
    Other(String),
}

/// Ecosystem-specific facts about a project. `extra` holds further key/value
/// pairs in the order they were recorded; `wf` (each key once) holds of any
/// metadata built by `empty` and `set_extra`.
#[derive(Clone, Debug)]
pub struct ProjectMetadata {
    pub target_framework: Option<String>,
    pub node_version: Option<String>,
    pub python_version: Option<String>,
    pub rust_edition: Option<String>,
    pub entry_point: Option<String>,
    pub build_command: Option<String>,
    pub extra: Vec<(String, String)>,
}

/// A .NET project as the project-file reader sees it.
#[derive(Clone, Debug)]
pub struct DotNetProject {
    pub path: String,
    pub name: String,
    pub target_framework: String,
    pub language_version: String,
    pub packages: Vec<NuGetPackage>,
    pub project_references: Vec<String>,
    pub files: Vec<CSharpFile>,
}

/// A NuGet package reference.
#[derive(Clone, Debug)]
pub struct NuGetPackage {
    pub name: String,
    pub version: String,
}

/// What was found in one C# source file.
#[derive(Clone, Debug)]
pub struct CSharpFile {
    pub path: String,
    pub namespace: Option<String>,
    pub usings: Vec<String>,
    pub classes: Vec<ClassInfo>,
    pub interfaces: Vec<InterfaceInfo>,
}

/// A C# class.
#[derive(Clone, Debug)]
pub struct ClassInfo {
    pub name: String,
    pub modifiers: Vec<String>,
    pub base_class: Option<String>,
    pub interfaces: Vec<String>,
    pub methods: Vec<MethodInfo>,
    pub properties: Vec<PropertyInfo>,
}

/// A C# interface.
#[derive(Clone, Debug)]
pub struct InterfaceInfo {
    pub name: String,
    pub methods: Vec<MethodInfo>,
}

/// A C# method.
#[derive(Clone, Debug)]
pub struct MethodInfo {
    pub name: String,
    pub return_type: String,
    pub parameters: Vec<Parameter>,
    pub modifiers: Vec<String>,
    pub is_async: bool,
}

/// A method parameter.
#[derive(Clone, Debug)]
pub struct Parameter {
    pub name: String,
    pub param_type: String,
}

/// A C# property.
#[derive(Clone, Debug)]
pub struct PropertyInfo {
    pub name: String,
    pub prop_type: String,
    pub has_getter: bool,
    pub has_setter: bool,
}

/// A curated code snippet with its metadata.
///
/// Scores are fixed-point: `relevance_score` counts millionths, so
/// `1_000_000` stands for a relevance of 1.0. Timestamps are seconds since the
/// Unix epoch.
#[derive(Clone, Debug)]
pub struct CodePattern {
    pub id: String,
    pub category: String,
    pub framework: String,
    pub version: String,
    pub title: String,
    pub description: String,
    pub code: String,
    pub tags: Vec<String>,
    pub usage_count: u64,
    pub relevance_score: u32,
    pub created_at: i64,
    pub updated_at: i64,
}

/// The field values of a pattern.
pub struct PatternModel {
    pub id: Seq<char>,
    pub category: Seq<char>,
    pub framework: Seq<char>,
    pub version: Seq<char>,
    pub title: Seq<char>,
    pub description: Seq<char>,
    pub code: Seq<char>,
    pub tags: Seq<Seq<char>>,
    pub usage_count: u64,
    pub relevance_score: u32,
    pub created_at: i64,
    pub updated_at: i64,
}

/// The character sequences of a list of strings.
pub open spec fn strings_view(v: Seq<String>) -> Seq<Seq<char>> {
    v.map_values(|s: String| s@)
}

impl View for CodePattern {
    type V = PatternModel;

    open spec fn view(&self) -> PatternModel {
        PatternModel {
            id: self.id@,
            category: self.category@,
            framework: self.framework@,
            version: self.version@,
            title: self.title@,
            description: self.description@,
            code: self.code@,
            tags: strings_view(self.tags@),
            usage_count: self.usage_count,
            relevance_score: self.relevance_score,
            created_at: self.created_at,
            updated_at: self.updated_at,
        }
    }
}

/// A copy of a list of strings.
pub fn copy_strings(v: &Vec<String>) -> (r: Vec<String>)
    ensures
        strings_view(r@) == strings_view(v@),
{
    let mut r: Vec<String> = Vec::new();
    let mut i: usize = 0;
    while i < v.len()
        invariant
            i <= v.len(),
            r@.len() == i,
            forall|j: int| 0 <= j < i ==> #[trigger] r@[j]@ == v@[j]@,
        decreases v.len() - i,
    {
        let s = v[i].clone();
        r.push(s);
        i += 1;
    }
    assert(strings_view(r@) =~= strings_view(v@));
    r
}

impl CodePattern {
    /// A copy of the pattern with the same field values.
    pub fn copy(&self) -> (r: CodePattern)
        ensures
            r@ == self@,
    {
        CodePattern {
            id: self.id.clone(),
            category: self.category.clone(),
            framework: self.framework.clone(),
            version: self.version.clone(),
            title: self.title.clone(),
            description: self.description.clone(),
            code: self.code.clone(),
            tags: copy_strings(&self.tags),
            usage_count: self.usage_count,
            relevance_score: self.relevance_score,
            created_at: self.created_at,
            updated_at: self.updated_at,
        }
    }
}

/// Analysis of a project: the summary, the patterns chosen for it, advice,
/// and counts.
#[derive(Debug)]
pub struct AnalysisResult {
    pub project: Project,
    pub patterns: Vec<CodePattern>,
    pub suggestions: Vec<Suggestion>,
    pub statistics: Statistics,
}

/// Analysis of a .NET project read by the project-file reader.
#[derive(Clone, Debug)]
pub struct DotNetAnalysisResult {
    pub project: DotNetProject,
    pub patterns: Vec<CodePattern>,
    pub suggestions: Vec<Suggestion>,
    pub statistics: Statistics,
}

/// A piece of advice about a project.
#[derive(Clone, Debug)]
pub struct Suggestion {
    pub severity: SeverityLevel,
    pub category: String,
    pub message: String,
    pub file: Option<String>,
    pub line: Option<usize>,
}

/// How pressing a suggestion is.
#[derive(Clone, Copy, Debug, PartialEq, Eq, Structural)]
pub enum SeverityLevel {
    Info,
    Warning,
    Error,
}

/// Counts over a project.
#[derive(Clone, Debug)]
pub struct Statistics {
    pub total_files: usize,
    pub total_classes: usize,
    pub total_methods: usize,
    pub total_lines: usize,
    pub framework_version: String,
    pub package_count: usize,
}

} // verus!
