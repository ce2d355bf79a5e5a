//! JSON-RPC routing decisions: which method a request names, which messages
//! are notifications to drop, which tool a call names, the tool catalog, and
//! how a `train-pattern` call becomes a stored pattern.
use vstd::prelude::*;
use crate::text::{chars_of, seq_starts_with, starts_with_chars};
use crate::training::{PatternError, TrainingManager, pattern_error, stamped, valid_pattern};
use crate::types::{CodePattern, PatternModel, copy_strings, strings_view};

verus! {

/// Error code of a message that is framed but is not a valid request.
pub const PARSE_ERROR: i32 = -32700;

/// Error code of every handler-level failure, unknown methods included.
pub const INTERNAL_ERROR: i32 = -32603;

/// The protocol version that `initialize` advertises.
pub fn protocol_version() -> (r: &'static str)
    ensures
        r@ == "2024-11-05"@,
{
    "2024-11-05"
}

/// The methods the dispatcher knows.
#[derive(Clone, Copy, Debug, PartialEq, Eq, Structural)]
pub enum Method {
    Initialize,
    ToolsList,
    ToolsCall,
    PromptsList,
    ResourcesList,
    Unknown,
}

/// The method named `m`.
pub open spec fn method_of(m: Seq<char>) -> Method {
    if m == "initialize"@ {
        Method::Initialize
    } else if m == "tools/list"@ {
        Method::ToolsList
    } else if m == "tools/call"@ {
        Method::ToolsCall
    } else if m == "prompts/list"@ {
        Method::PromptsList
    } else if m == "resources/list"@ {
        Method::ResourcesList
    } else {
        Method::Unknown
    }
}

fn same_text(a: &str, b: &str) -> (r: bool)
    ensures
        r == (a@ == b@),
{
    String::from_str(a) == String::from_str(b)
}

/// Routes a method name.
pub fn classify_method(method: &str) -> (r: Method)
    ensures
        r == method_of(method@),
{
    if same_text(method, "initialize") {
        Method::Initialize
    } else if same_text(method, "tools/list") {
        Method::ToolsList
    } else if same_text(method, "tools/call") {
        Method::ToolsCall
    } else if same_text(method, "prompts/list") {
        Method::PromptsList
    } else if same_text(method, "resources/list") {
        Method::ResourcesList
    } else {
        Method::Unknown
    }
}

/// A message without an id whose method begins with `notifications/` gets
/// no reply.
pub fn is_ignored_notification(has_id: bool, method: &str) -> (r: bool)
    ensures
        r == (!has_id && seq_starts_with(method@, "notifications/"@)),
{
    if has_id {
        return false;
    }
    let prefix = chars_of("notifications/");
    starts_with_chars(&chars_of(method), &prefix)
}

/// The tools of the catalog.
#[derive(Clone, Copy, Debug, PartialEq, Eq, Structural)]
pub enum Tool {
    AnalyzeProject,
    GetPatterns,
    SearchPatterns,
    TrainPattern,
    GetStatistics,
    GetHelp,
}

/// The name of each tool.
pub open spec fn tool_name(t: Tool) -> Seq<char> {
    match t {
        Tool::AnalyzeProject => "analyze-project"@,
        Tool::GetPatterns => "get-patterns"@,
        Tool::SearchPatterns => "search-patterns"@,
        Tool::TrainPattern => "train-pattern"@,
        Tool::GetStatistics => "get-statistics"@,
        Tool::GetHelp => "get-help"@,
    }
}

/// The tools in catalog order.
pub open spec fn catalog_order() -> Seq<Tool> {
    seq![
        Tool::AnalyzeProject,
        Tool::GetPatterns,
        Tool::SearchPatterns,
        Tool::TrainPattern,
        Tool::GetStatistics,
        Tool::GetHelp,
    ]
}

impl Tool {
    /// The tool's name.
    pub fn name(&self) -> (r: &'static str)
        ensures
            r@ == tool_name(*self),
    {
        match self {
            Tool::AnalyzeProject => "analyze-project",
            Tool::GetPatterns => "get-patterns",
            Tool::SearchPatterns => "search-patterns",
            Tool::TrainPattern => "train-pattern",
            Tool::GetStatistics => "get-statistics",
            Tool::GetHelp => "get-help",
        }
    }
}

/// The tool named `name`, if any.
pub fn tool_of(name: &str) -> (r: Option<Tool>)
    ensures
        match r {
            Some(t) => tool_name(t) == name@,
            None => forall|t: Tool| tool_name(t) != name@,
        },
{
    let all = catalog();
    let mut i: usize = 0;
    while i < all.len()
        invariant
            all@ == catalog_order(),
            i <= all@.len(),
            forall|k: int| 0 <= k < i ==> tool_name(#[trigger] all@[k]) != name@,
        decreases all@.len() - i,
    {
        let t = all[i];
        if same_text(t.name(), name) {
            return Some(t);
        }
        i += 1;
    }
    assert forall|t: Tool| tool_name(t) != name@ by {
        match t {
            Tool::AnalyzeProject => assert(all@[0] == t),
            Tool::GetPatterns => assert(all@[1] == t),
            Tool::SearchPatterns => assert(all@[2] == t),
            Tool::TrainPattern => assert(all@[3] == t),
            Tool::GetStatistics => assert(all@[4] == t),
            Tool::GetHelp => assert(all@[5] == t),
        }
    }
    None
}

/// The six tools, in catalog order.
pub fn catalog() -> (r: Vec<Tool>)
    ensures
        r@ == catalog_order(),
{
    let r = vec![
        Tool::AnalyzeProject,
        Tool::GetPatterns,
        Tool::SearchPatterns,
        Tool::TrainPattern,
        Tool::GetStatistics,
        Tool::GetHelp,
    ];
    assert(r@ =~= catalog_order());
    r
}

/// One argument of a tool: its name, its JSON type, whether it is required,
/// and a sentence for the catalog.
#[derive(Clone, Copy, Debug)]
pub struct ToolArgument {
    pub name: &'static str,
    pub json_type: &'static str,
    pub required: bool,
    pub description: &'static str,
}

/// An argument's name, JSON type and whether it is required.
pub type ArgumentModel = (Seq<char>, Seq<char>, bool);

/// The names, JSON types and required flags of a list of arguments.
pub open spec fn arguments_view(v: Seq<ToolArgument>) -> Seq<ArgumentModel> {
    v.map_values(|a: ToolArgument| (a.name@, a.json_type@, a.required))
}

/// The arguments of each tool, in catalog order: `analyze-project` needs
/// `project_path`; `get-patterns` needs `framework`; `search-patterns` needs
/// nothing; `train-pattern` needs `id`, `category`, `framework`, `title`,
/// `description` and `code`; the last two tools take no arguments.
pub open spec fn tool_arguments(t: Tool) -> Seq<ArgumentModel> {
    match t {
        Tool::AnalyzeProject => seq![("project_path"@, "string"@, true)],
        Tool::GetPatterns => seq![("framework"@, "string"@, true), ("category"@, "string"@, false)],
        Tool::SearchPatterns => seq![
            ("query"@, "string"@, false),
            ("framework"@, "string"@, false),
            ("category"@, "string"@, false),
            ("tags"@, "array"@, false),
            ("min_score"@, "number"@, false),
        ],
        Tool::TrainPattern => seq![
            ("id"@, "string"@, true),
            ("category"@, "string"@, true),
            ("framework"@, "string"@, true),
            ("version"@, "string"@, false),
            ("title"@, "string"@, true),
            ("description"@, "string"@, true),
            ("code"@, "string"@, true),
            ("tags"@, "array"@, false),
        ],
        Tool::GetStatistics => Seq::empty(),
        Tool::GetHelp => Seq::empty(),
    }
}

fn arg(name: &'static str, json_type: &'static str, required: bool, description: &'static str) -> (r: ToolArgument)
    ensures
        r.name == name,
        r.json_type == json_type,
        r.required == required,
{
    ToolArgument { name, json_type, required, description }
}

impl Tool {
    /// What the tool does, in one sentence.
    pub fn description(&self) -> &'static str {
        match self {
            Tool::AnalyzeProject => "Analyze any project (Rust, Node, Python, .NET, Go, Java, PHP/Laravel/Vue) and get intelligent context about its structure, dependencies, and suggestions",
            Tool::GetPatterns => "Get code patterns for a specific framework and category",
            Tool::SearchPatterns => "Search for patterns with advanced criteria including query text, tags, and minimum score",
            Tool::TrainPattern => "Add a new code pattern to the training system",
            Tool::GetStatistics => "Get statistics about the pattern database",
            Tool::GetHelp => "Get usage instructions for this MCP server. Call this first to understand how to use the available tools effectively.",
        }
    }

    /// The arguments the tool takes, in catalog order.
    pub fn arguments(&self) -> (r: Vec<ToolArgument>)
        ensures
            arguments_view(r@) == tool_arguments(*self),
    {
        let r = match self {
            Tool::AnalyzeProject => vec![
                arg("project_path", "string", true, "Path to the project directory (containing Cargo.toml, package.json, .csproj, pyproject.toml, go.mod, pom.xml, or composer.json)"),
            ],
            Tool::GetPatterns => vec![
                arg("framework", "string", true, "Framework name (e.g., 'blazor-server', 'aspnet-core')"),
                arg("category", "string", false, "Pattern category (e.g., 'lifecycle', 'dependency-injection')"),
            ],
            Tool::SearchPatterns => vec![
                arg("query", "string", false, "Search query text (searches in title, description, and code)"),
                arg("framework", "string", false, "Filter by framework"),
                arg("category", "string", false, "Filter by category"),
                arg("tags", "array", false, "Filter by tags"),
                arg("min_score", "number", false, "Minimum relevance score (0.0 - 1.0)"),
            ],
            Tool::TrainPattern => vec![
                arg("id", "string", true, "Unique identifier for the pattern"),
                arg("category", "string", true, "Pattern category"),
                arg("framework", "string", true, "Target framework"),
                arg("version", "string", false, "Framework version"),
                arg("title", "string", true, "Pattern title"),
                arg("description", "string", true, "Pattern description"),
                arg("code", "string", true, "Code example"),
                arg("tags", "array", false, "Pattern tags"),
            ],
            Tool::GetStatistics => vec![],
            Tool::GetHelp => vec![],
        };
        assert(arguments_view(r@) =~= tool_arguments(*self));
        r
    }
}

/// Baseline relevance of a pattern stored through `train-pattern`, in millionths.
pub const TRAINED_RELEVANCE: u32 = 800_000;

/// The arguments of a `train-pattern` call; an absent argument is `None`.
#[derive(Clone, Debug)]
pub struct TrainArgs {
    pub id: Option<String>,
    pub category: Option<String>,
    pub framework: Option<String>,
    pub version: Option<String>,
    pub title: Option<String>,
    pub description: Option<String>,
    pub code: Option<String>,
    pub tags: Vec<String>,
}

/// A required argument of `train-pattern`.
#[derive(Clone, Copy, Debug, PartialEq, Eq, Structural)]
pub enum TrainField {
    Id,
    Category,
    Framework,
    Title,
    Description,
    Code,
}

/// Why a `train-pattern` call fails.
#[derive(Clone, Copy, Debug, PartialEq, Eq, Structural)]
pub enum TrainError {
    Missing(TrainField),
    Invalid(PatternError),
}

/// The sentence that describes each failure.
pub open spec fn train_error_text(e: TrainError) -> Seq<char> {
    match e {
        TrainError::Missing(TrainField::Id) => "Missing id"@,
        TrainError::Missing(TrainField::Category) => "Missing category"@,
        TrainError::Missing(TrainField::Framework) => "Missing framework"@,
        TrainError::Missing(TrainField::Title) => "Missing title"@,
        TrainError::Missing(TrainField::Description) => "Missing description"@,
        TrainError::Missing(TrainField::Code) => "Missing code"@,
        TrainError::Invalid(p) => "Invalid pattern: "@ + crate::training::pattern_error_text(p),
    }
}

impl TrainError {
    /// A sentence describing the failure.
    pub fn message(&self) -> (r: String)
        ensures
            r@ == train_error_text(*self),
    {
        match self {
            TrainError::Missing(TrainField::Id) => String::from_str("Missing id"),
            TrainError::Missing(TrainField::Category) => String::from_str("Missing category"),
            TrainError::Missing(TrainField::Framework) => String::from_str("Missing framework"),
            TrainError::Missing(TrainField::Title) => String::from_str("Missing title"),
            TrainError::Missing(TrainField::Description) => String::from_str(
                "Missing description",
            ),
            TrainError::Missing(TrainField::Code) => String::from_str("Missing code"),
            TrainError::Invalid(e) => {
                let mut m = String::from_str("Invalid pattern: ");
                let detail = e.message();
                m.append(detail.as_str());
                m
            },
        }
    }
}

/// The first required argument that is absent, in the order id, category,
/// framework, title, description, code.
pub open spec fn first_missing(a: TrainArgs) -> Option<TrainField> {
    if a.id is None {
        Some(TrainField::Id)
    } else if a.category is None {
        Some(TrainField::Category)
    } else if a.framework is None {
        Some(TrainField::Framework)
    } else if a.title is None {
        Some(TrainField::Title)
    } else if a.description is None {
        Some(TrainField::Description)
    } else if a.code is None {
        Some(TrainField::Code)
    } else {
        None
    }
}

/// The pattern that complete arguments describe at time `now`: never used,
/// baseline relevance 0.8, version `10.0` unless given, both times `now`.
pub open spec fn trained_pattern(a: TrainArgs, now: i64) -> PatternModel {
    PatternModel {
        id: a.id->0@,
        category: a.category->0@,
        framework: a.framework->0@,
        version: match a.version {
            Some(v) => v@,
            None => "10.0"@,
        },
        title: a.title->0@,
        description: a.description->0@,
        code: a.code->0@,
        tags: strings_view(a.tags@),
        usage_count: 0,
        relevance_score: TRAINED_RELEVANCE,
        created_at: now,
        updated_at: now,
    }
}

fn take(o: &Option<String>) -> (r: String)
    requires
        o is Some,
    ensures
        r@ == o->0@,
{
    match o {
        Some(s) => s.clone(),
        None => String::new(),
    }
}

/// Builds the pattern that a `train-pattern` call describes at time `now`.
pub fn pattern_from_args(args: &TrainArgs, now: i64) -> (r: Result<CodePattern, TrainField>)
    ensures
        match r {
            Ok(p) => first_missing(*args) is None && p@ == trained_pattern(*args, now),
            Err(f) => first_missing(*args) == Some(f),
        },
{
    if args.id.is_none() {
        return Err(TrainField::Id);
    }
    if args.category.is_none() {
        return Err(TrainField::Category);
    }
    if args.framework.is_none() {
        return Err(TrainField::Framework);
    }
    if args.title.is_none() {
        return Err(TrainField::Title);
    }
    if args.description.is_none() {
        return Err(TrainField::Description);
    }
    if args.code.is_none() {
        return Err(TrainField::Code);
    }
    let version = match &args.version {
        Some(v) => v.clone(),
        None => String::from_str("10.0"),
    };
    Ok(CodePattern {
        id: take(&args.id),
        category: take(&args.category),
        framework: take(&args.framework),
        version,
        title: take(&args.title),
        description: take(&args.description),
        code: take(&args.code),
        tags: copy_strings(&args.tags),
        usage_count: 0,
        relevance_score: TRAINED_RELEVANCE,
        created_at: now,
        updated_at: now,
    })
}

impl TrainingManager {
    /// Handles a `train-pattern` call at time `now`: builds the pattern and
    /// adds it. On success the stored pattern is returned, for the caller to
    /// save and confirm; on failure the store is unchanged.
    pub fn train_pattern_at(&mut self, args: &TrainArgs, now: i64) -> (r: Result<CodePattern, TrainError>)
        requires
            old(self).wf(),
            old(self)@.len() < usize::MAX,
        ensures
            final(self).wf(),
            final(self).root() == old(self).root(),
            match r {
                Ok(p) => first_missing(*args) is None && valid_pattern(trained_pattern(*args, now))
                    && p@ == trained_pattern(*args, now)
                    && final(self)@ == old(self)@.push(trained_pattern(*args, now)),
                Err(TrainError::Missing(f)) => first_missing(*args) == Some(f) && final(self)@
                    == old(self)@,
                Err(TrainError::Invalid(e)) => first_missing(*args) is None && pattern_error(
                    trained_pattern(*args, now),
                ) == Some(e) && final(self)@ == old(self)@,
            },
    {
        let p = match pattern_from_args(args, now) {
            Ok(p) => p,
            Err(f) => {
                return Err(TrainError::Missing(f));
            },
        };
        let kept = p.copy();
        match self.add_pattern(p, now) {
            Ok(()) => {
                assert(stamped(kept@, now) == kept@);
                Ok(kept)
            },
            Err(e) => Err(TrainError::Invalid(e)),
        }
    }
}

} // verus!
