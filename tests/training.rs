use mcp_dotnet_context::rpc::{TrainArgs, TrainError};
use mcp_dotnet_context::scoring::{score_pattern_at, SearchCriteria};
use mcp_dotnet_context::training::{pattern_file_name, PatternError, TrainingManager};
use mcp_dotnet_context::types::CodePattern;
use mcp_dotnet_context::validate::{sanitize_framework_name, FrameworkError};

const OCT_2025: i64 = 1_761_350_400;
const JAN_2024: i64 = 1_704_067_200;
const DAY: i64 = 86_400;
const NOW: i64 = 1_800_000_000;

#[allow(clippy::too_many_arguments)]
fn pattern(
    id: &str,
    category: &str,
    framework: &str,
    title: &str,
    description: &str,
    code: &str,
    tags: &[&str],
    usage_count: u64,
    relevance: u32,
    at: i64,
) -> CodePattern {
    CodePattern {
        id: id.to_string(),
        category: category.to_string(),
        framework: framework.to_string(),
        version: "10.0".to_string(),
        title: title.to_string(),
        description: description.to_string(),
        code: code.to_string(),
        tags: tags.iter().map(|t| t.to_string()).collect(),
        usage_count,
        relevance_score: relevance,
        created_at: at,
        updated_at: at,
    }
}

fn criteria(query: Option<&str>, category: Option<&str>, framework: Option<&str>) -> SearchCriteria {
    SearchCriteria {
        query: query.map(|s| s.to_string()),
        category: category.map(|s| s.to_string()),
        framework: framework.map(|s| s.to_string()),
        tags: vec![],
        min_score: 0,
    }
}

fn loaded(patterns: Vec<CodePattern>) -> TrainingManager {
    let mut manager = TrainingManager::new("patterns".to_string());
    manager.load_patterns_from(patterns);
    manager
}

#[test]
fn test_load_patterns() {
    let manager = loaded(vec![pattern(
        "test-pattern-1",
        "testing",
        "blazor-server",
        "Test Pattern",
        "A test pattern for unit tests",
        "public class TestClass { }",
        &["test", "sample"],
        0,
        800_000,
        OCT_2025,
    )]);
    assert_eq!(manager.get_all_patterns().len(), 1);
    let pattern = manager.get_pattern_by_id("test-pattern-1");
    assert!(pattern.is_some());
    let pattern = pattern.unwrap();
    assert_eq!(pattern.title, "Test Pattern");
    assert_eq!(pattern.framework, "blazor-server");
    assert_eq!(pattern.category, "testing");
}

#[test]
fn test_load_multiple_pattern_files() {
    let lifecycle = vec![pattern(
        "lifecycle-1",
        "lifecycle",
        "blazor-server",
        "Lifecycle",
        "Lifecycle pattern",
        "protected override async Task OnInitializedAsync() { }",
        &[],
        0,
        900_000,
        OCT_2025,
    )];
    let di = vec![pattern(
        "di-1",
        "dependency-injection",
        "blazor-server",
        "DI",
        "DI pattern",
        "services.AddScoped<IService, Service>();",
        &[],
        0,
        800_000,
        OCT_2025,
    )];
    let mut all = lifecycle;
    all.extend(di);
    let manager = loaded(all);
    assert_eq!(manager.get_all_patterns().len(), 2);
    assert!(manager.get_pattern_by_id("lifecycle-1").is_some());
    assert!(manager.get_pattern_by_id("di-1").is_some());
}

fn blazor_and_aspnet() -> TrainingManager {
    loaded(vec![
        pattern("blazor-1", "lifecycle", "blazor-server", "Blazor Pattern", "Blazor specific", "blazor code", &["blazor"], 0, 900_000, OCT_2025),
        pattern("aspnet-1", "lifecycle", "aspnet-core", "ASP.NET Pattern", "ASP.NET specific", "aspnet code", &["aspnet"], 0, 800_000, OCT_2025),
    ])
}

#[test]
fn test_search_by_framework() {
    let manager = blazor_and_aspnet();
    let results = manager.search_patterns(&criteria(None, None, Some("blazor-server")), NOW);
    assert_eq!(results.len(), 1);
    assert_eq!(results[0].0.id, "blazor-1");
}

#[test]
fn test_search_by_category() {
    let manager = loaded(vec![
        pattern("lc-1", "lifecycle", "blazor-server", "Lifecycle", "Lifecycle", "lifecycle", &[], 0, 900_000, OCT_2025),
        pattern("di-1", "dependency-injection", "blazor-server", "DI", "DI", "di", &[], 0, 800_000, OCT_2025),
    ]);
    let results = manager.search_by_framework_and_category("blazor-server", "lifecycle", NOW);
    assert_eq!(results.len(), 1);
    assert_eq!(results[0].id, "lc-1");
}

fn scoring_store() -> TrainingManager {
    loaded(vec![
        pattern("high-score", "testing", "blazor-server", "High Score Pattern", "This pattern has high relevance", "high score code", &["test"], 10, 950_000, JAN_2024),
        pattern("low-score", "testing", "blazor-server", "Low Score Pattern", "This pattern has low relevance", "low score code", &["test"], 0, 500_000, JAN_2024),
    ])
}

#[test]
fn test_search_with_scoring() {
    let manager = scoring_store();
    let results = manager.search_patterns(&criteria(Some("pattern"), Some("testing"), Some("blazor-server")), NOW);
    assert_eq!(results.len(), 2);
    let high = results.iter().find(|(p, _)| p.id == "high-score");
    let low = results.iter().find(|(p, _)| p.id == "low-score");
    assert!(high.is_some(), "high-score pattern should be found");
    assert!(low.is_some(), "low-score pattern should be found");
    assert!(high.unwrap().1 >= low.unwrap().1, "high-score should have >= score than low-score");
}

#[test]
fn popular_pattern_ranks_first() {
    let manager = scoring_store();
    let now = JAN_2024 + 400 * DAY;
    let results = manager.search_patterns(&criteria(Some("pattern"), None, None), now);
    assert_eq!(results.len(), 2);
    assert_eq!(results[0].0.id, "high-score");
    assert_eq!(results[1].0.id, "low-score");
    // 0.95 + 0.05 (one decade of use) + 0.30 title + 0.15 description
    assert_eq!(results[0].1, 1_450_000);
    // 0.5 + 0.30 title + 0.15 description
    assert_eq!(results[1].1, 950_000);
}

#[test]
fn scores_are_not_capped() {
    let manager = scoring_store();
    let now = JAN_2024 + DAY;
    let results = manager.search_patterns(&criteria(Some("pattern"), None, None), now);
    // the recency bonus applies too: 1.45 + 0.05
    assert_eq!(results[0].1, 1_500_000);
    assert!(results[0].1 > 1_000_000);
}

#[test]
fn search_scores_never_increase() {
    let manager = loaded(vec![
        pattern("a", "c", "f", "alpha", "x", "x", &[], 0, 100_000, JAN_2024),
        pattern("b", "c", "f", "beta", "x", "x", &[], 0, 900_000, JAN_2024),
        pattern("c", "c", "f", "gamma", "x", "x", &[], 0, 500_000, JAN_2024),
        pattern("d", "c", "f", "delta", "x", "x", &[], 0, 500_000, JAN_2024),
    ]);
    let results = manager.search_patterns(&criteria(None, None, None), JAN_2024 + 100 * DAY);
    let ids: Vec<&str> = results.iter().map(|(p, _)| p.id.as_str()).collect();
    assert_eq!(ids, vec!["b", "c", "d", "a"]);
    for w in results.windows(2) {
        assert!(w[0].1 >= w[1].1);
    }
}

#[test]
fn min_score_filters_results() {
    let manager = scoring_store();
    let mut c = criteria(None, None, None);
    c.min_score = 600_000;
    let results = manager.search_patterns(&c, JAN_2024 + 400 * DAY);
    assert_eq!(results.len(), 1);
    assert_eq!(results[0].0.id, "high-score");
}

#[test]
fn category_filter_keeps_only_that_category() {
    let manager = loaded(vec![
        pattern("x1", "one", "f", "t", "d", "c", &[], 0, 100_000, JAN_2024),
        pattern("x2", "two", "f", "t", "d", "c", &[], 0, 100_000, JAN_2024),
        pattern("x3", "one", "g", "t", "d", "c", &[], 0, 100_000, JAN_2024),
    ]);
    let results = manager.search_patterns(&criteria(None, Some("one"), None), JAN_2024);
    assert_eq!(results.len(), 2);
    assert!(results.iter().all(|(p, _)| p.category == "one"));
    let results = manager.search_patterns(&criteria(None, Some("one"), Some("g")), JAN_2024);
    assert_eq!(results.len(), 1);
    assert_eq!(results[0].0.id, "x3");
    let results = manager.search_patterns(&criteria(None, Some("three"), None), JAN_2024);
    assert!(results.is_empty());
}

#[test]
fn unknown_framework_search_is_empty() {
    let manager = blazor_and_aspnet();
    let results = manager.search_patterns(&criteria(None, None, Some("laravel")), NOW);
    assert!(results.is_empty());
}

#[test]
fn empty_load_gives_empty_store_and_searches() {
    let mut manager = blazor_and_aspnet();
    manager.load_patterns_from(vec![]);
    assert_eq!(manager.get_all_patterns().len(), 0);
    assert!(manager.search_patterns(&criteria(None, None, None), NOW).is_empty());
    assert!(manager.search_patterns(&criteria(Some("x"), Some("c"), Some("f")), NOW).is_empty());
    assert!(manager.search_by_framework_and_category("blazor-server", "lifecycle", NOW).is_empty());
    let stats = manager.get_statistics();
    assert_eq!(stats.total_patterns, 0);
    assert_eq!(stats.avg_relevance, 0);
}

#[test]
fn reload_is_idempotent() {
    let mut manager = blazor_and_aspnet();
    let again: Vec<CodePattern> = manager.get_all_patterns().to_vec();
    manager.load_patterns_from(again.clone());
    manager.load_patterns_from(again);
    assert_eq!(manager.get_all_patterns().len(), 2);
    assert_eq!(manager.get_all_patterns()[0].id, "blazor-1");
    assert_eq!(manager.get_all_patterns()[1].id, "aspnet-1");
}

#[test]
fn title_only_query_adds_title_bonus() {
    let p = pattern("t", "c", "f", "Secure Login Flow", "nothing here", "fn main() {}", &[], 0, 600_000, JAN_2024);
    let c = criteria(Some("LOGIN"), None, None);
    assert_eq!(score_pattern_at(&p, &c, JAN_2024 + 100 * DAY), 900_000);
    // within thirty days the recency bonus comes on top
    assert_eq!(score_pattern_at(&p, &c, JAN_2024 + DAY), 950_000);
}

#[test]
fn score_terms_have_exact_values() {
    let p = pattern("t", "c", "f", "Title", "Described query", "query in code", &["a", "b"], 100, 200_000, 0);
    let mut c = criteria(Some("query"), None, None);
    c.tags = vec!["a".to_string(), "z".to_string(), "a".to_string(), "y".to_string()];
    // 0.2 + 0.10 popularity + 0.15 description + 0.05 code + 0.2 * 1 / 4 tags
    assert_eq!(score_pattern_at(&p, &c, 1_000_000_000), 550_000);
    // recency boundary: under thirty days gets the bonus, thirty days does not
    let q = pattern("t", "c", "f", "T", "D", "C", &[], 0, 0, 1_000);
    let none = criteria(None, None, None);
    assert_eq!(score_pattern_at(&q, &none, 1_000 + 2_591_999), 50_000);
    assert_eq!(score_pattern_at(&q, &none, 1_000 + 2_592_000), 0);
    let popular = pattern("t", "c", "f", "T", "D", "C", &[], 9, 0, 0);
    // 0.05 * log10(9) = 0.0477..., rounded down to a thousandth
    assert_eq!(score_pattern_at(&popular, &none, 1_000_000_000), 47_000);
}

#[test]
fn popularity_follows_log10() {
    let none = criteria(None, None, None);
    let expect = [(0u64, 0u64), (1, 0), (2, 15_000), (9, 47_000), (10, 50_000), (50, 84_000), (1000, 150_000), (u64::MAX, 963_000)];
    for (usage, bonus) in expect {
        let p = pattern("t", "c", "f", "T", "D", "C", &[], usage, 0, 0);
        assert_eq!(score_pattern_at(&p, &none, 1_000_000_000), bonus, "usage {}", usage);
    }
}

fn new_pattern(framework: &str) -> CodePattern {
    pattern("new-pattern", "testing", framework, "New Pattern", "A newly added pattern", "// new code", &["new"], 0, 750_000, 0)
}

#[test]
fn test_add_and_save_pattern() {
    let mut manager = TrainingManager::new("patterns".to_string());
    manager.add_pattern(new_pattern("blazor-server"), NOW).expect("Failed to add pattern");
    assert_eq!(manager.get_all_patterns().len(), 1);
    assert!(manager.get_all_patterns()[0].created_at != 0);
    let files = manager.save_plan().expect("save layout");
    assert_eq!(files.len(), 1);
    assert_eq!(files[0].file_name, "blazor-server-patterns.json");
    let mut reloaded = TrainingManager::new("patterns".to_string());
    let mut all = Vec::new();
    for f in files {
        all.extend(f.patterns);
    }
    reloaded.load_patterns_from(all);
    assert_eq!(reloaded.get_all_patterns().len(), 1);
    let loaded = reloaded.get_pattern_by_id("new-pattern");
    assert!(loaded.is_some());
    assert_eq!(loaded.unwrap().title, "New Pattern");
}

#[test]
fn add_stamps_times() {
    let mut manager = TrainingManager::new("p".to_string());
    let mut p = new_pattern("blazor-server");
    p.created_at = 5;
    p.updated_at = 5;
    manager.add_pattern(p, 77).unwrap();
    manager.add_pattern(new_pattern("blazor-server"), 88).unwrap();
    let all = manager.get_all_patterns();
    assert_eq!((all[0].created_at, all[0].updated_at), (5, 77));
    assert_eq!((all[1].created_at, all[1].updated_at), (88, 88));
}

#[test]
fn save_plan_groups_by_framework() {
    let manager = loaded(vec![
        pattern("a", "c", "f1", "t", "d", "x", &[], 0, 1, 0),
        pattern("b", "c", "f2", "t", "d", "x", &[], 0, 1, 0),
        pattern("c", "c", "f1", "t", "d", "x", &[], 0, 1, 0),
    ]);
    let files = manager.save_plan().unwrap();
    assert_eq!(files.len(), 2);
    assert_eq!(files[0].file_name, "f1-patterns.json");
    assert_eq!(files[0].patterns.iter().map(|p| p.id.as_str()).collect::<Vec<_>>(), vec!["a", "c"]);
    assert_eq!(files[1].file_name, "f2-patterns.json");
    assert_eq!(files[1].patterns.len(), 1);
}

#[test]
fn save_plan_refuses_unsafe_loaded_framework() {
    let manager = loaded(vec![pattern("a", "c", "../evil", "t", "d", "x", &[], 0, 1, 0)]);
    let err = manager.save_plan().unwrap_err();
    assert_eq!(err.0, "../evil");
    assert_eq!(err.1, FrameworkError::ParentReference);
}

#[test]
fn add_rejects_parent_reference_framework() {
    let mut manager = TrainingManager::new("patterns".to_string());
    let r = manager.add_pattern(new_pattern("../etc"), NOW);
    assert_eq!(r, Err(PatternError::InvalidFramework(FrameworkError::ParentReference)));
    assert_eq!(manager.get_all_patterns().len(), 0);
    assert_eq!(manager.save_plan().unwrap().len(), 0);
}

#[test]
fn add_rejects_unsafe_frameworks() {
    let long = "a".repeat(65);
    let cases: Vec<(&str, FrameworkError)> = vec![
        ("a/b", FrameworkError::PathSeparator),
        ("a\\b", FrameworkError::PathSeparator),
        ("a:b", FrameworkError::Colon),
        ("a\0b", FrameworkError::NullByte),
        (".hidden", FrameworkError::LeadingDot),
        (long.as_str(), FrameworkError::TooLong),
        ("", FrameworkError::Empty),
        ("a b", FrameworkError::InvalidCharacter),
        ("caf\u{e9}", FrameworkError::InvalidCharacter),
    ];
    for (fw, want) in cases {
        let mut manager = TrainingManager::new("patterns".to_string());
        assert_eq!(manager.add_pattern(new_pattern(fw), NOW), Err(PatternError::InvalidFramework(want)));
        assert_eq!(manager.get_all_patterns().len(), 0);
    }
    let ok = "a".repeat(64);
    assert_eq!(sanitize_framework_name(&ok), Ok(ok.clone()));
    assert_eq!(sanitize_framework_name("blazor-server_1.0"), Ok("blazor-server_1.0".to_string()));
}

#[test]
fn add_checks_id_and_category() {
    let mut manager = TrainingManager::new("p".to_string());
    let mut p = new_pattern("f");
    p.id = String::new();
    assert_eq!(manager.add_pattern(p, NOW), Err(PatternError::EmptyId));
    let mut p = new_pattern("f");
    p.id = "i".repeat(129);
    assert_eq!(manager.add_pattern(p, NOW), Err(PatternError::IdTooLong));
    let mut p = new_pattern("f");
    p.category = String::new();
    assert_eq!(manager.add_pattern(p, NOW), Err(PatternError::EmptyCategory));
    let mut p = new_pattern("f");
    p.category = "c".repeat(65);
    assert_eq!(manager.add_pattern(p, NOW), Err(PatternError::CategoryTooLong));
    let mut p = new_pattern("f");
    p.id = "i".repeat(128);
    p.category = "c".repeat(64);
    assert_eq!(manager.add_pattern(p, NOW), Ok(()));
    assert_eq!(PatternError::EmptyId.message(), "Pattern ID cannot be empty");
}

#[test]
fn pattern_file_names() {
    assert_eq!(pattern_file_name("blazor-server").unwrap(), "blazor-server-patterns.json");
    assert_eq!(pattern_file_name("../x"), Err(FrameworkError::ParentReference));
}

#[test]
fn test_increment_usage() {
    let mut manager = loaded(vec![pattern("usage-test", "testing", "blazor-server", "Usage Test", "Test usage counting", "code", &[], 0, 800_000, OCT_2025)]);
    assert_eq!(manager.get_pattern_by_id("usage-test").unwrap().usage_count, 0);
    manager.increment_usage("usage-test", NOW).unwrap();
    manager.increment_usage("usage-test", NOW).unwrap();
    assert_eq!(manager.get_pattern_by_id("usage-test").unwrap().usage_count, 2);
    assert_eq!(manager.increment_usage("missing", NOW), Err("Pattern not found: missing".to_string()));
    manager.increment_usage("usage-test", 42).unwrap();
    assert_eq!(manager.get_pattern_by_id("usage-test").unwrap().updated_at, 42);
}

#[test]
fn test_statistics() {
    let manager = loaded(vec![
        pattern("p1", "lifecycle", "blazor-server", "P1", "P1", "p1", &[], 5, 900_000, OCT_2025),
        pattern("p2", "dependency-injection", "blazor-server", "P2", "P2", "p2", &[], 3, 800_000, OCT_2025),
    ]);
    let stats = manager.get_statistics();
    assert_eq!(stats.total_patterns, 2);
    assert_eq!(stats.total_usage, 8);
    assert_eq!(stats.avg_relevance, 850_000);
    assert_eq!(stats.categories.len(), 2);
    assert_eq!(stats.categories, vec!["lifecycle".to_string(), "dependency-injection".to_string()]);
    assert_eq!(stats.frameworks, vec!["blazor-server".to_string()]);
}

fn train_args(framework: &str) -> TrainArgs {
    TrainArgs {
        id: Some("p".to_string()),
        category: Some("c".to_string()),
        framework: Some(framework.to_string()),
        version: None,
        title: Some("t".to_string()),
        description: Some("d".to_string()),
        code: Some("c".to_string()),
        tags: vec![],
    }
}

#[test]
fn train_pattern_rejects_traversal() {
    let mut manager = TrainingManager::new("patterns".to_string());
    let r = manager.train_pattern_at(&train_args("../x"), 10);
    assert_eq!(r.unwrap_err(), TrainError::Invalid(PatternError::InvalidFramework(FrameworkError::ParentReference)));
    assert_eq!(manager.get_all_patterns().len(), 0);
    assert!(manager.save_plan().unwrap().is_empty());
}

#[test]
fn train_pattern_stores_defaults() {
    let mut manager = TrainingManager::new("patterns".to_string());
    let p = manager.train_pattern_at(&train_args("vue"), 10).unwrap();
    assert_eq!(p.version, "10.0");
    assert_eq!(p.relevance_score, 800_000);
    assert_eq!(p.usage_count, 0);
    assert_eq!((p.created_at, p.updated_at), (10, 10));
    assert_eq!(manager.get_all_patterns().len(), 1);
    let mut missing = train_args("vue");
    missing.title = None;
    assert_eq!(manager.train_pattern_at(&missing, 10).unwrap_err().message(), "Missing title");
    assert_eq!(manager.get_all_patterns().len(), 1);
}

#[test]
fn get_patterns_with_and_without_category() {
    let manager = loaded(vec![
        pattern("a", "one", "f", "t", "d", "c", &[], 0, 100_000, JAN_2024),
        pattern("b", "two", "f", "t", "d", "c", &[], 0, 200_000, JAN_2024),
        pattern("c", "one", "g", "t", "d", "c", &[], 0, 300_000, JAN_2024),
    ]);
    let all = manager.get_patterns("f", None, JAN_2024 + 100 * DAY);
    assert_eq!(all.iter().map(|p| p.id.as_str()).collect::<Vec<_>>(), vec!["b", "a"]);
    let one = manager.get_patterns("f", Some("one"), JAN_2024 + 100 * DAY);
    assert_eq!(one.iter().map(|p| p.id.as_str()).collect::<Vec<_>>(), vec!["a"]);
    assert!(manager.get_patterns("h", None, NOW).is_empty());
}
