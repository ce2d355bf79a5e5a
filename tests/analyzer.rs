use mcp_dotnet_context::analyzer::{GenericAnalyzer, ProjectAnalyzer};
use mcp_dotnet_context::config::Config;
use mcp_dotnet_context::context::{
    build_generic_analysis_at, detect_framework_from_project, generate_project_suggestions,
    get_patterns_for_project_at, project_statistics,
};
use mcp_dotnet_context::detector::{file_extension, ProjectDetector};
use mcp_dotnet_context::training::TrainingManager;
use mcp_dotnet_context::types::{
    CodePattern, Dependency, Project, ProjectMetadata, ProjectType, SeverityLevel, SourceFile,
};

fn names(list: &[&str]) -> Vec<String> {
    list.iter().map(|s| s.to_string()).collect()
}

fn dep(name: &str, version: &str) -> Dependency {
    Dependency { name: name.to_string(), version: version.to_string(), dev_only: false }
}

fn project(t: ProjectType, deps: Vec<Dependency>, extra: &[(&str, &str)]) -> Project {
    let mut metadata = ProjectMetadata::empty();
    metadata.extra = extra.iter().map(|(k, v)| (k.to_string(), v.to_string())).collect();
    Project {
        path: "/p".to_string(),
        name: "p".to_string(),
        project_type: t,
        version: None,
        dependencies: deps,
        files: vec![],
        metadata,
    }
}

#[test]
fn test_detect_rust_project() {
    assert_eq!(ProjectDetector::detect(&names(&["Cargo.toml"])), ProjectType::Rust);
}

#[test]
fn test_detect_node_project() {
    assert_eq!(ProjectDetector::detect(&names(&["package.json"])), ProjectType::Node);
}

#[test]
fn test_detect_unknown() {
    assert_eq!(ProjectDetector::detect(&names(&[])), ProjectType::Unknown);
}

#[test]
fn detection_priority() {
    assert_eq!(ProjectDetector::detect(&names(&["package.json", "App.csproj"])), ProjectType::DotNet);
    assert_eq!(ProjectDetector::detect(&names(&["package.json", "composer.json"])), ProjectType::Php);
    assert_eq!(ProjectDetector::detect(&names(&["requirements.txt"])), ProjectType::Python);
    assert_eq!(ProjectDetector::detect(&names(&["go.mod"])), ProjectType::Go);
    assert_eq!(ProjectDetector::detect(&names(&["build.gradle.kts"])), ProjectType::Java);
    assert_eq!(ProjectDetector::detect(&names(&[".csproj"])), ProjectType::Unknown);
}

#[test]
fn extensions_follow_path_rules() {
    assert_eq!(file_extension("a.tar.gz"), Some(vec!['g', 'z']));
    assert_eq!(file_extension(".bashrc"), None);
    assert_eq!(file_extension(".."), None);
    assert_eq!(file_extension("noext"), None);
    assert_eq!(file_extension("x."), Some(vec![]));
}

#[test]
fn extension_and_config_tables() {
    assert_eq!(ProjectDetector::get_source_extensions(&ProjectType::Python), vec!["py", "pyi"]);
    assert!(ProjectDetector::get_source_extensions(&ProjectType::Unknown).is_empty());
    assert_eq!(ProjectDetector::get_config_file(&ProjectType::Go), Some("go.mod"));
    assert_eq!(ProjectDetector::get_config_file(&ProjectType::DotNet), None);
    assert_eq!(ProjectType::DotNet.as_str(), "dotnet");
    assert_eq!(ProjectType::Unknown.as_str(), "unknown");
}

#[test]
fn framework_heuristic() {
    let p = project(ProjectType::DotNet, vec![dep("Microsoft.AspNetCore.Components.Web", "10.0")], &[]);
    assert_eq!(detect_framework_from_project(&p), "blazor-server");
    let p = project(ProjectType::DotNet, vec![dep("Microsoft.AspNetCore.Mvc", "10.0")], &[]);
    assert_eq!(detect_framework_from_project(&p), "aspnet-core");
    let p = project(ProjectType::Node, vec![dep("express", "4.0")], &[]);
    assert_eq!(detect_framework_from_project(&p), "express");
    let p = project(ProjectType::Node, vec![dep("express", "4.0")], &[("framework", "react")]);
    assert_eq!(detect_framework_from_project(&p), "react");
    let p = project(ProjectType::Node, vec![dep("next", "14")], &[]);
    assert_eq!(detect_framework_from_project(&p), "nextjs");
    let p = project(ProjectType::Php, vec![], &[("framework", "laravel"), ("frontend", "vue")]);
    assert_eq!(detect_framework_from_project(&p), "laravel-vue");
    let p = project(ProjectType::Php, vec![], &[("framework", "symfony"), ("frontend", "vue")]);
    assert_eq!(detect_framework_from_project(&p), "symfony");
    let p = project(ProjectType::Php, vec![], &[]);
    assert_eq!(detect_framework_from_project(&p), "php");
    let p = project(ProjectType::Go, vec![dep("github.com/gin-gonic/gin", "v1")], &[]);
    assert_eq!(detect_framework_from_project(&p), "gin");
    let p = project(ProjectType::Unknown, vec![], &[]);
    assert_eq!(detect_framework_from_project(&p), "generic");
}

#[test]
fn php_framework_detection() {
    let deps = vec![dep("symfony/console", "6"), dep("symfony/framework-bundle", "6")];
    assert_eq!(GenericAnalyzer::detect_php_framework(&deps, &names(&[])), Some("symfony".to_string()));
    assert_eq!(GenericAnalyzer::detect_php_framework(&vec![], &names(&["artisan"])), Some("laravel".to_string()));
    assert_eq!(GenericAnalyzer::detect_php_framework(&vec![dep("yiisoft/yii2", "2")], &names(&[])), Some("yii".to_string()));
    assert_eq!(GenericAnalyzer::detect_php_framework(&vec![dep("symfony/console", "6")], &names(&[])), None);
    let (name, version, deps, _) = GenericAnalyzer::parse_unknown_project(None);
    assert_eq!(name, "Unknown");
    assert!(version.is_none() && deps.is_empty());
}

#[test]
fn suggestions_follow_project_facts() {
    let p = project(ProjectType::Node, vec![dep("express", "3.2")], &[]);
    let s = generate_project_suggestions(&p, &names(&[]), "express", true);
    assert_eq!(s.len(), 2);
    assert_eq!(s[0].severity, SeverityLevel::Warning);
    assert_eq!(s[0].category, "security");
    assert_eq!(s[1].message, "No patterns found for framework 'express'. Consider adding patterns with train-pattern.");
    let p = project(ProjectType::Python, vec![], &[]);
    let s = generate_project_suggestions(&p, &names(&["setup.py"]), "python", false);
    assert_eq!(s.len(), 1);
    assert_eq!(s[0].category, "best-practices");
    let mut big = project(ProjectType::Go, vec![], &[]);
    for i in 0..101 {
        big.files.push(SourceFile { path: format!("f{}.go", i), language: "go".to_string(), size_bytes: 1, symbols: vec![] });
    }
    let s = generate_project_suggestions(&big, &names(&[]), "go", false);
    assert_eq!(s.len(), 1);
    assert_eq!(s[0].message, "Large project with 101 files. Consider modular organization.");
    let p = project(ProjectType::Php, vec![dep("laravel/framework", "^8.0")], &[("framework", "laravel")]);
    let s = generate_project_suggestions(&p, &names(&[]), "laravel", false);
    let cats: Vec<&str> = s.iter().map(|x| x.category.as_str()).collect();
    assert_eq!(cats, vec!["configuration", "upgrade"]);
}

fn pat(id: &str, framework: &str, relevance: u32) -> CodePattern {
    CodePattern {
        id: id.to_string(),
        category: "c".to_string(),
        framework: framework.to_string(),
        version: "1".to_string(),
        title: "t".to_string(),
        description: "d".to_string(),
        code: "x".to_string(),
        tags: vec![],
        usage_count: 0,
        relevance_score: relevance,
        created_at: 0,
        updated_at: 0,
    }
}

#[test]
fn project_patterns_need_score_and_stop_at_ten() {
    let mut list = vec![pat("low", "axum", 600_000)];
    for i in 0..12 {
        list.push(pat(&format!("p{}", i), "axum", 800_000));
    }
    list.push(pat("other", "rust", 900_000));
    let mut store = TrainingManager::new("s".to_string());
    store.load_patterns_from(list);
    let found = get_patterns_for_project_at(&store, "axum", 1_000_000_000);
    assert_eq!(found.len(), 10);
    assert!(found.iter().all(|p| p.framework == "axum" && p.id != "low"));
    assert_eq!(found[0].id, "p0");
    let p = project(ProjectType::Rust, vec![dep("axum", "0.7")], &[]);
    let analysis = build_generic_analysis_at(p, &names(&["Cargo.toml"]), Some(&store), 1_000_000_000);
    assert_eq!(analysis.patterns.len(), 10);
    assert_eq!(analysis.statistics.framework_version, "unknown");
    let stats = project_statistics(&analysis.project);
    assert_eq!(stats.package_count, 1);
}

#[test]
fn config_defaults() {
    let c = Config::default_with_base("data".to_string());
    assert_eq!(c.storage.base_path, "data");
    assert_eq!(c.storage.patterns_file, "patterns");
    assert_eq!(c.server.name, "mcp-dotnet-context");
    assert_eq!(c.analyzer.target_frameworks.len(), 3);
    let a = ProjectAnalyzer::new(vec!["bin/**".to_string()]);
    assert_eq!(a.ignore_patterns.len(), 1);
}

fn dev(name: &str) -> Dependency {
    Dependency { name: name.to_string(), version: "1".to_string(), dev_only: true }
}

#[test]
fn node_and_php_front_ends() {
    assert_eq!(GenericAnalyzer::node_framework(&vec![dep("vue", "3"), dep("react", "18")]), Some("react".to_string()));
    assert_eq!(GenericAnalyzer::node_framework(&vec![dev("react"), dep("next", "14")]), Some("next".to_string()));
    assert_eq!(GenericAnalyzer::node_framework(&vec![dep("express", "4")]), None);
    let (fe, bundler) = GenericAnalyzer::php_frontend(&vec![dev("vue"), dev("vite"), dev("laravel-mix")]);
    assert_eq!(fe, Some("vue".to_string()));
    assert_eq!(bundler, Some("laravel-mix".to_string()));
    let (fe, bundler) = GenericAnalyzer::php_frontend(&vec![dep("vite", "5")]);
    assert_eq!((fe, bundler), (None, None));
}

#[test]
fn php_requirement_is_split_off() {
    let (deps, php) = GenericAnalyzer::split_php_requirement(vec![dep("laravel/framework", "^10"), dep("php", "^8.1"), dep("guzzle", "7")]);
    assert_eq!(php, Some("^8.1".to_string()));
    let names: Vec<&str> = deps.iter().map(|d| d.name.as_str()).collect();
    assert_eq!(names, vec!["laravel/framework", "guzzle"]);
    let (deps, php) = GenericAnalyzer::split_php_requirement(vec![]);
    assert!(deps.is_empty() && php.is_none());
}

#[test]
fn no_pattern_advice_only_without_framework_patterns() {
    let mut store = TrainingManager::new("s".to_string());
    store.load_patterns_from(vec![pat("a1", "axum", 100_000)]);
    let p = project(ProjectType::Rust, vec![dep("axum", "0.7")], &[]);
    let analysis = build_generic_analysis_at(p, &names(&[]), Some(&store), 1_000_000_000);
    assert!(analysis.suggestions.iter().all(|s| s.category != "patterns"));
    let p = project(ProjectType::Rust, vec![dep("tokio", "1")], &[]);
    let analysis = build_generic_analysis_at(p, &names(&[]), Some(&store), 1_000_000_000);
    assert!(analysis.suggestions.iter().any(|s| s.category == "patterns"));
}

#[test]
fn extra_metadata_keeps_keys_unique() {
    let mut m = ProjectMetadata::empty();
    m.set_extra("frontend", "vue".to_string());
    m.set_extra("bundler", "vite".to_string());
    m.set_extra("frontend", "react".to_string());
    assert_eq!(
        m.extra,
        vec![("frontend".to_string(), "react".to_string()), ("bundler".to_string(), "vite".to_string())]
    );
}
