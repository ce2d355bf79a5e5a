use mcp_dotnet_context::codec::CodecError;
use mcp_dotnet_context::rpc::TrainError;
use mcp_dotnet_context::training::PatternError;
use mcp_dotnet_context::validate::FrameworkError;
use mcp_dotnet_context::rpc::{
    catalog, classify_method, is_ignored_notification, pattern_from_args, protocol_version,
    tool_of, Method, Tool, TrainArgs, TrainField, INTERNAL_ERROR, PARSE_ERROR,
};

#[test]
fn initialize_advertises_protocol() {
    assert_eq!(classify_method("initialize"), Method::Initialize);
    assert_eq!(protocol_version(), "2024-11-05");
}

#[test]
fn tools_list_has_six_tools() {
    let names: Vec<&str> = catalog().iter().map(|t| t.name()).collect();
    assert_eq!(
        names,
        vec!["analyze-project", "get-patterns", "search-patterns", "train-pattern", "get-statistics", "get-help"]
    );
    let train = Tool::TrainPattern.arguments();
    let required: Vec<&str> = train.iter().filter(|a| a.required).map(|a| a.name).collect();
    assert_eq!(required, vec!["id", "category", "framework", "title", "description", "code"]);
    assert!(Tool::GetHelp.arguments().is_empty());
}

#[test]
fn methods_route() {
    assert_eq!(classify_method("tools/list"), Method::ToolsList);
    assert_eq!(classify_method("tools/call"), Method::ToolsCall);
    assert_eq!(classify_method("prompts/list"), Method::PromptsList);
    assert_eq!(classify_method("resources/list"), Method::ResourcesList);
    assert_eq!(classify_method("tools/lists"), Method::Unknown);
    assert_eq!(PARSE_ERROR, -32700);
    assert_eq!(INTERNAL_ERROR, -32603);
}

#[test]
fn notifications_without_id_are_dropped() {
    assert!(is_ignored_notification(false, "notifications/initialized"));
    assert!(!is_ignored_notification(true, "notifications/initialized"));
    assert!(!is_ignored_notification(false, "initialize"));
}

#[test]
fn tools_route_by_name() {
    assert_eq!(tool_of("search-patterns"), Some(Tool::SearchPatterns));
    assert_eq!(tool_of("get-help"), Some(Tool::GetHelp));
    assert_eq!(tool_of("delete-pattern"), None);
}

#[test]
fn train_arguments_are_checked_in_order() {
    let mut args = TrainArgs {
        id: None,
        category: None,
        framework: Some("vue".to_string()),
        version: Some("3.4".to_string()),
        title: Some("t".to_string()),
        description: Some("d".to_string()),
        code: Some("c".to_string()),
        tags: vec!["x".to_string()],
    };
    assert_eq!(pattern_from_args(&args, 1).unwrap_err(), TrainField::Id);
    args.id = Some("i".to_string());
    assert_eq!(pattern_from_args(&args, 1).unwrap_err(), TrainField::Category);
    args.category = Some("k".to_string());
    let p = pattern_from_args(&args, 1).unwrap();
    assert_eq!(p.version, "3.4");
    assert_eq!(p.tags, vec!["x".to_string()]);
}

#[test]
fn tool_arguments_follow_the_catalog() {
    let a = Tool::AnalyzeProject.arguments();
    assert_eq!(a.len(), 1);
    assert_eq!((a[0].name, a[0].json_type, a[0].required), ("project_path", "string", true));
    let g = Tool::GetPatterns.arguments();
    assert_eq!(g.iter().map(|x| (x.name, x.required)).collect::<Vec<_>>(), vec![("framework", true), ("category", false)]);
    assert!(Tool::SearchPatterns.arguments().iter().all(|x| !x.required));
    assert!(Tool::GetStatistics.arguments().is_empty());
    assert!(!Tool::AnalyzeProject.arguments()[0].description.is_empty());
}

#[test]
fn failure_messages() {
    assert_eq!(FrameworkError::ParentReference.message(), "Framework name cannot contain '..'");
    assert_eq!(PatternError::CategoryTooLong.message(), "Pattern category too long (max 64 characters)");
    assert_eq!(
        TrainError::Invalid(PatternError::InvalidFramework(FrameworkError::Colon)).message(),
        "Invalid pattern: Framework name cannot contain ':'"
    );
    assert_eq!(TrainError::Missing(TrainField::Code).message(), "Missing code");
    assert_eq!(CodecError::InvalidContentLength.message(), "Invalid Content-Length value");
}
