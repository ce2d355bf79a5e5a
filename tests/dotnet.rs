use mcp_dotnet_context::dotnet::{
    check_async_patterns, check_blazor_patterns, check_di_patterns, detect_dotnet_framework,
    generate_suggestions,
};
use mcp_dotnet_context::types::{
    CSharpFile, ClassInfo, DotNetProject, MethodInfo, NuGetPackage, SeverityLevel,
};

fn method(name: &str, ret: &str, is_async: bool) -> MethodInfo {
    MethodInfo { name: name.to_string(), return_type: ret.to_string(), parameters: vec![], modifiers: vec![], is_async }
}

fn class(name: &str, base: Option<&str>, methods: Vec<MethodInfo>) -> ClassInfo {
    ClassInfo {
        name: name.to_string(),
        modifiers: vec![],
        base_class: base.map(|b| b.to_string()),
        interfaces: vec![],
        methods,
        properties: vec![],
    }
}

fn project(packages: &[&str], classes: Vec<ClassInfo>) -> DotNetProject {
    DotNetProject {
        path: "/app".to_string(),
        name: "App".to_string(),
        target_framework: "net10.0".to_string(),
        language_version: "10.0".to_string(),
        packages: packages.iter().map(|p| NuGetPackage { name: p.to_string(), version: "1".to_string() }).collect(),
        project_references: vec![],
        files: vec![CSharpFile {
            path: "Pages/Counter.razor.cs".to_string(),
            namespace: None,
            usings: vec![],
            classes,
            interfaces: vec![],
        }],
    }
}

#[test]
fn dotnet_framework_from_packages() {
    assert_eq!(detect_dotnet_framework(&project(&["Microsoft.AspNetCore.Components.Web"], vec![])), "blazor-server");
    assert_eq!(detect_dotnet_framework(&project(&["Microsoft.AspNetCore.Mvc"], vec![])), "aspnet-core");
    assert_eq!(detect_dotnet_framework(&project(&["Microsoft.EntityFrameworkCore"], vec![])), "entity-framework");
    assert_eq!(detect_dotnet_framework(&project(&["Newtonsoft.Json"], vec![])), "dotnet");
}

#[test]
fn blazor_sync_initialisation_is_flagged() {
    let p = project(
        &[],
        vec![
            class("Counter", Some("ComponentBase"), vec![method("OnInitialized", "void", false)]),
            class("Fine", Some("ComponentBase"), vec![method("OnInitialized", "void", true)]),
            class("Plain", None, vec![method("OnInitialized", "void", false)]),
        ],
    );
    let notes = check_blazor_patterns(&p);
    assert_eq!(notes.len(), 1);
    assert_eq!(notes[0].category, "blazor-lifecycle");
    assert_eq!(
        notes[0].message,
        "Component 'Counter' uses synchronous OnInitialized(). Consider using OnInitializedAsync() for better performance."
    );
    assert_eq!(notes[0].file.as_deref(), Some("Pages/Counter.razor.cs"));
}

#[test]
fn async_void_is_flagged() {
    let p = project(&[], vec![class("Svc", None, vec![method("Load", "void", true), method("Save", "Task", true)])]);
    let notes = check_async_patterns(&p);
    assert_eq!(notes.len(), 1);
    assert_eq!(notes[0].severity, SeverityLevel::Warning);
    assert_eq!(
        notes[0].message,
        "Method 'Load' in class 'Svc' is async void. Use async Task instead for proper exception handling."
    );
}

#[test]
fn suggestions_in_order() {
    let p = project(
        &[],
        vec![class("Counter", Some("ComponentBase"), vec![method("OnInitialized", "void", false), method("Go", "void", true)])],
    );
    let all = generate_suggestions(&p, "blazor-server");
    let cats: Vec<&str> = all.iter().map(|s| s.category.as_str()).collect();
    assert_eq!(cats, vec!["blazor-lifecycle", "async-patterns", "dependency-injection"]);
    let other = generate_suggestions(&p, "dotnet");
    assert_eq!(other.len(), 2);
    assert_eq!(check_di_patterns(&p)[0].severity, SeverityLevel::Info);
}
