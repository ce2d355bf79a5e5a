use mcp_dotnet_context::analyzer::GenericAnalyzer;

#[test]
fn xml_values_are_trimmed() {
    let csproj = "<Project>\n  <PropertyGroup>\n    <TargetFramework> net10.0 </TargetFramework>\n  </PropertyGroup>\n</Project>";
    assert_eq!(GenericAnalyzer::extract_xml_value(csproj, "TargetFramework"), Some("net10.0".to_string()));
    assert_eq!(GenericAnalyzer::extract_xml_value(csproj, "TargetFrameworks"), None);
    assert_eq!(GenericAnalyzer::extract_xml_value("<a>x", "a"), None);
}

#[test]
fn xml_attributes() {
    let line = r#"    <PackageReference Include="Microsoft.AspNetCore.Components" Version="10.0.0" />"#;
    assert_eq!(GenericAnalyzer::extract_xml_attr(line, "Include"), Some("Microsoft.AspNetCore.Components".to_string()));
    assert_eq!(GenericAnalyzer::extract_xml_attr(line, "Version"), Some("10.0.0".to_string()));
    assert_eq!(GenericAnalyzer::extract_xml_attr(line, "Other"), None);
}

#[test]
fn nuget_packages() {
    let csproj = "<ItemGroup>\r\n<PackageReference Include=\"A\" Version=\"1\" />\r\n<PackageReference Include=\"B\" />\r\n<PackageReference Version=\"3\" />\r\n</ItemGroup>";
    let deps = GenericAnalyzer::parse_nuget_packages(csproj);
    assert_eq!(deps.len(), 2);
    assert_eq!((deps[0].name.as_str(), deps[0].version.as_str()), ("A", "1"));
    assert_eq!((deps[1].name.as_str(), deps[1].version.as_str()), ("B", "*"));
}

#[test]
fn toml_values() {
    let cargo = "[package]\nname = \"demo\"\nversion=\"0.3.1\"\nedition = \"2021\"\n";
    assert_eq!(GenericAnalyzer::extract_toml_value(cargo, "name"), Some("demo".to_string()));
    assert_eq!(GenericAnalyzer::extract_toml_value(cargo, "version"), Some("0.3.1".to_string()));
    assert_eq!(GenericAnalyzer::extract_toml_value(cargo, "edition"), Some("2021".to_string()));
    assert_eq!(GenericAnalyzer::extract_toml_value(cargo, "authors"), None);
}

#[test]
fn cargo_dependencies() {
    let cargo = "[package]\nname = \"demo\"\n\n[dependencies]\nserde = \"1.0\"\n# comment\ntokio = { version = \"1\", features = [\"full\"] }\naxum=\"0.7\"\n\n[dev-dependencies]\ntempfile = \"3\"\n\n[features]\ndefault = []\n";
    let deps = GenericAnalyzer::parse_cargo_dependencies(cargo);
    let got: Vec<(&str, &str, bool)> = deps.iter().map(|d| (d.name.as_str(), d.version.as_str(), d.dev_only)).collect();
    assert_eq!(got, vec![("serde", "1.0", false), ("axum", "0.7", false), ("tempfile", "3", true)]);
    assert_eq!(GenericAnalyzer::parse_cargo_dep_line("serde = \"1\""), Some(("serde".to_string(), "1".to_string())));
    assert_eq!(GenericAnalyzer::parse_cargo_dep_line("serde"), None);
    assert_eq!(GenericAnalyzer::parse_cargo_dep_line("x = { path = \"../x\" }"), None);
}

#[test]
fn requirements() {
    let req = "django==4.2\n# tools\n\nrequests>=2.0\nflask\n";
    let deps = GenericAnalyzer::parse_requirements(req);
    let got: Vec<(&str, &str)> = deps.iter().map(|d| (d.name.as_str(), d.version.as_str())).collect();
    assert_eq!(got, vec![("django", "4.2"), ("requests", "2.0"), ("flask", "*")]);
}

#[test]
fn go_mod() {
    let m = "module example.com/app\n\ngo 1.22\n\nrequire (\n\tgithub.com/gin-gonic/gin v1.9.1\n\t// indirect note\n\tgolang.org/x/text v0.14.0 // indirect\n)\n";
    let (name, version, deps) = GenericAnalyzer::parse_go_mod(m);
    assert_eq!(name, "example.com/app");
    assert_eq!(version, Some("1.22".to_string()));
    let got: Vec<(&str, &str)> = deps.iter().map(|d| (d.name.as_str(), d.version.as_str())).collect();
    assert_eq!(got, vec![("github.com/gin-gonic/gin", "v1.9.1"), ("golang.org/x/text", "v0.14.0")]);
    let (name, version, deps) = GenericAnalyzer::parse_go_mod("");
    assert_eq!(name, "Unknown");
    assert!(version.is_none() && deps.is_empty());
}

#[test]
fn php_entry_points() {
    assert_eq!(
        GenericAnalyzer::php_entry_point(Some("laravel")),
        ("public/index.php".to_string(), "php artisan serve".to_string())
    );
    assert_eq!(
        GenericAnalyzer::php_entry_point(Some("symfony")),
        ("public/index.php".to_string(), "symfony server:start".to_string())
    );
    assert_eq!(
        GenericAnalyzer::php_entry_point(None),
        ("index.php".to_string(), "php -S localhost:8000".to_string())
    );
}
