//! Server configuration and its defaults.
use vstd::prelude::*;

verus! {

/// The whole configuration.
#[derive(Clone, Debug)]
pub struct Config {
    pub server: ServerConfig,
    pub analyzer: AnalyzerConfig,
    pub training: TrainingConfig,
    pub storage: StorageConfig,
}

/// How the server presents itself.
#[derive(Clone, Debug)]
pub struct ServerConfig {
    pub name: String,
    pub version: String,
    pub transport: String,
}

/// Settings of the project analyzers.
#[derive(Clone, Debug)]
pub struct AnalyzerConfig {
    pub target_frameworks: Vec<String>,
    pub ignore_patterns: Vec<String>,
    pub max_file_size_mb: usize,
    pub analyze_dependencies: bool,
}

/// Settings of the pattern library.
#[derive(Clone, Debug)]
pub struct TrainingConfig {
    pub enabled: bool,
    pub auto_extract_patterns: bool,
    pub min_pattern_occurrences: usize,
    pub categories: Vec<String>,
}

/// Where the pattern library lives: `base_path` joined with `patterns_file`,
/// a directory.
#[derive(Clone, Debug)]
pub struct StorageConfig {
    pub base_path: String,
    pub patterns_file: String,
    pub cache_dir: String,
}

fn text(s: &str) -> (r: String)
    ensures
        r@ == s@,
{
    String::from_str(s)
}

impl Config {
    /// The default configuration, storing patterns under `base_path`.
    pub fn default_with_base(base_path: String) -> (r: Config)
        ensures
            r.storage.base_path@ == base_path@,
            r.storage.patterns_file@ == "patterns"@,
            r.storage.cache_dir@ == "cache"@,
            r.server.name@ == "mcp-dotnet-context"@,
            r.server.version@ == "0.1.0"@,
            r.server.transport@ == "stdio"@,
            r.analyzer.max_file_size_mb == 10,
            r.analyzer.analyze_dependencies,
            r.training.enabled,
            r.training.auto_extract_patterns,
            r.training.min_pattern_occurrences == 3,
    {
        Config {
            server: ServerConfig {
                name: text("mcp-dotnet-context"),
                version: text("0.1.0"),
                transport: text("stdio"),
            },
            analyzer: AnalyzerConfig {
                target_frameworks: vec![text("net10.0"), text("net9.0"), text("net8.0")],
                ignore_patterns: vec![text("bin/**"), text("obj/**"), text("node_modules/**"), text(".git/**")],
                max_file_size_mb: 10,
                analyze_dependencies: true,
            },
            training: TrainingConfig {
                enabled: true,
                auto_extract_patterns: true,
                min_pattern_occurrences: 3,
                categories: vec![
                    text("patterns"),
                    text("best-practices"),
                    text("performance"),
                    text("security"),
                    text("blazor-server"),
                ],
            },
            storage: StorageConfig {
                base_path,
                patterns_file: text("patterns"),
                cache_dir: text("cache"),
            },
        }
    }
}

} // verus!
