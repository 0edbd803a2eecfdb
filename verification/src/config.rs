//! Configuration: the global settings with their defaults, and the per-project context
//! settings merged with command-line overrides.
use vstd::prelude::*;
use crate::context::{clone_strings, strings_of};
use crate::inference::DEFAULT_TEMPERATURE_BITS;
use crate::text::{owned, strs};

verus! {

/// Which model to use and how. The temperature is held as the bits of its IEEE-754 `f32`.
#[derive(Debug)]
pub struct ModelConfig {
    pub provider: String,
    pub model_name: String,
    pub api_key: Option<String>,
    pub base_url: Option<String>,
    pub max_tokens: usize,
    pub temperature_bits: u32,
}

/// Which files the context takes, and how much of them.
#[derive(Debug)]
pub struct ContextSettings {
    pub max_file_size_bytes: usize,
    pub max_total_tokens: usize,
    pub include_patterns: Vec<String>,
    pub exclude_patterns: Vec<String>,
}

/// Where tools run and what they refuse.
#[derive(Debug)]
pub struct ToolPaths {
    pub workspace_root: Option<String>,
    pub shell_timeout_secs: u64,
    pub blocked_commands: Vec<String>,
}

/// All settings.
#[derive(Debug)]
pub struct GlobalConfig {
    pub model: ModelConfig,
    pub context: ContextSettings,
    pub tools: ToolPaths,
}

impl Default for ModelConfig {
    /// A local Ollama model, `qwen3:30b`, 8192 tokens at temperature 0.2.
    fn default() -> (r: ModelConfig)
        ensures
            r.provider@ == "ollama"@,
            r.model_name@ == "qwen3:30b"@,
            r.api_key is None,
            r.base_url matches Some(u) && u@ == "http://localhost:11434"@,
            r.max_tokens == 8192,
            r.temperature_bits == DEFAULT_TEMPERATURE_BITS,
    {
        ModelConfig {
            provider: owned("ollama"),
            model_name: owned("qwen3:30b"),
            api_key: None,
            base_url: Some(owned("http://localhost:11434")),
            max_tokens: 8192,
            temperature_bits: DEFAULT_TEMPERATURE_BITS,
        }
    }
}

impl Default for ContextSettings {
    /// Rust sources and manifests of up to 1 MiB, 64000 tokens, outside the build and
    /// version-control directories.
    fn default() -> (r: ContextSettings)
        ensures
            r.max_file_size_bytes == 1_048_576,
            r.max_total_tokens == 64_000,
            strs(r.include_patterns@) == seq!["**/*.rs"@, "**/*.toml"@],
            strs(r.exclude_patterns@) == seq!["target/**"@, ".git/**"@],
    {
        let inc = strings_of(&["**/*.rs", "**/*.toml"]);
        let exc = strings_of(&["target/**", ".git/**"]);
        assert(strs(inc@) =~= seq!["**/*.rs"@, "**/*.toml"@]);
        assert(strs(exc@) =~= seq!["target/**"@, ".git/**"@]);
        ContextSettings { max_file_size_bytes: 1_048_576, max_total_tokens: 64_000, include_patterns: inc, exclude_patterns: exc }
    }
}

impl Default for ToolPaths {
    /// No fixed workspace, a 60-second shell timeout, and four refused commands.
    fn default() -> (r: ToolPaths)
        ensures
            r.workspace_root is None,
            r.shell_timeout_secs == 60,
            strs(r.blocked_commands@) == seq!["rm -rf /"@, "sudo"@, "mkfs"@, "dd"@],
    {
        let blocked = strings_of(&["rm -rf /", "sudo", "mkfs", "dd"]);
        assert(strs(blocked@) =~= seq!["rm -rf /"@, "sudo"@, "mkfs"@, "dd"@]);
        ToolPaths { workspace_root: None, shell_timeout_secs: 60, blocked_commands: blocked }
    }
}

impl Default for GlobalConfig {
    /// The defaults of each part.
    fn default() -> (r: GlobalConfig)
        ensures
            r.model.provider@ == "ollama"@,
            r.model.model_name@ == "qwen3:30b"@,
            r.model.api_key is None,
            r.model.base_url matches Some(u) && u@ == "http://localhost:11434"@,
            r.model.max_tokens == 8192,
            r.model.temperature_bits == DEFAULT_TEMPERATURE_BITS,
            r.context.max_file_size_bytes == 1_048_576,
            r.context.max_total_tokens == 64_000,
            strs(r.context.include_patterns@) == seq!["**/*.rs"@, "**/*.toml"@],
            strs(r.context.exclude_patterns@) == seq!["target/**"@, ".git/**"@],
            r.tools.workspace_root is None,
            r.tools.shell_timeout_secs == 60,
            strs(r.tools.blocked_commands@) == seq!["rm -rf /"@, "sudo"@, "mkfs"@, "dd"@],
    {
        GlobalConfig { model: ModelConfig::default(), context: ContextSettings::default(), tools: ToolPaths::default() }
    }
}

/// The context settings of the context crate: patterns, size limit and token budget.
#[derive(Debug)]
pub struct ContextConfig {
    pub includes: Vec<String>,
    pub exclude: Vec<String>,
    pub max_file_size_bytes: usize,
    pub max_total_tokens: usize,
}

impl Default for ContextConfig {
    /// Rust sources and manifests of up to 1 MiB and 64000 tokens, outside the build and
    /// version-control directories.
    fn default() -> (r: ContextConfig)
        ensures
            strs(r.includes@) == seq!["**/*.rs"@, "**/*.toml"@],
            strs(r.exclude@) == seq!["target/**"@, ".git/**"@],
            r.max_file_size_bytes == 1_048_576,
            r.max_total_tokens == 64_000,
    {
        let inc = strings_of(&["**/*.rs", "**/*.toml"]);
        let exc = strings_of(&["target/**", ".git/**"]);
        assert(strs(inc@) =~= seq!["**/*.rs"@, "**/*.toml"@]);
        assert(strs(exc@) =~= seq!["target/**"@, ".git/**"@]);
        ContextConfig { includes: inc, exclude: exc, max_file_size_bytes: 1_048_576, max_total_tokens: 64_000 }
    }
}

/// The context settings that a project's `.hummingbird.toml` may give; each may be absent.
#[derive(Debug)]
pub struct ProjectContextConfig {
    pub includes: Option<Vec<String>>,
    pub exclude: Option<Vec<String>>,
    pub max_file_size_bytes: Option<usize>,
    pub max_total_tokens: Option<usize>,
}

impl Default for ProjectContextConfig {
    /// Nothing given.
    fn default() -> (r: ProjectContextConfig)
        ensures
            r.includes is None,
            r.exclude is None,
            r.max_file_size_bytes is None,
            r.max_total_tokens is None,
    {
        ProjectContextConfig { includes: None, exclude: None, max_file_size_bytes: None, max_total_tokens: None }
    }
}

/// The context settings in force, every one of them decided.
#[derive(Debug)]
pub struct ResolvedContextConfig {
    pub includes: Vec<String>,
    pub exclude: Vec<String>,
    pub max_file_size_bytes: usize,
    pub max_total_tokens: usize,
}

/// The first of a command-line value, a file value and a default that is present.
pub open spec fn first_given<T>(cli: Option<T>, file: Option<T>, fallback: T) -> T {
    match cli {
        Some(v) => v,
        None => match file {
            Some(v) => v,
            None => fallback,
        },
    }
}

/// The text of an optional list of strings.
pub open spec fn opt_strs(v: Option<Vec<String>>) -> Option<Seq<Seq<char>>> {
    match v {
        Some(v) => Some(strs(v@)),
        None => None,
    }
}

impl ProjectContextConfig {
    /// Merges the file's settings with command-line overrides: a value given on the command
    /// line wins, then the file's, then the default (every path; the build and
    /// version-control directories excluded; 1 MiB; 64000 tokens).
    pub fn merge_with_cli(
        &self,
        cli_include: Option<Vec<String>>,
        cli_exclude: Option<Vec<String>>,
        cli_max_size: Option<usize>,
        cli_max_tokens: Option<usize>,
    ) -> (r: ResolvedContextConfig)
        ensures
            strs(r.includes@) == first_given(opt_strs(cli_include), opt_strs(self.includes), seq!["**/*"@]),
            strs(r.exclude@) == first_given(opt_strs(cli_exclude), opt_strs(self.exclude), seq!["target/**"@, ".git/**"@]),
            r.max_file_size_bytes == first_given(cli_max_size, self.max_file_size_bytes, 1_048_576usize),
            r.max_total_tokens == first_given(cli_max_tokens, self.max_total_tokens, 64_000usize),
    {
        let includes = match cli_include {
            Some(v) => v,
            None => match &self.includes {
                Some(v) => clone_strings(v),
                None => {
                    let d = strings_of(&["**/*"]);
                    assert(strs(d@) =~= seq!["**/*"@]);
                    d
                },
            },
        };
        let exclude = match cli_exclude {
            Some(v) => v,
            None => match &self.exclude {
                Some(v) => clone_strings(v),
                None => {
                    let d = strings_of(&["target/**", ".git/**"]);
                    assert(strs(d@) =~= seq!["target/**"@, ".git/**"@]);
                    d
                },
            },
        };
        let max_file_size_bytes = match cli_max_size {
            Some(v) => v,
            None => match self.max_file_size_bytes {
                Some(v) => v,
                None => 1_048_576,
            },
        };
        let max_total_tokens = match cli_max_tokens {
            Some(v) => v,
            None => match self.max_total_tokens {
                Some(v) => v,
                None => 64_000,
            },
        };
        ResolvedContextConfig { includes, exclude, max_file_size_bytes, max_total_tokens }
    }
}

impl Default for ResolvedContextConfig {
    /// The settings when neither the file nor the command line gives any.
    fn default() -> (r: ResolvedContextConfig)
        ensures
            strs(r.includes@) == seq!["**/*"@],
            strs(r.exclude@) == seq!["target/**"@, ".git/**"@],
            r.max_file_size_bytes == 1_048_576,
            r.max_total_tokens == 64_000,
    {
        ProjectContextConfig::default().merge_with_cli(None, None, None, None)
    }
}

} // verus!
