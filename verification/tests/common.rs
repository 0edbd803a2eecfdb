use hummingbird::config::{GlobalConfig, ProjectContextConfig, ResolvedContextConfig};
use hummingbird::error::{HummingbirdError, Result};

#[test]
fn default_config_has_sensible_values() {
    let cfg = GlobalConfig::default();
    assert_eq!(cfg.model.provider, "ollama");
    assert_eq!(cfg.context.max_file_size_bytes, 1_048_576);
    assert!(!cfg.tools.blocked_commands.is_empty());
}

#[test]
fn default_model_settings() {
    let cfg = GlobalConfig::default();
    assert_eq!(cfg.model.model_name, "qwen3:30b");
    assert_eq!(cfg.model.base_url.as_deref(), Some("http://localhost:11434"));
    assert_eq!(cfg.model.max_tokens, 8192);
    assert_eq!(f32::from_bits(cfg.model.temperature_bits), 0.2f32);
    assert_eq!(cfg.tools.shell_timeout_secs, 60);
    assert_eq!(cfg.context.include_patterns, vec!["**/*.rs".to_string(), "**/*.toml".to_string()]);
}

#[test]
fn io_error_display() {
    let err = HummingbirdError::Io(std::io::Error::new(std::io::ErrorKind::NotFound, "file not found"));
    assert!(err.to_string().contains("IO error"));
}

#[test]
fn io_error_display_carries_the_message() {
    let err = HummingbirdError::Io(std::io::Error::new(std::io::ErrorKind::NotFound, "file not found"));
    assert_eq!(err.to_string(), "IO error: file not found");
}

#[test]
fn inference_error_display() {
    let err = HummingbirdError::Inference("model timeout".to_string());
    assert_eq!(err.to_string(), "Inference error: model timeout");
}

#[test]
fn config_error_display() {
    let err = HummingbirdError::Config("missing api_key".to_string());
    assert_eq!(err.to_string(), "Config error: missing api_key");
}

#[test]
fn token_limit_error_display() {
    let err = HummingbirdError::TokenLimitExceeded { requested: 8000, limit: 4096 };
    assert!(err.to_string().contains("8000"));
    assert!(err.to_string().contains("4096"));
}

#[test]
fn token_limit_error_text_exact() {
    let err = HummingbirdError::TokenLimitExceeded { requested: 8000, limit: 4096 };
    assert_eq!(err.to_string(), "Token limit exceeded: requested 8000, limit 4096");
}

#[test]
fn other_error_texts() {
    assert_eq!(HummingbirdError::Context("c".into()).to_string(), "Context error: c");
    assert_eq!(HummingbirdError::Tool("t".into()).to_string(), "Tool error: t");
    assert_eq!(HummingbirdError::Agent("a".into()).to_string(), "Agent error: a");
    assert_eq!(HummingbirdError::Network("n".into()).to_string(), "Network error: n");
    let json_err = serde_json::from_str::<serde_json::Value>("{").unwrap_err();
    let text = json_err.to_string();
    assert_eq!(HummingbirdError::Serialization(json_err).to_string(), format!("Serialization error: {text}"));
    let toml_err = toml::from_str::<toml::Value>("= 1").unwrap_err();
    let text = toml_err.to_string();
    assert_eq!(HummingbirdError::TomlParse(toml_err).to_string(), format!("TOML parse error: {text}"));
}

#[test]
fn result_alias_works() {
    let ok: Result<i32> = Ok(42);
    assert_eq!(ok.unwrap(), 42);
}

#[test]
fn cli_overrides_config_file() {
    let cfg = ProjectContextConfig {
        includes: Some(vec!["**/*.rs".to_string()]),
        exclude: None,
        max_file_size_bytes: Some(100),
        max_total_tokens: None,
    };
    let resolved = cfg.merge_with_cli(Some(vec!["**/*.py".to_string()]), None, None, None);
    assert_eq!(resolved.includes, vec!["**/*.py".to_string()]);
    assert_eq!(resolved.max_file_size_bytes, 100);
}

#[test]
fn defaults_applied_when_no_config_and_no_cli() {
    let cfg = ProjectContextConfig::default();
    let resolved = cfg.merge_with_cli(None, None, None, None);
    assert_eq!(resolved.max_file_size_bytes, 1_048_576);
    assert_eq!(resolved.max_total_tokens, 64_000);
}

#[test]
fn file_values_fill_in_what_the_cli_leaves_out() {
    let cfg = ProjectContextConfig {
        includes: None,
        exclude: Some(vec!["build/**".to_string()]),
        max_file_size_bytes: None,
        max_total_tokens: Some(500),
    };
    let resolved = cfg.merge_with_cli(None, None, Some(7), Some(9));
    assert_eq!(resolved.includes, vec!["**/*".to_string()]);
    assert_eq!(resolved.exclude, vec!["build/**".to_string()]);
    assert_eq!(resolved.max_file_size_bytes, 7);
    assert_eq!(resolved.max_total_tokens, 9);
    let resolved = cfg.merge_with_cli(None, None, None, None);
    assert_eq!(resolved.max_total_tokens, 500);
}

#[test]
fn resolved_defaults() {
    let r = ResolvedContextConfig::default();
    assert_eq!(r.includes, vec!["**/*".to_string()]);
    assert_eq!(r.exclude, vec!["target/**".to_string(), ".git/**".to_string()]);
    assert_eq!(r.max_file_size_bytes, 1_048_576);
    assert_eq!(r.max_total_tokens, 64_000);
}
