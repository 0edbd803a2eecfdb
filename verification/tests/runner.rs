use hummingbird::config::GlobalConfig;
use hummingbird::runner::{choose_provider_exec, enrich_prompt, ProviderChoice, RunConfig};
use std::path::PathBuf;

fn cfg(model: Option<&str>, provider: Option<&str>) -> RunConfig {
    RunConfig {
        prompt: "task".into(),
        model: model.map(String::from),
        provider: provider.map(String::from),
        max_iterations: 4,
        stream: true,
        workspace: PathBuf::from("."),
    }
}

#[test]
fn plan_uses_the_configured_model_and_provider() {
    let global = GlobalConfig::default();
    let plan = cfg(None, None).plan(&global);
    assert_eq!(plan.model, "qwen3:30b");
    assert_eq!(plan.max_iterations, 4);
    match plan.provider {
        ProviderChoice::Ollama { base_url } => assert_eq!(base_url, "http://localhost:11434"),
        other => panic!("unexpected {:?}", other),
    }
}

#[test]
fn plan_prefers_what_the_run_gives() {
    let global = GlobalConfig::default();
    let plan = cfg(Some("gpt-4o"), Some("openai")).plan(&global);
    assert_eq!(plan.model, "gpt-4o");
    assert!(matches!(plan.provider, ProviderChoice::OpenAi));
    assert!(matches!(cfg(None, Some("anthropic")).plan(&global).provider, ProviderChoice::Anthropic));
}

#[test]
fn unknown_providers_mean_ollama() {
    match choose_provider_exec("mistral", &None) {
        ProviderChoice::Ollama { base_url } => assert_eq!(base_url, "http://localhost:11434"),
        other => panic!("unexpected {:?}", other),
    }
    match choose_provider_exec("ollama", &Some("http://gpu:11434".to_string())) {
        ProviderChoice::Ollama { base_url } => assert_eq!(base_url, "http://gpu:11434"),
        other => panic!("unexpected {:?}", other),
    }
}

#[test]
fn prompt_without_files_is_unchanged() {
    assert_eq!(enrich_prompt("do it", &[]), "do it");
}

#[test]
fn prompt_with_files() {
    let files = vec![("a.rs".to_string(), "fn a() {}".to_string()), ("b.rs".to_string(), "x".to_string())];
    assert_eq!(
        enrich_prompt("do it", &files),
        "# Workspace Context\n=== a.rs ===\nfn a() {}\n\n=== b.rs ===\nx\n\n# Task\ndo it"
    );
}

#[test]
fn prompt_shows_twenty_files_at_most() {
    let files: Vec<(String, String)> = (0..25).map(|i| (format!("f{i}.rs"), String::new())).collect();
    let p = enrich_prompt("t", &files);
    assert!(p.contains("=== f19.rs ==="));
    assert!(!p.contains("=== f20.rs ==="));
}
