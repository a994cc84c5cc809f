//! Configuration, model discovery, resolution, and flag overriding.

use agentd::cli::{find_model_url, get_model_urls, override_arg};
use agentd::config::{
    detect_gpu_support, find_model, get_agentd_home, get_config_dir, get_models_dir, join_path,
    merge_models, upsert_model, ModelEntry,
};
use agentd::llm::{default_args, LlmConfig};
use agentd::text::u32_to_string;
use agentd::{open, AgentConfig, LlmError};

fn entry(file: &str) -> ModelEntry {
    ModelEntry {
        file: file.to_string(),
        description: None,
        context_size: None,
    }
}

#[test]
fn test_default_config_values() {
    let config = AgentConfig::default();
    assert_eq!(config.runtime.default_backend, "llama.cpp");
    assert_eq!(config.runtime.llama_executable, "llama-cli");
    assert!(!config.runtime.use_gpu);
    assert!(config.runtime.gpu_layers.is_none());
    assert!(config.models.is_empty());
    assert_eq!(config.defaults.temperature, "0.7");
    assert_eq!(config.defaults.top_p, "0.9");
    assert_eq!(config.defaults.repeat_penalty, "1.1");
    assert_eq!(config.defaults.max_tokens, 256);
}

#[test]
fn test_detect_gpu_support_is_conservative() {
    let (use_gpu, layers) = detect_gpu_support();
    assert!(!use_gpu);
    assert!(layers.is_none());
}

#[test]
fn test_directory_paths() {
    assert_eq!(get_agentd_home("/home/user"), "/home/user/.agentd");
    assert_eq!(get_config_dir("/home/user"), "/home/user/.agentd/config");
    assert_eq!(get_models_dir("/home/user"), "/home/user/.agentd/models");
    assert_eq!(join_path("/a/b", "c.gguf"), "/a/b/c.gguf");
}

#[test]
fn test_u32_to_string() {
    assert_eq!(u32_to_string(0), "0");
    assert_eq!(u32_to_string(7), "7");
    assert_eq!(u32_to_string(256), "256");
    assert_eq!(u32_to_string(4294967295), "4294967295");
}

#[test]
fn test_discover_models_filters_and_strips() {
    let names = vec![
        "foo.gguf".to_string(),
        "notes.txt".to_string(),
        "bar.gguf.gguf".to_string(),
        "gguf".to_string(),
    ];
    let models = agentd::discover_models(&names);
    assert_eq!(models.len(), 2);
    assert_eq!(models[0].0, "foo");
    assert_eq!(models[0].1.file, "foo.gguf");
    assert_eq!(
        models[0].1.description.as_deref(),
        Some("Auto-discovered model: foo.gguf")
    );
    assert_eq!(models[0].1.context_size, Some(4096));
    assert_eq!(models[1].0, "bar");
    assert_eq!(models[1].1.file, "bar.gguf.gguf");
}

#[test]
fn test_find_model_prefers_first_match() {
    let models = vec![
        ("a".to_string(), entry("a.gguf")),
        ("b".to_string(), entry("b.gguf")),
    ];
    assert_eq!(find_model(&models, "b").unwrap().file, "b.gguf");
    assert!(find_model(&models, "c").is_none());
}

#[test]
fn test_upsert_model_replaces_in_place() {
    let mut models = vec![("a".to_string(), entry("a.gguf"))];
    upsert_model(&mut models, "a".to_string(), entry("a2.gguf"));
    assert_eq!(models.len(), 1);
    assert_eq!(models[0].1.file, "a2.gguf");
    upsert_model(&mut models, "b".to_string(), entry("b.gguf"));
    assert_eq!(models.len(), 2);
    assert_eq!(models[1].0, "b");
}

#[test]
fn test_merge_models_overrides_and_adds() {
    let mut base = vec![
        ("a".to_string(), entry("a.gguf")),
        ("b".to_string(), entry("b.gguf")),
    ];
    let extra = vec![
        ("b".to_string(), entry("b2.gguf")),
        ("c".to_string(), entry("c.gguf")),
    ];
    merge_models(&mut base, extra);
    assert_eq!(find_model(&base, "a").unwrap().file, "a.gguf");
    assert_eq!(find_model(&base, "b").unwrap().file, "b2.gguf");
    assert_eq!(find_model(&base, "c").unwrap().file, "c.gguf");
    assert_eq!(base.len(), 3);
}

#[test]
fn test_resolve_unknown_model_fails() {
    let config = AgentConfig::default();
    let discovered = Vec::new();
    let r = agentd::resolve_model_path("ghost", &config, &discovered, "/tmp");
    match r {
        Err(LlmError::InvalidModelPath(m)) => assert_eq!(m, "Model 'ghost' not found"),
        other => panic!("expected InvalidModelPath, got {:?}", other),
    }
}

#[test]
fn test_resolve_missing_file_fails() {
    let mut config = AgentConfig::default();
    config
        .models
        .push(("m".to_string(), entry("missing.gguf")));
    let discovered = Vec::new();
    let r = agentd::resolve_model_path("m", &config, &discovered, "/nonexistent-dir");
    match r {
        Err(LlmError::InvalidModelPath(m)) => assert_eq!(
            m,
            "Model file 'missing.gguf' not found at path: /nonexistent-dir/missing.gguf"
        ),
        other => panic!("expected InvalidModelPath, got {:?}", other),
    }
}

#[test]
fn test_resolve_existing_file() {
    let mut config = AgentConfig::default();
    config.models.push(("m".to_string(), entry("hosts")));
    let discovered = Vec::new();
    let r = agentd::resolve_model_path("m", &config, &discovered, "/etc");
    assert_eq!(r.unwrap(), "/etc/hosts");
}

#[test]
fn test_resolve_falls_back_to_discovered() {
    let config = AgentConfig::default();
    let discovered = vec![("m".to_string(), entry("hosts"))];
    let r = agentd::resolve_model_path("m", &config, &discovered, "/etc");
    assert_eq!(r.unwrap(), "/etc/hosts");
}

#[test]
fn test_from_model_name_builds_default_args() {
    let mut config = AgentConfig::default();
    config.models.push(("m".to_string(), entry("hosts")));
    let discovered = Vec::new();
    let c = LlmConfig::from_model_name("m", &config, &discovered, "/etc").unwrap();
    assert_eq!(c.executable_path, "llama-cli");
    assert_eq!(c.model_path, "/etc/hosts");
    assert_eq!(
        c.additional_args,
        vec!["--temp", "0.7", "--top-p", "0.9", "--repeat-penalty", "1.1", "--n-predict", "256"]
    );
}

#[test]
fn test_default_args_include_gpu_flag_when_configured() {
    let mut config = AgentConfig::default();
    config.runtime.use_gpu = true;
    config.runtime.gpu_layers = Some(8);
    let args = default_args(&config);
    assert_eq!(
        args,
        vec![
            "--temp",
            "0.7",
            "--top-p",
            "0.9",
            "--repeat-penalty",
            "1.1",
            "--n-predict",
            "256",
            "--n-gpu-layers",
            "8"
        ]
    );
}

#[test]
fn test_open_with_model_name() {
    let mut config = AgentConfig::default();
    config.models.push(("test-model-1".to_string(), entry("hosts")));
    let discovered = Vec::new();
    let llm = open("test-model-1", &config, &discovered, "/etc");
    match llm {
        Ok(b) => assert_eq!(b.config().model_path, "/etc/hosts"),
        Err(e) => panic!("Failed to open model: {:?}", e),
    }
}

#[test]
fn test_open_with_invalid_model_name() {
    let config = AgentConfig::default();
    let discovered = Vec::new();
    let result = open("non-existent-model", &config, &discovered, "/etc");
    assert!(matches!(result, Err(LlmError::InvalidModelPath(_))));
}

#[test]
fn test_with_args() {
    let mut config = AgentConfig::default();
    config.models.push(("test-model-2".to_string(), entry("hosts")));
    let discovered = Vec::new();
    let llm = open("test-model-2", &config, &discovered, "/etc")
        .unwrap()
        .with_args(vec!["--temp".to_string(), "0.5".to_string()]);

    let config = llm.config();
    assert!(config.additional_args.contains(&"--temp".to_string()));
    assert!(config.additional_args.contains(&"0.5".to_string()));
}

#[test]
fn test_override_arg_replaces_existing_value() {
    let args = vec!["--temp".to_string(), "0.7".to_string(), "--top-p".to_string(), "0.9".to_string()];
    let out = override_arg(args, "--temp", "0.3");
    assert_eq!(out, vec!["--temp", "0.3", "--top-p", "0.9"]);
}

#[test]
fn test_override_arg_appends_when_absent() {
    let args = vec!["--temp".to_string(), "0.7".to_string()];
    let out = override_arg(args, "--n-predict", "128");
    assert_eq!(out, vec!["--temp", "0.7", "--n-predict", "128"]);
}

#[test]
fn test_override_arg_flag_in_last_position_unchanged() {
    let args = vec!["--temp".to_string()];
    let out = override_arg(args, "--temp", "0.3");
    assert_eq!(out, vec!["--temp"]);
}

#[test]
fn test_override_arg_does_not_duplicate_flag() {
    let args = vec!["--temp".to_string(), "0.7".to_string()];
    let out = override_arg(args, "--temp", "0.9");
    assert_eq!(out.iter().filter(|a| a.as_str() == "--temp").count(), 1);
    assert_eq!(out.len(), 2);
}

#[test]
fn test_model_url_table() {
    let urls = get_model_urls();
    assert_eq!(urls.len(), 2);
    let u = find_model_url(&urls, "gemma-2-2b-it").unwrap();
    assert_eq!(u.repo, "bartowski/gemma-2-2b-it-GGUF");
    assert_eq!(u.filename, "gemma-2-2b-it-Q4_K_M.gguf");
    assert_eq!(u.url, "https://huggingface.co/bartowski/gemma-2-2b-it-GGUF");
    assert!(find_model_url(&urls, "unknown").is_none());
}
