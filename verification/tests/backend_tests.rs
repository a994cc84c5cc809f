//! Invocation configuration and backend construction.

use agentd::llm::{LlamaCppBackend, LlmConfig};
use agentd::LlmError;

#[test]
fn test_llm_config_creation() {
    let config = LlmConfig::new("test_executable", "test_model.gguf");
    assert_eq!(config.executable_path, "test_executable");
    assert_eq!(config.model_path, "test_model.gguf");
    assert!(config.additional_args.is_empty());
}

#[test]
fn test_llm_config_with_args() {
    let config = LlmConfig::new("test_executable", "test_model.gguf").with_args(vec![
        "--temp".to_string(),
        "0.7".to_string(),
    ]);

    assert_eq!(config.additional_args, vec!["--temp", "0.7"]);
}

#[test]
fn test_llamacpp_backend_invalid_model() {
    let config = LlmConfig::new("test_executable", "nonexistent_model.gguf");
    let result = LlamaCppBackend::new(config);

    assert!(result.is_err());
    assert!(matches!(result.unwrap_err(), LlmError::InvalidModelPath(_)));
}

#[test]
fn test_backend_new_with_existing_file() {
    let config = LlmConfig::new("test_executable", "/etc/hosts");
    let backend = LlamaCppBackend::new(config).expect("existing file accepted");
    assert_eq!(backend.config().model_path, "/etc/hosts");
    assert_eq!(backend.config().executable_path, "test_executable");
}

#[test]
fn test_backend_invalid_model_error_names_path() {
    let config = LlmConfig::new("test_executable", "no_such_model.gguf");
    match LlamaCppBackend::new(config) {
        Err(LlmError::InvalidModelPath(p)) => assert_eq!(p, "no_such_model.gguf"),
        other => panic!("expected InvalidModelPath, got {:?}", other),
    }
}

#[test]
fn test_with_args_replaces_previous_list() {
    let config = LlmConfig::new("exe", "/etc/hosts")
        .with_args(vec!["--temp".to_string(), "0.7".to_string()])
        .with_args(vec!["--top-p".to_string(), "0.5".to_string()]);
    assert_eq!(config.additional_args, vec!["--top-p", "0.5"]);
}

#[test]
fn test_backend_with_args_replaces_via_accessor() {
    let config = LlmConfig::new("exe", "/etc/hosts").with_args(vec!["--temp".to_string(), "0.7".to_string()]);
    let backend = LlamaCppBackend::new(config).expect("existing file accepted");
    let backend = backend.with_args(vec!["--temp".to_string(), "0.5".to_string()]);
    assert_eq!(backend.config().additional_args, vec!["--temp", "0.5"]);
}

#[test]
fn test_command_args_order() {
    let config = LlmConfig::new("exe", "model.gguf").with_args(vec![
        "--temp".to_string(),
        "0.7".to_string(),
    ]);
    let args = config.command_args();
    assert_eq!(args, vec!["--model", "model.gguf", "--temp", "0.7"]);
}
