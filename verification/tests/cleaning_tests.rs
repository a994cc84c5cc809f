//! Output cleaning and outcome interpretation.

use agentd::llm::{LlamaCppBackend, ProcessOutcome};
use agentd::LlmError;

#[test]
fn test_clean_strips_prompt_echo_and_banner() {
    let raw = "What is the capital of France?\nParis is the capital.\n> EOF by user\n";
    let cleaned = LlamaCppBackend::clean_response(raw, "What is the capital of France?");
    assert_eq!(cleaned, "Paris is the capital.");
}

#[test]
fn test_clean_markers_only_yields_placeholder() {
    let raw = "> \n\n> \n";
    let cleaned = LlamaCppBackend::clean_response(raw, "some prompt");
    assert_eq!(cleaned, "[No response generated]");
}

#[test]
fn test_clean_is_idempotent_on_ordinary_output() {
    let raw = "What is 2+2?\nThe answer is 4.\n> EOF by user\n";
    let once = LlamaCppBackend::clean_response(raw, "What is 2+2?");
    let twice = LlamaCppBackend::clean_response(&once, "What is 2+2?");
    assert_eq!(once, "The answer is 4.");
    assert_eq!(twice, once);
}

#[test]
fn test_clean_strips_prompt_with_separator() {
    // the prompt is echoed twice, the second time with a separator:
    // the exact echo goes first, then the prompt-plus-separator form
    let raw = "QQ? Paris.\n";
    let cleaned = LlamaCppBackend::clean_response(raw, "Q");
    assert_eq!(cleaned, "Paris.");
}

#[test]
fn test_clean_removes_bare_eof_text_and_markers() {
    let raw = "Answer below\n> first line\nEOF by user\n";
    let cleaned = LlamaCppBackend::clean_response(raw, "unrelated prompt");
    assert_eq!(cleaned, "Answer below\nfirst line");
}

#[test]
fn test_clean_drops_blank_lines_and_trims() {
    let raw = "  first\n   \n\t\nsecond  ";
    let cleaned = LlamaCppBackend::clean_response(raw, "zzz");
    assert_eq!(cleaned, "first\nsecond");
}

#[test]
fn test_generate_outcome_failure_carries_stderr() {
    let outcome = ProcessOutcome {
        success: false,
        status: "exit status: 1".to_string(),
        stdout: Vec::new(),
        stderr: "model load failed".to_string(),
    };
    match LlamaCppBackend::generate_outcome("prompt", outcome) {
        Err(LlmError::ProcessExecution(m)) => {
            assert_eq!(m, "Process failed with status exit status: 1: model load failed");
            assert!(m.contains("model load failed"));
        }
        other => panic!("expected ProcessExecution, got {:?}", other),
    }
}

#[test]
fn test_generate_outcome_whitespace_output_is_empty_response() {
    let outcome = ProcessOutcome {
        success: true,
        status: "exit status: 0".to_string(),
        stdout: b"  \n\t \n".to_vec(),
        stderr: String::new(),
    };
    let r = LlamaCppBackend::generate_outcome("prompt", outcome);
    assert!(matches!(r, Err(LlmError::EmptyResponse)));
}

#[test]
fn test_generate_outcome_invalid_utf8_is_encoding_error() {
    let outcome = ProcessOutcome {
        success: true,
        status: "exit status: 0".to_string(),
        stdout: vec![0xff, 0xfe, 0x20],
        stderr: String::new(),
    };
    let r = LlamaCppBackend::generate_outcome("prompt", outcome);
    assert!(matches!(r, Err(LlmError::Utf8(_))));
}

#[test]
fn test_generate_outcome_success_is_cleaned() {
    let outcome = ProcessOutcome {
        success: true,
        status: "exit status: 0".to_string(),
        stdout: b"Hello\nWorld\n> EOF by user\n".to_vec(),
        stderr: String::new(),
    };
    match LlamaCppBackend::generate_outcome("Hello", outcome) {
        Ok(text) => assert_eq!(text, "World"),
        other => panic!("expected cleaned text, got {:?}", other),
    }
}

#[test]
fn test_process_response_blank_is_empty_response() {
    let r = LlamaCppBackend::process_response("   \n ", "prompt");
    assert!(matches!(r, Err(LlmError::EmptyResponse)));
}

#[test]
fn test_process_response_cleans_text() {
    let r = LlamaCppBackend::process_response("hi\nthere\n", "unrelated").unwrap();
    assert_eq!(r, "hi\nthere");
}

#[test]
fn test_clean_of_empty_input_yields_placeholder() {
    assert_eq!(
        LlamaCppBackend::clean_response("", ""),
        "[No response generated]"
    );
}

#[test]
fn test_clean_of_pure_echo_yields_placeholder() {
    // the output is nothing but the echoed prompt
    let cleaned = LlamaCppBackend::clean_response("hello", "hello");
    assert_eq!(cleaned, "[No response generated]");
}

#[test]
fn test_error_messages() {
    assert_eq!(
        LlmError::Io("broken pipe".to_string()).message(),
        "IO error: broken pipe"
    );
    assert_eq!(
        LlmError::Utf8("bad bytes".to_string()).message(),
        "UTF-8 conversion error: bad bytes"
    );
    assert_eq!(
        LlmError::ProcessSpawn("missing exe".to_string()).message(),
        "Process spawn error: missing exe"
    );
    assert_eq!(
        LlmError::ProcessExecution("status 2".to_string()).message(),
        "Process execution error: status 2"
    );
    assert_eq!(
        LlmError::InvalidModelPath("x.gguf".to_string()).message(),
        "Invalid model path: x.gguf"
    );
    assert_eq!(LlmError::EmptyResponse.message(), "Empty response from LLM");
}
