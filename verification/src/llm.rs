//! The generation pipeline: invocation parameters, backend
//! construction, and interpretation of what one spawned process
//! produced.
//!
//! Spawning itself happens outside the library. The caller builds the
//! argument list with [`LlmConfig::command_args`], runs the process,
//! and hands the collected [`ProcessOutcome`] to
//! [`LlamaCppBackend::generate_outcome`], which checks the exit
//! status, decodes the output, rejects blank responses, and cleans
//! the text.

use vstd::prelude::*;

use crate::clean::{clean_chars, clean_spec};
use crate::config::{
    joined_path, model_missing_msg, model_not_found_msg, path_exists, resolve_model_path,
    resolved_entry, AgentConfig, ModelEntry,
};
use crate::error::LlmError;
use crate::text::{chars_to_string, dec_digits, str_to_chars, trim_chars, trim_spec, u32_to_string};
use vstd::utf8::{decode_utf8, valid_utf8};

verus! {

/// The resolved parameters of one generation call: the executable,
/// the model file, and the extra flag list, in order.
#[derive(Debug, Clone)]
pub struct LlmConfig {
    pub executable_path: String,
    pub model_path: String,
    pub additional_args: Vec<String>,
}

/// The default flag list built from configuration defaults: the
/// sampling flags, then the GPU flag when GPU use is on and a layer
/// count is set.
pub open spec fn default_args_view(config: AgentConfig) -> Seq<Seq<char>> {
    let base = seq![
        "--temp"@,
        config.defaults.temperature@,
        "--top-p"@,
        config.defaults.top_p@,
        "--repeat-penalty"@,
        config.defaults.repeat_penalty@,
        "--n-predict"@,
        dec_digits(config.defaults.max_tokens as int),
    ];
    if config.runtime.use_gpu && config.runtime.gpu_layers is Some {
        base + seq!["--n-gpu-layers"@, dec_digits(config.runtime.gpu_layers->0 as int)]
    } else {
        base
    }
}

/// Builds the default flag list, computing [`default_args_view`].
pub fn default_args(config: &AgentConfig) -> (r: Vec<String>)
    ensures
        r.deep_view() == default_args_view(*config),
{
    let mut args: Vec<String> = Vec::new();
    args.push(String::from_str("--temp"));
    args.push(config.defaults.temperature.clone());
    args.push(String::from_str("--top-p"));
    args.push(config.defaults.top_p.clone());
    args.push(String::from_str("--repeat-penalty"));
    args.push(config.defaults.repeat_penalty.clone());
    args.push(String::from_str("--n-predict"));
    args.push(u32_to_string(config.defaults.max_tokens));
    if config.runtime.use_gpu {
        if let Some(layers) = config.runtime.gpu_layers {
            args.push(String::from_str("--n-gpu-layers"));
            args.push(u32_to_string(layers));
        }
    }
    proof {
        assert(args.deep_view() =~~= default_args_view(*config));
    }
    args
}

impl LlmConfig {
    /// A configuration with the given paths and no extra flags.
    pub fn new(executable_path: &str, model_path: &str) -> (r: LlmConfig)
        ensures
            r.executable_path@ == executable_path@,
            r.model_path@ == model_path@,
            r.additional_args@.len() == 0,
    {
        LlmConfig {
            executable_path: String::from_str(executable_path),
            model_path: String::from_str(model_path),
            additional_args: Vec::new(),
        }
    }

    /// Builds the configuration for a named model: the name is
    /// resolved against the configured and discovered entries, and
    /// the flag list is assembled from the configuration defaults.
    pub fn from_model_name(
        model_name: &str,
        config: &AgentConfig,
        discovered: &Vec<(String, ModelEntry)>,
        models_dir: &str,
    ) -> (r: Result<LlmConfig, LlmError>)
        ensures
            resolved_entry(config.models@, discovered@, model_name@) is None ==> (r matches Err(
                LlmError::InvalidModelPath(m),
            ) && m@ == model_not_found_msg(model_name@)),
            resolved_entry(config.models@, discovered@, model_name@) matches Some(entry) ==> {
                ||| (r matches Ok(c) && c.executable_path@ == config.runtime.llama_executable@
                    && c.model_path@ == joined_path(models_dir@, entry.file@)
                    && c.additional_args.deep_view() == default_args_view(*config))
                ||| (r matches Err(LlmError::InvalidModelPath(m)) && m@ == model_missing_msg(
                    entry.file@,
                    joined_path(models_dir@, entry.file@),
                ))
            },
    {
        let model_path = match resolve_model_path(model_name, config, discovered, models_dir) {
            Ok(p) => p,
            Err(e) => {
                return Err(e);
            },
        };
        let args = default_args(config);
        Ok(
            LlmConfig {
                executable_path: config.runtime.llama_executable.clone(),
                model_path,
                additional_args: args,
            },
        )
    }

    /// The same configuration with the extra flag list replaced, not
    /// extended: the previous list is discarded whole.
    pub fn with_args(self, args: Vec<String>) -> (r: LlmConfig)
        ensures
            r.executable_path == self.executable_path,
            r.model_path == self.model_path,
            r.additional_args == args,
    {
        LlmConfig {
            executable_path: self.executable_path,
            model_path: self.model_path,
            additional_args: args,
        }
    }

    /// The full argument list of one invocation: the model flag and
    /// its path, then the extra flags in order.
    pub fn command_args(&self) -> (r: Vec<String>)
        ensures
            r.deep_view() == seq!["--model"@, self.model_path@] + self.additional_args.deep_view(),
    {
        let mut args: Vec<String> = Vec::new();
        args.push(String::from_str("--model"));
        args.push(self.model_path.clone());
        let mut i: usize = 0;
        while i < self.additional_args.len()
            invariant
                i <= self.additional_args@.len(),
                args.deep_view() =~~= seq!["--model"@, self.model_path@]
                    + self.additional_args.deep_view().take(i as int),
            decreases self.additional_args@.len() - i,
        {
            let ghost prev = args.deep_view();
            args.push(self.additional_args[i].clone());
            proof {
                assert(args.deep_view() =~~= prev.push(self.additional_args.deep_view()[i as int]));
                assert(args.deep_view() =~~= seq!["--model"@, self.model_path@]
                    + self.additional_args.deep_view().take(i + 1));
            }
            i = i + 1;
        }
        proof {
            assert(self.additional_args.deep_view().take(i as int) =~~=
                self.additional_args.deep_view());
        }
        args
    }
}

/// What one run of the external process produced: whether the exit
/// status was success, the rendered status text, the captured
/// standard-output bytes, and the standard-error text (decoded
/// outside the library, lossily if need be).
#[derive(Debug)]
pub struct ProcessOutcome {
    pub success: bool,
    pub status: String,
    pub stdout: Vec<u8>,
    pub stderr: String,
}

/// The diagnostic for a process that exited with a failure status.
pub open spec fn process_failed_msg(status: Seq<char>, stderr: Seq<char>) -> Seq<char> {
    "Process failed with status "@ + status + ": "@ + stderr
}

/// Relies on `String::from_utf8`: the decoding of the bytes when
/// they are valid UTF-8 (per vstd's model of UTF-8), nothing when
/// they are not.
#[verifier::external_body]
fn bytes_to_text(bytes: Vec<u8>) -> (r: Option<String>)
    ensures
        r matches Some(s) ==> valid_utf8(bytes@) && s@ == decode_utf8(bytes@),
        r is None ==> !valid_utf8(bytes@),
{
    String::from_utf8(bytes).ok()
}

/// A generation backend bound to one external executable and one
/// checked model file.
#[derive(Debug)]
pub struct LlamaCppBackend {
    pub config: LlmConfig,
}

impl LlamaCppBackend {
    /// Builds the backend after checking that the model file exists:
    /// the filesystem is asked once, and a missing file is a
    /// resolution error before any process is spawned.
    pub fn new(config: LlmConfig) -> (r: Result<LlamaCppBackend, LlmError>)
        ensures
            match r {
                Ok(b) => b.config == config,
                Err(e) => e matches LlmError::InvalidModelPath(p) && p == config.model_path,
            },
    {
        let model_exists = path_exists(&config.model_path);
        LlamaCppBackend::from_model_check(config, model_exists)
    }

    /// The construction decision for a known answer of the existence
    /// check: a backend holding the configuration exactly when the
    /// model file exists, the resolution error naming the path
    /// exactly when it does not.
    pub fn from_model_check(config: LlmConfig, model_exists: bool) -> (r: Result<
        LlamaCppBackend,
        LlmError,
    >)
        ensures
            model_exists ==> (r matches Ok(b) && b.config == config),
            !model_exists ==> (r matches Err(LlmError::InvalidModelPath(p)) && p
                == config.model_path),
    {
        if !model_exists {
            return Err(LlmError::InvalidModelPath(config.model_path));
        }
        Ok(LlamaCppBackend { config })
    }

    /// The configuration this backend runs with.
    pub fn config(&self) -> (r: &LlmConfig)
        ensures
            r == &self.config,
    {
        &self.config
    }

    /// The same backend with the extra flag list replaced, not
    /// extended.
    pub fn with_args(self, args: Vec<String>) -> (r: LlamaCppBackend)
        ensures
            r.config.executable_path == self.config.executable_path,
            r.config.model_path == self.config.model_path,
            r.config.additional_args == args,
    {
        LlamaCppBackend { config: self.config.with_args(args) }
    }

    /// Strips generation-tool artifacts from raw output: the echoed
    /// prompt (bare, or followed by one separator), the end-of-input
    /// banner, the interactive markers, and blank lines; the result
    /// is trimmed, and a placeholder stands in when nothing is left.
    pub fn clean_response(response: &str, original_prompt: &str) -> (r: String)
        ensures
            r@ == clean_spec(response@, original_prompt@),
    {
        let resp = str_to_chars(response);
        let prom = str_to_chars(original_prompt);
        let out = clean_chars(&resp, &prom);
        chars_to_string(&out)
    }

    /// Interprets decoded process output: a response that is blank
    /// after trimming is an empty-response error, any other is
    /// cleaned and returned.
    pub fn process_response(text: &str, prompt: &str) -> (r: Result<String, LlmError>)
        ensures
            trim_spec(text@).len() == 0 ==> r matches Err(LlmError::EmptyResponse),
            trim_spec(text@).len() > 0 ==> (r matches Ok(s) && s@ == clean_spec(text@, prompt@)),
            r matches Ok(s) ==> s@.len() > 0,
    {
        let chars = str_to_chars(text);
        let trimmed = trim_chars(&chars);
        if trimmed.len() == 0 {
            Err(LlmError::EmptyResponse)
        } else {
            let prom = str_to_chars(prompt);
            let out = clean_chars(&chars, &prom);
            proof {
                crate::clean::lemma_clean_nonempty(chars@, prom@);
            }
            Ok(chars_to_string(&out))
        }
    }

    /// Interprets everything one spawned process produced: a failure
    /// status is a process-execution error carrying the status and
    /// standard-error text; on success the output bytes are decoded
    /// as UTF-8 (invalid bytes are an encoding error), rejected when
    /// blank, and cleaned otherwise.
    pub fn generate_outcome(prompt: &str, outcome: ProcessOutcome) -> (r: Result<String, LlmError>)
        ensures
            !outcome.success ==> (r matches Err(LlmError::ProcessExecution(m)) && m@
                == process_failed_msg(outcome.status@, outcome.stderr@)),
            outcome.success && !valid_utf8(outcome.stdout@) ==> (r matches Err(LlmError::Utf8(_))),
            outcome.success && valid_utf8(outcome.stdout@) && trim_spec(
                decode_utf8(outcome.stdout@),
            ).len() == 0 ==> r matches Err(LlmError::EmptyResponse),
            outcome.success && valid_utf8(outcome.stdout@) && trim_spec(
                decode_utf8(outcome.stdout@),
            ).len() > 0 ==> (r matches Ok(s) && s@ == clean_spec(
                decode_utf8(outcome.stdout@),
                prompt@,
            )),
            r matches Ok(s) ==> s@.len() > 0,
    {
        if !outcome.success {
            let msg = String::from_str("Process failed with status ").concat(
                outcome.status.as_str(),
            ).concat(": ").concat(outcome.stderr.as_str());
            proof {
                assert((("Process failed with status "@ + outcome.status@) + ": "@)
                    + outcome.stderr@ =~= process_failed_msg(outcome.status@, outcome.stderr@));
            }
            return Err(LlmError::ProcessExecution(msg));
        }
        match bytes_to_text(outcome.stdout) {
            None => Err(LlmError::Utf8(String::from_str("invalid UTF-8 in the captured output"))),
            Some(text) => LlamaCppBackend::process_response(text.as_str(), prompt),
        }
    }
}

/// Opens a named model: resolves it, builds the invocation
/// configuration from the configuration defaults, and constructs the
/// backend (which checks the model file once more).
pub fn open(
    model_name: &str,
    config: &AgentConfig,
    discovered: &Vec<(String, ModelEntry)>,
    models_dir: &str,
) -> (r: Result<LlamaCppBackend, LlmError>)
    ensures
        resolved_entry(config.models@, discovered@, model_name@) is None ==> (r matches Err(
            LlmError::InvalidModelPath(m),
        ) && m@ == model_not_found_msg(model_name@)),
        resolved_entry(config.models@, discovered@, model_name@) matches Some(entry) ==> (match r {
            Ok(b) => b.config.executable_path@ == config.runtime.llama_executable@
                && b.config.model_path@ == joined_path(models_dir@, entry.file@)
                && b.config.additional_args.deep_view() == default_args_view(*config),
            Err(e) => e matches LlmError::InvalidModelPath(m) && (m@ == model_missing_msg(
                entry.file@,
                joined_path(models_dir@, entry.file@),
            ) || m@ == joined_path(models_dir@, entry.file@)),
        }),
{
    let llm_config = match LlmConfig::from_model_name(model_name, config, discovered, models_dir) {
        Ok(c) => c,
        Err(e) => {
            return Err(e);
        },
    };
    LlamaCppBackend::new(llm_config)
}

} // verus!
