//! Configuration model: runtime options, named model entries, default
//! sampling parameters, and model resolution.
//!
//! The configuration store itself (a TOML file under the user's home
//! directory) is read outside the library; the parsed values are
//! handed in as plain data. Named models are held as an ordered list
//! of name/entry pairs with pairwise distinct names; lookup takes the
//! first match.

use vstd::prelude::*;

use crate::error::LlmError;
use crate::text::str_eq;

verus! {

/// Runtime options of the configuration store.
#[derive(Debug, Clone)]
pub struct RuntimeConfig {
    pub default_backend: String,
    pub llama_executable: String,
    pub use_gpu: bool,
    pub gpu_layers: Option<u32>,
}

/// One named model record.
#[derive(Debug, Clone)]
pub struct ModelEntry {
    pub file: String,
    pub description: Option<String>,
    pub context_size: Option<u32>,
}

/// Default sampling parameters. The sampling values are held as the
/// exact text handed to the tool's flags; only the token budget is
/// numeric.
#[derive(Debug, Clone)]
pub struct DefaultParams {
    pub temperature: String,
    pub top_p: String,
    pub repeat_penalty: String,
    pub max_tokens: u32,
}

/// The whole configuration: runtime options, named models, and
/// default sampling parameters.
#[derive(Debug, Clone)]
pub struct AgentConfig {
    pub runtime: RuntimeConfig,
    pub models: Vec<(String, ModelEntry)>,
    pub defaults: DefaultParams,
}

/// Reports whether GPU acceleration should be used, and with how many
/// offloaded layers. The library always answers no: generation runs
/// on the CPU unless the user opts in through configuration.
pub fn detect_gpu_support() -> (r: (bool, Option<u32>))
    ensures
        r.0 == false,
        r.1 is None,
{
    (false, None)
}

impl Default for AgentConfig {
    /// The built-in configuration used when no file overrides it.
    fn default() -> (r: AgentConfig)
        ensures
            r.runtime.default_backend@ == "llama.cpp"@,
            r.runtime.llama_executable@ == "llama-cli"@,
            r.runtime.use_gpu == false,
            r.runtime.gpu_layers is None,
            r.models@.len() == 0,
            r.defaults.temperature@ == "0.7"@,
            r.defaults.top_p@ == "0.9"@,
            r.defaults.repeat_penalty@ == "1.1"@,
            r.defaults.max_tokens == 256,
    {
        let (use_gpu, gpu_layers) = detect_gpu_support();
        AgentConfig {
            runtime: RuntimeConfig {
                default_backend: String::from_str("llama.cpp"),
                llama_executable: String::from_str("llama-cli"),
                use_gpu,
                gpu_layers,
            },
            models: Vec::new(),
            defaults: DefaultParams {
                temperature: String::from_str("0.7"),
                top_p: String::from_str("0.9"),
                repeat_penalty: String::from_str("1.1"),
                max_tokens: 256,
            },
        }
    }
}

/// The application's state directory under the given home directory.
pub fn get_agentd_home(home: &str) -> (r: String)
    ensures
        r@ == home@ + "/.agentd"@,
{
    String::from_str(home).concat("/.agentd")
}

/// The configuration directory under the given home directory.
pub fn get_config_dir(home: &str) -> (r: String)
    ensures
        r@ == home@ + "/.agentd/config"@,
{
    let r = get_agentd_home(home).concat("/config");
    proof {
        reveal_strlit("/.agentd");
        reveal_strlit("/config");
        reveal_strlit("/.agentd/config");
        assert((home@ + "/.agentd"@) + "/config"@ =~= home@ + "/.agentd/config"@);
    }
    r
}

/// The model directory under the given home directory.
pub fn get_models_dir(home: &str) -> (r: String)
    ensures
        r@ == home@ + "/.agentd/models"@,
{
    let r = get_agentd_home(home).concat("/models");
    proof {
        reveal_strlit("/.agentd");
        reveal_strlit("/models");
        reveal_strlit("/.agentd/models");
        assert((home@ + "/.agentd"@) + "/models"@ =~= home@ + "/.agentd/models"@);
    }
    r
}

/// A directory and a file name joined with one separator.
pub open spec fn joined_path(dir: Seq<char>, file: Seq<char>) -> Seq<char> {
    dir + "/"@ + file
}

/// Computes [`joined_path`].
pub fn join_path(dir: &str, file: &str) -> (r: String)
    ensures
        r@ == joined_path(dir@, file@),
{
    String::from_str(dir).concat("/").concat(file)
}

/// The entry for `name` in a model list: the first pair whose name
/// matches, if any.
pub open spec fn lookup_model(models: Seq<(String, ModelEntry)>, name: Seq<char>) -> Option<
    ModelEntry,
>
    decreases models.len(),
{
    if models.len() == 0 {
        None
    } else if models[0].0@ == name {
        Some(models[0].1)
    } else {
        lookup_model(models.skip(1), name)
    }
}

/// Pairwise distinct model names.
pub open spec fn unique_names(models: Seq<(String, ModelEntry)>) -> bool {
    forall|i: int, j: int|
        0 <= i < j < models.len() ==> (#[trigger] models[i]).0@ != (#[trigger] models[j]).0@
}

/// Finds the entry for `name`, deciding [`lookup_model`].
pub fn find_model<'a>(models: &'a Vec<(String, ModelEntry)>, name: &str) -> (r: Option<
    &'a ModelEntry,
>)
    ensures
        match r {
            Some(e) => lookup_model(models@, name@) == Some(*e),
            None => lookup_model(models@, name@) is None,
        },
{
    let mut i: usize = 0;
    proof {
        assert(models@.skip(0) =~= models@);
    }
    while i < models.len()
        invariant
            i <= models@.len(),
            lookup_model(models@, name@) == lookup_model(models@.skip(i as int), name@),
        decreases models@.len() - i,
    {
        proof {
            assert(models@.skip(i as int).skip(1) =~= models@.skip(i + 1));
        }
        if str_eq(models[i].0.as_str(), name) {
            return Some(&models[i].1);
        }
        i = i + 1;
    }
    None
}

/// Replacing the first entry that carries a name changes lookup for
/// that name alone.
proof fn lemma_lookup_update(
    ms: Seq<(String, ModelEntry)>,
    i: int,
    p: (String, ModelEntry),
    n: Seq<char>,
)
    requires
        0 <= i < ms.len(),
        ms[i].0@ == p.0@,
        forall|j: int| 0 <= j < i ==> (#[trigger] ms[j]).0@ != p.0@,
    ensures
        lookup_model(ms.update(i, p), n) == (if n == p.0@ {
            Some(p.1)
        } else {
            lookup_model(ms, n)
        }),
    decreases ms.len(),
{
    let ms2 = ms.update(i, p);
    if i == 0 {
        assert(ms2[0] == p);
        if n != p.0@ {
            assert(ms2.skip(1) =~= ms.skip(1));
        }
    } else {
        assert(ms2[0] == ms[0]);
        assert(ms[0].0@ != p.0@);
        if n != ms[0].0@ {
            assert(ms2.skip(1) =~= ms.skip(1).update(i - 1, p));
            assert(forall|j: int|
                0 <= j < i - 1 ==> (#[trigger] ms.skip(1)[j]).0@ == ms[j + 1].0@);
            lemma_lookup_update(ms.skip(1), i - 1, p, n);
        }
    }
}

/// Appending an entry with a fresh name changes lookup only where
/// every existing entry misses.
proof fn lemma_lookup_push(ms: Seq<(String, ModelEntry)>, p: (String, ModelEntry), n: Seq<char>)
    ensures
        lookup_model(ms.push(p), n) == (if lookup_model(ms, n) is Some {
            lookup_model(ms, n)
        } else if n == p.0@ {
            Some(p.1)
        } else {
            None::<ModelEntry>
        }),
    decreases ms.len(),
{
    if ms.len() == 0 {
        assert(ms.push(p)[0] == p);
        assert(ms.push(p).skip(1) =~= Seq::<(String, ModelEntry)>::empty());
        assert(lookup_model(Seq::<(String, ModelEntry)>::empty(), n) is None);
        assert(lookup_model(ms, n) is None);
    } else {
        assert(ms.push(p)[0] == ms[0]);
        if n != ms[0].0@ {
            assert(ms.push(p).skip(1) =~= ms.skip(1).push(p));
            lemma_lookup_push(ms.skip(1), p, n);
            assert(lookup_model(ms.push(p), n) == lookup_model(ms.skip(1).push(p), n));
            assert(lookup_model(ms, n) == lookup_model(ms.skip(1), n));
        }
    }
}

/// The position of the first entry named `name`, if any.
fn find_name_index(models: &Vec<(String, ModelEntry)>, name: &str) -> (r: Option<usize>)
    ensures
        match r {
            Some(i) => i < models@.len() && models@[i as int].0@ == name@ && (forall|j: int|
                0 <= j < i ==> (#[trigger] models@[j]).0@ != name@),
            None => forall|j: int| 0 <= j < models@.len() ==> (#[trigger] models@[j]).0@ != name@,
        },
{
    let mut i: usize = 0;
    while i < models.len()
        invariant
            i <= models@.len(),
            forall|j: int| 0 <= j < i ==> (#[trigger] models@[j]).0@ != name@,
        decreases models@.len() - i,
    {
        if str_eq(models[i].0.as_str(), name) {
            return Some(i);
        }
        i = i + 1;
    }
    None
}

/// Inserts an entry under a name, replacing the entry already under
/// that name if there is one.
pub fn upsert_model(models: &mut Vec<(String, ModelEntry)>, name: String, entry: ModelEntry)
    requires
        unique_names(old(models)@),
    ensures
        unique_names(final(models)@),
        forall|n: Seq<char>|
            #[trigger] lookup_model(final(models)@, n) == (if n == name@ {
                Some(entry)
            } else {
                lookup_model(old(models)@, n)
            }),
{
    let ghost ms = models@;
    let ghost p = (name, entry);
    match find_name_index(models, name.as_str()) {
        Some(i) => {
            models[i] = (name, entry);
            proof {
                assert(models@ == ms.update(i as int, p));
                assert forall|n: Seq<char>|
                    #[trigger] lookup_model(models@, n) == (if n == p.0@ {
                        Some(p.1)
                    } else {
                        lookup_model(ms, n)
                    }) by {
                    lemma_lookup_update(ms, i as int, p, n);
                }
                assert(forall|k: int|
                    0 <= k < models@.len() ==> (#[trigger] models@[k]).0@ == ms[k].0@);
            }
        },
        None => {
            models.push((name, entry));
            proof {
                assert(models@ == ms.push(p));
                assert forall|n: Seq<char>|
                    #[trigger] lookup_model(models@, n) == (if n == p.0@ {
                        Some(p.1)
                    } else {
                        lookup_model(ms, n)
                    }) by {
                    lemma_lookup_push(ms, p, n);
                    if n == p.0@ && lookup_model(ms, n) is Some {
                        // impossible: the scan found no entry under this name
                        lemma_lookup_some_index(ms, n);
                    }
                }
                assert(unique_names(models@)) by {
                    assert(forall|k: int|
                        0 <= k < ms.len() ==> (#[trigger] models@[k]) == ms[k]);
                }
            }
        },
    }
}

/// A successful lookup names some entry of the list.
proof fn lemma_lookup_some_index(ms: Seq<(String, ModelEntry)>, n: Seq<char>)
    requires
        lookup_model(ms, n) is Some,
    ensures
        exists|j: int| 0 <= j < ms.len() && (#[trigger] ms[j]).0@ == n,
    decreases ms.len(),
{
    if ms.len() > 0 {
        if ms[0].0@ == n {
            assert(ms[0].0@ == n);
        } else {
            lemma_lookup_some_index(ms.skip(1), n);
            let j = choose|j: int| 0 <= j < ms.skip(1).len() && (#[trigger] ms.skip(1)[j]).0@ == n;
            assert(ms[j + 1].0@ == n);
        }
    }
}

/// Merges a second model list into a base list, as loading a separate
/// model file over the main configuration does: an entry under a name
/// already present replaces it, any other is added.
pub fn merge_models(base: &mut Vec<(String, ModelEntry)>, extra: Vec<(String, ModelEntry)>)
    requires
        unique_names(old(base)@),
        unique_names(extra@),
    ensures
        unique_names(final(base)@),
        forall|n: Seq<char>|
            #[trigger] lookup_model(final(base)@, n) == (if lookup_model(extra@, n) is Some {
                lookup_model(extra@, n)
            } else {
                lookup_model(old(base)@, n)
            }),
{
    let ghost base0 = old(base)@;
    let ghost extra0 = extra@;
    let mut extra = extra;
    let ghost mut k: int = 0;
    proof {
        assert(extra0.take(0) =~= Seq::<(String, ModelEntry)>::empty());
    }
    while extra.len() > 0
        invariant
            unique_names(base@),
            unique_names(extra0),
            0 <= k <= extra0.len(),
            extra@ =~= extra0.skip(k),
            forall|n: Seq<char>|
                #[trigger] lookup_model(base@, n) == (if lookup_model(extra0.take(k), n) is Some {
                    lookup_model(extra0.take(k), n)
                } else {
                    lookup_model(base0, n)
                }),
        decreases extra@.len(),
    {
        let ghost basek = base@;
        let p = extra.remove(0);
        proof {
            assert(p == extra0[k]);
            assert(extra@ =~= extra0.skip(k + 1));
        }
        upsert_model(base, p.0, p.1);
        proof {
            k = k + 1;
            let took = extra0.take(k);
            assert(took =~= extra0.take(k - 1).push(extra0[k - 1]));
            assert forall|n: Seq<char>|
                #[trigger] lookup_model(base@, n) == (if lookup_model(took, n) is Some {
                    lookup_model(took, n)
                } else {
                    lookup_model(base0, n)
                }) by {
                assert(lookup_model(base@, n) == (if n == extra0[k - 1].0@ {
                    Some(extra0[k - 1].1)
                } else {
                    lookup_model(basek, n)
                }));
                assert(lookup_model(basek, n) == (if lookup_model(
                    extra0.take(k - 1),
                    n,
                ) is Some {
                    lookup_model(extra0.take(k - 1), n)
                } else {
                    lookup_model(base0, n)
                }));
                lemma_lookup_push(extra0.take(k - 1), extra0[k - 1], n);
                if n == extra0[k - 1].0@ {
                    // the new name cannot already stand in the earlier part
                    if lookup_model(extra0.take(k - 1), n) is Some {
                        lemma_lookup_some_index(extra0.take(k - 1), n);
                        let j = choose|j: int|
                            0 <= j < extra0.take(k - 1).len() && (#[trigger] extra0.take(k - 1)[j]).0@
                                == n;
                        assert(extra0.take(k - 1)[j] == extra0[j]);
                        assert(extra0[j].0@ == extra0[k - 1].0@);
                        assert(false);
                    }
                    assert(lookup_model(took, n) == Some(extra0[k - 1].1));
                    assert(lookup_model(base@, n) == Some(extra0[k - 1].1));
                } else {
                    if lookup_model(extra0.take(k - 1), n) is Some {
                        assert(lookup_model(took, n) == lookup_model(extra0.take(k - 1), n));
                        assert(lookup_model(base@, n) == lookup_model(extra0.take(k - 1), n));
                    } else {
                        assert(lookup_model(took, n) is None);
                        assert(lookup_model(base@, n) == lookup_model(base0, n));
                    }
                }
            }
        }
    }
    proof {
        assert(extra0.take(k) =~= extra0);
    }
}

/// The model-file suffix.
pub open spec fn gguf_suffix() -> Seq<char> {
    seq!['.', 'g', 'g', 'u', 'f']
}

/// True when the name ends with the model-file suffix.
pub open spec fn ends_with_gguf(name: Seq<char>) -> bool {
    name.len() >= 5 && name.subrange(name.len() - 5, name.len() as int) == gguf_suffix()
}

/// True when the name is a model file name: a non-empty stem followed
/// by the model-file suffix.
pub open spec fn is_model_file(name: Seq<char>) -> bool {
    name.len() > 5 && ends_with_gguf(name)
}

/// The name with every trailing model-file suffix removed.
pub open spec fn strip_gguf(name: Seq<char>) -> Seq<char>
    decreases name.len(),
{
    if ends_with_gguf(name) {
        strip_gguf(name.take(name.len() - 5))
    } else {
        name
    }
}

/// Decides [`ends_with_gguf`].
fn ends_with_gguf_chars(v: &Vec<char>) -> (r: bool)
    ensures
        r == ends_with_gguf(v@),
{
    let n = v.len();
    if n < 5 {
        return false;
    }
    let r = v[n - 5] == '.' && v[n - 4] == 'g' && v[n - 3] == 'g' && v[n - 2] == 'u' && v[n - 1]
        == 'f';
    proof {
        if r {
            assert(v@.subrange(n - 5, n as int) =~= gguf_suffix());
        } else {
            assert(v@.subrange(n - 5, n as int) != gguf_suffix()) by {
                if v@.subrange(n - 5, n as int) == gguf_suffix() {
                    assert(v@.subrange(n - 5, n as int)[0] == '.');
                    assert(v@.subrange(n - 5, n as int)[1] == 'g');
                    assert(v@.subrange(n - 5, n as int)[2] == 'g');
                    assert(v@.subrange(n - 5, n as int)[3] == 'u');
                    assert(v@.subrange(n - 5, n as int)[4] == 'f');
                }
            }
        }
    }
    r
}

/// Computes [`strip_gguf`].
fn strip_gguf_chars(v: Vec<char>) -> (r: Vec<char>)
    ensures
        r@ == strip_gguf(v@),
{
    let mut v = v;
    let ghost v0 = v@;
    while ends_with_gguf_chars(&v)
        invariant
            strip_gguf(v@) == strip_gguf(v0),
        decreases v@.len(),
    {
        let m = v.len();
        v.truncate(m - 5);
    }
    v
}

/// The model names discovered in a list of file names: for each file
/// name carrying the model-file suffix, the pair of its stem and the
/// file name itself, in order.
pub open spec fn discovered_list(names: Seq<Seq<char>>) -> Seq<(Seq<char>, Seq<char>)>
    decreases names.len(),
{
    if names.len() == 0 {
        Seq::<(Seq<char>, Seq<char>)>::empty()
    } else {
        let rest = discovered_list(names.skip(1));
        if is_model_file(names[0]) {
            seq![(strip_gguf(names[0]), names[0])] + rest
        } else {
            rest
        }
    }
}

proof fn lemma_discovered_push(names: Seq<Seq<char>>, x: Seq<char>)
    ensures
        discovered_list(names.push(x)) == discovered_list(names) + (if is_model_file(x) {
            seq![(strip_gguf(x), x)]
        } else {
            Seq::<(Seq<char>, Seq<char>)>::empty()
        }),
    decreases names.len(),
{
    let tail = (if is_model_file(x) {
        seq![(strip_gguf(x), x)]
    } else {
        Seq::<(Seq<char>, Seq<char>)>::empty()
    });
    if names.len() == 0 {
        assert(names.push(x)[0] == x);
        assert(names.push(x).skip(1) =~~= Seq::<Seq<char>>::empty());
        assert(discovered_list(Seq::<Seq<char>>::empty()) == Seq::<(Seq<char>, Seq<char>)>::empty());
        assert(discovered_list(names.push(x)) =~= Seq::<(Seq<char>, Seq<char>)>::empty() + tail);
    } else {
        assert(names.push(x)[0] == names[0]);
        assert(names.push(x).skip(1) =~~= names.skip(1).push(x));
        lemma_discovered_push(names.skip(1), x);
        if is_model_file(names[0]) {
            assert(seq![(strip_gguf(names[0]), names[0])] + (discovered_list(names.skip(1)) + tail)
                =~= (seq![(strip_gguf(names[0]), names[0])] + discovered_list(names.skip(1)))
                + tail);
        }
    }
}

/// The description text of a discovered model.
pub open spec fn discovered_description(file: Seq<char>) -> Seq<char> {
    "Auto-discovered model: "@ + file
}

/// Scans a directory listing for model files and builds an entry for
/// each, the file's stem as the model name, in listing order.
pub fn discover_models(file_names: &Vec<String>) -> (r: Vec<(String, ModelEntry)>)
    ensures
        r@.len() == discovered_list(file_names.deep_view()).len(),
        forall|i: int|
            #![auto]
            0 <= i < r@.len() ==> {
                &&& r@[i].0@ == discovered_list(file_names.deep_view())[i].0
                &&& r@[i].1.file@ == discovered_list(file_names.deep_view())[i].1
                &&& r@[i].1.description matches Some(d) && d@ == discovered_description(
                    discovered_list(file_names.deep_view())[i].1,
                )
                &&& r@[i].1.context_size == Some(4096u32)
            },
{
    let ghost all = file_names.deep_view();
    let mut out: Vec<(String, ModelEntry)> = Vec::new();
    let mut i: usize = 0;
    proof {
        assert(all.take(0) =~~= Seq::<Seq<char>>::empty());
    }
    while i < file_names.len()
        invariant
            all == file_names.deep_view(),
            i <= all.len(),
            out@.len() == discovered_list(all.take(i as int)).len(),
            forall|t: int|
                #![auto]
                0 <= t < out@.len() ==> {
                    &&& out@[t].0@ == discovered_list(all.take(i as int))[t].0
                    &&& out@[t].1.file@ == discovered_list(all.take(i as int))[t].1
                    &&& out@[t].1.description matches Some(d) && d@ == discovered_description(
                        discovered_list(all.take(i as int))[t].1,
                    )
                    &&& out@[t].1.context_size == Some(4096u32)
                },
        decreases all.len() - i,
    {
        proof {
            assert(all.take(i + 1) =~~= all.take(i as int).push(all[i as int]));
            lemma_discovered_push(all.take(i as int), all[i as int]);
        }
        let name = &file_names[i];
        let chars = crate::text::str_to_chars(name.as_str());
        proof {
            assert(chars@ == all[i as int]);
        }
        if chars.len() > 5 && ends_with_gguf_chars(&chars) {
            let stem = strip_gguf_chars(chars);
            let key = crate::text::chars_to_string(&stem);
            let description = String::from_str("Auto-discovered model: ").concat(name.as_str());
            let entry = ModelEntry {
                file: name.clone(),
                description: Some(description),
                context_size: Some(4096),
            };
            out.push((key, entry));
        }
        i = i + 1;
    }
    proof {
        assert(all.take(i as int) =~~= all);
    }
    out
}

/// The entry a model name resolves to: the configured entry when one
/// exists, else the discovered one.
pub open spec fn resolved_entry(
    config_models: Seq<(String, ModelEntry)>,
    discovered: Seq<(String, ModelEntry)>,
    name: Seq<char>,
) -> Option<ModelEntry> {
    if lookup_model(config_models, name) is Some {
        lookup_model(config_models, name)
    } else {
        lookup_model(discovered, name)
    }
}

/// The diagnostic for a name that no entry carries.
pub open spec fn model_not_found_msg(name: Seq<char>) -> Seq<char> {
    "Model '"@ + name + "' not found"@
}

/// The diagnostic for an entry whose file is missing on disk.
pub open spec fn model_missing_msg(file: Seq<char>, path: Seq<char>) -> Seq<char> {
    "Model file '"@ + file + "' not found at path: "@ + path
}

fn not_found_message(name: &str) -> (r: String)
    ensures
        r@ == model_not_found_msg(name@),
{
    let r = String::from_str("Model '").concat(name).concat("' not found");
    proof {
        assert(("Model '"@ + name@) + "' not found"@ =~= model_not_found_msg(name@));
    }
    r
}

fn missing_message(file: &str, path: &str) -> (r: String)
    ensures
        r@ == model_missing_msg(file@, path@),
{
    let r = String::from_str("Model file '").concat(file).concat("' not found at path: ").concat(
        path,
    );
    proof {
        assert((("Model file '"@ + file@) + "' not found at path: "@) + path@ =~= model_missing_msg(
            file@,
            path@,
        ));
    }
    r
}

/// Relies on `std::path::Path::exists`: reports whether the path
/// refers to an existing filesystem entity at this moment. The answer
/// depends on the state of the filesystem, so nothing is promised of
/// it, and two calls on the same path may differ.
#[verifier::external_body]
pub(crate) fn path_exists(path: &String) -> bool {
    std::path::Path::new(path.as_str()).exists()
}

/// Resolves a model name to the path of its file under the model
/// directory: the configured entry is preferred, then the discovered
/// one; a name with no entry, or an entry whose file does not exist,
/// is a resolution error.
///
/// Whether the file exists is the filesystem's answer at call time;
/// on a hit the returned path is pinned exactly, and either outcome
/// of the existence test is reflected in the result.
pub fn resolve_model_path(
    model_name: &str,
    config: &AgentConfig,
    discovered: &Vec<(String, ModelEntry)>,
    models_dir: &str,
) -> (r: Result<String, LlmError>)
    ensures
        resolved_entry(config.models@, discovered@, model_name@) is None ==> (r matches Err(
            LlmError::InvalidModelPath(m),
        ) && m@ == model_not_found_msg(model_name@)),
        resolved_entry(config.models@, discovered@, model_name@) matches Some(entry) ==> {
            ||| (r matches Ok(p) && p@ == joined_path(models_dir@, entry.file@))
            ||| (r matches Err(LlmError::InvalidModelPath(m)) && m@ == model_missing_msg(
                entry.file@,
                joined_path(models_dir@, entry.file@),
            ))
        },
{
    let entry_opt = match find_model(&config.models, model_name) {
        Some(e) => Some(e),
        None => find_model(discovered, model_name),
    };
    match entry_opt {
        None => Err(LlmError::InvalidModelPath(not_found_message(model_name))),
        Some(entry) => {
            let path = join_path(models_dir, entry.file.as_str());
            if path_exists(&path) {
                Ok(path)
            } else {
                Err(
                    LlmError::InvalidModelPath(
                        missing_message(entry.file.as_str(), path.as_str()),
                    ),
                )
            }
        },
    }
}

} // verus!
