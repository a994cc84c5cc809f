//! Command-line-facing helpers: flag overriding and the table of
//! known downloadable models.
//!
//! Argument parsing itself and the command loop run outside the
//! library; they call in with plain values.

use vstd::prelude::*;

use crate::text::str_eq;

verus! {

/// Arguments of the download command.
#[derive(Debug, Clone)]
pub struct DownloadArgs {
    pub model: String,
}

/// Arguments of the info command.
#[derive(Debug, Clone)]
pub struct InfoArgs {
    pub model: String,
}

/// The position of the first argument equal to `flag`, or -1.
pub open spec fn first_flag_index(args: Seq<Seq<char>>, flag: Seq<char>) -> int
    decreases args.len(),
{
    if args.len() == 0 {
        -1
    } else if args[0] == flag {
        0
    } else {
        let r = first_flag_index(args.skip(1), flag);
        if r < 0 {
            -1
        } else {
            r + 1
        }
    }
}

/// A scan that misses everywhere before `i` and hits at `i` (or runs
/// off the end) pins [`first_flag_index`].
proof fn lemma_first_flag_index(args: Seq<Seq<char>>, flag: Seq<char>, i: int)
    requires
        0 <= i <= args.len(),
        forall|j: int| 0 <= j < i ==> #[trigger] args[j] != flag,
        i == args.len() || args[i] == flag,
    ensures
        first_flag_index(args, flag) == (if i == args.len() {
            -1int
        } else {
            i
        }),
    decreases i,
{
    if i == 0 {
    } else {
        assert(args.skip(1) =~~= args.subrange(1, args.len() as int));
        assert(forall|j: int| 0 <= j < i - 1 ==> #[trigger] args.skip(1)[j] == args[j + 1]);
        lemma_first_flag_index(args.skip(1), flag, i - 1);
    }
}

/// The position of the first argument equal to `flag`, if any.
fn position_of_flag(args: &Vec<String>, flag: &str) -> (r: Option<usize>)
    ensures
        match r {
            Some(i) => i < args@.len() && first_flag_index(args.deep_view(), flag@) == i as int,
            None => first_flag_index(args.deep_view(), flag@) == -1,
        },
{
    let mut i: usize = 0;
    while i < args.len()
        invariant
            i <= args@.len(),
            forall|j: int| 0 <= j < i ==> #[trigger] args.deep_view()[j] != flag@,
        decreases args@.len() - i,
    {
        if str_eq(args[i].as_str(), flag) {
            proof {
                lemma_first_flag_index(args.deep_view(), flag@, i as int);
            }
            return Some(i);
        }
        i = i + 1;
    }
    proof {
        lemma_first_flag_index(args.deep_view(), flag@, args.deep_view().len() as int);
    }
    None
}

/// Overrides one flag's value in an argument list: when the flag is
/// present and followed by a value slot, that slot is replaced in
/// place (the flag is not duplicated and the length is kept); when
/// the flag is absent, the flag and value are appended; a flag in the
/// final position has no value slot and the list is returned
/// unchanged.
pub fn override_arg(args: Vec<String>, flag: &str, value: &str) -> (r: Vec<String>)
    ensures
        ({
            let all = args.deep_view();
            let i = first_flag_index(all, flag@);
            &&& (i >= 0 && i + 1 < all.len()) ==> r.deep_view() == all.update(i + 1, value@)
            &&& (i >= 0 && i + 1 == all.len()) ==> r.deep_view() == all
            &&& i < 0 ==> r.deep_view() == all + seq![flag@, value@]
        }),
{
    let ghost all = args.deep_view();
    let mut args = args;
    match position_of_flag(&args, flag) {
        Some(i) => {
            let n = args.len();
            if i + 1 < n {
                args[i + 1] = String::from_str(value);
                proof {
                    assert(args.deep_view() =~~= all.update(i + 1, value@));
                }
            }
            args
        },
        None => {
            args.push(String::from_str(flag));
            args.push(String::from_str(value));
            proof {
                assert(args.deep_view() =~~= all + seq![flag@, value@]);
            }
            args
        },
    }
}

/// One known downloadable model: its repository, its file name, and
/// the page it can be fetched from.
#[derive(Debug, Clone)]
pub struct ModelUrl {
    pub repo: String,
    pub filename: String,
    pub url: String,
}

/// The table of models the download command knows, keyed by model
/// name.
pub fn get_model_urls() -> (r: Vec<(String, ModelUrl)>)
    ensures
        r@.len() == 2,
        r@[0].0@ == "gemma-2-2b-it"@,
        r@[0].1.repo@ == "bartowski/gemma-2-2b-it-GGUF"@,
        r@[0].1.filename@ == "gemma-2-2b-it-Q4_K_M.gguf"@,
        r@[0].1.url@ == "https://huggingface.co/bartowski/gemma-2-2b-it-GGUF"@,
        r@[1].0@ == "gemma-2-2b"@,
        r@[1].1.repo@ == "bartowski/gemma-2-2b-GGUF"@,
        r@[1].1.filename@ == "gemma-2-2b-Q4_K_M.gguf"@,
        r@[1].1.url@ == "https://huggingface.co/bartowski/gemma-2-2b-GGUF"@,
{
    let mut models: Vec<(String, ModelUrl)> = Vec::new();
    models.push(
        (
            String::from_str("gemma-2-2b-it"),
            ModelUrl {
                repo: String::from_str("bartowski/gemma-2-2b-it-GGUF"),
                filename: String::from_str("gemma-2-2b-it-Q4_K_M.gguf"),
                url: String::from_str("https://huggingface.co/bartowski/gemma-2-2b-it-GGUF"),
            },
        ),
    );
    models.push(
        (
            String::from_str("gemma-2-2b"),
            ModelUrl {
                repo: String::from_str("bartowski/gemma-2-2b-GGUF"),
                filename: String::from_str("gemma-2-2b-Q4_K_M.gguf"),
                url: String::from_str("https://huggingface.co/bartowski/gemma-2-2b-GGUF"),
            },
        ),
    );
    models
}

/// The entry of the download table under a model name, if any.
pub fn find_model_url<'a>(models: &'a Vec<(String, ModelUrl)>, name: &str) -> (r: Option<
    &'a ModelUrl,
>)
    ensures
        match r {
            Some(u) => exists|i: int|
                0 <= i < models@.len() && (#[trigger] models@[i]).0@ == name@ && models@[i].1 == *u,
            None => forall|i: int| 0 <= i < models@.len() ==> (#[trigger] models@[i]).0@ != name@,
        },
{
    let mut i: usize = 0;
    while i < models.len()
        invariant
            i <= models@.len(),
            forall|j: int| 0 <= j < i ==> (#[trigger] models@[j]).0@ != name@,
        decreases models@.len() - i,
    {
        if str_eq(models[i].0.as_str(), name) {
            return Some(&models[i].1);
        }
        i = i + 1;
    }
    None
}

} // verus!
