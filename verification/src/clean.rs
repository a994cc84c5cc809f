//! Cleanup of raw generation output.
//!
//! The external tool echoes the prompt back, prints interactive
//! markers, and ends with an end-of-input banner. The cleaning
//! transform strips the echoed prompt from the front, removes the
//! marker and banner text, drops blank lines, trims the result, and
//! substitutes a placeholder when nothing usable is left.

use vstd::prelude::*;

use crate::text::{
    chars_start_with, contains_seq, is_blank, is_space_char, join_lines, join_with_newlines,
    keep_lines, keep_nonblank, lemma_join_split, lemma_keep_all, lemma_replace_noop,
    lemma_split_lines_len, lemma_starts_with_push, lemma_trim_noop, replace_chars, replace_seq,
    split_chars, split_lines, starts_with, trim_chars, trim_spec, vec_skip,
};

verus! {

/// The end-of-input banner the tool appends, marker included.
pub open spec fn eof_banner() -> Seq<char> {
    "> EOF by user"@
}

/// The end-of-input banner without the marker.
pub open spec fn eof_text() -> Seq<char> {
    "EOF by user"@
}

/// The interactive-prompt marker.
pub open spec fn marker() -> Seq<char> {
    "> "@
}

/// The interactive-prompt marker at a line break.
pub open spec fn nl_marker() -> Seq<char> {
    "\n> "@
}

/// The placeholder substituted when cleaning leaves nothing usable.
pub open spec fn placeholder() -> Seq<char> {
    "[No response generated]"@
}

/// The echoed prompt stripped from the front of `s`: first the exact
/// prompt if it is a prefix, then the prompt followed by one separator
/// (newline, question mark, colon, or space).
pub open spec fn strip_echo(s: Seq<char>, prompt: Seq<char>) -> Seq<char> {
    let s1 = if starts_with(s, prompt) {
        s.skip(prompt.len() as int)
    } else {
        s
    };
    if starts_with(s1, prompt.push('\n')) || starts_with(s1, prompt.push('?')) || starts_with(
        s1,
        prompt.push(':'),
    ) || starts_with(s1, prompt.push(' ')) {
        s1.skip(prompt.len() as int + 1)
    } else {
        s1
    }
}

/// The cleaned form of raw output `raw` for the prompt `prompt`:
/// the echoed prompt is stripped, banner and marker text removed,
/// blank lines dropped, the whole trimmed, and the placeholder
/// substituted when nothing remains.
pub open spec fn clean_spec(raw: Seq<char>, prompt: Seq<char>) -> Seq<char> {
    let s1 = strip_echo(raw, prompt);
    let s2 = replace_seq(s1, eof_banner(), Seq::<char>::empty());
    let s3 = replace_seq(s2, eof_text(), Seq::<char>::empty());
    let s4 = replace_seq(s3, marker(), Seq::<char>::empty());
    let s5 = replace_seq(s4, nl_marker(), seq!['\n']);
    let s6 = join_lines(keep_lines(split_lines(s5)));
    let s7 = trim_spec(s6);
    if s7.len() == 0 {
        placeholder()
    } else {
        s7
    }
}

/// A fresh copy of a character vector.
fn copy_chars(v: &Vec<char>) -> (r: Vec<char>)
    ensures
        r@ == v@,
{
    let mut r: Vec<char> = Vec::new();
    let mut i: usize = 0;
    while i < v.len()
        invariant
            i <= v@.len(),
            r@ == v@.subrange(0, i as int),
        decreases v@.len() - i,
    {
        r.push(v[i]);
        assert(r@ =~= v@.subrange(0, i + 1 as int));
        i = i + 1;
    }
    assert(r@ =~= v@);
    r
}

/// The given prompt with one more character at the end.
fn prompt_plus(prompt: &Vec<char>, c: char) -> (r: Vec<char>)
    ensures
        r@ == prompt@.push(c),
{
    let mut r = copy_chars(prompt);
    r.push(c);
    r
}

/// Computes [`strip_echo`] on character vectors.
fn strip_echo_chars(response: &Vec<char>, prompt: &Vec<char>) -> (r: Vec<char>)
    ensures
        r@ == strip_echo(response@, prompt@),
{
    let s1 = if chars_start_with(response, prompt) {
        vec_skip(response, prompt.len())
    } else {
        copy_chars(response)
    };
    let pat_nl = prompt_plus(prompt, '\n');
    let pat_q = prompt_plus(prompt, '?');
    let pat_c = prompt_plus(prompt, ':');
    let pat_sp = prompt_plus(prompt, ' ');
    let m = s1.len();
    if chars_start_with(&s1, &pat_nl) || chars_start_with(&s1, &pat_q) || chars_start_with(
        &s1,
        &pat_c,
    ) || chars_start_with(&s1, &pat_sp) {
        assert(prompt@.len() + 1 <= m);
        vec_skip(&s1, prompt.len() + 1)
    } else {
        s1
    }
}

/// Computes [`clean_spec`]: the full cleaning transform on raw
/// output, as character vectors.
pub fn clean_chars(response: &Vec<char>, prompt: &Vec<char>) -> (r: Vec<char>)
    ensures
        r@ == clean_spec(response@, prompt@),
{
    let s1 = strip_echo_chars(response, prompt);
    let banner = crate::text::str_to_chars("> EOF by user");
    let banner_text = crate::text::str_to_chars("EOF by user");
    let mark = crate::text::str_to_chars("> ");
    let nl_mark = crate::text::str_to_chars("\n> ");
    let empty: Vec<char> = Vec::new();
    let mut newline: Vec<char> = Vec::new();
    newline.push('\n');
    proof {
        reveal_strlit("> EOF by user");
        reveal_strlit("EOF by user");
        reveal_strlit("> ");
        reveal_strlit("\n> ");
        assert(newline@ =~= seq!['\n']);
    }
    let s2 = replace_chars(&s1, &banner, &empty);
    let s3 = replace_chars(&s2, &banner_text, &empty);
    let s4 = replace_chars(&s3, &mark, &empty);
    let s5 = replace_chars(&s4, &nl_mark, &newline);
    let lines = split_chars(&s5);
    let kept = keep_nonblank(&lines);
    let joined = join_with_newlines(&kept);
    let trimmed = trim_chars(&joined);
    if trimmed.len() == 0 {
        let out = crate::text::str_to_chars("[No response generated]");
        out
    } else {
        trimmed
    }
}

/// Cleaning never yields the empty string: either usable text
/// remains, or the placeholder stands in. A generation call thus
/// either fails or returns non-empty text.
pub proof fn lemma_clean_nonempty(raw: Seq<char>, prompt: Seq<char>)
    ensures
        clean_spec(raw, prompt).len() > 0,
{
    reveal_strlit("[No response generated]");
}

/// A string is in cleaned form for a prompt when cleaning could not
/// change it: it is non-empty, does not start with the prompt, holds
/// no banner or marker text, has no blank line, and carries no leading
/// or trailing whitespace.
pub open spec fn cleaned_form(s: Seq<char>, prompt: Seq<char>) -> bool {
    &&& s.len() > 0
    &&& !starts_with(s, prompt)
    &&& !contains_seq(s, eof_banner())
    &&& !contains_seq(s, eof_text())
    &&& !contains_seq(s, marker())
    &&& !contains_seq(s, nl_marker())
    &&& forall|k: int|
        0 <= k < split_lines(s).len() ==> !is_blank(#[trigger] split_lines(s)[k])
    &&& !is_space_char(s[0])
    &&& !is_space_char(s[s.len() - 1])
}

/// Cleaning is the identity on a string already in cleaned form:
/// a second pass strips nothing further.
pub proof fn lemma_clean_fixed_point(s: Seq<char>, prompt: Seq<char>)
    requires
        cleaned_form(s, prompt),
    ensures
        clean_spec(s, prompt) == s,
{
    reveal_strlit("> EOF by user");
    reveal_strlit("EOF by user");
    reveal_strlit("> ");
    reveal_strlit("\n> ");
    // the prompt was not echoed: neither the bare prompt nor any
    // prompt-plus-separator pattern is a prefix
    if starts_with(s, prompt.push('\n')) {
        lemma_starts_with_push(s, prompt, '\n');
    }
    if starts_with(s, prompt.push('?')) {
        lemma_starts_with_push(s, prompt, '?');
    }
    if starts_with(s, prompt.push(':')) {
        lemma_starts_with_push(s, prompt, ':');
    }
    if starts_with(s, prompt.push(' ')) {
        lemma_starts_with_push(s, prompt, ' ');
    }
    assert(strip_echo(s, prompt) == s);
    lemma_replace_noop(s, eof_banner(), Seq::<char>::empty());
    lemma_replace_noop(s, eof_text(), Seq::<char>::empty());
    lemma_replace_noop(s, marker(), Seq::<char>::empty());
    lemma_replace_noop(s, nl_marker(), seq!['\n']);
    lemma_keep_all(split_lines(s));
    lemma_join_split(s);
    lemma_trim_noop(s);
}

/// Cleaning is idempotent on any raw output whose cleaned result is in
/// cleaned form: cleaning that result again yields it unchanged.
pub proof fn lemma_clean_idempotent(raw: Seq<char>, prompt: Seq<char>)
    requires
        cleaned_form(clean_spec(raw, prompt), prompt),
    ensures
        clean_spec(clean_spec(raw, prompt), prompt) == clean_spec(raw, prompt),
{
    lemma_clean_fixed_point(clean_spec(raw, prompt), prompt);
}

} // verus!
