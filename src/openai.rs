//! Model-id rules for the cloud chat API: which listed models can chat, how
//! their names are shown, which token-limit parameter they take; and the
//! plain data of its requests and responses.
use vstd::prelude::*;
use vstd::string::*;
use crate::progress::{contains_text, find_text};
use crate::text::{
    digit_run, digits_to_u64, digits_value, is_digit, is_digit_char, lemma_digit_run_bounds,
    lower_of, replace_all, replace_text, same_text, scan_digits, starts_with_text, to_lower,
};

verus! {

/// A chat message as the user interface hands it over.
#[derive(Debug, Clone)]
pub struct ChatMessageInput {
    pub role: String,
    pub content: String,
}

/// A chat message.
#[derive(Debug, Clone)]
pub struct ChatMessage {
    pub role: String,
    pub content: String,
}

/// The plain-text transcription response.
#[derive(Debug, Clone)]
pub struct WhisperResponse {
    pub text: String,
}

/// A chat completion response.
#[derive(Debug, Clone)]
pub struct ChatResponse {
    pub id: String,
    pub choices: Vec<ChatChoice>,
    pub usage: Option<Usage>,
}

#[derive(Debug, Clone)]
pub struct ChatChoice {
    pub index: i32,
    pub message: ChatMessage,
    pub finish_reason: Option<String>,
}

#[derive(Debug, Clone)]
pub struct Usage {
    pub prompt_tokens: u32,
    pub completion_tokens: u32,
    pub total_tokens: u32,
}

/// A chat model as offered to the user.
#[derive(Debug, Clone)]
pub struct OpenAIModel {
    pub id: String,
    pub name: String,
    pub description: String,
    pub created: i64,
}

/// The id names a model that is not for chat.
pub open spec fn mentions_non_chat(s: Seq<char>) -> bool {
    contains_text(s, "tts"@) || contains_text(s, "transcribe"@) || contains_text(s, "realtime"@)
        || contains_text(s, "audio"@) || contains_text(s, "vision"@) || contains_text(s, "image"@)
        || contains_text(s, "embedding"@) || contains_text(s, "moderation"@) || contains_text(
        s,
        "instruct"@,
    ) || contains_text(s, "search"@) || contains_text(s, "similarity"@) || contains_text(
        s,
        "edit"@,
    ) || contains_text(s, "code"@) || contains_text(s, "whisper"@) || contains_text(s, "dall-e"@)
        || contains_text(s, "davinci"@) || contains_text(s, "babbage"@) || contains_text(
        s,
        "curie"@,
    ) || contains_text(s, "ada"@)
}

/// A size or variant suffix that chat models carry.
pub open spec fn is_allowed_suffix(s: Seq<char>) -> bool {
    s == "mini"@ || s == "nano"@ || s == "turbo"@ || s == "preview"@ || s == "latest"@
}

/// The position of the last `-`, or -1.
pub open spec fn last_dash(s: Seq<char>, end: int) -> int
    decreases end,
{
    if end <= 0 {
        -1
    } else if s[end - 1] == '-' {
        end - 1
    } else {
        last_dash(s, end - 1)
    }
}

/// The id ends in a dated snapshot: after its last `-` come four or more digits.
pub open spec fn has_date_suffix_of(s: Seq<char>) -> bool {
    let d = last_dash(s, s.len() as int);
    let suffix = s.subrange(d + 1, s.len() as int);
    d >= 0 && suffix.len() >= 4 && digit_run(suffix, 0) == suffix.len()
}

/// The end of the run of digits and dots that starts at `from`.
pub open spec fn version_run(s: Seq<char>, from: int) -> int
    decreases s.len() - from,
{
    if 0 <= from < s.len() && (is_digit(s[from]) || s[from] == '.') {
        version_run(s, from + 1)
    } else {
        from
    }
}

/// What follows a version: nothing, or `-` and an allowed suffix.
pub open spec fn valid_tail(s: Seq<char>, b: int) -> bool {
    b == s.len() || (b < s.len() && s[b] == '-' && is_allowed_suffix(s.subrange(b + 1, s.len() as int)))
}

/// `{version}[o][-suffix]`, the version a digit then digits and dots.
pub open spec fn is_valid_gpt_model_of(rest: Seq<char>) -> bool {
    let a = version_run(rest, 0);
    let b = if a < rest.len() && rest[a] == 'o' {
        a + 1
    } else {
        a
    };
    rest.len() > 0 && is_digit(rest[0]) && valid_tail(rest, b)
}

/// `{digits}[-suffix]`.
pub open spec fn is_valid_o_series_of(rest: Seq<char>) -> bool {
    valid_tail(rest, digit_run(rest, 0))
}

pub open spec fn begins(s: Seq<char>, p: Seq<char>) -> bool {
    p.len() <= s.len() && s.subrange(0, p.len() as int) == p
}

/// Whether the chat API accepts the model.
pub open spec fn is_chat_compatible_of(s: Seq<char>) -> bool {
    if mentions_non_chat(s) || has_date_suffix_of(s) {
        false
    } else if begins(s, "gpt-"@) {
        is_valid_gpt_model_of(s.subrange(4, s.len() as int))
    } else if s.len() > 1 && s[0] == 'o' && is_digit(s[1]) {
        is_valid_o_series_of(s.subrange(1, s.len() as int))
    } else {
        begins(s, "chatgpt-"@)
    }
}

/// Whether a model takes `max_completion_tokens` rather than `max_tokens`:
/// the o-series, `gpt-4o`, `gpt-4.x`, and `gpt-N` for N from 5 on.
pub open spec fn uses_max_completion_tokens_of(s: Seq<char>) -> bool {
    let rest = s.subrange(4, s.len() as int);
    let v = digit_run(rest, 0);
    if s.len() > 1 && s[0] == 'o' && is_digit(s[1]) {
        true
    } else if begins(s, "gpt-4o"@) || begins(s, "gpt-4."@) {
        true
    } else if begins(s, "gpt-"@) {
        v > 0 && digits_value(rest.subrange(0, v)) <= u32::MAX && digits_value(rest.subrange(0, v))
            >= 5
    } else {
        false
    }
}

/// Whether the id names a model that is not for chat.
pub fn mentions_non_chat_keyword(s: &str) -> (r: bool)
    ensures
        r == mentions_non_chat(s@),
{
    find_text(s, "tts") || find_text(s, "transcribe") || find_text(s, "realtime") || find_text(
        s,
        "audio",
    ) || find_text(s, "vision") || find_text(s, "image") || find_text(s, "embedding")
        || find_text(s, "moderation") || find_text(s, "instruct") || find_text(s, "search")
        || find_text(s, "similarity") || find_text(s, "edit") || find_text(s, "code") || find_text(
        s,
        "whisper",
    ) || find_text(s, "dall-e") || find_text(s, "davinci") || find_text(s, "babbage")
        || find_text(s, "curie") || find_text(s, "ada")
}

/// Whether the text is an allowed model suffix.
pub fn is_allowed_suffix_text(s: &str) -> (r: bool)
    ensures
        r == is_allowed_suffix(s@),
{
    same_text(s, "mini") || same_text(s, "nano") || same_text(s, "turbo") || same_text(
        s,
        "preview",
    ) || same_text(s, "latest")
}

/// Whether the model id ends in a dated snapshot (`-2024-11-20`, `-0613`).
pub fn has_date_suffix(model_id: &str) -> (r: bool)
    ensures
        r == has_date_suffix_of(model_id@),
{
    let n = model_id.unicode_len();
    let mut e = n;
    while e > 0 && model_id.get_char(e - 1) != '-'
        invariant
            e <= n,
            n == model_id@.len(),
            last_dash(model_id@, n as int) == last_dash(model_id@, e as int),
        decreases e,
    {
        e = e - 1;
    }
    if e == 0 {
        return false;
    }
    let suffix = model_id.substring_char(e, n);
    let d = scan_digits(suffix, 0);
    n - e >= 4 && d == n - e
}

fn valid_tail_at(s: &str, b: usize) -> (r: bool)
    requires
        b <= s@.len(),
    ensures
        r == valid_tail(s@, b as int),
{
    let n = s.unicode_len();
    if b == n {
        return true;
    }
    if s.get_char(b) != '-' {
        return false;
    }
    is_allowed_suffix_text(s.substring_char(b + 1, n))
}

/// Whether the text after `gpt-` is `{version}[o][-suffix]`.
pub fn is_valid_gpt_model(rest: &str) -> (r: bool)
    ensures
        r == is_valid_gpt_model_of(rest@),
{
    let n = rest.unicode_len();
    if n == 0 || !is_digit_char(rest.get_char(0)) {
        return false;
    }
    let mut a: usize = 0;
    while a < n && (is_digit_char(rest.get_char(a)) || rest.get_char(a) == '.')
        invariant
            a <= n,
            n == rest@.len(),
            version_run(rest@, 0) == version_run(rest@, a as int),
        decreases n - a,
    {
        a = a + 1;
    }
    let b = if a < n && rest.get_char(a) == 'o' {
        a + 1
    } else {
        a
    };
    valid_tail_at(rest, b)
}

/// Whether the text after `o` is `{digits}[-suffix]`.
pub fn is_valid_o_series(rest: &str) -> (r: bool)
    ensures
        r == is_valid_o_series_of(rest@),
{
    let a = scan_digits(rest, 0);
    valid_tail_at(rest, a)
}

/// Whether the model id is one the chat API accepts: `gpt-{version}[o][-suffix]`,
/// `o{digits}[-suffix]`, or `chatgpt-*`, and not a dated snapshot or a
/// model of another kind.
pub fn is_chat_compatible_model(model_id: &str) -> (r: bool)
    ensures
        r == is_chat_compatible_of(model_id@),
{
    proof {
        reveal_strlit("gpt-");
        reveal_strlit("chatgpt-");
    }
    if mentions_non_chat_keyword(model_id) {
        return false;
    }
    if has_date_suffix(model_id) {
        return false;
    }
    let n = model_id.unicode_len();
    if starts_with_text(model_id, "gpt-") {
        return is_valid_gpt_model(model_id.substring_char(4, n));
    }
    if n > 1 && model_id.get_char(0) == 'o' && is_digit_char(model_id.get_char(1)) {
        return is_valid_o_series(model_id.substring_char(1, n));
    }
    starts_with_text(model_id, "chatgpt-")
}

/// Whether the model takes `max_completion_tokens` rather than `max_tokens`.
pub fn uses_max_completion_tokens(model: &str) -> (r: bool)
    ensures
        r == uses_max_completion_tokens_of(model@),
{
    proof {
        reveal_strlit("gpt-");
        reveal_strlit("gpt-4o");
        reveal_strlit("gpt-4.");
    }
    let n = model.unicode_len();
    if n > 1 && model.get_char(0) == 'o' && is_digit_char(model.get_char(1)) {
        return true;
    }
    if starts_with_text(model, "gpt-4o") || starts_with_text(model, "gpt-4.") {
        return true;
    }
    if starts_with_text(model, "gpt-") {
        let rest = model.substring_char(4, n);
        let v = scan_digits(rest, 0);
        proof {
            lemma_digit_run_bounds(rest@, 0);
        }
        if v == 0 {
            return false;
        }
        return match digits_to_u64(rest, 0, v) {
            Some(x) => x <= u32::MAX as u64 && x >= 5,
            None => false,
        };
    }
    false
}

/// The display name of a model id: `gpt-` becomes `GPT-`, and the `-mini`,
/// `-turbo`, `-preview` suffixes become words.
pub open spec fn model_display_name(id: Seq<char>) -> Seq<char> {
    replace_all(
        replace_all(
            replace_all(replace_all(id, "gpt-"@, "GPT-"@), "-mini"@, " Mini"@),
            "-turbo"@,
            " Turbo"@,
        ),
        "-preview"@,
        " Preview"@,
    )
}

/// The display name of a model id, as [`model_display_name`] states.
pub fn format_model_name(id: &str) -> (r: String)
    ensures
        r@ == model_display_name(id@),
{
    proof {
        reveal_strlit("gpt-");
        reveal_strlit("-mini");
        reveal_strlit("-turbo");
        reveal_strlit("-preview");
    }
    let a = replace_text(id, "gpt-", "GPT-");
    let b = replace_text(a.as_str(), "-mini", " Mini");
    let c = replace_text(b.as_str(), "-turbo", " Turbo");
    replace_text(c.as_str(), "-preview", " Preview")
}

/// The language name for a prompt, given the code in lower case; an unknown
/// code is kept as it was given.
pub open spec fn language_name(lowered: Seq<char>, code: Seq<char>) -> Seq<char> {
    if lowered == "auto"@ {
        "the same language as the original transcription"@
    } else if lowered == "ko"@ {
        "Korean"@
    } else if lowered == "en"@ {
        "English"@
    } else if lowered == "ja"@ {
        "Japanese"@
    } else if lowered == "zh"@ {
        "Chinese"@
    } else if lowered == "es"@ {
        "Spanish"@
    } else if lowered == "fr"@ {
        "French"@
    } else if lowered == "de"@ {
        "German"@
    } else if lowered == "pt"@ {
        "Portuguese"@
    } else if lowered == "ru"@ {
        "Russian"@
    } else if lowered == "it"@ {
        "Italian"@
    } else if lowered == "nl"@ {
        "Dutch"@
    } else if lowered == "pl"@ {
        "Polish"@
    } else if lowered == "tr"@ {
        "Turkish"@
    } else if lowered == "vi"@ {
        "Vietnamese"@
    } else if lowered == "th"@ {
        "Thai"@
    } else if lowered == "id"@ {
        "Indonesian"@
    } else if lowered == "ar"@ {
        "Arabic"@
    } else if lowered == "hi"@ {
        "Hindi"@
    } else {
        code
    }
}

/// The language name for a code already in lower case, as [`language_name`] states.
pub fn language_name_for(lowered: &str, code: &str) -> (r: String)
    ensures
        r@ == language_name(lowered@, code@),
{
    let name = if same_text(lowered, "auto") {
        "the same language as the original transcription"
    } else if same_text(lowered, "ko") {
        "Korean"
    } else if same_text(lowered, "en") {
        "English"
    } else if same_text(lowered, "ja") {
        "Japanese"
    } else if same_text(lowered, "zh") {
        "Chinese"
    } else if same_text(lowered, "es") {
        "Spanish"
    } else if same_text(lowered, "fr") {
        "French"
    } else if same_text(lowered, "de") {
        "German"
    } else if same_text(lowered, "pt") {
        "Portuguese"
    } else if same_text(lowered, "ru") {
        "Russian"
    } else if same_text(lowered, "it") {
        "Italian"
    } else if same_text(lowered, "nl") {
        "Dutch"
    } else if same_text(lowered, "pl") {
        "Polish"
    } else if same_text(lowered, "tr") {
        "Turkish"
    } else if same_text(lowered, "vi") {
        "Vietnamese"
    } else if same_text(lowered, "th") {
        "Thai"
    } else if same_text(lowered, "id") {
        "Indonesian"
    } else if same_text(lowered, "ar") {
        "Arabic"
    } else if same_text(lowered, "hi") {
        "Hindi"
    } else {
        code
    };
    String::from_str(name)
}

/// The language name that prompts ask for, for a language code in any case.
pub fn language_code_to_name(code: &str) -> (r: String)
    ensures
        r@ == language_name(lower_of(code@), code@),
{
    let lowered = to_lower(code);
    language_name_for(lowered.as_str(), code)
}

} // verus!
