//! Language-model plumbing that is pure computation: message types and the
//! character-based token estimate.

use vstd::prelude::*;
use vstd::utf8::{encode_utf8, is_char_boundary};
use crate::automation_parser::{regex_first, regex_first_capture};
use crate::text::copy_string;

verus! {

/// Failures of language-model operations.
#[derive(Debug, Clone, PartialEq, Eq)]
pub enum LlmError {
    ProviderNotFound(String),
    ApiError(String),
    AuthenticationError(String),
    RateLimitError(String),
    ConfigurationError(String),
    TokenizationError(String),
    ParsingError(String),
    ContextTooLarge(usize, usize),
    ModelNotSupported(String),
    NetworkError(String),
    /// JSON (de)serialization failed; the message of the JSON error.
    JsonError(String),
    /// An HTTP request failed; the message of the HTTP error.
    HttpError(String),
    InternalError(String),
}

/// Role of a message sender.
#[derive(Debug, Clone, Copy, PartialEq, Eq, Structural)]
pub enum MessageRole {
    System,
    User,
    Assistant,
    Function,
}

/// A function call requested by the model.
#[derive(Debug, Clone, PartialEq, Eq)]
pub struct FunctionCall {
    /// Name of the function.
    pub name: String,
    /// Arguments, as JSON text.
    pub arguments: String,
}

/// A message of a conversation.
#[derive(Debug, Clone, PartialEq, Eq)]
pub struct Message {
    pub role: MessageRole,
    pub content: String,
    pub function_call: Option<FunctionCall>,
}

/// Token usage of one completion.
#[derive(Debug, Clone, Copy, PartialEq, Eq, Structural)]
pub struct TokenUsage {
    pub prompt_tokens: u32,
    pub completion_tokens: u32,
    pub total_tokens: u32,
}

/// Why a generation finished.
#[derive(Debug, Clone, Copy, PartialEq, Eq, Structural)]
pub enum FinishReason {
    Stop,
    Length,
    FunctionCall,
    ContentFilter,
    Error,
}

/// A span of text, by character positions.
#[derive(Debug, Clone, Copy, PartialEq, Eq, Structural)]
pub struct TextSpan {
    pub start: usize,
    pub end: usize,
}

/// Type of a template variable.
#[derive(Debug, Clone, Copy, PartialEq, Eq, Structural)]
pub enum VariableType {
    String,
    Number,
    Boolean,
    Array,
    Object,
}

/// A variable of a prompt template.
#[derive(Debug, Clone, PartialEq, Eq)]
pub struct VariableDefinition {
    pub name: String,
    pub description: String,
    pub var_type: VariableType,
    pub required: bool,
    pub default: Option<String>,
}

/// The token estimate of a text of `n` bytes: one token per started four bytes.
pub open spec fn tokens_for(n: nat) -> nat {
    (n + 3) / 4
}

/// Estimates tokens as one per started four bytes of UTF-8.
pub fn count_tokens(text: &str, model: &str) -> (r: Result<usize, LlmError>)
    ensures
        r matches Ok(n) && n == tokens_for(encode_utf8(text@).len()),
{
    let n = text.as_bytes().len();
    Ok(n / 4 + if n % 4 == 0 { 0 } else { 1 })
}

/// The first `n` bytes of `s`, cut at a character boundary.
pub(crate) fn utf8_prefix(s: &str, n: usize) -> (r: String)
    requires
        is_char_boundary(encode_utf8(s@), n as int),
        n <= encode_utf8(s@).len(),
    ensures
        encode_utf8(r@) == encode_utf8(s@).subrange(0, n as int),
{
    let (head, _tail) = s.split_at(n);
    String::from_str(head)
}

/// A text over its token budget is cut, and what is kept fits the budget:
/// the kept bytes are fewer than the text's and estimate at most
/// `max_tokens` tokens.
pub proof fn law_truncation_fits_budget(len: nat, max_tokens: nat)
    requires
        tokens_for(len) > max_tokens,
    ensures
        kept_bytes(len, max_tokens) < len,
        tokens_for(kept_bytes(len, max_tokens)) <= max_tokens,
{
    let t = tokens_for(len);
    let q = len / t;
    assert(t >= 1);
    assert(4 * t >= len);
    assert(q * t <= len) by (nonlinear_arith)
        requires
            t >= 1,
            q == len / t,
    ;
    assert(q <= 4) by (nonlinear_arith)
        requires
            q * t <= len,
            len <= 4 * t,
            t >= 1,
    ;
    assert(kept_bytes(len, max_tokens) == max_tokens * q);
    assert(max_tokens * q <= 4 * max_tokens) by (nonlinear_arith)
        requires
            q <= 4,
    ;
    if q == 0 {
        assert(len >= 1);
    } else {
        assert(max_tokens * q < t * q) by (nonlinear_arith)
            requires
                max_tokens < t,
                q >= 1,
        ;
        assert(t * q == q * t) by (nonlinear_arith);
    }
}

/// The byte length a truncation keeps: the budget times the average bytes per
/// estimated token.
pub open spec fn kept_bytes(len: nat, max_tokens: nat) -> nat {
    max_tokens * (len / (if tokens_for(len) == 0 { 1 } else { tokens_for(len) }))
}

/// Truncates a text whose estimate exceeds `max_tokens` to `max_tokens` times
/// its average bytes per token; otherwise returns it whole. The cut must fall
/// on a character boundary.
pub fn truncate_to_tokens(text: &str, model: &str, max_tokens: usize) -> (r: Result<String, LlmError>)
    requires
        ({
            let len = encode_utf8(text@).len();
            tokens_for(len) > max_tokens && kept_bytes(len, max_tokens as nat) < len ==> is_char_boundary(
                encode_utf8(text@),
                kept_bytes(len, max_tokens as nat) as int,
            )
        }),
    ensures
        ({
            let len = encode_utf8(text@).len();
            r matches Ok(s) && if tokens_for(len) > max_tokens && kept_bytes(len, max_tokens as nat) < len {
                encode_utf8(s@) == encode_utf8(text@).subrange(0, kept_bytes(len, max_tokens as nat) as int)
            } else {
                s@ == text@
            }
        }),
{
    let estimated = match count_tokens(text, model) {
        Ok(n) => n,
        Err(e) => {
            return Err(e);
        },
    };
    if estimated <= max_tokens {
        return Ok(String::from_str(text));
    }
    let len = text.as_bytes().len();
    let per = len / (if estimated == 0 { 1 } else { estimated });
    proof {
        assert(per <= len / estimated);
        assert(max_tokens < estimated);
        assert(max_tokens * per <= estimated * (len / estimated)) by (nonlinear_arith)
            requires
                max_tokens < estimated,
                per == len / estimated,
                estimated > 0,
        ;
        assert(estimated * (len / estimated) <= len) by (nonlinear_arith)
            requires
                estimated > 0,
        ;
    }
    let max_chars = max_tokens * per;
    if max_chars < len {
        Ok(utf8_prefix(text, max_chars))
    } else {
        Ok(String::from_str(text))
    }
}

/// Role of a conversation message.
#[derive(Debug, Clone, Copy, PartialEq, Eq, Structural)]
pub enum ContextMessageRole {
    System,
    User,
    Assistant,
    Tool,
}

/// Estimates tokens as one per started four bytes of UTF-8.
pub fn estimate_token_count(text: &str) -> (n: usize)
    ensures
        n == tokens_for(encode_utf8(text@).len()),
{
    let len = text.as_bytes().len();
    len / 4 + if len % 4 == 0 { 0 } else { 1 }
}

/// The text of group 1 of the first match of `pattern` in `response`, where
/// the pattern compiles, matches, and the group took part.
pub open spec fn first_group_text(pattern: Seq<char>, response: Seq<char>) -> Option<Seq<char>> {
    match regex_first(pattern, response, 1) {
        Some(Some(row)) => if row.len() > 1 && row[1] is Some {
            Some(row[1].unwrap().0)
        } else {
            None
        },
        _ => None,
    }
}

/// The named values read from `response`: for each (name, pattern), in
/// order, the name and group 1 of the pattern's first match, where there is one.
pub open spec fn extracted(patterns: Seq<(Seq<char>, Seq<char>)>, response: Seq<char>) -> Seq<(Seq<char>, Seq<char>)>
    decreases patterns.len(),
{
    if patterns.len() == 0 {
        Seq::empty()
    } else {
        let rest = extracted(patterns.drop_last(), response);
        match first_group_text(patterns.last().1, response) {
            Some(t) => rest.push((patterns.last().0, t)),
            None => rest,
        }
    }
}

/// Reads named values from a model's response: for each (name, pattern),
/// group 1 of the pattern's first match, under the pattern's name. Patterns
/// that do not compile, do not match, or whose group 1 takes no part give
/// nothing.
pub fn extract_structured_data(response: &str, patterns: &Vec<(String, String)>) -> (r: Vec<(String, String)>)
    ensures
        r@.map_values(|p: (String, String)| (p.0@, p.1@)) == extracted(
            patterns@.map_values(|p: (String, String)| (p.0@, p.1@)),
            response@,
        ),
{
    let ghost pv = patterns@.map_values(|p: (String, String)| (p.0@, p.1@));
    let mut out: Vec<(String, String)> = Vec::new();
    let mut i: usize = 0;
    while i < patterns.len()
        invariant
            i <= patterns@.len(),
            pv == patterns@.map_values(|p: (String, String)| (p.0@, p.1@)),
            out@.map_values(|p: (String, String)| (p.0@, p.1@)) == extracted(pv.take(i as int), response@),
        decreases patterns@.len() - i,
    {
        proof {
            assert(pv.take(i as int + 1).drop_last() =~= pv.take(i as int));
            assert(pv.take(i as int + 1).last() == pv[i as int]);
        }
        let ghost ob = out@.map_values(|p: (String, String)| (p.0@, p.1@));
        match regex_first_capture(patterns[i].1.as_str(), response, 1) {
            Some(Some(row)) => {
                if row.len() > 1 {
                    match &row[1] {
                        Some(m) => {
                            let e = (copy_string(&patterns[i].0), copy_string(&m.text));
                            out.push(e);
                            assert(out@.map_values(|p: (String, String)| (p.0@, p.1@)) =~= ob.push((e.0@, e.1@)));
                        },
                        None => {},
                    }
                }
            },
            _ => {},
        }
        i = i + 1;
    }
    proof {
        assert(pv.take(patterns@.len() as int) =~= pv);
    }
    out
}

} // verus!
