//! How the LLM agent factory reads an agent's configuration: the agent's
//! role, its id (given or derived from the model settings) and profile.

use vstd::prelude::*;
use vstd::utf8::encode_utf8;
use crate::hashing::{sha256, sha256_spec};
use crate::json_value::JsonValue;
use crate::llm::LlmError;
use crate::symbolic_program::str_eq;
use crate::text::{push_str, trim, trim_str};

verus! {

/// The profile an LLM agent belongs to when its parameters name none:
/// 50000000-0000-0000-0000-000000000010.
pub const DEFAULT_LLM_PROFILE_ID: u128 = 0x5000_0000_0000_0000_0000_0000_0000_0010u128;

/// The parameter `key`: the first member with that name.
pub open spec fn member_value(m: Seq<(String, JsonValue)>, key: Seq<char>) -> Option<JsonValue>
    decreases m.len(),
{
    if m.len() == 0 {
        None
    } else if m[0].0@ == key {
        Some(m[0].1)
    } else {
        member_value(m.drop_first(), key)
    }
}

/// The text of an optional string parameter: `Some(None)` when absent,
/// `Some(Some(text))` when a string, `None` when of another kind.
pub open spec fn param_text(v: Option<JsonValue>) -> Option<Option<Seq<char>>> {
    match v {
        None => Some(None),
        Some(JsonValue::Str(s)) => Some(Some(s@)),
        Some(_) => None,
    }
}

/// The parameter naming the role: "agent_role", else "agent_type", else
/// "agent_kind".
pub open spec fn role_param(m: Seq<(String, JsonValue)>) -> Option<JsonValue> {
    if member_value(m, "agent_role"@) is Some {
        member_value(m, "agent_role"@)
    } else if member_value(m, "agent_type"@) is Some {
        member_value(m, "agent_type"@)
    } else {
        member_value(m, "agent_kind"@)
    }
}

/// `c` with an ASCII capital made small.
pub open spec fn ascii_lower_char(c: char) -> char {
    if 'A' <= c && c <= 'Z' {
        ((c as u32) + 32) as char
    } else {
        c
    }
}

/// The text with its ASCII capitals made small.
pub open spec fn ascii_lower(s: Seq<char>) -> Seq<char> {
    s.map_values(|c: char| ascii_lower_char(c))
}

/// The role text: the role parameter trimmed and lower-cased, "source"
/// when absent; `None` when the parameter is not a string.
pub open spec fn role_text(m: Seq<(String, JsonValue)>) -> Option<Seq<char>> {
    match param_text(role_param(m)) {
        None => None,
        Some(None) => Some("source"@),
        Some(Some(t)) => Some(ascii_lower(trim(t))),
    }
}

/// The roles an LLM agent can take.
pub open spec fn known_role(r: Seq<char>) -> bool {
    r == "source"@ || r == "transformer"@ || r == "action"@
}

/// The bytes hashed to derive an agent id from its model settings.
pub open spec fn id_seed(provider: Seq<char>, model: Seq<char>, prompt: Seq<char>, role: Seq<char>) -> Seq<u8> {
    encode_utf8(provider) + encode_utf8(model) + encode_utf8(prompt) + encode_utf8(role)
}

/// The value of bytes read most significant first.
pub open spec fn be_value(b: Seq<u8>) -> nat
    decreases b.len(),
{
    if b.len() == 0 {
        0
    } else {
        be_value(b.drop_last()) * 256 + b.last() as nat
    }
}

/// The first 16 digest bytes with the version (5) and variant bits set.
pub open spec fn id_bytes(digest: Seq<u8>) -> Seq<u8> {
    digest.subrange(0, 16).update(6, (digest[6] & 0x0f) | 0x50).update(8, (digest[8] & 0x3f) | 0x80)
}

/// The id derived from the model settings and role.
pub open spec fn derived_agent_id(provider: Seq<char>, model: Seq<char>, prompt: Seq<char>, role: Seq<char>) -> nat {
    be_value(id_bytes(sha256_spec(id_seed(provider, model, prompt, role))))
}

/// The UUID that `uuid::Uuid::parse_str` reads from `s`, as its 128-bit
/// value, if any.
pub uninterp spec fn uuid_parsed(s: Seq<char>) -> Option<u128>;

/// Parses a UUID in any of the textual forms the uuid crate reads.
///
/// Trusted: calls `uuid::Uuid::parse_str` and returns `as_u128` of the
/// result; the result is named, not stated.
#[verifier::external_body]
fn parse_uuid_text(s: &str) -> (r: Option<u128>)
    ensures
        r == uuid_parsed(s@),
{
    match uuid::Uuid::parse_str(s) {
        Ok(u) => Some(u.as_u128()),
        Err(_) => None,
    }
}

/// Lower-cases the ASCII capitals of `s`, as `str::to_ascii_lowercase` does.
fn to_ascii_lowercase(s: &str) -> (r: String)
    ensures
        r@ == ascii_lower(s@),
{
    let n = s.unicode_len();
    let mut r = String::from_str("");
    proof {
        reveal_strlit("");
    }
    let mut i: usize = 0;
    while i < n
        invariant
            i <= n,
            n == s@.len(),
            r@ == ascii_lower(s@.subrange(0, i as int)),
        decreases n - i,
    {
        let c = s.get_char(i);
        let d = if 'A' <= c && c <= 'Z' {
            ((c as u8) + 32) as char
        } else {
            c
        };
        assert(d == ascii_lower_char(c));
        crate::text::push_char(&mut r, d);
        assert(ascii_lower(s@.subrange(0, i as int + 1)) =~= ascii_lower(s@.subrange(0, i as int)).push(d));
        i = i + 1;
    }
    assert(s@.subrange(0, n as int) =~= s@);
    r
}

/// The string parameter `key`: `Ok(None)` when absent, its text when a
/// string, an error naming the key when of another kind.
pub fn parameter_string(parameters: &Vec<(String, JsonValue)>, key: &str) -> (r: Result<Option<String>, LlmError>)
    ensures
        match (r, param_text(member_value(parameters@, key@))) {
            (Ok(None), Some(None)) => true,
            (Ok(Some(s)), Some(Some(t))) => s@ == t,
            (Err(LlmError::ConfigurationError(m)), None) => m@ == key@ + " must be a string"@,
            _ => false,
        },
{
    match find_member(parameters, key) {
        None => Ok(None),
        Some(JsonValue::Str(s)) => Ok(Some(s.clone())),
        Some(_) => {
            let mut m = String::from_str(key);
            push_str(&mut m, " must be a string");
            Err(LlmError::ConfigurationError(m))
        },
    }
}

/// The member named `key`, the first one.
pub fn find_member<'a>(m: &'a Vec<(String, JsonValue)>, key: &str) -> (r: Option<&'a JsonValue>)
    ensures
        match r {
            Some(v) => member_value(m@, key@) == Some(*v),
            None => member_value(m@, key@) is None,
        },
{
    let mut i: usize = 0;
    assert(m@.subrange(0, m@.len() as int) =~= m@);
    while i < m.len()
        invariant
            i <= m@.len(),
            member_value(m@, key@) == member_value(m@.subrange(i as int, m@.len() as int), key@),
        decreases m@.len() - i,
    {
        let ghost rest = m@.subrange(i as int, m@.len() as int);
        assert(rest[0] == m@[i as int]);
        if str_eq(m[i].0.as_str(), key) {
            return Some(&m[i].1);
        }
        assert(rest.drop_first() =~= m@.subrange(i + 1, m@.len() as int));
        i = i + 1;
    }
    None
}

/// The agent's role: the "agent_role", "agent_type" or "agent_kind"
/// parameter (the first present), trimmed and lower-cased, "source" when
/// none is given. It must be a string and one of "source", "transformer",
/// "action".
pub fn llm_agent_role(parameters: &Vec<(String, JsonValue)>) -> (r: Result<String, LlmError>)
    ensures
        match (r, role_text(parameters@)) {
            (Ok(s), Some(t)) => s@ == t && known_role(t),
            (Err(LlmError::ModelNotSupported(m)), Some(t)) => !known_role(t) && m@ == "unsupported llm agent role: "@ + t,
            (Err(LlmError::ConfigurationError(m)), None) => m@ == "agent_role, agent_type, or agent_kind must be a string"@,
            _ => false,
        },
{
    let v = match find_member(parameters, "agent_role") {
        Some(v) => Some(v),
        None => match find_member(parameters, "agent_type") {
            Some(v) => Some(v),
            None => find_member(parameters, "agent_kind"),
        },
    };
    let role = match v {
        None => String::from_str("source"),
        Some(JsonValue::Str(raw)) => {
            let trimmed = trim_str(raw.as_str());
            to_ascii_lowercase(trimmed.as_str())
        },
        Some(_) => {
            return Err(
                LlmError::ConfigurationError(
                    String::from_str("agent_role, agent_type, or agent_kind must be a string"),
                ),
            );
        },
    };
    if str_eq(role.as_str(), "source") || str_eq(role.as_str(), "transformer") || str_eq(role.as_str(), "action") {
        Ok(role)
    } else {
        let mut m = String::from_str("unsupported llm agent role: ");
        push_str(&mut m, role.as_str());
        Err(LlmError::ModelNotSupported(m))
    }
}

/// Reads a UUID parameter, ignoring surrounding whitespace; the nil UUID is
/// refused.
pub fn parse_uuid_parameter(context: &str, value: &str) -> (r: Result<u128, LlmError>)
    ensures
        match (r, uuid_parsed(trim(value@))) {
            (Ok(id), Some(u)) => id == u && u != 0,
            (Err(LlmError::ConfigurationError(m)), Some(u)) => u == 0 && m@ == context@ + " must not be nil"@,
            (Err(LlmError::ConfigurationError(m)), None) => m@ == context@ + " must be a valid UUID"@,
            _ => false,
        },
{
    let t = trim_str(value);
    check_uuid_parameter(context, parse_uuid_text(t.as_str()))
}

/// The UUID parameter `context` given what parsing its text gave: an error
/// when it did not parse or is the nil UUID.
pub fn check_uuid_parameter(context: &str, parsed: Option<u128>) -> (r: Result<u128, LlmError>)
    ensures
        match (r, parsed) {
            (Ok(id), Some(u)) => id == u && u != 0,
            (Err(LlmError::ConfigurationError(m)), Some(u)) => u == 0 && m@ == context@ + " must not be nil"@,
            (Err(LlmError::ConfigurationError(m)), None) => m@ == context@ + " must be a valid UUID"@,
            _ => false,
        },
{
    match parsed {
        None => {
            let mut m = String::from_str(context);
            push_str(&mut m, " must be a valid UUID");
            Err(LlmError::ConfigurationError(m))
        },
        Some(u) => {
            if u == 0 {
                let mut m = String::from_str(context);
                push_str(&mut m, " must not be nil");
                Err(LlmError::ConfigurationError(m))
            } else {
                Ok(u)
            }
        },
    }
}

/// The value of 16 bytes read most significant first.
fn bytes_to_u128(b: &[u8; 16]) -> (r: u128)
    ensures
        r == be_value(b@),
{
    let mut r: u128 = 0;
    let mut i: usize = 0;
    while i < 16
        invariant
            i <= 16,
            r == be_value(b@.subrange(0, i as int)),
            r < pow256(i as nat),
        decreases 16 - i,
    {
        assert(b@.subrange(0, i + 1).drop_last() =~= b@.subrange(0, i as int));
        proof {
            lemma_pow256_step(i as nat);
            assert(pow256(16) == 0x1_0000_0000_0000_0000_0000_0000_0000_0000nat) by {
                reveal_with_fuel(pow256, 17);
            }
            lemma_pow256_mono(i as nat + 1, 16);
            assert(r * 256 + b@[i as int] < pow256(i as nat + 1)) by (nonlinear_arith)
                requires
                    r < pow256(i as nat),
                    b@[i as int] < 256,
                    pow256(i as nat + 1) == pow256(i as nat) * 256,
            ;
        }
        r = r * 256 + b[i] as u128;
        i = i + 1;
    }
    assert(b@.subrange(0, 16) =~= b@);
    r
}

/// `256` to the power `n`.
pub open spec fn pow256(n: nat) -> nat
    decreases n,
{
    if n == 0 {
        1
    } else {
        256 * pow256((n - 1) as nat)
    }
}

proof fn lemma_pow256_step(n: nat)
    ensures
        pow256(n + 1) == pow256(n) * 256,
{
}

proof fn lemma_pow256_mono(a: nat, b: nat)
    requires
        a <= b,
    ensures
        pow256(a) <= pow256(b),
    decreases b,
{
    if a < b {
        lemma_pow256_mono(a, (b - 1) as nat);
        assert(pow256(b) == 256 * pow256((b - 1) as nat));
    }
}

/// The id derived from the model settings and role: the first 16 bytes of
/// the SHA-256 of provider, model, system prompt and role, marked as a
/// version 5, RFC 4122 variant UUID.
pub fn deterministic_llm_agent_id(provider: &str, model: &str, system_prompt: &str, role: &str) -> (id: u128)
    ensures
        id == derived_agent_id(provider@, model@, system_prompt@, role@),
{
    let mut seed: Vec<u8> = Vec::new();
    append_bytes(&mut seed, provider.as_bytes());
    append_bytes(&mut seed, model.as_bytes());
    append_bytes(&mut seed, system_prompt.as_bytes());
    append_bytes(&mut seed, role.as_bytes());
    let digest = sha256(seed.as_slice());
    assert(seed@ =~= id_seed(provider@, model@, system_prompt@, role@));
    agent_id_from_digest(&digest)
}

/// The UUID made of the first 16 bytes of a digest, marked as version 5
/// and RFC 4122 variant.
pub fn agent_id_from_digest(digest: &[u8; 32]) -> (id: u128)
    ensures
        id == be_value(id_bytes(digest@)),
{
    let mut bytes: [u8; 16] = [0u8; 16];
    let mut i: usize = 0;
    while i < 16
        invariant
            i <= 16,
            bytes@.len() == 16,
            forall|j: int| 0 <= j < i ==> bytes@[j] == digest@[j],
        decreases 16 - i,
    {
        bytes.set(i, digest[i]);
        i = i + 1;
    }
    let b6 = (bytes[6] & 0x0f) | 0x50;
    bytes.set(6, b6);
    let b8 = (bytes[8] & 0x3f) | 0x80;
    bytes.set(8, b8);
    assert(bytes@ =~= id_bytes(digest@));
    bytes_to_u128(&bytes)
}

/// Appends `b` to `v`.
fn append_bytes(v: &mut Vec<u8>, b: &[u8])
    ensures
        final(v)@ == old(v)@ + b@,
{
    let mut i: usize = 0;
    while i < b.len()
        invariant
            i <= b@.len(),
            v@ == old(v)@ + b@.subrange(0, i as int),
        decreases b@.len() - i,
    {
        v.push(b[i]);
        assert(old(v)@ + b@.subrange(0, i + 1) =~= v@);
        i = i + 1;
    }
    assert(b@.subrange(0, b@.len() as int) =~= b@);
}

/// The message of the error that a UUID parameter gives, if any: not a
/// string, not a UUID, or the nil UUID.
pub open spec fn uuid_param_error(v: Option<JsonValue>, key: Seq<char>) -> Option<Seq<char>> {
    match param_text(v) {
        None => Some(key + " must be a string"@),
        Some(None) => None,
        Some(Some(t)) => match uuid_parsed(trim(t)) {
            None => Some(key + " must be a valid UUID"@),
            Some(u) => if u == 0 {
                Some(key + " must not be nil"@)
            } else {
                None
            },
        },
    }
}

/// The first error in reading an identity, if any, with whether it is an
/// unsupported role (else a configuration error) and its message.
pub open spec fn identity_error(m: Seq<(String, JsonValue)>) -> Option<(bool, Seq<char>)> {
    match role_text(m) {
        None => Some((false, "agent_role, agent_type, or agent_kind must be a string"@)),
        Some(t) => if !known_role(t) {
            Some((true, "unsupported llm agent role: "@ + t))
        } else if uuid_param_error(member_value(m, "agent_id"@), "agent_id"@) is Some {
            Some((false, uuid_param_error(member_value(m, "agent_id"@), "agent_id"@)->0))
        } else if uuid_param_error(member_value(m, "profile_id"@), "profile_id"@) is Some {
            Some((false, uuid_param_error(member_value(m, "profile_id"@), "profile_id"@)->0))
        } else if param_text(member_value(m, "agent_name"@)) is None {
            Some((false, "agent_name"@ + " must be a string"@))
        } else {
            None
        },
    }
}

/// Who an LLM agent is: its role, ids, name and kind.
#[derive(Debug, Clone, PartialEq, Eq)]
pub struct LlmAgentIdentity {
    /// "source", "transformer" or "action".
    pub role: String,
    /// The agent id.
    pub agent_id: u128,
    /// The profile the agent belongs to.
    pub profile_id: u128,
    /// The agent's name, if given.
    pub name: Option<String>,
    /// "llm_" followed by the role.
    pub agent_kind: String,
}

/// Reads the identity of the LLM agent configured by the model settings and
/// parameters, checking in order: the role, the "agent_id" parameter (a
/// string holding a non-nil UUID; derived from the settings when absent),
/// the "profile_id" parameter (likewise; `DEFAULT_LLM_PROFILE_ID` when
/// absent) and the "agent_name" parameter (a string, when given).
pub fn llm_agent_identity(
    provider: &str,
    model: &str,
    system_prompt: &str,
    parameters: &Vec<(String, JsonValue)>,
) -> (r: Result<LlmAgentIdentity, LlmError>)
    ensures
        match r {
            Ok(a) => {
                &&& identity_error(parameters@) is None
                &&& role_text(parameters@) == Some(a.role@)
                &&& a.agent_kind@ == "llm_"@ + a.role@
                &&& match param_text(member_value(parameters@, "agent_id"@)) {
                    Some(Some(t)) => uuid_parsed(trim(t)) == Some(a.agent_id),
                    _ => a.agent_id == derived_agent_id(provider@, model@, system_prompt@, a.role@),
                }
                &&& match param_text(member_value(parameters@, "profile_id"@)) {
                    Some(Some(t)) => uuid_parsed(trim(t)) == Some(a.profile_id),
                    _ => a.profile_id == DEFAULT_LLM_PROFILE_ID,
                }
                &&& match param_text(member_value(parameters@, "agent_name"@)) {
                    Some(Some(t)) => a.name matches Some(n) && n@ == t,
                    _ => a.name is None,
                }
            },
            Err(e) => match identity_error(parameters@) {
                Some((true, msg)) => e matches LlmError::ModelNotSupported(m) && m@ == msg,
                Some((false, msg)) => e matches LlmError::ConfigurationError(m) && m@ == msg,
                None => false,
            },
        },
{
    let role = llm_agent_role(parameters)?;
    let agent_id = match parameter_string(parameters, "agent_id")? {
        Some(value) => parse_uuid_parameter("agent_id", value.as_str())?,
        None => deterministic_llm_agent_id(provider, model, system_prompt, role.as_str()),
    };
    let profile_id = match parameter_string(parameters, "profile_id")? {
        Some(value) => parse_uuid_parameter("profile_id", value.as_str())?,
        None => DEFAULT_LLM_PROFILE_ID,
    };
    let name = parameter_string(parameters, "agent_name")?;
    let mut agent_kind = String::from_str("llm_");
    push_str(&mut agent_kind, role.as_str());
    Ok(LlmAgentIdentity { role, agent_id, profile_id, name, agent_kind })
}

} // verus!
