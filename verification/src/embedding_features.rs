//! The lexical features of the deterministic text embedder: the text is
//! split into lower-cased alphanumeric tokens, and each token, its six-byte
//! prefix and each pair of neighbouring tokens is hashed (FNV-1a) into a
//! bucket with a sign. Summing the weighted features and normalising the
//! vector is floating-point work done by the caller.

use vstd::prelude::*;
use vstd::utf8::encode_utf8;
use crate::embedding_errors::EmbeddingError;
use crate::text::{chars_of, push_char, trim, trim_str};

verus! {

/// Vector width used by default.
pub const DEFAULT_EMBEDDING_DIMENSIONS: usize = 64;

/// Largest text, in bytes, that is embedded.
pub const MAX_TEXT_BYTES: usize = 65536;

/// Whether `char::is_alphanumeric` holds of `c` (Unicode's Alphabetic or
/// Numeric property).
pub uninterp spec fn alphanumeric(c: char) -> bool;

/// The characters `char::to_lowercase` yields for `c`.
pub uninterp spec fn lowercase(c: char) -> Seq<char>;

/// Whether `c` is alphabetic or numeric.
///
/// Trusted: calls `char::is_alphanumeric`; the result is named, not stated.
#[verifier::external_body]
fn is_alphanumeric(c: char) -> (b: bool)
    ensures
        b == alphanumeric(c),
{
    c.is_alphanumeric()
}

/// The lower-case form of `c`, one or more characters.
///
/// Trusted: collects `char::to_lowercase`; the result is named, not stated.
#[verifier::external_body]
fn to_lowercase(c: char) -> (r: Vec<char>)
    ensures
        r@ == lowercase(c),
{
    c.to_lowercase().collect()
}

/// The tokens completed so far and the token being read, after `cs`.
pub open spec fn token_state(cs: Seq<char>) -> (Seq<Seq<char>>, Seq<char>)
    decreases cs.len(),
{
    if cs.len() == 0 {
        (Seq::empty(), Seq::empty())
    } else {
        let (done, cur) = token_state(cs.drop_last());
        let c = cs.last();
        if alphanumeric(c) {
            (done, cur + lowercase(c))
        } else if cur.len() > 0 {
            (done.push(cur), Seq::empty())
        } else {
            (done, cur)
        }
    }
}

/// The tokens of a text: its maximal runs of alphanumeric characters,
/// lower-cased.
pub open spec fn tokens_of(cs: Seq<char>) -> Seq<Seq<char>> {
    let (done, cur) = token_state(cs);
    if cur.len() > 0 {
        done.push(cur)
    } else {
        done
    }
}

/// The 64-bit FNV-1a hash of `b`.
pub open spec fn fnv1a64_spec(b: Seq<u8>) -> u64
    decreases b.len(),
{
    if b.len() == 0 {
        0xcbf29ce484222325u64
    } else {
        ((fnv1a64_spec(b.drop_last()) ^ (b.last() as u64)) as nat * 0x100000001b3nat % 0x1_0000_0000_0000_0000nat) as u64
    }
}

/// What a feature is made of, which sets its weight.
#[derive(Debug, Clone, Copy, PartialEq, Eq, Structural)]
pub enum FeatureKind {
    /// A whole token.
    Token,
    /// The first six bytes of a longer token.
    Prefix,
    /// Two neighbouring tokens joined by a space.
    Pair,
}

/// A hashed feature: its bucket, whether it counts negatively, and its kind.
#[derive(Debug, Clone, Copy, PartialEq, Eq, Structural)]
pub struct EmbeddingFeature {
    pub index: usize,
    pub negative: bool,
    pub kind: FeatureKind,
}

/// The feature of the bytes `b` in a vector of `dims` buckets: the hash
/// modulo `dims`, negative when the hash's top bit is set.
pub open spec fn feature_of(b: Seq<u8>, dims: usize, kind: FeatureKind) -> EmbeddingFeature {
    EmbeddingFeature {
        index: ((fnv1a64_spec(b) as usize) % dims) as usize,
        negative: (fnv1a64_spec(b) >> 63u64) != 0,
        kind,
    }
}

/// The features of token `i`: the token, its prefix when longer than six
/// bytes, and its pair with the token before.
pub open spec fn token_features(tokens: Seq<Seq<char>>, i: int, dims: usize) -> Seq<EmbeddingFeature> {
    let t = encode_utf8(tokens[i]);
    let whole = seq![feature_of(t, dims, FeatureKind::Token)];
    let prefix = if t.len() > 6 {
        seq![feature_of(t.subrange(0, 6), dims, FeatureKind::Prefix)]
    } else {
        Seq::empty()
    };
    let pair = if i > 0 {
        seq![feature_of(encode_utf8(tokens[i - 1]) + seq![32u8] + t, dims, FeatureKind::Pair)]
    } else {
        Seq::empty()
    };
    whole + prefix + pair
}

/// The features of the first `n` tokens, in order.
pub open spec fn features_upto(tokens: Seq<Seq<char>>, n: int, dims: usize) -> Seq<EmbeddingFeature>
    decreases n,
{
    if n <= 0 {
        Seq::empty()
    } else {
        features_upto(tokens, n - 1, dims) + token_features(tokens, n - 1, dims)
    }
}

/// The 64-bit FNV-1a hash of the bytes.
pub fn fnv1a64(bytes: &[u8]) -> (h: u64)
    ensures
        h == fnv1a64_spec(bytes@),
{
    let mut hash: u64 = 0xcbf29ce484222325u64;
    let mut i: usize = 0;
    while i < bytes.len()
        invariant
            i <= bytes@.len(),
            hash == fnv1a64_spec(bytes@.subrange(0, i as int)),
        decreases bytes@.len() - i,
    {
        assert(bytes@.subrange(0, i + 1).drop_last() =~= bytes@.subrange(0, i as int));
        hash = hash ^ (bytes[i] as u64);
        hash = hash.wrapping_mul(0x100000001b3u64);
        i = i + 1;
    }
    assert(bytes@.subrange(0, bytes@.len() as int) =~= bytes@);
    hash
}

/// Splits the text into its tokens (see `tokens_of`).
pub fn tokenize(text: &str) -> (tokens: Vec<String>)
    ensures
        tokens@.map_values(|t: String| t@) == tokens_of(text@),
{
    let cs = chars_of(text);
    let mut tokens: Vec<String> = Vec::new();
    let mut current = String::new();
    let mut i: usize = 0;
    while i < cs.len()
        invariant
            i <= cs@.len(),
            cs@ == text@,
            (tokens@.map_values(|t: String| t@), current@) == token_state(cs@.subrange(0, i as int)),
        decreases cs@.len() - i,
    {
        assert(cs@.subrange(0, i + 1).drop_last() =~= cs@.subrange(0, i as int));
        let c = cs[i];
        if is_alphanumeric(c) {
            let lower = to_lowercase(c);
            let mut k: usize = 0;
            let ghost start = current@;
            while k < lower.len()
                invariant
                    k <= lower@.len(),
                    current@ == start + lower@.subrange(0, k as int),
                decreases lower@.len() - k,
            {
                push_char(&mut current, lower[k]);
                assert(start + lower@.subrange(0, k + 1) =~= current@);
                k = k + 1;
            }
            assert(lower@.subrange(0, lower@.len() as int) =~= lower@);
        } else if current.as_str().unicode_len() > 0 {
            let ghost before = tokens@;
            let done = current;
            tokens.push(done);
            current = String::new();
            assert(tokens@.map_values(|t: String| t@) =~= before.map_values(|t: String| t@).push(done@));
        }
        i = i + 1;
    }
    assert(cs@.subrange(0, cs@.len() as int) =~= cs@);
    if current.as_str().unicode_len() > 0 {
        let ghost before = tokens@;
        let last = current;
        tokens.push(last);
        assert(tokens@.map_values(|t: String| t@) =~= before.map_values(|t: String| t@).push(last@));
    }
    tokens
}

/// The feature of the bytes `b` (see `feature_of`).
fn feature(b: &[u8], dims: usize, kind: FeatureKind) -> (f: EmbeddingFeature)
    requires
        dims > 0,
    ensures
        f == feature_of(b@, dims, kind),
{
    let h = fnv1a64(b);
    EmbeddingFeature { index: (h as usize) % dims, negative: (h >> 63u64) != 0, kind }
}

/// The bytes of `a`, a space, and the bytes of `b`.
fn pair_bytes(a: &str, b: &str) -> (r: Vec<u8>)
    ensures
        r@ == encode_utf8(a@) + seq![32u8] + encode_utf8(b@),
{
    let mut r: Vec<u8> = Vec::new();
    let ab = a.as_bytes();
    let bb = b.as_bytes();
    let mut i: usize = 0;
    while i < ab.len()
        invariant
            i <= ab@.len(),
            r@ == ab@.subrange(0, i as int),
        decreases ab@.len() - i,
    {
        r.push(ab[i]);
        assert(r@ =~= ab@.subrange(0, i + 1));
        i = i + 1;
    }
    r.push(32u8);
    let ghost head = r@;
    let mut j: usize = 0;
    while j < bb.len()
        invariant
            j <= bb@.len(),
            r@ == head + bb@.subrange(0, j as int),
        decreases bb@.len() - j,
    {
        r.push(bb[j]);
        assert(r@ =~= head + bb@.subrange(0, j + 1));
        j = j + 1;
    }
    assert(ab@.subrange(0, ab@.len() as int) =~= ab@);
    assert(bb@.subrange(0, bb@.len() as int) =~= bb@);
    assert(r@ =~= encode_utf8(a@) + seq![32u8] + encode_utf8(b@));
    r
}

/// The features of a text in a vector of `dimensions` buckets, token by
/// token (see `features_upto`). Refused, in this order: a zero width, a
/// blank text, a text over `MAX_TEXT_BYTES` bytes, a text without tokens.
pub fn embedding_features(text: &str, dimensions: usize) -> (r: Result<Vec<EmbeddingFeature>, EmbeddingError>)
    ensures
        dimensions == 0 ==> (r matches Err(EmbeddingError::InvalidDimensions { expected, actual }) && expected == 1
            && actual == 0),
        dimensions > 0 && trim(text@).len() == 0 ==> (r matches Err(EmbeddingError::GenerationError(m)) && m@
            == "text must contain at least one token"@),
        dimensions > 0 && trim(text@).len() > 0 && encode_utf8(text@).len() > MAX_TEXT_BYTES ==> (r matches Err(
            EmbeddingError::GenerationError(m),
        ) && m@ == "text exceeds 65536 byte embedding limit"@),
        dimensions > 0 && trim(text@).len() > 0 && encode_utf8(text@).len() <= MAX_TEXT_BYTES ==> if tokens_of(
            text@,
        ).len() == 0 {
            r matches Err(EmbeddingError::GenerationError(m)) && m@ == "text must contain at least one alphanumeric token"@
        } else {
            r matches Ok(f) && f@ == features_upto(tokens_of(text@), tokens_of(text@).len() as int, dimensions)
        },
{
    if dimensions == 0 {
        return Err(EmbeddingError::InvalidDimensions { expected: 1, actual: 0 });
    }
    if trim_str(text).unicode_len() == 0 {
        return Err(EmbeddingError::GenerationError(String::from_str("text must contain at least one token")));
    }
    if text.as_bytes().len() > MAX_TEXT_BYTES {
        return Err(EmbeddingError::GenerationError(String::from_str("text exceeds 65536 byte embedding limit")));
    }
    let tokens = tokenize(text);
    let ghost toks = tokens_of(text@);
    if tokens.len() == 0 {
        return Err(
            EmbeddingError::GenerationError(String::from_str("text must contain at least one alphanumeric token")),
        );
    }
    let mut features: Vec<EmbeddingFeature> = Vec::new();
    let mut i: usize = 0;
    while i < tokens.len()
        invariant
            dimensions > 0,
            i <= tokens@.len(),
            tokens@.map_values(|t: String| t@) == toks,
            features@ == features_upto(toks, i as int, dimensions),
        decreases tokens@.len() - i,
    {
        assert(toks[i as int] == tokens@[i as int]@);
        let t = tokens[i].as_str();
        let tb = t.as_bytes();
        features.push(feature(tb, dimensions, FeatureKind::Token));
        if tb.len() > 6 {
            let head = vstd::slice::slice_subrange(tb, 0, 6);
            features.push(feature(head, dimensions, FeatureKind::Prefix));
        }
        if i > 0 {
            assert(toks[i - 1] == tokens@[i - 1]@);
            let pb = pair_bytes(tokens[i - 1].as_str(), t);
            features.push(feature(pb.as_slice(), dimensions, FeatureKind::Pair));
        }
        assert(features@ =~= features_upto(toks, i as int, dimensions) + token_features(toks, i as int, dimensions));
        i = i + 1;
    }
    Ok(features)
}

} // verus!
