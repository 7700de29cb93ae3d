use helix_verified::embedding_errors::EmbeddingError;
use helix_verified::embedding_features::{
    embedding_features, fnv1a64, tokenize, EmbeddingFeature, FeatureKind, DEFAULT_EMBEDDING_DIMENSIONS,
};

fn reference_fnv(bytes: &[u8]) -> u64 {
    let mut hash = 0xcbf29ce484222325_u64;
    for byte in bytes {
        hash ^= u64::from(*byte);
        hash = hash.wrapping_mul(0x100000001b3);
    }
    hash
}

fn expected(bytes: &[u8], dims: usize, kind: FeatureKind) -> EmbeddingFeature {
    let h = reference_fnv(bytes);
    EmbeddingFeature { index: (h as usize) % dims, negative: (h >> 63) != 0, kind }
}

#[test]
fn fnv_known_values() {
    assert_eq!(fnv1a64(b""), 0xcbf29ce484222325);
    assert_eq!(fnv1a64(b"a"), 0xaf63dc4c8601ec8c);
    assert_eq!(fnv1a64(b"foobar"), 0x85944171f73967e8);
}

#[test]
fn tokens_are_lowercased_alphanumeric_runs() {
    assert_eq!(tokenize("Alice North, resigned!"), vec!["alice", "north", "resigned"]);
    assert_eq!(tokenize("  x1--Y2  "), vec!["x1", "y2"]);
    assert_eq!(tokenize("ÉTÉ 2024"), vec!["été", "2024"]);
    assert!(tokenize("!!! ...").is_empty());
}

#[test]
fn features_cover_tokens_prefixes_and_pairs() {
    let f = embedding_features("Orion Dynamics", 16).unwrap();
    assert_eq!(
        f,
        vec![
            expected(b"orion", 16, FeatureKind::Token),
            expected(b"dynamics", 16, FeatureKind::Token),
            expected(b"dynami", 16, FeatureKind::Prefix),
            expected(b"orion dynamics", 16, FeatureKind::Pair),
        ]
    );
}

#[test]
fn features_are_deterministic() {
    let a = embedding_features("Alice North resigned from Orion Dynamics", DEFAULT_EMBEDDING_DIMENSIONS).unwrap();
    let b = embedding_features("Alice North resigned from Orion Dynamics", DEFAULT_EMBEDDING_DIMENSIONS).unwrap();
    assert_eq!(a, b);
    assert!(a.iter().all(|f| f.index < DEFAULT_EMBEDDING_DIMENSIONS));
}

#[test]
fn blank_text_is_refused() {
    assert!(matches!(embedding_features("  \n\t ", 8), Err(EmbeddingError::GenerationError(_))));
}

#[test]
fn zero_width_is_refused() {
    assert!(matches!(
        embedding_features("helix", 0),
        Err(EmbeddingError::InvalidDimensions { expected: 1, actual: 0 })
    ));
}

#[test]
fn text_without_tokens_or_too_long_is_refused() {
    match embedding_features("?!", 8) {
        Err(EmbeddingError::GenerationError(m)) => assert_eq!(m, "text must contain at least one alphanumeric token"),
        other => panic!("unexpected {:?}", other),
    }
    let long = "a".repeat(65537);
    match embedding_features(&long, 8) {
        Err(EmbeddingError::GenerationError(m)) => assert_eq!(m, "text exceeds 65536 byte embedding limit"),
        other => panic!("unexpected {:?}", other),
    }
}
