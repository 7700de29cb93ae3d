//! Errors of embedding operations.

use vstd::prelude::*;
use crate::text::{decimal, decimal_string, push_str};

verus! {

/// Errors that can occur during embedding operations.
#[derive(Debug, Clone, PartialEq, Eq)]
pub enum EmbeddingError {
    /// Embedding generation failed.
    GenerationError(String),
    /// Search failed.
    SearchError(String),
    /// Storage error.
    StorageError(String),
    /// Invalid dimensions.
    InvalidDimensions { expected: usize, actual: usize },
    /// Model not found.
    ModelNotFound(String),
    /// Generic internal error.
    InternalError(String),
}

/// The message of an embedding error.
pub open spec fn embedding_message(e: EmbeddingError) -> Seq<char> {
    match e {
        EmbeddingError::GenerationError(m) => "Embedding generation failed: "@ + m@,
        EmbeddingError::SearchError(m) => "Search failed: "@ + m@,
        EmbeddingError::StorageError(m) => "Storage error: "@ + m@,
        EmbeddingError::InvalidDimensions { expected, actual } => "Invalid dimensions: expected "@ + decimal(
            expected as nat,
        ) + ", got "@ + decimal(actual as nat),
        EmbeddingError::ModelNotFound(m) => "Model not found: "@ + m@,
        EmbeddingError::InternalError(m) => "Internal embedding error: "@ + m@,
    }
}

impl EmbeddingError {
    /// The error's message, as `Display` renders it.
    pub fn to_string(&self) -> (s: String)
        ensures
            s@ == embedding_message(*self),
    {
        match self {
            EmbeddingError::GenerationError(m) => {
                let mut s = String::from_str("Embedding generation failed: ");
                push_str(&mut s, m.as_str());
                s
            },
            EmbeddingError::SearchError(m) => {
                let mut s = String::from_str("Search failed: ");
                push_str(&mut s, m.as_str());
                s
            },
            EmbeddingError::StorageError(m) => {
                let mut s = String::from_str("Storage error: ");
                push_str(&mut s, m.as_str());
                s
            },
            EmbeddingError::InvalidDimensions { expected, actual } => {
                let mut s = String::from_str("Invalid dimensions: expected ");
                let e = decimal_string(*expected);
                push_str(&mut s, e.as_str());
                push_str(&mut s, ", got ");
                let a = decimal_string(*actual);
                push_str(&mut s, a.as_str());
                s
            },
            EmbeddingError::ModelNotFound(m) => {
                let mut s = String::from_str("Model not found: ");
                push_str(&mut s, m.as_str());
                s
            },
            EmbeddingError::InternalError(m) => {
                let mut s = String::from_str("Internal embedding error: ");
                push_str(&mut s, m.as_str());
                s
            },
        }
    }
}

} // verus!
