//! The error type shared by the reasoning kernels.

use vstd::prelude::*;

verus! {

/// Failures of the reasoning kernels.
#[derive(Debug, Clone, PartialEq, Eq)]
pub enum HelixError {
    /// An input failed validation.
    ValidationError { context: String, message: String },
    /// An internal invariant failed.
    InternalError(String),
    /// A value could not be serialized.
    SerializationError(String),
}

/// A reasoning failure with its texts taken as character sequences.
pub enum HelixFault {
    Validation(Seq<char>, Seq<char>),
    Internal(Seq<char>),
    Serialization(Seq<char>),
}

impl View for HelixError {
    type V = HelixFault;

    open spec fn view(&self) -> HelixFault {
        match self {
            HelixError::ValidationError { context, message } => HelixFault::Validation(
                context@,
                message@,
            ),
            HelixError::InternalError(m) => HelixFault::Internal(m@),
            HelixError::SerializationError(m) => HelixFault::Serialization(m@),
        }
    }
}

impl HelixError {
    /// A validation failure in `context` described by `message`.
    pub fn validation_error(context: &str, message: &str) -> (e: HelixError)
        ensures
            e@ == HelixFault::Validation(context@, message@),
    {
        HelixError::ValidationError {
            context: String::from_str(context),
            message: String::from_str(message),
        }
    }
}

} // verus!
