//! The error type shared by every fallible operation of the crate.

use vstd::prelude::*;

verus! {

/// What went wrong in an index operation.
#[derive(Debug, Clone, PartialEq, Eq)]
pub enum EmbeddingError {
    /// An input had the wrong shape: `expected` is what was asked for,
    /// `actual` is what arrived.
    DimensionMismatch { expected: usize, actual: usize },
    /// The embedding step failed; the message is the embedder's own.
    Embedding { message: String },
    /// The vector store failed; the message is the store's error as text.
    Store { message: String },
    /// A builder was used without everything it needs.
    InvalidConfiguration { message: String },
    /// The vector store could not be constructed.
    IndexCreation { message: String },
}

/// The mathematical value of an [`EmbeddingError`]: messages are sequences of
/// characters.
pub ghost enum ErrorModel {
    DimensionMismatch { expected: usize, actual: usize },
    Embedding { message: Seq<char> },
    Store { message: Seq<char> },
    InvalidConfiguration { message: Seq<char> },
    IndexCreation { message: Seq<char> },
}

impl View for EmbeddingError {
    type V = ErrorModel;

    open spec fn view(&self) -> ErrorModel {
        match *self {
            EmbeddingError::DimensionMismatch { expected, actual } => ErrorModel::DimensionMismatch {
                expected,
                actual,
            },
            EmbeddingError::Embedding { message } => ErrorModel::Embedding { message: message@ },
            EmbeddingError::Store { message } => ErrorModel::Store { message: message@ },
            EmbeddingError::InvalidConfiguration { message } => ErrorModel::InvalidConfiguration {
                message: message@,
            },
            EmbeddingError::IndexCreation { message } => ErrorModel::IndexCreation {
                message: message@,
            },
        }
    }
}

impl EmbeddingError {
    /// A shape violation with both sizes.
    pub fn dimension_mismatch(expected: usize, actual: usize) -> (e: EmbeddingError)
        ensures
            e@ == (ErrorModel::DimensionMismatch { expected, actual }),
    {
        EmbeddingError::DimensionMismatch { expected, actual }
    }

    /// A failure of the vector store, carrying the store's message.
    pub fn ruvector(message: String) -> (e: EmbeddingError)
        ensures
            e@ == (ErrorModel::Store { message: message@ }),
    {
        EmbeddingError::Store { message }
    }

    /// A misuse of a builder.
    pub fn invalid_config(message: &str) -> (e: EmbeddingError)
        ensures
            e@ == (ErrorModel::InvalidConfiguration { message: message@ }),
    {
        EmbeddingError::InvalidConfiguration { message: message.to_owned() }
    }

    /// A failure to construct the vector store.
    pub fn index_creation(message: String) -> (e: EmbeddingError)
        ensures
            e@ == (ErrorModel::IndexCreation { message: message@ }),
    {
        EmbeddingError::IndexCreation { message }
    }
}

} // verus!
