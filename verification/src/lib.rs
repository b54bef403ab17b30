//! A verified vector-index layer: a record store for fixed-dimension vectors,
//! an index that keeps the text of every stored vector beside it, and a
//! retrieval helper that turns search results into a prompt.
//!
//! Vector components and scores are IEEE-754 single-precision values carried
//! by their 32-bit patterns; the crate never does arithmetic on them. Embedding
//! a text and ranking neighbours are capabilities the caller passes in.
//!
//! - [`dimensions`]: shape checks on vectors.
//! - [`config`]: the configuration of an index and search parameters.
//! - [`store`]: the vector store.
//! - [`index`]: the index over texts.
//! - [`builder`]: a builder for the index.
//! - [`prompt`] and [`rag`]: prompts from retrieved texts.
//! - [`laws`]: what holds of the index across operations.

pub mod error;
pub mod config;
pub mod dimensions;
pub mod store;
pub mod index;
pub mod prompt;
pub mod rag;
pub mod builder;
pub mod laws;
