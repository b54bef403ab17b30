//! A builder that collects the parts of an index and makes it.

use vstd::prelude::*;
use crate::config::{Distance, RuVectorConfig};
use crate::error::{EmbeddingError, ErrorModel};
use crate::index::{creation_outcome, RuVectorEmbeddings};

verus! {

/// The mathematical value of a [`RuVectorBuilder`].
pub ghost struct BuilderModel {
    /// Display name of the index to be.
    pub name: Seq<char>,
    /// Output dimension of the embedder, once one was supplied.
    pub embedder: Option<usize>,
    /// The configuration so far.
    pub config: RuVectorConfig,
}

/// Collects a name, an embedder and a configuration, and builds an index.
pub struct RuVectorBuilder {
    name: String,
    embedder: Option<usize>,
    config: RuVectorConfig,
}

impl View for RuVectorBuilder {
    type V = BuilderModel;

    closed spec fn view(&self) -> BuilderModel {
        BuilderModel { name: self.name@, embedder: self.embedder, config: self.config }
    }
}

/// The message of the error that a build without an embedder gives.
pub open spec fn embedder_required() -> Seq<char> {
    "Embedder is required"@
}

/// What [`RuVectorBuilder::build`] returns: without an embedder, an invalid
/// configuration; with one, what creating the index returns.
pub open spec fn build_outcome(
    builder: BuilderModel,
    r: Result<RuVectorEmbeddings, EmbeddingError>,
) -> bool {
    match builder.embedder {
        None => match r {
            Ok(_) => false,
            Err(e) => e@ == (ErrorModel::InvalidConfiguration { message: embedder_required() }),
        },
        Some(dimension) => creation_outcome(builder.name, dimension, builder.config, r),
    }
}

impl RuVectorBuilder {
    /// A builder for an index named `name`, with the standard configuration
    /// and no embedder yet.
    pub fn new(name: &str) -> (b: RuVectorBuilder)
        ensures
            b@ == (BuilderModel {
                name: name@,
                embedder: None,
                config: RuVectorConfig::standard(),
            }),
    {
        RuVectorBuilder { name: name.to_owned(), embedder: None, config: RuVectorConfig::default() }
    }

    /// Supplies the embedder, by the dimension of the vectors it gives.
    pub fn embedder(self, dimension: usize) -> (b: RuVectorBuilder)
        ensures
            b@ == (BuilderModel { embedder: Some(dimension), ..self@ }),
    {
        RuVectorBuilder { name: self.name, embedder: Some(dimension), config: self.config }
    }

    /// Sets the distance metric.
    pub fn distance(self, distance: Distance) -> (b: RuVectorBuilder)
        ensures
            b@ == (BuilderModel {
                config: RuVectorConfig { distance, ..self@.config },
                ..self@
            }),
    {
        let config = RuVectorConfig {
            distance,
            m: self.config.m,
            ef_construction: self.config.ef_construction,
            max_elements: self.config.max_elements,
        };
        RuVectorBuilder { name: self.name, embedder: self.embedder, config }
    }

    /// Sets the number of connections per graph layer.
    pub fn m(self, m: usize) -> (b: RuVectorBuilder)
        ensures
            b@ == (BuilderModel { config: RuVectorConfig { m, ..self@.config }, ..self@ }),
    {
        let config = RuVectorConfig {
            distance: self.config.distance,
            m,
            ef_construction: self.config.ef_construction,
            max_elements: self.config.max_elements,
        };
        RuVectorBuilder { name: self.name, embedder: self.embedder, config }
    }

    /// Sets the breadth of the search made while the graph is built.
    pub fn ef_construction(self, ef: usize) -> (b: RuVectorBuilder)
        ensures
            b@ == (BuilderModel {
                config: RuVectorConfig { ef_construction: ef, ..self@.config },
                ..self@
            }),
    {
        let config = RuVectorConfig {
            distance: self.config.distance,
            m: self.config.m,
            ef_construction: ef,
            max_elements: self.config.max_elements,
        };
        RuVectorBuilder { name: self.name, embedder: self.embedder, config }
    }

    /// Sets the most records the index will hold.
    pub fn max_elements(self, max: usize) -> (b: RuVectorBuilder)
        ensures
            b@ == (BuilderModel {
                config: RuVectorConfig { max_elements: max, ..self@.config },
                ..self@
            }),
    {
        let config = RuVectorConfig {
            distance: self.config.distance,
            m: self.config.m,
            ef_construction: self.config.ef_construction,
            max_elements: max,
        };
        RuVectorBuilder { name: self.name, embedder: self.embedder, config }
    }

    /// Builds the index. Fails if no embedder was supplied, before any store
    /// is made; otherwise as creating the index does.
    pub fn build(self) -> (r: Result<RuVectorEmbeddings, EmbeddingError>)
        ensures
            build_outcome(self@, r),
    {
        match self.embedder {
            None => Err(EmbeddingError::invalid_config("Embedder is required")),
            Some(dimension) => RuVectorEmbeddings::new(self.name.as_str(), dimension, self.config),
        }
    }
}

} // verus!
