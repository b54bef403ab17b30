//! Configuration of an index and the parameters of a neighbour search.

use vstd::prelude::*;

verus! {

/// The metric by which a neighbour index ranks vectors.
#[derive(Debug, Clone, Copy, PartialEq, Eq, Structural)]
pub enum Distance {
    /// Square root of the sum of squared differences; lower is closer.
    Euclidean,
    /// One minus the cosine of the angle between the vectors; lower is closer.
    Cosine,
    /// Negated inner product; lower is closer.
    DotProduct,
    /// Sum of absolute differences; lower is closer.
    Manhattan,
}

/// The graph parameters a vector store is constructed with.
#[derive(Debug, Clone, Copy, PartialEq, Eq, Structural)]
pub struct HnswConfig {
    /// Connections per graph layer.
    pub m: usize,
    /// Breadth of the search made while the graph is built.
    pub ef_construction: usize,
    /// Most records the store will hold.
    pub max_elements: usize,
}

impl HnswConfig {
    /// A store can be constructed only with parameters that are all at least one.
    pub open spec fn valid(self) -> bool {
        self.m >= 1 && self.ef_construction >= 1 && self.max_elements >= 1
    }
}

/// Configuration of an index; fixed once the index is built.
#[derive(Debug, Clone, Copy, PartialEq, Eq, Structural)]
pub struct RuVectorConfig {
    /// Distance metric.
    pub distance: Distance,
    /// Connections per graph layer.
    pub m: usize,
    /// Breadth of the search made while the graph is built.
    pub ef_construction: usize,
    /// Most records the index will hold.
    pub max_elements: usize,
}

impl RuVectorConfig {
    /// The configuration an index has unless told otherwise.
    pub open spec fn standard() -> RuVectorConfig {
        RuVectorConfig {
            distance: Distance::Cosine,
            m: 16,
            ef_construction: 100,
            max_elements: 100_000,
        }
    }

    /// The graph parameters this configuration hands to the store.
    pub open spec fn graph(self) -> HnswConfig {
        HnswConfig {
            m: self.m,
            ef_construction: self.ef_construction,
            max_elements: self.max_elements,
        }
    }

    /// The graph parameters this configuration hands to the store.
    pub fn hnsw(&self) -> (h: HnswConfig)
        ensures
            h == self.graph(),
    {
        HnswConfig {
            m: self.m,
            ef_construction: self.ef_construction,
            max_elements: self.max_elements,
        }
    }
}

impl Default for RuVectorConfig {
    fn default() -> (c: RuVectorConfig)
        ensures
            c == RuVectorConfig::standard(),
    {
        RuVectorConfig {
            distance: Distance::Cosine,
            m: 16,
            ef_construction: 100,
            max_elements: 100_000,
        }
    }
}

/// What a neighbour index is asked for: `k` results, found with a search of
/// breadth `ef_search`.
#[derive(Debug, Clone, Copy, PartialEq, Eq, Structural)]
pub struct SearchParams {
    /// Number of neighbours wanted.
    pub k: usize,
    /// Breadth of the search.
    pub ef_search: usize,
}

impl SearchParams {
    /// Parameters of a plain search for `k` neighbours: breadth `2 * k`.
    pub open spec fn plain(k: usize) -> SearchParams
        recommends
            2 * k <= usize::MAX,
    {
        SearchParams { k, ef_search: (2 * k) as usize }
    }

    /// Parameters of a search whose hits are filtered afterwards: `4 * k`
    /// candidates, found with breadth `4 * k`.
    pub open spec fn oversampled(k: usize) -> SearchParams
        recommends
            4 * k <= usize::MAX,
    {
        SearchParams { k: (4 * k) as usize, ef_search: (4 * k) as usize }
    }

    /// Parameters of a plain search for `k` neighbours.
    pub fn for_search(k: usize) -> (p: SearchParams)
        requires
            2 * k <= usize::MAX,
        ensures
            p == SearchParams::plain(k),
    {
        SearchParams { k, ef_search: 2 * k }
    }

    /// Parameters of a search for `k` neighbours that pass a filter.
    pub fn for_filtered_search(k: usize) -> (p: SearchParams)
        requires
            4 * k <= usize::MAX,
        ensures
            p == SearchParams::oversampled(k),
    {
        SearchParams { k: 4 * k, ef_search: 4 * k }
    }
}

} // verus!
