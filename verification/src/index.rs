//! The index: a vector store and, beside it, the text of every stored vector.
//!
//! The two are kept in step: a text stands under an identifier exactly when a
//! record does. Embedding a text and ranking the stored vectors against a
//! query are done by capabilities that the caller passes to each operation.

use vstd::prelude::*;
use std::collections::HashMap;
use crate::config::{RuVectorConfig, SearchParams};
use crate::dimensions::{
    check_dimensions,
    find_mismatch,
    first_mismatch,
    lemma_no_mismatch,
    vector_views,
};
use crate::error::{EmbeddingError, ErrorModel};
use crate::store::{
    entry_models,
    EntryModel,
    Neighbor,
    StoreError,
    StoreModel,
    VectorEntry,
    VectorId,
    VectorStore,
};

verus! {

/// One search result: a stored vector's identifier, its text, its score
/// against the query by its bit pattern, and its metadata.
#[derive(Debug, Clone, PartialEq)]
pub struct SearchResult {
    pub id: VectorId,
    pub text: String,
    pub score: u32,
    pub metadata: Option<serde_json::Value>,
}

/// The mathematical value of a [`SearchResult`].
pub ghost struct ResultModel {
    pub id: u64,
    pub text: Seq<char>,
    pub score: u32,
    pub metadata: Option<serde_json::Value>,
}

impl View for SearchResult {
    type V = ResultModel;

    open spec fn view(&self) -> ResultModel {
        ResultModel { id: self.id, text: self.text@, score: self.score, metadata: self.metadata }
    }
}

/// The views of a list of results.
pub open spec fn result_models(results: Seq<SearchResult>) -> Seq<ResultModel> {
    results.map_values(|r: SearchResult| r@)
}

/// The views of a list of texts.
pub open spec fn text_views(texts: Seq<String>) -> Seq<Seq<char>> {
    texts.map_values(|t: String| t@)
}

/// The entries that a batch of bare vectors is stored as: no metadata.
pub open spec fn bare_entries(vectors: Seq<Seq<u32>>) -> Seq<EntryModel> {
    vectors.map_values(|v: Seq<u32>| EntryModel { id: None, vector: v, metadata: None })
}

/// The mathematical value of a [`RuVectorEmbeddings`].
pub ghost struct IndexModel {
    /// Display name.
    pub name: Seq<char>,
    /// The configuration the index was built with.
    pub config: RuVectorConfig,
    /// The vector store.
    pub store: StoreModel,
    /// The text of each stored vector, by identifier.
    pub texts: Map<u64, Seq<char>>,
}

impl IndexModel {
    /// The index's invariant: the store's own; a text stands under an
    /// identifier exactly when a record does; the store was made from the
    /// configuration.
    pub open spec fn wf(self) -> bool {
        &&& self.store.wf()
        &&& self.texts.dom() =~= self.store.records.dom()
        &&& self.store.hnsw == self.config.graph()
        &&& self.store.distance == self.config.distance
    }

    /// The index as it is made.
    pub open spec fn created(name: Seq<char>, dimension: usize, config: RuVectorConfig) -> IndexModel {
        IndexModel {
            name,
            config,
            store: StoreModel::empty(dimension, config.distance, config.graph()),
            texts: Map::empty(),
        }
    }

    /// Number of components of every stored vector.
    pub open spec fn dimension(self) -> usize {
        self.store.dimension
    }

    /// Number of stored vectors.
    pub open spec fn len(self) -> nat {
        self.store.len()
    }

    /// Whether a vector stands under `id`.
    pub open spec fn contains(self, id: u64) -> bool {
        self.store.contains(id)
    }

    /// How a refusal of the store shows in this layer: as its text.
    pub open spec fn store_failure(e: StoreError) -> ErrorModel {
        ErrorModel::Store { message: e.text() }
    }

    /// Why a vector cannot be inserted, if it cannot: it has another
    /// dimension, or the store refuses it.
    pub open spec fn insert_error(self, vector: Seq<u32>) -> Option<ErrorModel> {
        if vector.len() != self.store.dimension {
            Some(
                ErrorModel::DimensionMismatch {
                    expected: self.store.dimension,
                    actual: vector.len() as usize,
                },
            )
        } else {
            match self.store.insert_error(EntryModel { id: None, vector, metadata: None }) {
                Some(e) => Some(Self::store_failure(e)),
                None => None,
            }
        }
    }

    /// The index after `vector` was stored with `text` beside it.
    pub open spec fn inserted(
        self,
        text: Seq<char>,
        vector: Seq<u32>,
        metadata: Option<serde_json::Value>,
    ) -> IndexModel {
        IndexModel {
            store: self.store.inserted(EntryModel { id: None, vector, metadata }),
            texts: self.texts.insert(self.store.next_id as u64, text),
            ..self
        }
    }

    /// Why a batch cannot be inserted, if it cannot: the counts differ; else
    /// the first vector of another dimension; else the store refuses.
    pub open spec fn batch_error(self, texts: Seq<Seq<char>>, vectors: Seq<Seq<u32>>) -> Option<
        ErrorModel,
    > {
        if texts.len() != vectors.len() {
            Some(
                ErrorModel::DimensionMismatch {
                    expected: texts.len() as usize,
                    actual: vectors.len() as usize,
                },
            )
        } else {
            match first_mismatch(vectors, self.store.dimension) {
                Some(i) => Some(
                    ErrorModel::DimensionMismatch {
                        expected: self.store.dimension,
                        actual: vectors[i].len() as usize,
                    },
                ),
                None => match self.store.batch_error(bare_entries(vectors)) {
                    Some(e) => Some(Self::store_failure(e)),
                    None => None,
                },
            }
        }
    }

    /// The index after each vector of a batch was stored, in order, with the
    /// text at its position beside it and no metadata.
    pub open spec fn batch_inserted(self, texts: Seq<Seq<char>>, vectors: Seq<Seq<u32>>) -> IndexModel
        recommends
            texts.len() == vectors.len(),
        decreases vectors.len(),
    {
        if vectors.len() == 0 {
            self
        } else {
            self.batch_inserted(texts.drop_last(), vectors.drop_last()).inserted(
                texts.last(),
                vectors.last(),
                None,
            )
        }
    }

    /// The texts after a batch was inserted: those that were there, and the
    /// text at position `i` under the `i`-th new identifier.
    pub open spec fn batch_texts(self, texts: Seq<Seq<char>>) -> Map<u64, Seq<char>> {
        Map::new(
            |id: u64|
                self.texts.contains_key(id) || self.store.next_id <= id < self.store.next_id
                    + texts.len(),
            |id: u64|
                if self.store.next_id <= id < self.store.next_id + texts.len() {
                    texts[id - self.store.next_id]
                } else {
                    self.texts[id]
                },
        )
    }

    /// A batch that is accepted leaves a well-formed index: the store has
    /// taken the vectors as entries without metadata, and the texts are
    /// [`Self::batch_texts`].
    pub proof fn lemma_batch_inserted(self, texts: Seq<Seq<char>>, vectors: Seq<Seq<u32>>)
        requires
            self.wf(),
            self.batch_error(texts, vectors) is None,
        ensures
            self.batch_inserted(texts, vectors).wf(),
            self.batch_inserted(texts, vectors).name == self.name,
            self.batch_inserted(texts, vectors).config == self.config,
            self.batch_inserted(texts, vectors).store == self.store.batch_inserted(
                bare_entries(vectors),
            ),
            self.batch_inserted(texts, vectors).texts == self.batch_texts(texts),
        decreases vectors.len(),
    {
        let entries = bare_entries(vectors);
        self.store.lemma_batch_inserted(entries);
        self.store.lemma_fresh_batch(entries);
        if vectors.len() == 0 {
            assert(self.batch_texts(texts) =~= self.texts);
        } else {
            let front_texts = texts.drop_last();
            let front = vectors.drop_last();
            lemma_no_mismatch(vectors, self.store.dimension);
            assert forall|i: int| 0 <= i < front.len() implies (#[trigger] front[i]).len()
                == self.store.dimension by {
                assert(vectors[i].len() == self.store.dimension);
            }
            lemma_no_mismatch(front, self.store.dimension);
            assert(entries.drop_last() =~= bare_entries(front));
            assert(entries.last() == (EntryModel {
                id: None,
                vector: vectors.last(),
                metadata: None,
            }));
            self.lemma_batch_inserted(front_texts, front);
            self.store.lemma_batch_inserted(bare_entries(front));
            self.store.lemma_fresh_batch(bare_entries(front));
            let mid = self.batch_inserted(front_texts, front);
            mid.store.lemma_inserted(entries.last());
            assert(self.batch_inserted(texts, vectors).texts =~= self.batch_texts(texts));
        }
    }

    /// The text and the vector under `id`, if both are there.
    pub open spec fn lookup(self, id: u64) -> Option<(Seq<char>, Seq<u32>)> {
        if self.store.contains(id) && self.texts.contains_key(id) {
            Some((self.texts[id], self.store.records[id].vector))
        } else {
            None
        }
    }

    /// The index after a deletion of `id`: the text goes exactly when the
    /// store held a record under `id`.
    pub open spec fn deleted(self, id: u64) -> IndexModel {
        if self.store.contains(id) {
            IndexModel { store: self.store.deleted(id), texts: self.texts.remove(id), ..self }
        } else {
            self
        }
    }

    /// The index without any vector or text.
    pub open spec fn cleared(self) -> IndexModel {
        IndexModel { store: self.store.cleared(), texts: Map::empty(), ..self }
    }

    /// Whether a hit of the neighbour index can be answered: its text is
    /// known and its record is in the store.
    pub open spec fn known(self, hit: Neighbor) -> bool {
        self.texts.contains_key(hit.id) && self.store.contains(hit.id)
    }

    /// The result that a known hit is answered with.
    pub open spec fn result_for(self, hit: Neighbor) -> ResultModel {
        ResultModel {
            id: hit.id,
            text: self.texts[hit.id],
            score: hit.score,
            metadata: self.store.records[hit.id].metadata,
        }
    }

    /// The results for the hits that `keep` marks, in the order of the hits.
    pub open spec fn selected(self, hits: Seq<Neighbor>, keep: Seq<bool>) -> Seq<ResultModel>
        recommends
            keep.len() == hits.len(),
        decreases hits.len(),
    {
        if hits.len() == 0 {
            Seq::empty()
        } else {
            let rest = self.selected(hits.drop_last(), keep.drop_last());
            if keep.last() {
                rest.push(self.result_for(hits.last()))
            } else {
                rest
            }
        }
    }

    /// The marks of a plain search: every known hit is kept.
    pub open spec fn known_marks(self, hits: Seq<Neighbor>) -> Seq<bool> {
        Seq::new(hits.len(), |i: int| self.known(hits[i]))
    }

    /// The results of a plain search: one for each known hit, in the order of
    /// the hits; an unknown hit is left out.
    pub open spec fn results_of(self, hits: Seq<Neighbor>) -> Seq<ResultModel> {
        self.selected(hits, self.known_marks(hits))
    }

    /// The metadata that a filter is asked about for a hit: that of a known
    /// hit's record, if it has any.
    pub open spec fn candidate_metadata(self, hit: Neighbor) -> Option<serde_json::Value> {
        if self.known(hit) {
            self.store.records[hit.id].metadata
        } else {
            None
        }
    }
}

/// An index over texts: owns a vector store and keeps each vector's text.
pub struct RuVectorEmbeddings {
    name: String,
    config: RuVectorConfig,
    index: VectorStore,
    texts: HashMap<u64, String>,
}

impl View for RuVectorEmbeddings {
    type V = IndexModel;

    closed spec fn view(&self) -> IndexModel {
        IndexModel {
            name: self.name@,
            config: self.config,
            store: self.index@,
            texts: Map::new(|id: u64| self.texts@.contains_key(id), |id: u64| self.texts@[id]@),
        }
    }
}

/// What [`RuVectorEmbeddings::new`] returns, by views.
pub open spec fn creation_outcome(
    name: Seq<char>,
    dimension: usize,
    config: RuVectorConfig,
    r: Result<RuVectorEmbeddings, EmbeddingError>,
) -> bool {
    match r {
        Ok(index) => StoreModel::valid_parameters(dimension, config.graph()) && index.wf() && index@
            == IndexModel::created(name, dimension, config),
        Err(e) => !StoreModel::valid_parameters(dimension, config.graph()) && e@
            == (ErrorModel::IndexCreation { message: StoreError::InvalidParameters.text() }),
    }
}

/// What an insertion of one vector returns and leaves, by views.
pub open spec fn insertion_outcome(
    before: IndexModel,
    text: Seq<char>,
    vector: Seq<u32>,
    metadata: Option<serde_json::Value>,
    r: Result<VectorId, EmbeddingError>,
    after: IndexModel,
) -> bool {
    match r {
        Ok(id) => before.insert_error(vector) is None && id == before.store.next_id && after
            == before.inserted(text, vector, metadata),
        Err(e) => before.insert_error(vector) == Some(e@) && after == before,
    }
}

/// What an insertion returns and leaves when the vector came from an
/// embedder: the embedder's error unchanged, or the outcome of inserting the
/// vector it gave.
pub open spec fn embedded_insertion(
    before: IndexModel,
    text: Seq<char>,
    embedded: Result<Vec<u32>, EmbeddingError>,
    metadata: Option<serde_json::Value>,
    r: Result<VectorId, EmbeddingError>,
    after: IndexModel,
) -> bool {
    match embedded {
        Ok(vector) => insertion_outcome(before, text, vector@, metadata, r, after),
        Err(e) => r == Err::<VectorId, EmbeddingError>(e) && after == before,
    }
}

/// What an insertion of a batch returns and leaves, by views.
pub open spec fn batch_outcome(
    before: IndexModel,
    texts: Seq<Seq<char>>,
    vectors: Seq<Seq<u32>>,
    r: Result<Vec<VectorId>, EmbeddingError>,
    after: IndexModel,
) -> bool {
    match r {
        Ok(ids) => before.batch_error(texts, vectors) is None && ids@ == before.store.batch_ids(
            bare_entries(vectors),
        ) && after == before.batch_inserted(texts, vectors),
        Err(e) => before.batch_error(texts, vectors) == Some(e@) && after == before,
    }
}

/// What an insertion of a batch returns and leaves when the vectors came
/// from an embedder.
pub open spec fn embedded_batch(
    before: IndexModel,
    texts: Seq<Seq<char>>,
    embedded: Result<Vec<Vec<u32>>, EmbeddingError>,
    r: Result<Vec<VectorId>, EmbeddingError>,
    after: IndexModel,
) -> bool {
    match embedded {
        Ok(vectors) => batch_outcome(before, texts, vector_views(vectors@), r, after),
        Err(e) => r == Err::<Vec<VectorId>, EmbeddingError>(e) && after == before,
    }
}

/// What a search returns once the neighbour index has answered: a result
/// for each known hit, in the order of the hits, or the neighbour index's
/// failure as a store error.
pub open spec fn ranked_outcome(
    model: IndexModel,
    found: Result<Vec<Neighbor>, String>,
    r: Result<Vec<SearchResult>, EmbeddingError>,
) -> bool {
    match found {
        Ok(hits) => match r {
            Ok(results) => result_models(results@) == model.results_of(hits@),
            Err(_) => false,
        },
        Err(message) => match r {
            Ok(_) => false,
            Err(e) => e@ == (ErrorModel::Store { message: message@ }),
        },
    }
}

/// What a search for the `k` nearest neighbours of `query` returns: a query
/// of another dimension is refused; otherwise the neighbour index is asked
/// with [`SearchParams::plain`] and its answer decides.
pub open spec fn query_outcome<R>(
    model: IndexModel,
    query: &Vec<u32>,
    k: usize,
    rank: R,
    r: Result<Vec<SearchResult>, EmbeddingError>,
) -> bool where R: FnOnce(&Vec<u32>, SearchParams) -> Result<Vec<Neighbor>, String> {
    if query@.len() != model.dimension() {
        match r {
            Ok(_) => false,
            Err(e) => e@ == (ErrorModel::DimensionMismatch {
                expected: model.dimension(),
                actual: query@.len() as usize,
            }),
        }
    } else {
        exists|found: Result<Vec<Neighbor>, String>|
            rank.ensures((query, SearchParams::plain(k)), found) && ranked_outcome(model, found, r)
    }
}

/// Whether `keep` is what a filter decided for a hit: a known hit with
/// metadata is kept exactly when the filter accepted the metadata; any other
/// hit is not kept.
pub open spec fn decided<F>(model: IndexModel, filter: F, hit: Neighbor, keep: bool) -> bool where
    F: Fn(&serde_json::Value) -> bool,
 {
    match model.candidate_metadata(hit) {
        Some(metadata) => filter.ensures((&metadata,), keep),
        None => !keep,
    }
}

/// Whether `out` is the filtered answer to `hits` under the decisions
/// `keep`: the first hits were decided in order, one decision each; the kept
/// ones are answered; and the deciding stopped at the end of the hits or as
/// soon as `k` were kept.
pub open spec fn filtered_by<F>(
    model: IndexModel,
    filter: F,
    hits: Seq<Neighbor>,
    k: usize,
    out: Seq<ResultModel>,
    keep: Seq<bool>,
) -> bool where F: Fn(&serde_json::Value) -> bool {
    &&& keep.len() <= hits.len()
    &&& forall|i: int| 0 <= i < keep.len() ==> decided(model, filter, hits[i], #[trigger] keep[i])
    &&& out == model.selected(hits.take(keep.len() as int), keep)
    &&& out.len() <= k
    &&& (keep.len() == hits.len() || out.len() == k)
}

/// Whether `out` is the filtered answer to `hits`: it is so under some
/// decisions of the filter.
pub open spec fn filtered<F>(
    model: IndexModel,
    filter: F,
    hits: Seq<Neighbor>,
    k: usize,
    out: Seq<ResultModel>,
) -> bool where F: Fn(&serde_json::Value) -> bool {
    exists|keep: Seq<bool>| filtered_by(model, filter, hits, k, out, keep)
}

/// Whether a filter accepts nothing.
pub open spec fn rejects_all<F>(filter: F) -> bool where F: Fn(&serde_json::Value) -> bool {
    forall|metadata: serde_json::Value, keep: bool|
        filter.ensures((&metadata,), keep) ==> !keep
}

/// What a filtered search returns once the neighbour index has answered.
pub open spec fn filtered_ranked_outcome<F>(
    model: IndexModel,
    filter: F,
    k: usize,
    found: Result<Vec<Neighbor>, String>,
    r: Result<Vec<SearchResult>, EmbeddingError>,
) -> bool where F: Fn(&serde_json::Value) -> bool {
    match found {
        Ok(hits) => match r {
            Ok(results) => filtered(model, filter, hits@, k, result_models(results@)),
            Err(_) => false,
        },
        Err(message) => match r {
            Ok(_) => false,
            Err(e) => e@ == (ErrorModel::Store { message: message@ }),
        },
    }
}

/// What a filtered search for `k` neighbours of `query` returns: a query of
/// another dimension is refused; otherwise the neighbour index is asked with
/// [`SearchParams::oversampled`] and its answer is filtered.
pub open spec fn filtered_query_outcome<R, F>(
    model: IndexModel,
    query: &Vec<u32>,
    k: usize,
    filter: F,
    rank: R,
    r: Result<Vec<SearchResult>, EmbeddingError>,
) -> bool where
    R: FnOnce(&Vec<u32>, SearchParams) -> Result<Vec<Neighbor>, String>,
    F: Fn(&serde_json::Value) -> bool,
 {
    if query@.len() != model.dimension() {
        match r {
            Ok(_) => false,
            Err(e) => e@ == (ErrorModel::DimensionMismatch {
                expected: model.dimension(),
                actual: query@.len() as usize,
            }),
        }
    } else {
        exists|found: Result<Vec<Neighbor>, String>|
            rank.ensures((query, SearchParams::oversampled(k)), found) && filtered_ranked_outcome(
                model,
                filter,
                k,
                found,
                r,
            )
    }
}

/// What a search for a text returns: the embedder's error unchanged, or the
/// outcome of searching with the vector it gave.
pub open spec fn search_outcome<E, R>(
    model: IndexModel,
    query: &str,
    k: usize,
    embed: E,
    rank: R,
    r: Result<Vec<SearchResult>, EmbeddingError>,
) -> bool where
    E: FnOnce(&str) -> Result<Vec<u32>, EmbeddingError>,
    R: FnOnce(&Vec<u32>, SearchParams) -> Result<Vec<Neighbor>, String>,
 {
    exists|embedded: Result<Vec<u32>, EmbeddingError>|
        embed.ensures((query,), embedded) && match embedded {
            Ok(v) => query_outcome(model, &v, k, rank, r),
            Err(e) => r == Err::<Vec<SearchResult>, EmbeddingError>(e),
        }
}

/// What a filtered search for a text returns: the embedder's error
/// unchanged, or the outcome of the filtered search with the vector it gave.
pub open spec fn filtered_search_outcome<E, R, F>(
    model: IndexModel,
    query: &str,
    k: usize,
    filter: F,
    embed: E,
    rank: R,
    r: Result<Vec<SearchResult>, EmbeddingError>,
) -> bool where
    E: FnOnce(&str) -> Result<Vec<u32>, EmbeddingError>,
    R: FnOnce(&Vec<u32>, SearchParams) -> Result<Vec<Neighbor>, String>,
    F: Fn(&serde_json::Value) -> bool,
 {
    exists|embedded: Result<Vec<u32>, EmbeddingError>|
        embed.ensures((query,), embedded) && match embedded {
            Ok(v) => filtered_query_outcome(model, &v, k, filter, rank, r),
            Err(e) => r == Err::<Vec<SearchResult>, EmbeddingError>(e),
        }
}

impl RuVectorEmbeddings {
    /// The index's invariant; see [`IndexModel::wf`].
    pub open spec fn wf(&self) -> bool {
        self@.wf()
    }

    proof fn lemma_view(&self)
        ensures
            self@.texts.dom() =~= self.texts@.dom(),
            self@.store == self.index@,
    {
    }

    /// Makes an empty index named `name` for vectors of `dimension`
    /// components, the output dimension of the embedder it will be used
    /// with. Fails if the store refuses the dimension or the configuration.
    pub fn new(name: &str, dimension: usize, config: RuVectorConfig) -> (r: Result<
        RuVectorEmbeddings,
        EmbeddingError,
    >)
        ensures
            creation_outcome(name@, dimension, config, r),
    {
        match VectorStore::new(dimension, config.distance, config.hnsw()) {
            Ok(index) => {
                let made = RuVectorEmbeddings {
                    name: name.to_owned(),
                    config,
                    index,
                    texts: HashMap::new(),
                };
                proof {
                    made.lemma_view();
                    assert(made@.texts =~= Map::<u64, Seq<char>>::empty());
                }
                Ok(made)
            },
            Err(e) => Err(EmbeddingError::index_creation(e.message())),
        }
    }

    /// Makes an empty index with the standard configuration.
    pub fn new_default(name: &str, dimension: usize) -> (r: Result<
        RuVectorEmbeddings,
        EmbeddingError,
    >)
        ensures
            creation_outcome(name@, dimension, RuVectorConfig::standard(), r),
    {
        Self::new(name, dimension, RuVectorConfig::default())
    }

    /// Stores `embedding` with `text` beside it and returns the new
    /// identifier. A vector of another dimension is refused before the store
    /// sees it. On an error the index is left as it was; on success the
    /// record and its text are both there when the call returns, so no
    /// caller sees one without the other.
    pub fn insert_with_embedding(
        &mut self,
        text: &str,
        embedding: Vec<u32>,
        metadata: Option<serde_json::Value>,
    ) -> (r: Result<VectorId, EmbeddingError>)
        requires
            old(self).wf(),
        ensures
            final(self).wf(),
            insertion_outcome(old(self)@, text@, embedding@, metadata, r, final(self)@),
    {
        proof {
            self.lemma_view();
        }
        match check_dimensions(self.index.dimension(), embedding.len()) {
            Err(e) => {
                return Err(e);
            },
            Ok(()) => {},
        }
        let entry = VectorEntry { id: None, vector: embedding, metadata };
        match self.index.insert(entry) {
            Err(e) => Err(EmbeddingError::ruvector(e.message())),
            Ok(id) => {
                self.texts.insert(id, text.to_owned());
                proof {
                    self.lemma_view();
                    assert(self@.texts =~= old(self)@.texts.insert(id, text@));
                }
                Ok(id)
            },
        }
    }

    /// Embeds `text` and stores the vector with `text` beside it. An error of
    /// the embedder is returned as it is.
    pub fn insert<E>(
        &mut self,
        text: &str,
        metadata: Option<serde_json::Value>,
        embed: E,
    ) -> (r: Result<VectorId, EmbeddingError>) where
        E: FnOnce(&str) -> Result<Vec<u32>, EmbeddingError>,

        requires
            old(self).wf(),
            embed.requires((text,)),
        ensures
            final(self).wf(),
            exists|embedded: Result<Vec<u32>, EmbeddingError>|
                embed.ensures((text,), embedded) && embedded_insertion(
                    old(self)@,
                    text@,
                    embedded,
                    metadata,
                    r,
                    final(self)@,
                ),
    {
        let embedded = embed(text);
        let r = match embedded {
            Ok(vector) => self.insert_with_embedding(text, vector, metadata),
            Err(e) => Err(e),
        };
        proof {
            assert(embedded_insertion(old(self)@, text@, embedded, metadata, r, self@));
        }
        r
    }

    /// Stores each vector of `embeddings` with the text at its position
    /// beside it, and returns the new identifiers in the same order. The
    /// counts must agree and every vector must have the index's dimension;
    /// this is settled before the store sees anything. On an error the index
    /// is left as it was.
    pub fn insert_batch_with_embeddings(
        &mut self,
        texts: &Vec<String>,
        embeddings: Vec<Vec<u32>>,
    ) -> (r: Result<Vec<VectorId>, EmbeddingError>)
        requires
            old(self).wf(),
        ensures
            final(self).wf(),
            batch_outcome(
                old(self)@,
                text_views(texts@),
                vector_views(embeddings@),
                r,
                final(self)@,
            ),
    {
        let ghost before = self@;
        let ghost words = text_views(texts@);
        let ghost vectors = vector_views(embeddings@);
        proof {
            self.lemma_view();
        }
        let n: usize = texts.len();
        match check_dimensions(n, embeddings.len()) {
            Err(e) => {
                return Err(e);
            },
            Ok(()) => {},
        }
        let dimension: usize = self.index.dimension();
        match find_mismatch(&embeddings, dimension) {
            Some(i) => {
                return Err(EmbeddingError::dimension_mismatch(dimension, embeddings[i].len()));
            },
            None => {},
        }
        let mut entries: Vec<VectorEntry> = Vec::new();
        for vector in it: embeddings
            invariant
                it.seq() == embeddings@,
                vectors == vector_views(embeddings@),
                it.index() <= embeddings@.len(),
                entries@.len() == it.index(),
                entry_models(entries@) =~= bare_entries(vectors.take(it.index())),
        {
            let ghost done = entries@;
            let ghost i = it.index();
            entries.push(VectorEntry { id: None, vector, metadata: None });
            proof {
                assert(vectors[i] == vector@);
                assert forall|j: int| 0 <= j <= i implies entry_models(entries@)[j]
                    == bare_entries(vectors.take(i + 1))[j] by {
                    if j < i {
                        assert(entry_models(done)[j] == bare_entries(vectors.take(i))[j]);
                    }
                }
            }
        }
        proof {
            assert(vectors.take(vectors.len() as int) =~= vectors);
            assert(entry_models(entries@) == bare_entries(vectors));
        }
        match self.index.insert_batch(entries) {
            Err(e) => Err(EmbeddingError::ruvector(e.message())),
            Ok(ids) => {
                proof {
                    before.lemma_batch_inserted(words, vectors);
                    before.store.lemma_batch_inserted(bare_entries(vectors));
                    before.store.lemma_fresh_batch(bare_entries(vectors));
                }
                let mut i: usize = 0;
                while i < n
                    invariant
                        i <= n,
                        n == texts.len(),
                        n == ids.len(),
                        words == text_views(texts@),
                        before.wf(),
                        before == old(self)@,
                        ids@ == Seq::new(n as nat, |p: int| (before.store.next_id + p) as u64),
                        before.store.next_id + n <= u64::MAX + 1,
                        self.index@ == before.store.batch_inserted(bare_entries(vectors)),
                        self.name == old(self).name,
                        self.config == old(self).config,
                        forall|id: u64|
                            #![trigger self.texts@.contains_key(id)]
                            self.texts@.contains_key(id) <==> (before.texts.contains_key(id)
                                || before.store.next_id <= id < before.store.next_id + i),
                        forall|id: u64|
                            #![trigger self.texts@[id]]
                            before.texts.contains_key(id) ==> self.texts@[id]@ == before.texts[id],
                        forall|id: u64|
                            #![trigger self.texts@[id]]
                            before.store.next_id <= id < before.store.next_id + i
                                ==> self.texts@[id]@ == words[id - before.store.next_id],
                    decreases n - i,
                {
                    let id: u64 = ids[i];
                    assert(id == before.store.next_id + i);
                    assert(!before.texts.contains_key(id));
                    self.texts.insert(id, texts[i].clone());
                    i += 1;
                }
                proof {
                    self.lemma_view();
                    assert(self@.texts =~= before.batch_texts(words));
                }
                Ok(ids)
            },
        }
    }

    /// Embeds `texts` and stores each vector with its text beside it. An
    /// error of the embedder is returned as it is.
    pub fn insert_batch<E>(&mut self, texts: &Vec<String>, embed: E) -> (r: Result<
        Vec<VectorId>,
        EmbeddingError,
    >) where E: FnOnce(&Vec<String>) -> Result<Vec<Vec<u32>>, EmbeddingError>
        requires
            old(self).wf(),
            embed.requires((texts,)),
        ensures
            final(self).wf(),
            exists|embedded: Result<Vec<Vec<u32>>, EmbeddingError>|
                embed.ensures((texts,), embedded) && embedded_batch(
                    old(self)@,
                    text_views(texts@),
                    embedded,
                    r,
                    final(self)@,
                ),
    {
        let embedded = embed(texts);
        let r = match embedded {
            Ok(vectors) => self.insert_batch_with_embeddings(texts, vectors),
            Err(e) => Err(e),
        };
        proof {
            assert(embedded_batch(old(self)@, text_views(texts@), embedded, r, self@));
        }
        r
    }

    fn answer(&self, hit: &Neighbor) -> (found: Option<SearchResult>)
        requires
            self.wf(),
        ensures
            match found {
                Some(result) => self@.known(*hit) && result@ == self@.result_for(*hit),
                None => !self@.known(*hit),
            },
    {
        proof {
            self.lemma_view();
        }
        match self.texts.get(&hit.id) {
            Some(text) => match self.index.get(hit.id) {
                Some(entry) => {
                    let metadata = match &entry.metadata {
                        Some(m) => Some(m.clone()),
                        None => None,
                    };
                    Some(SearchResult { id: hit.id, text: text.clone(), score: hit.score, metadata })
                },
                None => None,
            },
            None => None,
        }
    }

    /// Answers the hits of a neighbour index: a result for each hit whose
    /// text is known, in the order of the hits. A hit without a text is left
    /// out.
    pub fn search_results(&self, hits: &Vec<Neighbor>) -> (results: Vec<SearchResult>)
        requires
            self.wf(),
        ensures
            result_models(results@) == self@.results_of(hits@),
    {
        let ghost marks = self@.known_marks(hits@);
        let mut results: Vec<SearchResult> = Vec::new();
        let mut i: usize = 0;
        while i < hits.len()
            invariant
                i <= hits.len(),
                self.wf(),
                marks == self@.known_marks(hits@),
                result_models(results@) == self@.selected(hits@.take(i as int), marks.take(i as int)),
            decreases hits.len() - i,
        {
            let ghost done = results@;
            let found = self.answer(&hits[i]);
            match found {
                Some(result) => {
                    results.push(result);
                },
                None => {},
            }
            proof {
                assert(hits@.take(i + 1).drop_last() =~= hits@.take(i as int));
                assert(marks.take(i + 1).drop_last() =~= marks.take(i as int));
                assert(marks.take(i + 1).last() == self@.known(hits@[i as int]));
                if found is Some {
                    assert(result_models(results@) =~= result_models(done).push(
                        self@.result_for(hits@[i as int]),
                    ));
                }
            }
            i += 1;
        }
        proof {
            assert(hits@.take(hits@.len() as int) =~= hits@);
            assert(marks.take(hits@.len() as int) =~= marks);
        }
        results
    }

    /// Searches for the `k` stored vectors nearest to `query_embedding`. The
    /// neighbour index `rank` is asked for `k` neighbours with a search of
    /// breadth `2 * k`; its hits are answered by [`Self::search_results`].
    pub fn search_with_embedding<R>(&self, query_embedding: &Vec<u32>, k: usize, rank: R) -> (r:
        Result<Vec<SearchResult>, EmbeddingError>) where
        R: FnOnce(&Vec<u32>, SearchParams) -> Result<Vec<Neighbor>, String>,

        requires
            self.wf(),
            2 * k <= usize::MAX,
            query_embedding@.len() == self@.dimension() ==> rank.requires(
                (query_embedding, SearchParams::plain(k)),
            ),
        ensures
            query_outcome(self@, query_embedding, k, rank, r),
    {
        match check_dimensions(self.index.dimension(), query_embedding.len()) {
            Err(e) => {
                return Err(e);
            },
            Ok(()) => {},
        }
        let found = rank(query_embedding, SearchParams::for_search(k));
        let r = match found {
            Ok(hits) => Ok(self.search_results(&hits)),
            Err(message) => Err(EmbeddingError::ruvector(message)),
        };
        proof {
            assert(ranked_outcome(self@, found, r));
        }
        r
    }

    /// Embeds `query` and searches for the `k` stored vectors nearest to it.
    /// An error of the embedder is returned as it is.
    pub fn search<E, R>(&self, query: &str, k: usize, embed: E, rank: R) -> (r: Result<
        Vec<SearchResult>,
        EmbeddingError,
    >) where
        E: FnOnce(&str) -> Result<Vec<u32>, EmbeddingError>,
        R: FnOnce(&Vec<u32>, SearchParams) -> Result<Vec<Neighbor>, String>,

        requires
            self.wf(),
            2 * k <= usize::MAX,
            embed.requires((query,)),
            forall|v: &Vec<u32>|
                v@.len() == self@.dimension() ==> #[trigger] rank.requires(
                    (v, SearchParams::plain(k)),
                ),
        ensures
            search_outcome(self@, query, k, embed, rank, r),
    {
        let embedded = embed(query);
        match embedded {
            Ok(v) => {
                self.search_with_embedding(&v, k, rank)
            },
            Err(e) => Err(e),
        }
    }

    /// Filters the hits of a neighbour index: goes through them in order,
    /// keeps a hit when its text is known, it has metadata and `filter`
    /// accepts the metadata, and stops as soon as `k` are kept.
    pub fn filter_results<F>(&self, hits: &Vec<Neighbor>, k: usize, filter: F) -> (results: Vec<
        SearchResult,
    >) where F: Fn(&serde_json::Value) -> bool
        requires
            self.wf(),
            forall|metadata: &serde_json::Value| #[trigger] filter.requires((metadata,)),
        ensures
            filtered(self@, filter, hits@, k, result_models(results@)),
            rejects_all(filter) ==> results@.len() == 0,
    {
        let ghost mut keep: Seq<bool> = Seq::empty();
        let mut results: Vec<SearchResult> = Vec::new();
        let mut i: usize = 0;
        while i < hits.len() && results.len() < k
            invariant
                i <= hits.len(),
                self.wf(),
                keep.len() == i,
                results@.len() <= k,
                forall|metadata: &serde_json::Value| #[trigger] filter.requires((metadata,)),
                forall|j: int| 0 <= j < i ==> decided(self@, filter, hits@[j], #[trigger] keep[j]),
                result_models(results@) == self@.selected(hits@.take(i as int), keep),
                rejects_all(filter) ==> results@.len() == 0,
            decreases hits.len() - i,
        {
            let ghost done = results@;
            let ghost marks = keep;
            let mut kept: bool = false;
            match self.answer(&hits[i]) {
                Some(result) => {
                    let accepted = match &result.metadata {
                        Some(metadata) => filter(metadata),
                        None => false,
                    };
                    if accepted {
                        results.push(result);
                        kept = true;
                    }
                },
                None => {},
            }
            proof {
                keep = marks.push(kept);
                assert(hits@.take(i + 1).drop_last() =~= hits@.take(i as int));
                assert(keep.drop_last() =~= marks);
                if kept {
                    assert(result_models(results@) =~= result_models(done).push(
                        self@.result_for(hits@[i as int]),
                    ));
                }
            }
            i += 1;
        }
        proof {
            assert(filtered_by(self@, filter, hits@, k, result_models(results@), keep));
        }
        results
    }

    /// Embeds `query` and searches for stored vectors near it whose metadata
    /// `filter` accepts. The neighbour index `rank` is asked for `4 * k`
    /// candidates; they are filtered by [`Self::filter_results`], which keeps
    /// at most `k`. Fewer than `k` are returned when fewer candidates pass.
    pub fn search_filtered<E, R, F>(
        &self,
        query: &str,
        k: usize,
        filter: F,
        embed: E,
        rank: R,
    ) -> (r: Result<Vec<SearchResult>, EmbeddingError>) where
        E: FnOnce(&str) -> Result<Vec<u32>, EmbeddingError>,
        R: FnOnce(&Vec<u32>, SearchParams) -> Result<Vec<Neighbor>, String>,
        F: Fn(&serde_json::Value) -> bool,

        requires
            self.wf(),
            4 * k <= usize::MAX,
            embed.requires((query,)),
            forall|v: &Vec<u32>|
                v@.len() == self@.dimension() ==> #[trigger] rank.requires(
                    (v, SearchParams::oversampled(k)),
                ),
            forall|metadata: &serde_json::Value| #[trigger] filter.requires((metadata,)),
        ensures
            filtered_search_outcome(self@, query, k, filter, embed, rank, r),
            rejects_all(filter) ==> match r {
                Ok(results) => results@.len() == 0,
                Err(_) => true,
            },
    {
        let embedded = embed(query);
        match embedded {
            Ok(v) => {
                let checked = check_dimensions(self.index.dimension(), v.len());
                let r = match checked {
                    Err(e) => Err(e),
                    Ok(()) => {
                        let found = rank(&v, SearchParams::for_filtered_search(k));
                        let r = match found {
                            Ok(hits) => Ok(self.filter_results(&hits, k, filter)),
                            Err(message) => Err(EmbeddingError::ruvector(message)),
                        };
                        proof {
                            assert(filtered_ranked_outcome(self@, filter, k, found, r));
                        }
                        r
                    },
                };
                proof {
                    assert(filtered_query_outcome(self@, &v, k, filter, rank, r));
                }
                r
            },
            Err(e) => Err(e),
        }
    }

    /// The text and the vector under `id`, if both are there.
    pub fn get(&self, id: VectorId) -> (found: Option<(String, Vec<u32>)>)
        requires
            self.wf(),
        ensures
            match found {
                Some((text, vector)) => self@.lookup(id) == Some((text@, vector@)),
                None => self@.lookup(id) is None,
            },
    {
        proof {
            self.lemma_view();
        }
        match self.index.get(id) {
            Some(entry) => match self.texts.get(&id) {
                Some(text) => Some((text.clone(), entry.vector.clone())),
                None => None,
            },
            None => None,
        }
    }

    /// Deletes the vector under `id` from the store and, only if the store
    /// held one, its text. Says whether anything was deleted.
    pub fn delete(&mut self, id: VectorId) -> (removed: bool)
        requires
            old(self).wf(),
        ensures
            final(self).wf(),
            removed == old(self)@.contains(id),
            final(self)@ == old(self)@.deleted(id),
    {
        proof {
            self.lemma_view();
        }
        let removed = self.index.delete(id);
        if removed {
            self.texts.remove(&id);
        }
        proof {
            self.lemma_view();
            if removed {
                assert(self@.texts =~= old(self)@.texts.remove(id));
            } else {
                assert(self@.texts =~= old(self)@.texts);
                assert(self@.store.records =~= old(self)@.store.records);
            }
        }
        removed
    }

    /// Empties the store and the texts.
    pub fn clear(&mut self)
        requires
            old(self).wf(),
        ensures
            final(self).wf(),
            final(self)@ == old(self)@.cleared(),
    {
        self.index.clear();
        self.texts.clear();
        proof {
            self.lemma_view();
            assert(self@.texts =~= Map::<u64, Seq<char>>::empty());
        }
    }

    /// Number of stored vectors.
    pub fn len(&self) -> (n: usize)
        requires
            self.wf(),
        ensures
            n == self@.len(),
    {
        self.index.len()
    }

    /// Whether nothing is stored.
    pub fn is_empty(&self) -> (b: bool)
        requires
            self.wf(),
        ensures
            b == (self@.len() == 0),
    {
        self.index.is_empty()
    }

    /// Display name.
    pub fn name(&self) -> (s: &str)
        ensures
            s@ == self@.name,
    {
        self.name.as_str()
    }

    /// Number of components of every stored vector.
    pub fn dimension(&self) -> (d: usize)
        ensures
            d == self@.dimension(),
    {
        self.index.dimension()
    }

    /// The configuration the index was built with.
    pub fn config(&self) -> (c: RuVectorConfig)
        ensures
            c == self@.config,
    {
        self.config
    }
}

} // verus!
