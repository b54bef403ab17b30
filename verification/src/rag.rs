//! Retrieval for generation: the texts nearest to a question, and the prompt
//! made of them.

use vstd::prelude::*;
use crate::config::SearchParams;
use crate::error::EmbeddingError;
use crate::index::{
    embedded_batch,
    result_models,
    search_outcome,
    text_views,
    IndexModel,
    ResultModel,
    RuVectorEmbeddings,
    SearchResult,
};
use crate::prompt::{context_views, format_prompt, prompt};
use crate::store::{Neighbor, VectorId};

verus! {

/// The texts of a list of results, in order.
pub open spec fn texts_of(results: Seq<ResultModel>) -> Seq<Seq<char>> {
    results.map_values(|r: ResultModel| r.text)
}

/// What a retrieval returns for what the search returned: the texts of the
/// results, or the search's error unchanged.
pub open spec fn retrieved(
    found: Result<Vec<SearchResult>, EmbeddingError>,
    r: Result<Vec<String>, EmbeddingError>,
) -> bool {
    match found {
        Ok(results) => match r {
            Ok(texts) => text_views(texts@) == texts_of(result_models(results@)),
            Err(_) => false,
        },
        Err(e) => r == Err::<Vec<String>, EmbeddingError>(e),
    }
}

/// What a retrieval of the `k` texts nearest to `query` returns.
pub open spec fn retrieval_outcome<E, R>(
    model: IndexModel,
    query: &str,
    k: usize,
    embed: E,
    rank: R,
    r: Result<Vec<String>, EmbeddingError>,
) -> bool where
    E: FnOnce(&str) -> Result<Vec<u32>, EmbeddingError>,
    R: FnOnce(&Vec<u32>, SearchParams) -> Result<Vec<Neighbor>, String>,
 {
    exists|found: Result<Vec<SearchResult>, EmbeddingError>|
        search_outcome(model, query, k, embed, rank, found) && retrieved(found, r)
}

/// What a prompt is for what the retrieval returned: the rendering of the
/// texts and the question, or the retrieval's error unchanged.
pub open spec fn prompted(
    query: Seq<char>,
    contexts: Result<Vec<String>, EmbeddingError>,
    r: Result<String, EmbeddingError>,
) -> bool {
    match contexts {
        Ok(texts) => match r {
            Ok(text) => text@ == prompt(context_views(texts@), query),
            Err(_) => false,
        },
        Err(e) => r == Err::<String, EmbeddingError>(e),
    }
}

/// The texts of a list of results, in order.
pub fn result_texts(results: Vec<SearchResult>) -> (texts: Vec<String>)
    ensures
        text_views(texts@) == texts_of(result_models(results@)),
{
    let mut texts: Vec<String> = Vec::new();
    for result in it: results
        invariant
            it.seq() == results@,
            it.index() <= results@.len(),
            texts@.len() == it.index(),
            forall|j: int| 0 <= j < it.index() ==> (#[trigger] texts@[j])@ == results@[j].text@,
    {
        texts.push(result.text);
    }
    assert(text_views(texts@) =~= texts_of(result_models(results@)));
    texts
}

/// An index together with the number of texts to retrieve for a question.
pub struct RagPipeline {
    index: RuVectorEmbeddings,
    top_k: usize,
}

impl RagPipeline {
    /// The index of the pipeline.
    pub closed spec fn index_model(&self) -> IndexModel {
        self.index@
    }

    /// The number of texts retrieved for a question.
    pub closed spec fn limit(&self) -> usize {
        self.top_k
    }

    /// The pipeline's invariant: that of its index.
    pub open spec fn wf(&self) -> bool {
        self.index_model().wf()
    }

    /// A pipeline over `index` that retrieves `top_k` texts.
    pub fn new(index: RuVectorEmbeddings, top_k: usize) -> (p: RagPipeline)
        ensures
            p.index_model() == index@,
            p.limit() == top_k,
    {
        RagPipeline { index, top_k }
    }

    /// The texts of the stored vectors nearest to `query`, nearest first.
    pub fn retrieve<E, R>(&self, query: &str, embed: E, rank: R) -> (r: Result<
        Vec<String>,
        EmbeddingError,
    >) where
        E: FnOnce(&str) -> Result<Vec<u32>, EmbeddingError>,
        R: FnOnce(&Vec<u32>, SearchParams) -> Result<Vec<Neighbor>, String>,

        requires
            self.wf(),
            2 * self.limit() <= usize::MAX,
            embed.requires((query,)),
            forall|v: &Vec<u32>|
                v@.len() == self.index_model().dimension() ==> #[trigger] rank.requires(
                    (v, SearchParams::plain(self.limit())),
                ),
        ensures
            retrieval_outcome(self.index_model(), query, self.limit(), embed, rank, r),
    {
        let found = self.index.search(query, self.top_k, embed, rank);
        let r = match found {
            Ok(results) => Ok(result_texts(results)),
            Err(e) => Err(e),
        };
        proof {
            assert(retrieved(found, r));
        }
        r
    }

    /// The prompt for `query`: the retrieved texts as a numbered block, then
    /// the question.
    pub fn format_context<E, R>(&self, query: &str, embed: E, rank: R) -> (r: Result<
        String,
        EmbeddingError,
    >) where
        E: FnOnce(&str) -> Result<Vec<u32>, EmbeddingError>,
        R: FnOnce(&Vec<u32>, SearchParams) -> Result<Vec<Neighbor>, String>,

        requires
            self.wf(),
            2 * self.limit() <= usize::MAX,
            embed.requires((query,)),
            forall|v: &Vec<u32>|
                v@.len() == self.index_model().dimension() ==> #[trigger] rank.requires(
                    (v, SearchParams::plain(self.limit())),
                ),
        ensures
            exists|contexts: Result<Vec<String>, EmbeddingError>|
                retrieval_outcome(self.index_model(), query, self.limit(), embed, rank, contexts)
                    && prompted(query@, contexts, r),
    {
        let contexts = self.retrieve(query, embed, rank);
        let r = match contexts {
            Ok(texts) => Ok(format_prompt(&texts, query)),
            Err(e) => Err(e),
        };
        proof {
            assert(prompted(query@, contexts, r));
        }
        r
    }

    /// Embeds `documents` and stores each vector with its text beside it.
    pub fn add_documents<E>(&mut self, documents: &Vec<String>, embed: E) -> (r: Result<
        Vec<VectorId>,
        EmbeddingError,
    >) where E: FnOnce(&Vec<String>) -> Result<Vec<Vec<u32>>, EmbeddingError>
        requires
            old(self).wf(),
            embed.requires((documents,)),
        ensures
            final(self).wf(),
            final(self).limit() == old(self).limit(),
            exists|embedded: Result<Vec<Vec<u32>>, EmbeddingError>|
                embed.ensures((documents,), embedded) && embedded_batch(
                    old(self).index_model(),
                    text_views(documents@),
                    embedded,
                    r,
                    final(self).index_model(),
                ),
    {
        self.index.insert_batch(documents, embed)
    }

    /// The index of the pipeline.
    pub fn index(&self) -> (index: &RuVectorEmbeddings)
        ensures
            index@ == self.index_model(),
    {
        &self.index
    }

    /// The index of the pipeline, to be changed in place.
    pub fn index_mut(&mut self) -> (index: &mut RuVectorEmbeddings)
        ensures
            index@ == old(self).index_model(),
            final(self).index_model() == final(index)@,
            final(self).limit() == old(self).limit(),
    {
        &mut self.index
    }

    /// The number of texts retrieved for a question.
    pub fn top_k(&self) -> (k: usize)
        ensures
            k == self.limit(),
    {
        self.top_k
    }
}

} // verus!
