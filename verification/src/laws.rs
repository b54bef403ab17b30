//! What holds of the index across operations, proved over its model.

use vstd::prelude::*;
use crate::dimensions::dimension_check;
use crate::error::{EmbeddingError, ErrorModel};
use crate::index::{
    bare_entries,
    batch_outcome,
    decided,
    filtered,
    filtered_by,
    rejects_all,
    IndexModel,
    ResultModel,
};
use crate::store::{Neighbor, VectorId};

verus! {

/// Two sizes that differ are refused, and the error reports both.
pub proof fn lemma_different_sizes_are_refused(expected: usize, actual: usize)
    requires
        expected != actual,
    ensures
        dimension_check(expected, actual) == Err::<(), ErrorModel>(
            ErrorModel::DimensionMismatch { expected, actual },
        ),
{
}

/// In a well-formed index a text stands under an identifier exactly when a
/// record does, and every stored vector has the index's dimension.
pub proof fn lemma_texts_and_records_agree(model: IndexModel, id: u64)
    requires
        model.wf(),
    ensures
        model.texts.contains_key(id) <==> model.store.contains(id),
        model.lookup(id) is Some <==> model.contains(id),
        model.contains(id) ==> model.store.records[id].vector.len() == model.dimension(),
{
}

/// Inserting keeps the index well-formed and adds one vector.
pub proof fn lemma_insert_keeps_invariant(
    model: IndexModel,
    text: Seq<char>,
    vector: Seq<u32>,
    metadata: Option<serde_json::Value>,
)
    requires
        model.wf(),
        model.insert_error(vector) is None,
    ensures
        model.inserted(text, vector, metadata).wf(),
        model.inserted(text, vector, metadata).len() == model.len() + 1,
        !model.contains(model.store.next_id as u64),
{
}

/// After a text was inserted with its vector, looking up the identifier that
/// the insertion returned gives back that text and that vector.
pub proof fn lemma_insert_then_get(
    model: IndexModel,
    text: Seq<char>,
    vector: Seq<u32>,
    metadata: Option<serde_json::Value>,
)
    requires
        model.wf(),
        model.insert_error(vector) is None,
    ensures
        model.inserted(text, vector, metadata).lookup(model.store.next_id as u64) == Some(
            (text, vector),
        ),
{
}

/// Inserting leaves what stands under every other identifier as it was.
pub proof fn lemma_insert_keeps_others(
    model: IndexModel,
    text: Seq<char>,
    vector: Seq<u32>,
    metadata: Option<serde_json::Value>,
    id: u64,
)
    requires
        model.wf(),
        model.insert_error(vector) is None,
        id != model.store.next_id,
    ensures
        model.inserted(text, vector, metadata).lookup(id) == model.lookup(id),
{
}

/// Deleting keeps the index well-formed; the identifier is gone afterwards,
/// and the count drops by one exactly when something stood under it.
pub proof fn lemma_delete_keeps_invariant(model: IndexModel, id: u64)
    requires
        model.wf(),
    ensures
        model.deleted(id).wf(),
        !model.deleted(id).contains(id),
        model.deleted(id).lookup(id) is None,
        model.contains(id) ==> model.deleted(id).len() == model.len() - 1,
        !model.contains(id) ==> model.deleted(id) == model,
{
    if model.contains(id) {
        assert(model.deleted(id).texts.dom() =~= model.deleted(id).store.records.dom());
    }
}

/// Deleting an identifier that was already deleted deletes nothing: the
/// second deletion finds no record, and leaves the index, and so its count,
/// as the first left it.
pub proof fn lemma_delete_is_idempotent(model: IndexModel, id: u64)
    requires
        model.wf(),
    ensures
        !model.deleted(id).contains(id),
        model.deleted(id).deleted(id) == model.deleted(id),
        model.deleted(id).deleted(id).len() == model.deleted(id).len(),
{
}

/// Clearing keeps the index well-formed and leaves nothing in it.
pub proof fn lemma_clear_keeps_invariant(model: IndexModel)
    requires
        model.wf(),
    ensures
        model.cleared().wf(),
        model.cleared().len() == 0,
        forall|id: u64| model.cleared().lookup(id) is None,
{
}

/// A batch whose counts of texts and vectors differ is refused with both
/// counts, and the index, and so its count, is left as it was.
pub proof fn lemma_uneven_batch_is_refused(
    model: IndexModel,
    texts: Seq<Seq<char>>,
    vectors: Seq<Seq<u32>>,
    r: Result<Vec<VectorId>, EmbeddingError>,
    after: IndexModel,
)
    requires
        texts.len() != vectors.len(),
        batch_outcome(model, texts, vectors, r, after),
    ensures
        r is Err,
        r->Err_0@ == (ErrorModel::DimensionMismatch {
            expected: texts.len() as usize,
            actual: vectors.len() as usize,
        }),
        after == model,
        after.len() == model.len(),
{
}

/// A batch is inserted as its vectors are one after another: a batch of one
/// more is the batch without the last, then the last.
pub proof fn lemma_batch_is_repeated_insert(
    model: IndexModel,
    texts: Seq<Seq<char>>,
    vectors: Seq<Seq<u32>>,
    text: Seq<char>,
    vector: Seq<u32>,
)
    requires
        texts.len() == vectors.len(),
    ensures
        model.batch_inserted(texts.push(text), vectors.push(vector)) == model.batch_inserted(
            texts,
            vectors,
        ).inserted(text, vector, None),
{
    assert(texts.push(text).drop_last() =~= texts);
    assert(vectors.push(vector).drop_last() =~= vectors);
}

/// After a batch was inserted, the text and the vector at each position are
/// found under the identifier returned for that position.
pub proof fn lemma_batch_then_get(
    model: IndexModel,
    texts: Seq<Seq<char>>,
    vectors: Seq<Seq<u32>>,
    i: int,
)
    requires
        model.wf(),
        model.batch_error(texts, vectors) is None,
        0 <= i < vectors.len(),
    ensures
        model.batch_inserted(texts, vectors).wf(),
        model.batch_inserted(texts, vectors).len() == model.len() + vectors.len(),
        model.batch_inserted(texts, vectors).lookup(
            model.store.batch_ids(bare_entries(vectors))[i],
        ) == Some((texts[i], vectors[i])),
        model.store.batch_ids(bare_entries(vectors))[i] == model.store.next_id + i,
{
    let entries = bare_entries(vectors);
    model.lemma_batch_inserted(texts, vectors);
    model.store.lemma_batch_inserted(entries);
    model.store.lemma_fresh_batch(entries);
    let id = model.store.batch_ids(entries)[i];
    assert(entries[i].id is None);
    assert(model.store.batch_ids(entries).contains(id));
    assert(model.batch_inserted(texts, vectors).store.records[id].vector == entries[i].vector);
}

/// The results selected from hits are no more than the hits, each is the
/// answer to a hit that was marked, and they stand in the order of their
/// hits: `at` gives, for each result, the position of its hit.
pub proof fn lemma_selected_follows_hits(
    model: IndexModel,
    hits: Seq<Neighbor>,
    keep: Seq<bool>,
) -> (at: Seq<int>)
    requires
        keep.len() == hits.len(),
    ensures
        model.selected(hits, keep).len() <= hits.len(),
        at.len() == model.selected(hits, keep).len(),
        forall|i: int|
            0 <= i < at.len() ==> 0 <= #[trigger] at[i] < hits.len() && keep[at[i]]
                && model.selected(hits, keep)[i] == model.result_for(hits[at[i]]),
        forall|i: int, j: int| 0 <= i < j < at.len() ==> at[i] < at[j],
        forall|p: int|
            0 <= p < hits.len() && keep[p] ==> exists|i: int| 0 <= i < at.len() && at[i] == p,
    decreases hits.len(),
{
    if hits.len() == 0 {
        Seq::empty()
    } else {
        let front = lemma_selected_follows_hits(model, hits.drop_last(), keep.drop_last());
        let last = hits.len() - 1;
        let at = if keep.last() {
            front.push(last)
        } else {
            front
        };
        assert forall|p: int| 0 <= p < hits.len() && keep[p] implies exists|i: int|
            0 <= i < at.len() && at[i] == p by {
            if p < last {
                assert(keep.drop_last()[p]);
                let i = choose|i: int| 0 <= i < front.len() && front[i] == p;
                assert(at[i] == p);
            } else {
                assert(at[at.len() - 1] == p);
            }
        }
        at
    }
}

/// A plain search answers no more results than the neighbour index gave
/// hits, every result belongs to a hit whose text is known, and results
/// stand in the order of their hits, with the hits' scores.
pub proof fn lemma_results_follow_hits(model: IndexModel, hits: Seq<Neighbor>) -> (at: Seq<int>)
    ensures
        model.results_of(hits).len() <= hits.len(),
        at.len() == model.results_of(hits).len(),
        forall|i: int|
            0 <= i < at.len() ==> 0 <= #[trigger] at[i] < hits.len() && model.known(hits[at[i]])
                && model.results_of(hits)[i].id == hits[at[i]].id && model.results_of(
                hits,
            )[i].score == hits[at[i]].score && model.results_of(hits)[i].text
                == model.texts[hits[at[i]].id],
        forall|i: int, j: int| 0 <= i < j < at.len() ==> at[i] < at[j],
{
    lemma_selected_follows_hits(model, hits, model.known_marks(hits))
}

/// A plain search keeps the ranking of the neighbour index: if the hits are
/// in order by their scores, under any order `before`, so are the results.
pub proof fn lemma_results_keep_ranking(
    model: IndexModel,
    hits: Seq<Neighbor>,
    before: spec_fn(u32, u32) -> bool,
)
    requires
        forall|i: int, j: int|
            0 <= i < j < hits.len() ==> before(#[trigger] hits[i].score, #[trigger] hits[j].score),
    ensures
        forall|i: int, j: int|
            0 <= i < j < model.results_of(hits).len() ==> before(
                #[trigger] model.results_of(hits)[i].score,
                #[trigger] model.results_of(hits)[j].score,
            ),
{
    let at = lemma_results_follow_hits(model, hits);
    assert forall|i: int, j: int| 0 <= i < j < model.results_of(hits).len() implies before(
        #[trigger] model.results_of(hits)[i].score,
        #[trigger] model.results_of(hits)[j].score,
    ) by {
        assert(at[i] < at[j]);
        assert(before(hits[at[i]].score, hits[at[j]].score));
    }
}

/// A filter that accepts nothing leaves no result, whatever the hits.
pub proof fn lemma_rejecting_filter_leaves_nothing<F>(
    model: IndexModel,
    filter: F,
    hits: Seq<Neighbor>,
    k: usize,
    out: Seq<ResultModel>,
) where F: Fn(&serde_json::Value) -> bool
    requires
        rejects_all(filter),
        filtered(model, filter, hits, k, out),
    ensures
        out.len() == 0,
{
    let keep = choose|keep: Seq<bool>| filtered_by(model, filter, hits, k, out, keep);
    let at = lemma_selected_follows_hits(model, hits.take(keep.len() as int), keep);
    if at.len() > 0 {
        assert(keep[at[0]]);
        assert(decided(model, filter, hits[at[0]], keep[at[0]]));
    }
}

/// A filtered search answers at most `k` results, and no more than there
/// were hits.
pub proof fn lemma_filtered_is_bounded<F>(
    model: IndexModel,
    filter: F,
    hits: Seq<Neighbor>,
    k: usize,
    out: Seq<ResultModel>,
) where F: Fn(&serde_json::Value) -> bool
    requires
        filtered(model, filter, hits, k, out),
    ensures
        out.len() <= k,
        out.len() <= hits.len(),
{
    let keep = choose|keep: Seq<bool>| filtered_by(model, filter, hits, k, out, keep);
    lemma_selected_follows_hits(model, hits.take(keep.len() as int), keep);
}

} // verus!
