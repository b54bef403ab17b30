//! The vector store: records of fixed dimension, each under an identifier of
//! its own. The store assigns the identifiers, counting up, unless a record
//! comes with one that its caller chose; an identifier that the store assigned
//! is never assigned again.
//!
//! The store keeps the records. Ranking them against a query is the work of a
//! neighbour index outside this crate, which answers with [`Neighbor`]s.

use vstd::prelude::*;
use std::collections::HashMap;
use crate::config::{Distance, HnswConfig};

verus! {

/// The identifier of a stored vector.
pub type VectorId = u64;

/// `serde_json::Value`, the type of a record's metadata. The store carries
/// such values and never looks inside them.
#[verifier::external_type_specification]
#[verifier::external_body]
pub struct ExJsonValue(serde_json::Value);

/// `Clone::clone` of `serde_json::Value`, which the type derives: the copy is
/// equal to the value it was made from.
pub assume_specification[ <serde_json::Value as Clone>::clone ](
    v: &serde_json::Value,
) -> (r: serde_json::Value)
    ensures
        r == *v,
;

/// A record to be stored: an identifier, where the caller wants to choose
/// it (normally the store assigns one); a vector, by the bit patterns of its
/// components; and optional metadata. A record that the store holds carries
/// the identifier it stands under.
#[derive(Debug, Clone, PartialEq)]
pub struct VectorEntry {
    pub id: Option<VectorId>,
    pub vector: Vec<u32>,
    pub metadata: Option<serde_json::Value>,
}

/// The mathematical value of a [`VectorEntry`].
pub ghost struct EntryModel {
    pub id: Option<u64>,
    pub vector: Seq<u32>,
    pub metadata: Option<serde_json::Value>,
}

impl View for VectorEntry {
    type V = EntryModel;

    open spec fn view(&self) -> EntryModel {
        EntryModel { id: self.id, vector: self.vector@, metadata: self.metadata }
    }
}

/// One answer of a neighbour index: the identifier of a vector and its score
/// against the query, by its bit pattern.
#[derive(Debug, Clone, Copy, PartialEq, Eq, Structural)]
pub struct Neighbor {
    pub id: VectorId,
    pub score: u32,
}

/// Why the store refused an operation.
#[derive(Debug, Clone, Copy, PartialEq, Eq, Structural)]
pub enum StoreError {
    /// The dimension or a graph parameter is zero.
    InvalidParameters,
    /// A vector does not have the store's dimension.
    DimensionMismatch { expected: usize, actual: usize },
    /// The store already holds as many records as it was made for.
    CapacityExceeded,
    /// A record already stands under the identifier that the caller chose.
    IdentifierInUse { id: VectorId },
    /// No identifier is left to assign.
    IdentifiersExhausted,
}

impl StoreError {
    /// The error as text.
    pub open spec fn text(self) -> Seq<char> {
        match self {
            StoreError::InvalidParameters => "dimension and graph parameters must be at least one"@,
            StoreError::DimensionMismatch { .. } => "vector does not have the store's dimension"@,
            StoreError::CapacityExceeded => "the store is full"@,
            StoreError::IdentifierInUse { .. } => "the identifier is in use"@,
            StoreError::IdentifiersExhausted => "no identifier is left"@,
        }
    }

    /// The error as text.
    pub fn message(&self) -> (s: String)
        ensures
            s@ == self.text(),
    {
        match self {
            StoreError::InvalidParameters => {
                "dimension and graph parameters must be at least one".to_owned()
            },
            StoreError::DimensionMismatch { .. } => {
                "vector does not have the store's dimension".to_owned()
            },
            StoreError::CapacityExceeded => "the store is full".to_owned(),
            StoreError::IdentifierInUse { .. } => "the identifier is in use".to_owned(),
            StoreError::IdentifiersExhausted => "no identifier is left".to_owned(),
        }
    }
}

/// The views of a list of entries.
pub open spec fn entry_models(entries: Seq<VectorEntry>) -> Seq<EntryModel> {
    entries.map_values(|e: VectorEntry| e@)
}

/// The number of identifiers there are: one more than the largest.
pub open spec fn identifier_limit() -> nat {
    0x1_0000_0000_0000_0000
}

/// The mathematical value of a [`VectorStore`].
pub ghost struct StoreModel {
    /// Number of components of every stored vector.
    pub dimension: usize,
    /// The metric the store was made for.
    pub distance: Distance,
    /// The graph parameters the store was made with.
    pub hnsw: HnswConfig,
    /// The identifier that the store will assign next; it is above every
    /// identifier in use, and is [`identifier_limit`] once none is left.
    pub next_id: nat,
    /// The records, by identifier.
    pub records: Map<u64, EntryModel>,
}

impl StoreModel {
    /// The parameters a store can be made with.
    pub open spec fn valid_parameters(dimension: usize, hnsw: HnswConfig) -> bool {
        dimension >= 1 && hnsw.valid()
    }

    /// The store as it is made: no record, first identifier zero.
    pub open spec fn empty(dimension: usize, distance: Distance, hnsw: HnswConfig) -> StoreModel {
        StoreModel { dimension, distance, hnsw, next_id: 0, records: Map::empty() }
    }

    /// The store's invariant: finitely many records, no more than its
    /// capacity; every record has a vector of the store's dimension and
    /// carries the identifier it stands under; every identifier in use is
    /// below the next one to be assigned.
    pub open spec fn wf(self) -> bool {
        &&& Self::valid_parameters(self.dimension, self.hnsw)
        &&& self.records.dom().finite()
        &&& self.records.len() <= self.hnsw.max_elements
        &&& self.next_id <= identifier_limit()
        &&& forall|id: u64| #[trigger]
            self.records.contains_key(id) ==> {
                &&& id < self.next_id
                &&& self.records[id].vector.len() == self.dimension
                &&& self.records[id].id == Some(id)
            }
    }

    /// Number of records.
    pub open spec fn len(self) -> nat {
        self.records.len()
    }

    /// Whether a record stands under `id`.
    pub open spec fn contains(self, id: u64) -> bool {
        self.records.contains_key(id)
    }

    /// The identifier that `entry` is stored under: the one it carries, or
    /// else the next one of the store.
    pub open spec fn assigned(self, entry: EntryModel) -> u64 {
        match entry.id {
            Some(id) => id,
            None => self.next_id as u64,
        }
    }

    /// Why one entry cannot be stored, if it cannot: its vector has another
    /// dimension; else the store is full; else the identifier it carries is
    /// in use, or it carries none and none is left.
    pub open spec fn insert_error(self, entry: EntryModel) -> Option<StoreError> {
        if entry.vector.len() != self.dimension {
            Some(
                StoreError::DimensionMismatch {
                    expected: self.dimension,
                    actual: entry.vector.len() as usize,
                },
            )
        } else if self.records.len() >= self.hnsw.max_elements {
            Some(StoreError::CapacityExceeded)
        } else {
            match entry.id {
                Some(id) => if self.records.contains_key(id) {
                    Some(StoreError::IdentifierInUse { id })
                } else {
                    None
                },
                None => if self.next_id >= identifier_limit() {
                    Some(StoreError::IdentifiersExhausted)
                } else {
                    None
                },
            }
        }
    }

    /// The store after `entry` was stored under [`Self::assigned`]; the next
    /// identifier moves above it.
    pub open spec fn inserted(self, entry: EntryModel) -> StoreModel {
        let id = self.assigned(entry);
        StoreModel {
            next_id: if id >= self.next_id {
                (id + 1) as nat
            } else {
                self.next_id
            },
            records: self.records.insert(id, EntryModel { id: Some(id), ..entry }),
            ..self
        }
    }

    /// Why a list of entries cannot be stored one after another, if it
    /// cannot: the error of the first entry that cannot be stored after
    /// those before it.
    pub open spec fn batch_error(self, entries: Seq<EntryModel>) -> Option<StoreError>
        decreases entries.len(),
    {
        if entries.len() == 0 {
            None
        } else {
            match self.batch_error(entries.drop_last()) {
                Some(e) => Some(e),
                None => self.batch_inserted(entries.drop_last()).insert_error(entries.last()),
            }
        }
    }

    /// The store after each entry of a list was stored, in order.
    pub open spec fn batch_inserted(self, entries: Seq<EntryModel>) -> StoreModel
        decreases entries.len(),
    {
        if entries.len() == 0 {
            self
        } else {
            self.batch_inserted(entries.drop_last()).inserted(entries.last())
        }
    }

    /// The identifiers that the entries of a list are stored under, in
    /// order.
    pub open spec fn batch_ids(self, entries: Seq<EntryModel>) -> Seq<u64>
        decreases entries.len(),
    {
        if entries.len() == 0 {
            Seq::empty()
        } else {
            self.batch_ids(entries.drop_last()).push(
                self.batch_inserted(entries.drop_last()).assigned(entries.last()),
            )
        }
    }

    /// The store without the record under `id`.
    pub open spec fn deleted(self, id: u64) -> StoreModel {
        StoreModel { records: self.records.remove(id), ..self }
    }

    /// The store without any record. Identifiers are not assigned again.
    pub open spec fn cleared(self) -> StoreModel {
        StoreModel { records: Map::empty(), ..self }
    }

    /// Storing an entry that can be stored keeps the invariant, adds one
    /// record under an identifier that was free, and leaves the others.
    pub proof fn lemma_inserted(self, entry: EntryModel)
        requires
            self.wf(),
            self.insert_error(entry) is None,
        ensures
            self.inserted(entry).wf(),
            !self.contains(self.assigned(entry)),
            self.inserted(entry).len() == self.len() + 1,
            self.inserted(entry).next_id >= self.next_id,
            self.inserted(entry).next_id > self.assigned(entry),
            entry.id is None ==> self.assigned(entry) == self.next_id && self.inserted(
                entry,
            ).next_id == self.next_id + 1,
    {
        let id = self.assigned(entry);
        if entry.id is None {
            assert(!self.records.contains_key(id));
        }
    }

    /// A list that fails on a part of it fails on the whole of it, with the
    /// same error.
    pub proof fn lemma_batch_error_stays(self, entries: Seq<EntryModel>, n: int)
        requires
            0 <= n <= entries.len(),
            self.batch_error(entries.take(n)) is Some,
        ensures
            self.batch_error(entries) == self.batch_error(entries.take(n)),
        decreases entries.len() - n,
    {
        if n < entries.len() {
            assert(entries.take(n + 1).drop_last() =~= entries.take(n));
            self.lemma_batch_error_stays(entries, n + 1);
        } else {
            assert(entries.take(n) =~= entries);
        }
    }

    /// After `entries` were stored in order: the invariant holds; the entry
    /// at each position stands under the identifier returned for that
    /// position, which was free before and is returned for no other
    /// position; every other record is as it was, and nothing else was added.
    pub proof fn lemma_batch_inserted(self, entries: Seq<EntryModel>)
        requires
            self.wf(),
            self.batch_error(entries) is None,
        ensures
            self.batch_inserted(entries).wf(),
            self.batch_inserted(entries).dimension == self.dimension,
            self.batch_inserted(entries).distance == self.distance,
            self.batch_inserted(entries).hnsw == self.hnsw,
            self.batch_inserted(entries).next_id >= self.next_id,
            self.batch_inserted(entries).len() == self.len() + entries.len(),
            self.batch_ids(entries).len() == entries.len(),
            forall|id: u64|
                #![trigger self.batch_inserted(entries).records.contains_key(id)]
                #![trigger self.batch_ids(entries).contains(id)]
                self.batch_inserted(entries).records.contains_key(id) <==> (
                self.records.contains_key(id) || self.batch_ids(entries).contains(id)),
            forall|id: u64|
                #![trigger self.batch_inserted(entries).records[id]]
                #![trigger self.batch_ids(entries).contains(id)]
                self.records.contains_key(id) ==> self.batch_inserted(entries).records[id]
                    == self.records[id] && !self.batch_ids(entries).contains(id),
            forall|i: int|
                0 <= i < entries.len() ==> self.batch_inserted(entries).records[#[trigger] self.batch_ids(
                    entries,
                )[i]] == (EntryModel { id: Some(self.batch_ids(entries)[i]), ..entries[i] }),
            self.batch_ids(entries).no_duplicates(),
        decreases entries.len(),
    {
        if entries.len() > 0 {
            let init = entries.drop_last();
            let last = entries.last();
            self.lemma_batch_inserted(init);
            let mid = self.batch_inserted(init);
            mid.lemma_inserted(last);
            let id = mid.assigned(last);
            let ids = self.batch_ids(entries);
            let after = self.batch_inserted(entries);
            let front = self.batch_ids(init);
            assert(ids == front.push(id));
            assert(!mid.records.contains_key(id));
            assert(!front.contains(id));
            assert forall|x: u64| ids.contains(x) <==> (front.contains(x) || x == id) by {
                if ids.contains(x) {
                    let i = choose|i: int| 0 <= i < ids.len() && ids[i] == x;
                    if i < front.len() {
                        assert(front[i] == x);
                    }
                }
                if front.contains(x) {
                    let i = choose|i: int| 0 <= i < front.len() && front[i] == x;
                    assert(ids[i] == x);
                }
                if x == id {
                    assert(ids[ids.len() - 1] == x);
                }
            }
            assert forall|x: u64|
                #![trigger after.records.contains_key(x)]
                #![trigger ids.contains(x)]
                after.records.contains_key(x) <==> (self.records.contains_key(x) || ids.contains(
                    x,
                )) by {
                assert(mid.records.contains_key(x) <==> (self.records.contains_key(x)
                    || front.contains(x)));
            }
            assert forall|x: u64|
                #![trigger after.records[x]]
                #![trigger ids.contains(x)]
                self.records.contains_key(x) implies after.records[x] == self.records[x]
                && !ids.contains(x) by {
                assert(mid.records[x] == self.records[x] && !front.contains(x));
                assert(mid.records.contains_key(x));
            }
            assert forall|i: int| 0 <= i < entries.len() implies after.records[#[trigger] ids[i]]
                == (EntryModel { id: Some(ids[i]), ..entries[i] }) by {
                if i < init.len() {
                    assert(init[i] == entries[i]);
                    assert(front[i] == ids[i]);
                    assert(front.contains(ids[i]));
                    assert(mid.records[front[i]] == (EntryModel {
                        id: Some(front[i]),
                        ..init[i]
                    }));
                }
            }
            assert forall|i: int, j: int| 0 <= i < j < ids.len() implies ids[i] != ids[j] by {
                assert(front[i] == ids[i]);
                assert(front.contains(ids[i]));
                if j < ids.len() - 1 {
                    assert(front[j] == ids[j]);
                }
            }
        }
    }

    /// Entries that carry no identifier get consecutive ones, from the next
    /// of the store on.
    pub proof fn lemma_fresh_batch(self, entries: Seq<EntryModel>)
        requires
            self.wf(),
            self.batch_error(entries) is None,
            forall|i: int| 0 <= i < entries.len() ==> (#[trigger] entries[i]).id is None,
        ensures
            self.batch_inserted(entries).next_id == self.next_id + entries.len(),
            self.batch_ids(entries) == Seq::new(entries.len(), |i: int| (self.next_id + i) as u64),
        decreases entries.len(),
    {
        if entries.len() > 0 {
            let init = entries.drop_last();
            assert forall|i: int| 0 <= i < init.len() implies (#[trigger] init[i]).id is None by {
                assert(entries[i].id is None);
            }
            self.lemma_fresh_batch(init);
            self.lemma_batch_inserted(init);
            self.batch_inserted(init).lemma_inserted(entries.last());
            assert(entries[entries.len() - 1].id is None);
        }
        assert(self.batch_ids(entries) =~= Seq::new(
            entries.len(),
            |i: int| (self.next_id + i) as u64,
        ));
    }

    /// Storing one entry is storing a list of one.
    pub proof fn lemma_insert_is_batch_of_one(self, entry: EntryModel)
        ensures
            self.batch_error(seq![entry]) == self.insert_error(entry),
            self.batch_inserted(seq![entry]) == self.inserted(entry),
            self.batch_ids(seq![entry]) == seq![self.assigned(entry)],
    {
        let entries = seq![entry];
        assert(entries.drop_last() =~= Seq::<EntryModel>::empty());
        assert(self.batch_error(entries.drop_last()) is None);
        assert(self.batch_inserted(entries.drop_last()) == self);
        assert(self.batch_ids(entries.drop_last()) =~= Seq::<u64>::empty());
        assert(self.batch_ids(entries) =~= seq![self.assigned(entry)]);
    }
}

/// An in-memory store of records.
pub struct VectorStore {
    dimension: usize,
    distance: Distance,
    hnsw: HnswConfig,
    next_id: u64,
    exhausted: bool,
    entries: HashMap<u64, VectorEntry>,
}

impl View for VectorStore {
    type V = StoreModel;

    closed spec fn view(&self) -> StoreModel {
        StoreModel {
            dimension: self.dimension,
            distance: self.distance,
            hnsw: self.hnsw,
            next_id: if self.exhausted {
                identifier_limit()
            } else {
                self.next_id as nat
            },
            records: Map::new(
                |id: u64| self.entries@.contains_key(id),
                |id: u64| self.entries@[id]@,
            ),
        }
    }
}

impl VectorStore {
    /// The store's invariant; see [`StoreModel::wf`].
    pub open spec fn wf(&self) -> bool {
        self@.wf()
    }

    proof fn lemma_view(&self)
        ensures
            self@.records.dom() =~= self.entries@.dom(),
            self@.records.len() == self.entries@.len(),
            self@.records.dom().finite(),
    {
    }

    /// Makes an empty store for vectors of `dimension` components. Refuses a
    /// dimension or a graph parameter of zero.
    pub fn new(dimension: usize, distance: Distance, hnsw: HnswConfig) -> (r: Result<
        VectorStore,
        StoreError,
    >)
        ensures
            match r {
                Ok(store) => StoreModel::valid_parameters(dimension, hnsw) && store.wf() && store@
                    == StoreModel::empty(dimension, distance, hnsw),
                Err(e) => !StoreModel::valid_parameters(dimension, hnsw) && e
                    == StoreError::InvalidParameters,
            },
    {
        if dimension == 0 || hnsw.m == 0 || hnsw.ef_construction == 0 || hnsw.max_elements == 0 {
            return Err(StoreError::InvalidParameters);
        }
        let store = VectorStore {
            dimension,
            distance,
            hnsw,
            next_id: 0,
            exhausted: false,
            entries: HashMap::new(),
        };
        proof {
            store.lemma_view();
            assert(store@.records =~= Map::<u64, EntryModel>::empty());
        }
        Ok(store)
    }

    /// Number of components of every stored vector.
    pub fn dimension(&self) -> (d: usize)
        ensures
            d == self@.dimension,
    {
        self.dimension
    }

    /// The metric the store was made for.
    pub fn distance(&self) -> (d: Distance)
        ensures
            d == self@.distance,
    {
        self.distance
    }

    /// The graph parameters the store was made with.
    pub fn hnsw(&self) -> (h: HnswConfig)
        ensures
            h == self@.hnsw,
    {
        self.hnsw
    }

    /// Number of records.
    pub fn len(&self) -> (n: usize)
        requires
            self.wf(),
        ensures
            n == self@.len(),
    {
        proof {
            self.lemma_view();
        }
        self.entries.len()
    }

    /// Whether the store holds no record.
    pub fn is_empty(&self) -> (b: bool)
        requires
            self.wf(),
        ensures
            b == (self@.len() == 0),
    {
        self.len() == 0
    }

    /// Whether a record stands under `id`.
    pub fn contains(&self, id: VectorId) -> (b: bool)
        ensures
            b == self@.contains(id),
    {
        self.entries.contains_key(&id)
    }

    /// The record under `id`, if there is one.
    pub fn get(&self, id: VectorId) -> (found: Option<&VectorEntry>)
        ensures
            match found {
                Some(entry) => self@.contains(id) && entry@ == self@.records[id],
                None => !self@.contains(id),
            },
    {
        self.entries.get(&id)
    }

    /// Stores `entry` and returns the identifier it stands under: the one it
    /// carries, or else a new one. On an error the store is left as it was.
    pub fn insert(&mut self, entry: VectorEntry) -> (r: Result<VectorId, StoreError>)
        requires
            old(self).wf(),
        ensures
            final(self).wf(),
            match r {
                Ok(id) => old(self)@.insert_error(entry@) is None && id == old(self)@.assigned(
                    entry@,
                ) && final(self)@ == old(self)@.inserted(entry@),
                Err(e) => old(self)@.insert_error(entry@) == Some(e) && final(self)@ == old(self)@,
            },
    {
        proof {
            self.lemma_view();
        }
        if entry.vector.len() != self.dimension {
            return Err(
                StoreError::DimensionMismatch {
                    expected: self.dimension,
                    actual: entry.vector.len(),
                },
            );
        }
        if self.entries.len() >= self.hnsw.max_elements {
            return Err(StoreError::CapacityExceeded);
        }
        let id: u64 = match entry.id {
            Some(id) => {
                if self.entries.contains_key(&id) {
                    return Err(StoreError::IdentifierInUse { id });
                }
                id
            },
            None => {
                if self.exhausted {
                    return Err(StoreError::IdentifiersExhausted);
                }
                self.next_id
            },
        };
        proof {
            old(self)@.lemma_inserted(entry@);
        }
        let stored = VectorEntry { id: Some(id), vector: entry.vector, metadata: entry.metadata };
        self.entries.insert(id, stored);
        if id == u64::MAX {
            self.exhausted = true;
        } else if !self.exhausted && id >= self.next_id {
            self.next_id = id + 1;
        }
        proof {
            self.lemma_view();
            assert(self@.records =~= old(self)@.inserted(entry@).records);
        }
        Ok(id)
    }

    fn undo(&mut self, ids: &Vec<VectorId>, Ghost(start): Ghost<StoreModel>)
        requires
            ids@.no_duplicates(),
            forall|id: u64|
                #![trigger old(self)@.records.contains_key(id)]
                #![trigger ids@.contains(id)]
                old(self)@.records.contains_key(id) <==> (start.records.contains_key(id)
                    || ids@.contains(id)),
            forall|id: u64|
                #![trigger old(self)@.records[id]]
                #![trigger ids@.contains(id)]
                start.records.contains_key(id) ==> old(self)@.records[id] == start.records[id]
                    && !ids@.contains(id),
        ensures
            final(self)@.records == start.records,
            final(self).dimension == old(self).dimension,
            final(self).distance == old(self).distance,
            final(self).hnsw == old(self).hnsw,
            final(self).next_id == old(self).next_id,
            final(self).exhausted == old(self).exhausted,
    {
        proof {
            self.lemma_view();
            assert(ids@.subrange(0, ids@.len() as int) =~= ids@);
            assert forall|id: u64| start.records.contains_key(id) implies self.entries@[id]@
                == start.records[id] by {
                assert(self@.records[id] == start.records[id]);
            }
        }
        let mut j: usize = 0;
        while j < ids.len()
            invariant
                j <= ids.len(),
                ids@.no_duplicates(),
                self.dimension == old(self).dimension,
                self.distance == old(self).distance,
                self.hnsw == old(self).hnsw,
                self.next_id == old(self).next_id,
                self.exhausted == old(self).exhausted,
                forall|id: u64|
                    #![trigger self.entries@.contains_key(id)]
                    self.entries@.contains_key(id) <==> (start.records.contains_key(id)
                        || ids@.subrange(j as int, ids@.len() as int).contains(id)),
                forall|id: u64|
                    #![trigger self.entries@[id]]
                    start.records.contains_key(id) ==> self.entries@[id]@ == start.records[id],
                forall|id: u64|
                    #![trigger ids@.contains(id)]
                    start.records.contains_key(id) ==> !ids@.contains(id),
            decreases ids.len() - j,
        {
            let id: u64 = ids[j];
            let ghost rest = ids@.subrange(j as int, ids@.len() as int);
            let ghost tail = ids@.subrange(j + 1, ids@.len() as int);
            self.entries.remove(&id);
            proof {
                assert(rest[0] == id);
                assert(ids@[j as int] == id);
                assert(ids@.contains(id));
                assert(!start.records.contains_key(id));
                assert forall|x: u64| tail.contains(x) <==> (rest.contains(x) && x != id) by {
                    if tail.contains(x) {
                        let t = choose|t: int| 0 <= t < tail.len() && tail[t] == x;
                        assert(rest[t + 1] == x);
                        assert(ids@[j + 1 + t] == x);
                    }
                    if rest.contains(x) && x != id {
                        let t = choose|t: int| 0 <= t < rest.len() && rest[t] == x;
                        assert(tail[t - 1] == x);
                    }
                }
                assert forall|x: u64| #![trigger self.entries@.contains_key(x)]
                    self.entries@.contains_key(x) <==> (start.records.contains_key(x)
                        || tail.contains(x)) by {
                    assert(tail.contains(x) <==> (rest.contains(x) && x != id));
                }
            }
            j += 1;
        }
        proof {
            self.lemma_view();
            assert(ids@.subrange(ids@.len() as int, ids@.len() as int) =~= Seq::<u64>::empty());
            assert(self@.records =~= start.records);
        }
    }

    /// Stores every entry of a list, in order, and returns their identifiers
    /// in the same order. Either all are stored or, on an error, none: where
    /// an entry cannot be stored, those stored before it are taken out again.
    pub fn insert_batch(&mut self, entries: Vec<VectorEntry>) -> (r: Result<
        Vec<VectorId>,
        StoreError,
    >)
        requires
            old(self).wf(),
        ensures
            final(self).wf(),
            match r {
                Ok(ids) => old(self)@.batch_error(entry_models(entries@)) is None && ids@ == old(
                    self,
                )@.batch_ids(entry_models(entries@)) && final(self)@ == old(self)@.batch_inserted(
                    entry_models(entries@),
                ),
                Err(e) => old(self)@.batch_error(entry_models(entries@)) == Some(e) && final(self)@
                    == old(self)@,
            },
    {
        let ghost models = entry_models(entries@);
        let ghost start = self@;
        let first_id: u64 = self.next_id;
        let was_exhausted: bool = self.exhausted;
        let mut ids: Vec<u64> = Vec::new();
        for entry in it: entries
            invariant
                it.seq() == entries@,
                it.index() <= entries@.len(),
                models == entry_models(entries@),
                start.wf(),
                start == old(self)@,
                first_id == old(self).next_id,
                was_exhausted == old(self).exhausted,
                self.wf(),
                start.batch_error(models.take(it.index())) is None,
                self@ == start.batch_inserted(models.take(it.index())),
                ids@ == start.batch_ids(models.take(it.index())),
        {
            let ghost i = it.index();
            let ghost done = models.take(i);
            let ghost next = models.take(i + 1);
            proof {
                assert(next.drop_last() =~= done);
                assert(next.last() == entry@);
            }
            match self.insert(entry) {
                Ok(id) => {
                    ids.push(id);
                },
                Err(e) => {
                    proof {
                        start.lemma_batch_inserted(done);
                        start.lemma_batch_error_stays(models, i + 1);
                    }
                    self.undo(&ids, Ghost(start));
                    self.next_id = first_id;
                    self.exhausted = was_exhausted;
                    proof {
                        self.lemma_view();
                        assert(self@.records =~= start.records);
                    }
                    return Err(e);
                },
            }
        }
        proof {
            assert(models.take(models.len() as int) =~= models);
        }
        Ok(ids)
    }

    /// Removes the record under `id` and says whether there was one.
    pub fn delete(&mut self, id: VectorId) -> (removed: bool)
        requires
            old(self).wf(),
        ensures
            final(self).wf(),
            removed == old(self)@.contains(id),
            final(self)@ == old(self)@.deleted(id),
    {
        proof {
            self.lemma_view();
        }
        let removed = self.entries.remove(&id).is_some();
        proof {
            self.lemma_view();
            assert(self@.records =~= old(self)@.records.remove(id));
        }
        removed
    }

    /// Removes every record.
    pub fn clear(&mut self)
        requires
            old(self).wf(),
        ensures
            final(self).wf(),
            final(self)@ == old(self)@.cleared(),
    {
        self.entries.clear();
        proof {
            self.lemma_view();
            assert(self@.records =~= Map::<u64, EntryModel>::empty());
        }
    }
}

} // verus!
