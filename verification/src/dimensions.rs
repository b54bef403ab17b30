//! Shape checks on vectors: two vectors of one operation must have the same
//! number of components, and so must a vector and the index it is handed to.

use vstd::prelude::*;
use crate::error::{EmbeddingError, ErrorModel};

verus! {

/// What [`check_dimensions`] returns for a pair of sizes.
pub open spec fn dimension_check(expected: usize, actual: usize) -> Result<(), ErrorModel> {
    if expected == actual {
        Ok(())
    } else {
        Err(ErrorModel::DimensionMismatch { expected, actual })
    }
}

/// The view of a unit result: the error is taken by its view.
pub open spec fn unit_outcome(r: Result<(), EmbeddingError>) -> Result<(), ErrorModel> {
    match r {
        Ok(()) => Ok(()),
        Err(e) => Err(e@),
    }
}

/// Accepts two sizes exactly when they are equal; otherwise reports both.
pub fn check_dimensions(expected: usize, actual: usize) -> (r: Result<(), EmbeddingError>)
    ensures
        unit_outcome(r) == dimension_check(expected, actual),
{
    if expected == actual {
        Ok(())
    } else {
        Err(EmbeddingError::dimension_mismatch(expected, actual))
    }
}

/// The count that [`vector_dims`] reports for a vector of `len` components.
pub open spec fn dims_of(len: nat) -> int {
    if len <= i32::MAX {
        len as int
    } else {
        i32::MAX as int
    }
}

/// A length as a signed 32-bit count; a length above `i32::MAX` gives
/// `i32::MAX`.
pub fn saturating_dims(len: usize) -> (n: i32)
    ensures
        n == dims_of(len as nat),
{
    if len <= 2147483647 {
        len as i32
    } else {
        i32::MAX
    }
}

/// The number of components as a signed 32-bit count. A vector longer than
/// `i32::MAX` reports `i32::MAX`.
pub fn vector_dims(v: &Vec<u32>) -> (n: i32)
    ensures
        n == dims_of(v@.len()),
{
    saturating_dims(v.len())
}

/// `i` is the first position of `vectors` whose vector does not have
/// `dimension` components.
pub open spec fn is_first_mismatch(vectors: Seq<Seq<u32>>, dimension: usize, i: int) -> bool {
    &&& 0 <= i < vectors.len()
    &&& vectors[i].len() != dimension
    &&& forall|j: int| 0 <= j < i ==> (#[trigger] vectors[j]).len() == dimension
}

/// The first position of `vectors` whose vector does not have `dimension`
/// components, if there is one.
pub open spec fn first_mismatch(vectors: Seq<Seq<u32>>, dimension: usize) -> Option<int> {
    if exists|i: int| is_first_mismatch(vectors, dimension, i) {
        Some(choose|i: int| is_first_mismatch(vectors, dimension, i))
    } else {
        None
    }
}

/// Every vector of `vectors` has `dimension` components.
pub open spec fn all_match(vectors: Seq<Seq<u32>>, dimension: usize) -> bool {
    forall|i: int| 0 <= i < vectors.len() ==> (#[trigger] vectors[i]).len() == dimension
}

/// A first mismatch, where there is one, is the only one.
pub proof fn lemma_first_mismatch_is(vectors: Seq<Seq<u32>>, dimension: usize, i: int)
    requires
        is_first_mismatch(vectors, dimension, i),
    ensures
        first_mismatch(vectors, dimension) == Some(i),
{
    let c = choose|c: int| is_first_mismatch(vectors, dimension, c);
    if c < i {
        assert(vectors[c].len() == dimension);
    } else if i < c {
        assert(vectors[i].len() == dimension);
    }
}

/// There is no first mismatch exactly when every vector matches.
pub proof fn lemma_no_mismatch(vectors: Seq<Seq<u32>>, dimension: usize)
    ensures
        first_mismatch(vectors, dimension) is None <==> all_match(vectors, dimension),
{
    if !all_match(vectors, dimension) {
        lemma_mismatch_exists(vectors, dimension, vectors.len() as int);
    }
}

proof fn lemma_mismatch_exists(vectors: Seq<Seq<u32>>, dimension: usize, n: int)
    requires
        0 <= n <= vectors.len(),
        exists|i: int| 0 <= i < n && (#[trigger] vectors[i]).len() != dimension,
    ensures
        exists|i: int| is_first_mismatch(vectors, dimension, i),
    decreases n,
{
    let w = choose|i: int| 0 <= i < n && (#[trigger] vectors[i]).len() != dimension;
    if exists|i: int| 0 <= i < w && (#[trigger] vectors[i]).len() != dimension {
        lemma_mismatch_exists(vectors, dimension, w);
    } else {
        assert(is_first_mismatch(vectors, dimension, w));
    }
}

/// The vectors of a list, each by its view.
pub open spec fn vector_views(vectors: Seq<Vec<u32>>) -> Seq<Seq<u32>> {
    vectors.map_values(|v: Vec<u32>| v@)
}

/// Finds the first vector that does not have `dimension` components.
pub fn find_mismatch(vectors: &Vec<Vec<u32>>, dimension: usize) -> (found: Option<usize>)
    ensures
        match found {
            Some(i) => first_mismatch(vector_views(vectors@), dimension) == Some(i as int),
            None => first_mismatch(vector_views(vectors@), dimension) is None,
        },
{
    let ghost views = vector_views(vectors@);
    let mut i: usize = 0;
    while i < vectors.len()
        invariant
            i <= vectors.len(),
            views == vector_views(vectors@),
            forall|j: int| 0 <= j < i ==> (#[trigger] views[j]).len() == dimension,
        decreases vectors.len() - i,
    {
        if vectors[i].len() != dimension {
            proof {
                lemma_first_mismatch_is(views, dimension, i as int);
            }
            return Some(i);
        }
        i += 1;
    }
    proof {
        lemma_no_mismatch(views, dimension);
    }
    None
}

} // verus!
