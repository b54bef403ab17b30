use ruvector_index::config::{Distance, RuVectorConfig};
use ruvector_index::error::EmbeddingError;
use ruvector_index::index::RuVectorEmbeddings;

fn bits(values: &[f32]) -> Vec<u32> {
    values.iter().map(|x| x.to_bits()).collect()
}

fn config(max_elements: usize) -> RuVectorConfig {
    RuVectorConfig { distance: Distance::Euclidean, m: 16, ef_construction: 100, max_elements }
}

fn index(dimension: usize, max_elements: usize) -> RuVectorEmbeddings {
    match RuVectorEmbeddings::new("docs", dimension, config(max_elements)) {
        Ok(i) => i,
        Err(e) => panic!("index refused: {:?}", e),
    }
}

fn label(text: &str) -> serde_json::Value {
    let mut fields = serde_json::Map::new();
    fields.insert("label".to_string(), serde_json::Value::String(text.to_string()));
    serde_json::Value::Object(fields)
}

#[test]
fn a_new_index_is_empty() {
    let i = index(3, 10);
    assert_eq!(i.len(), 0);
    assert!(i.is_empty());
    assert_eq!(i.name(), "docs");
    assert_eq!(i.dimension(), 3);
    assert_eq!(i.config(), config(10));
    assert_eq!(i.get(0), None);
}

#[test]
fn the_default_index_has_the_default_configuration() {
    match RuVectorEmbeddings::new_default("plain", 4) {
        Ok(i) => {
            assert_eq!(i.config(), RuVectorConfig::default());
            assert_eq!(i.name(), "plain");
            assert_eq!(i.dimension(), 4);
            assert!(i.is_empty());
        },
        Err(e) => panic!("index refused: {:?}", e),
    }
}

#[test]
fn a_bad_configuration_fails_index_creation() {
    let expected = EmbeddingError::IndexCreation {
        message: "dimension and graph parameters must be at least one".to_string(),
    };
    match RuVectorEmbeddings::new("docs", 0, config(10)) {
        Ok(_) => panic!("accepted dimension zero"),
        Err(e) => assert_eq!(e, expected),
    }
    match RuVectorEmbeddings::new("docs", 3, config(0)) {
        Ok(_) => panic!("accepted capacity zero"),
        Err(e) => assert_eq!(e, expected),
    }
    let no_degree = RuVectorConfig { m: 0, ..config(10) };
    assert!(RuVectorEmbeddings::new("docs", 3, no_degree).is_err());
    let no_breadth = RuVectorConfig { ef_construction: 0, ..config(10) };
    assert!(RuVectorEmbeddings::new("docs", 3, no_breadth).is_err());
    assert!(RuVectorEmbeddings::new_default("docs", 0).is_err());
}

#[test]
fn insert_then_get_returns_text_and_vector() {
    let mut i = index(3, 10);
    let e = bits(&[0.25, -1.5, 3.0]);
    let id = i.insert_with_embedding("the quick brown fox", e.clone(), Some(label("a")));
    assert_eq!(id, Ok(0));
    assert_eq!(i.get(0), Some(("the quick brown fox".to_string(), e)));
    assert_eq!(i.len(), 1);
    assert!(!i.is_empty());
}

#[test]
fn get_keeps_every_bit_of_the_vector() {
    let mut i = index(4, 10);
    let e = vec![0u32, 0x8000_0000, 0x7fc0_0001, u32::MAX];
    assert_eq!(i.insert_with_embedding("", e.clone(), None), Ok(0));
    assert_eq!(i.get(0), Some((String::new(), e)));
}

#[test]
fn each_insertion_gets_its_own_identifier() {
    let mut i = index(1, 10);
    assert_eq!(i.insert_with_embedding("a", bits(&[1.0]), None), Ok(0));
    assert_eq!(i.insert_with_embedding("b", bits(&[2.0]), None), Ok(1));
    assert_eq!(i.insert_with_embedding("a", bits(&[1.0]), None), Ok(2));
    assert_eq!(i.get(0), Some(("a".to_string(), bits(&[1.0]))));
    assert_eq!(i.get(1), Some(("b".to_string(), bits(&[2.0]))));
    assert_eq!(i.get(2), Some(("a".to_string(), bits(&[1.0]))));
    assert_eq!(i.get(3), None);
    assert_eq!(i.len(), 3);
}

#[test]
fn a_vector_of_another_dimension_is_refused() {
    let mut i = index(3, 10);
    assert_eq!(
        i.insert_with_embedding("short", bits(&[1.0, 2.0]), None),
        Err(EmbeddingError::DimensionMismatch { expected: 3, actual: 2 })
    );
    assert_eq!(
        i.insert_with_embedding("long", bits(&[1.0, 2.0, 3.0, 4.0]), None),
        Err(EmbeddingError::DimensionMismatch { expected: 3, actual: 4 })
    );
    assert_eq!(i.len(), 0);
    assert_eq!(i.get(0), None);
    assert_eq!(i.insert_with_embedding("fits", bits(&[1.0, 2.0, 3.0]), None), Ok(0));
}

#[test]
fn a_full_index_reports_the_store_error() {
    let mut i = index(1, 1);
    assert_eq!(i.insert_with_embedding("a", bits(&[1.0]), None), Ok(0));
    assert_eq!(
        i.insert_with_embedding("b", bits(&[2.0]), None),
        Err(EmbeddingError::Store { message: "the store is full".to_string() })
    );
    assert_eq!(i.len(), 1);
    assert_eq!(i.get(1), None);
}

#[test]
fn insert_embeds_the_text() {
    let mut i = index(2, 10);
    let r = i.insert("abc", None, |text: &str| Ok(vec![text.len() as u32, 7]));
    assert_eq!(r, Ok(0));
    assert_eq!(i.get(0), Some(("abc".to_string(), vec![3, 7])));
}

#[test]
fn insert_returns_the_embedder_error_unchanged() {
    let mut i = index(2, 10);
    let failure = EmbeddingError::Embedding { message: "model not loaded".to_string() };
    let given = failure.clone();
    let r = i.insert("abc", None, move |_: &str| Err(given));
    assert_eq!(r, Err(failure));
    assert_eq!(i.len(), 0);
}

#[test]
fn insert_refuses_an_embedding_of_another_dimension() {
    let mut i = index(2, 10);
    let r = i.insert("abc", None, |_: &str| Ok(vec![1, 2, 3]));
    assert_eq!(r, Err(EmbeddingError::DimensionMismatch { expected: 2, actual: 3 }));
    assert_eq!(i.len(), 0);
}

#[test]
fn deleting_twice_deletes_once() {
    let mut i = index(1, 10);
    assert_eq!(i.insert_with_embedding("a", bits(&[1.0]), None), Ok(0));
    assert_eq!(i.insert_with_embedding("b", bits(&[2.0]), None), Ok(1));
    assert!(i.delete(0));
    assert_eq!(i.len(), 1);
    assert!(!i.delete(0));
    assert_eq!(i.len(), 1);
    assert_eq!(i.get(0), None);
    assert_eq!(i.get(1), Some(("b".to_string(), bits(&[2.0]))));
}

#[test]
fn deleting_what_was_never_there_changes_nothing() {
    let mut i = index(1, 10);
    assert!(!i.delete(5));
    assert_eq!(i.insert_with_embedding("a", bits(&[1.0]), None), Ok(0));
    assert!(!i.delete(5));
    assert_eq!(i.len(), 1);
    assert_eq!(i.get(0), Some(("a".to_string(), bits(&[1.0]))));
}

#[test]
fn a_batch_with_uneven_counts_is_refused_before_anything_is_stored() {
    let mut i = index(1, 10);
    assert_eq!(i.insert_with_embedding("kept", bits(&[9.0]), None), Ok(0));
    let texts = vec!["a".to_string(), "b".to_string(), "c".to_string()];
    let r = i.insert_batch_with_embeddings(&texts, vec![bits(&[1.0]), bits(&[2.0])]);
    assert_eq!(r, Err(EmbeddingError::DimensionMismatch { expected: 3, actual: 2 }));
    assert_eq!(i.len(), 1);
    let r = i.insert_batch_with_embeddings(&Vec::new(), vec![bits(&[1.0])]);
    assert_eq!(r, Err(EmbeddingError::DimensionMismatch { expected: 0, actual: 1 }));
    assert_eq!(i.len(), 1);
    assert_eq!(i.get(1), None);
    assert_eq!(i.insert_with_embedding("next", bits(&[8.0]), None), Ok(1));
}

#[test]
fn a_batch_with_a_bad_vector_is_refused_whole() {
    let mut i = index(2, 10);
    let texts = vec!["a".to_string(), "b".to_string(), "c".to_string()];
    let r = i.insert_batch_with_embeddings(
        &texts,
        vec![bits(&[1.0, 1.0]), bits(&[2.0, 2.0, 2.0]), bits(&[3.0])],
    );
    assert_eq!(r, Err(EmbeddingError::DimensionMismatch { expected: 2, actual: 3 }));
    assert_eq!(i.len(), 0);
    assert_eq!(i.get(0), None);
}

#[test]
fn a_batch_without_room_is_refused_whole() {
    let mut i = index(1, 2);
    let texts = vec!["a".to_string(), "b".to_string(), "c".to_string()];
    let r = i.insert_batch_with_embeddings(&texts, vec![bits(&[1.0]), bits(&[2.0]), bits(&[3.0])]);
    assert_eq!(r, Err(EmbeddingError::Store { message: "the store is full".to_string() }));
    assert_eq!(i.len(), 0);
    assert_eq!(i.get(0), None);
}

#[test]
fn a_batch_pairs_texts_and_vectors_by_position() {
    let mut i = index(1, 10);
    assert_eq!(i.insert_with_embedding("first", bits(&[0.0]), None), Ok(0));
    let texts = vec!["a".to_string(), "b".to_string(), "c".to_string()];
    let r = i.insert_batch_with_embeddings(&texts, vec![bits(&[1.0]), bits(&[2.0]), bits(&[3.0])]);
    assert_eq!(r, Ok(vec![1, 2, 3]));
    assert_eq!(i.len(), 4);
    assert_eq!(i.get(0), Some(("first".to_string(), bits(&[0.0]))));
    assert_eq!(i.get(1), Some(("a".to_string(), bits(&[1.0]))));
    assert_eq!(i.get(2), Some(("b".to_string(), bits(&[2.0]))));
    assert_eq!(i.get(3), Some(("c".to_string(), bits(&[3.0]))));
}

#[test]
fn an_empty_batch_is_accepted() {
    let mut i = index(1, 10);
    assert_eq!(i.insert_batch_with_embeddings(&Vec::new(), Vec::new()), Ok(Vec::new()));
    assert_eq!(i.len(), 0);
}

#[test]
fn insert_batch_embeds_the_texts() {
    let mut i = index(1, 10);
    let texts = vec!["a".to_string(), "bb".to_string()];
    let r = i.insert_batch(&texts, |ts: &Vec<String>| {
        Ok(ts.iter().map(|t| vec![t.len() as u32]).collect())
    });
    assert_eq!(r, Ok(vec![0, 1]));
    assert_eq!(i.get(0), Some(("a".to_string(), vec![1])));
    assert_eq!(i.get(1), Some(("bb".to_string(), vec![2])));
}

#[test]
fn insert_batch_returns_the_embedder_error_unchanged() {
    let mut i = index(1, 10);
    let texts = vec!["a".to_string()];
    let failure = EmbeddingError::Embedding { message: "out of memory".to_string() };
    let given = failure.clone();
    let r = i.insert_batch(&texts, move |_: &Vec<String>| Err(given));
    assert_eq!(r, Err(failure));
    assert_eq!(i.len(), 0);
}

#[test]
fn insert_batch_refuses_an_embedder_that_gives_too_few_vectors() {
    let mut i = index(1, 10);
    let texts = vec!["a".to_string(), "b".to_string()];
    let r = i.insert_batch(&texts, |_: &Vec<String>| Ok(vec![vec![1u32]]));
    assert_eq!(r, Err(EmbeddingError::DimensionMismatch { expected: 2, actual: 1 }));
    assert_eq!(i.len(), 0);
}

#[test]
fn clear_empties_store_and_texts() {
    let mut i = index(1, 10);
    let texts = vec!["a".to_string(), "b".to_string()];
    assert_eq!(
        i.insert_batch_with_embeddings(&texts, vec![bits(&[1.0]), bits(&[2.0])]),
        Ok(vec![0, 1])
    );
    i.clear();
    assert_eq!(i.len(), 0);
    assert!(i.is_empty());
    assert_eq!(i.get(0), None);
    assert_eq!(i.get(1), None);
    assert!(!i.delete(0));
    assert_eq!(i.insert_with_embedding("c", bits(&[3.0]), None), Ok(2));
    assert_eq!(i.len(), 1);
}

#[test]
fn error_constructors_make_the_variants() {
    assert_eq!(
        EmbeddingError::dimension_mismatch(4, 5),
        EmbeddingError::DimensionMismatch { expected: 4, actual: 5 }
    );
    assert_eq!(
        EmbeddingError::ruvector("lost".to_string()),
        EmbeddingError::Store { message: "lost".to_string() }
    );
    assert_eq!(
        EmbeddingError::invalid_config("no name"),
        EmbeddingError::InvalidConfiguration { message: "no name".to_string() }
    );
    assert_eq!(
        EmbeddingError::index_creation("bad".to_string()),
        EmbeddingError::IndexCreation { message: "bad".to_string() }
    );
}
