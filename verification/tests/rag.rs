use ruvector_index::config::{Distance, RuVectorConfig, SearchParams};
use ruvector_index::error::EmbeddingError;
use ruvector_index::index::{RuVectorEmbeddings, SearchResult};
use ruvector_index::prompt::{format_prompt, render_decimal};
use ruvector_index::rag::{result_texts, RagPipeline};
use ruvector_index::store::Neighbor;

fn bits(values: &[f32]) -> Vec<u32> {
    values.iter().map(|x| x.to_bits()).collect()
}

fn hit(id: u64, score: f32) -> Neighbor {
    Neighbor { id, score: score.to_bits() }
}

fn pipeline(top_k: usize) -> RagPipeline {
    let config = RuVectorConfig {
        distance: Distance::Cosine,
        m: 16,
        ef_construction: 100,
        max_elements: 100,
    };
    let index = match RuVectorEmbeddings::new("notes", 1, config) {
        Ok(i) => i,
        Err(e) => panic!("index refused: {:?}", e),
    };
    let mut p = RagPipeline::new(index, top_k);
    let documents =
        vec!["Paris is in France.".to_string(), "Rome is in Italy.".to_string(), "".to_string()];
    let added = p.add_documents(&documents, |ts: &Vec<String>| {
        Ok(ts.iter().map(|t| vec![t.len() as u32]).collect())
    });
    assert_eq!(added, Ok(vec![0, 1, 2]));
    p
}

#[test]
fn decimal_rendering_matches_the_number() {
    assert_eq!(render_decimal(0), "0");
    assert_eq!(render_decimal(7), "7");
    assert_eq!(render_decimal(9), "9");
    assert_eq!(render_decimal(10), "10");
    assert_eq!(render_decimal(11), "11");
    assert_eq!(render_decimal(100), "100");
    assert_eq!(render_decimal(1234567890), "1234567890");
    assert_eq!(render_decimal(usize::MAX), usize::MAX.to_string());
    for n in 0..2000usize {
        assert_eq!(render_decimal(n), n.to_string());
    }
}

#[test]
fn a_prompt_numbers_the_contexts_and_ends_with_the_question() {
    let contexts = vec!["Paris is in France.".to_string(), "Rome is in Italy.".to_string()];
    assert_eq!(
        format_prompt(&contexts, "Where is Rome?"),
        "Context:\n[1] Paris is in France.\n[2] Rome is in Italy.\n\nQuestion: Where is Rome?"
    );
}

#[test]
fn a_prompt_without_contexts_has_only_heading_and_question() {
    assert_eq!(format_prompt(&Vec::new(), "Why?"), "Context:\n\nQuestion: Why?");
    assert_eq!(format_prompt(&Vec::new(), ""), "Context:\n\nQuestion: ");
}

#[test]
fn a_prompt_numbers_past_nine() {
    let contexts: Vec<String> = (0..12).map(|n| format!("c{}", n)).collect();
    let text = format_prompt(&contexts, "q");
    let mut expected = String::from("Context:\n");
    for (i, c) in contexts.iter().enumerate() {
        expected.push_str(&format!("[{}] {}\n", i + 1, c));
    }
    expected.push_str("\nQuestion: q");
    assert_eq!(text, expected);
    assert!(text.contains("\n[10] c9\n"));
    assert!(text.contains("\n[12] c11\n"));
}

#[test]
fn a_prompt_keeps_contexts_as_they_are() {
    let contexts = vec!["line one\nline two".to_string(), "[3] not a number".to_string(), "".to_string()];
    assert_eq!(
        format_prompt(&contexts, "ünïcödé?"),
        "Context:\n[1] line one\nline two\n[2] [3] not a number\n[3] \n\nQuestion: ünïcödé?"
    );
}

#[test]
fn result_texts_are_in_the_order_of_the_results() {
    let results = vec![
        SearchResult { id: 4, text: "d".to_string(), score: 0, metadata: None },
        SearchResult { id: 1, text: "a".to_string(), score: 1, metadata: None },
        SearchResult { id: 4, text: "d".to_string(), score: 2, metadata: None },
    ];
    assert_eq!(result_texts(results), vec!["d".to_string(), "a".to_string(), "d".to_string()]);
    assert_eq!(result_texts(Vec::new()), Vec::<String>::new());
}

#[test]
fn retrieve_gives_the_texts_of_the_top_k() {
    let p = pipeline(2);
    assert_eq!(p.top_k(), 2);
    let r = p.retrieve(
        "capital of Italy",
        |_: &str| Ok(bits(&[1.0])),
        |_: &Vec<u32>, params: SearchParams| {
            assert_eq!(params, SearchParams { k: 2, ef_search: 4 });
            Ok(vec![hit(1, 0.1), hit(0, 0.4)])
        },
    );
    assert_eq!(r, Ok(vec!["Rome is in Italy.".to_string(), "Paris is in France.".to_string()]));
}

#[test]
fn format_context_renders_what_was_retrieved() {
    let p = pipeline(2);
    let r = p.format_context(
        "Where is Rome?",
        |_: &str| Ok(bits(&[1.0])),
        |_: &Vec<u32>, _: SearchParams| Ok(vec![hit(1, 0.1), hit(9, 0.2), hit(0, 0.4)]),
    );
    assert_eq!(
        r,
        Ok("Context:\n[1] Rome is in Italy.\n[2] Paris is in France.\n\nQuestion: Where is Rome?"
            .to_string())
    );
}

#[test]
fn the_pipeline_passes_errors_on() {
    let p = pipeline(2);
    let failure = EmbeddingError::Embedding { message: "offline".to_string() };
    let given = failure.clone();
    let r = p.retrieve("q", move |_: &str| Err(given), |_: &Vec<u32>, _: SearchParams| {
        Ok(Vec::new())
    });
    assert_eq!(r, Err(failure));
    let r = p.format_context("q", |_: &str| Ok(bits(&[1.0])), |_: &Vec<u32>, _: SearchParams| {
        Err("no graph".to_string())
    });
    assert_eq!(r, Err(EmbeddingError::Store { message: "no graph".to_string() }));
    let r = p.format_context("q", |_: &str| Ok(Vec::new()), |_: &Vec<u32>, _: SearchParams| {
        Ok(Vec::new())
    });
    assert_eq!(r, Err(EmbeddingError::DimensionMismatch { expected: 1, actual: 0 }));
}

#[test]
fn add_documents_goes_to_the_index() {
    let mut p = pipeline(3);
    assert_eq!(p.index().len(), 3);
    assert_eq!(p.index().get(1), Some(("Rome is in Italy.".to_string(), vec![17u32])));
    let more = vec!["Oslo is in Norway.".to_string()];
    let r = p.add_documents(&more, |_: &Vec<String>| Ok(vec![vec![1u32, 2u32]]));
    assert_eq!(r, Err(EmbeddingError::DimensionMismatch { expected: 1, actual: 2 }));
    assert_eq!(p.index().len(), 3);
    let r = p.add_documents(&more, |_: &Vec<String>| Ok(vec![vec![5u32]]));
    assert_eq!(r, Ok(vec![3]));
    assert_eq!(p.index().len(), 4);
}

#[test]
fn the_index_can_be_changed_in_place() {
    let mut p = pipeline(3);
    assert!(p.index_mut().delete(0));
    assert_eq!(p.index().len(), 2);
    assert_eq!(p.index().name(), "notes");
    p.index_mut().clear();
    assert!(p.index().is_empty());
    assert_eq!(p.top_k(), 3);
}
