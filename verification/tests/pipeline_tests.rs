use rag_pipeline::RagError;
use rag_pipeline::archive::Archive;
use rag_pipeline::ingest::{align_points, chunk_stored, complete_ingest};
use rag_pipeline::messages::{ChatRequest, Content, Message, Role};
use rag_pipeline::query::{
    RagConfig, RetrievedPoint, build_context, inject_context, settle_search, start_query,
};

fn system(text: &str) -> Message {
    Message { role: Role::System, content: Content::Text(text.to_string()), name: None }
}

fn user(text: &str) -> Message {
    Message { role: Role::User, content: Content::Text(text.to_string()), name: None }
}

fn assistant(text: &str) -> Message {
    Message { role: Role::Assistant, content: Content::Text(text.to_string()), name: None }
}

fn content_text(m: &Message) -> &str {
    match &m.content {
        Content::Text(s) => s.as_str(),
        Content::Other => panic!("expected textual content"),
    }
}

fn config() -> RagConfig {
    RagConfig { collection: "default".to_string(), limit: 5 }
}

/// A stub embedding collaborator that counts its calls and remembers each
/// batch of inputs it was given.
struct StubEmbedder {
    calls: usize,
    batches: Vec<Vec<String>>,
}

impl StubEmbedder {
    fn new() -> StubEmbedder {
        StubEmbedder { calls: 0, batches: Vec::new() }
    }

    fn embed(&mut self, inputs: &[String]) -> Vec<Vec<f32>> {
        self.calls += 1;
        self.batches.push(inputs.to_vec());
        inputs.iter().map(|_| vec![0.25f32, 0.5f32]).collect()
    }
}

/// A stub vector store holding scored texts; its search respects the score
/// threshold and returns matches in descending score order, and it counts
/// both searches and upserts.
struct StubVectorStore {
    scored: Vec<(f32, String)>,
    threshold: f32,
    search_calls: usize,
    upsert_calls: usize,
    fail_search: bool,
}

impl StubVectorStore {
    fn new(threshold: f32) -> StubVectorStore {
        StubVectorStore {
            scored: Vec::new(),
            threshold,
            search_calls: 0,
            upsert_calls: 0,
            fail_search: false,
        }
    }

    fn upsert(&mut self, sources: Vec<(f32, String)>) {
        self.upsert_calls += 1;
        self.scored.extend(sources);
    }

    fn search(&mut self, limit: usize) -> Result<Vec<RetrievedPoint>, RagError> {
        self.search_calls += 1;
        if self.fail_search {
            return Err(RagError::Persistence);
        }
        let mut hits: Vec<(f32, String)> = self
            .scored
            .iter()
            .filter(|(score, _)| *score >= self.threshold)
            .cloned()
            .collect();
        hits.sort_by(|a, b| b.0.partial_cmp(&a.0).unwrap());
        hits.truncate(limit);
        Ok(hits.into_iter().map(|(_, text)| RetrievedPoint { source: Some(text) }).collect())
    }
}

/// The query-side driver the application runs: validate, embed, search,
/// settle, inject, and hand back the conversation ready for dispatch.
fn answer(
    req: ChatRequest,
    cfg: Option<&RagConfig>,
    base: Option<&String>,
    embedder: &mut StubEmbedder,
    store: &mut StubVectorStore,
) -> Result<(Vec<Message>, bool), RagError> {
    let start = start_query(&req, cfg)?;
    let _query_vector = embedder.embed(&[start.query.clone()]);
    let outcome = store.search(start.limit as usize);
    let (points, _degraded) = settle_search(outcome);
    let mut messages = req.messages;
    inject_context(&mut messages, base, &points)?;
    Ok((messages, start.stream))
}

/// The ingestion-side driver: chunk the stored document, embed the chunks as
/// one batch, align, and upsert as one batch.
fn ingest(
    archive: &Archive,
    id: &String,
    filename: &String,
    max_len: usize,
    score_of: &dyn Fn(&str) -> f32,
    embedder: &mut StubEmbedder,
    store: &mut StubVectorStore,
) -> Result<usize, RagError> {
    let outcome = chunk_stored(archive, id, filename, max_len)?;
    let vectors = embedder.embed(&outcome.chunks);
    let points = align_points(&outcome.chunks, vectors.len())?;
    store.upsert(points.iter().map(|p| (score_of(&p.source), p.source.clone())).collect());
    let summary = complete_ingest(&points, outcome.oversized, true)?;
    Ok(summary.chunk_count)
}

#[test]
fn non_user_last_message_fails_with_no_collaborator_calls() {
    let req = ChatRequest {
        messages: vec![system("Base"), assistant("I spoke last")],
        stream: None,
        user: None,
    };
    let cfg = config();
    let base = "Base".to_string();
    let mut embedder = StubEmbedder::new();
    let mut store = StubVectorStore::new(0.8);
    let r = answer(req, Some(&cfg), Some(&base), &mut embedder, &mut store);
    assert!(matches!(r, Err(RagError::Validation)));
    assert_eq!(embedder.calls, 0);
    assert_eq!(store.search_calls, 0);
}

#[test]
fn empty_conversation_fails_validation() {
    let req = ChatRequest { messages: vec![], stream: None, user: None };
    let cfg = config();
    let base = "Base".to_string();
    let mut embedder = StubEmbedder::new();
    let mut store = StubVectorStore::new(0.8);
    let r = answer(req, Some(&cfg), Some(&base), &mut embedder, &mut store);
    assert!(matches!(r, Err(RagError::Validation)));
    assert_eq!(embedder.calls, 0);
}

#[test]
fn missing_configuration_is_fatal() {
    let req = ChatRequest { messages: vec![user("Hi")], stream: None, user: None };
    let base = "Base".to_string();
    let mut embedder = StubEmbedder::new();
    let mut store = StubVectorStore::new(0.8);
    let r = answer(req, None, Some(&base), &mut embedder, &mut store);
    assert!(matches!(r, Err(RagError::Configuration)));
    assert_eq!(embedder.calls, 0);
}

#[test]
fn ingestion_issues_one_batched_embed_and_one_upsert() {
    let mut archive = Archive::new();
    let text = "Alpha facts about X.\n\nBeta facts about Y.";
    let doc = archive.store("notes.txt".to_string(), text.to_string(), 0).unwrap();
    let mut embedder = StubEmbedder::new();
    let mut store = StubVectorStore::new(0.8);
    let n = ingest(
        &archive,
        &doc.id,
        &doc.filename,
        25,
        &|_| 0.9,
        &mut embedder,
        &mut store,
    )
    .unwrap();
    assert_eq!(n, 2);
    assert_eq!(embedder.calls, 1);
    assert_eq!(embedder.batches[0].len(), 2);
    assert_eq!(store.upsert_calls, 1);
    assert_eq!(store.scored.len(), 2);
    let joined: String = embedder.batches[0].concat();
    assert_eq!(joined, text);
}

#[test]
fn aligned_points_pair_chunk_i_with_vector_i() {
    let chunks = vec!["one".to_string(), "two".to_string(), "three".to_string()];
    let points = align_points(&chunks, 3).unwrap();
    assert_eq!(points.len(), 3);
    for (i, p) in points.iter().enumerate() {
        assert_eq!(p.vector_index, i);
        assert_eq!(p.source, chunks[i]);
    }
}

#[test]
fn misaligned_embedding_response_is_an_embedding_error() {
    let chunks = vec!["one".to_string(), "two".to_string()];
    let r = align_points(&chunks, 3);
    assert!(matches!(r, Err(RagError::Embedding)));
}

#[test]
fn failed_upsert_is_a_persistence_error() {
    let points = align_points(&vec!["one".to_string()], 1).unwrap();
    let r = complete_ingest(&points, false, false);
    assert!(matches!(r, Err(RagError::Persistence)));
}

#[test]
fn threshold_keeps_only_high_scoring_points() {
    let mut store = StubVectorStore::new(0.8);
    store.upsert(vec![(0.9, "relevant".to_string()), (0.75, "irrelevant".to_string())]);
    let hits = store.search(5).unwrap();
    assert_eq!(hits.len(), 1);
    let context = build_context(&hits);
    assert_eq!(context, "relevant\n\n");
    let mut messages = vec![system("Base")];
    let base = "Base".to_string();
    inject_context(&mut messages, Some(&base), &hits).unwrap();
    assert!(content_text(&messages[0]).contains("relevant"));
    assert!(!content_text(&messages[0]).contains("irrelevant"));
}

#[test]
fn context_preserves_result_order() {
    let points = vec![
        RetrievedPoint { source: Some("first".to_string()) },
        RetrievedPoint { source: None },
        RetrievedPoint { source: Some("second".to_string()) },
    ];
    assert_eq!(build_context(&points), "first\n\nsecond\n\n");
}

#[test]
fn search_failure_degrades_to_no_context() {
    let req = ChatRequest {
        messages: vec![system("Original prompt"), user("Hello")],
        stream: None,
        user: None,
    };
    let cfg = config();
    let base = "Base".to_string();
    let mut embedder = StubEmbedder::new();
    let mut store = StubVectorStore::new(0.8);
    store.fail_search = true;
    let (messages, _) =
        answer(req, Some(&cfg), Some(&base), &mut embedder, &mut store).unwrap();
    assert_eq!(embedder.calls, 1);
    assert_eq!(messages.len(), 2);
    assert_eq!(content_text(&messages[0]), "Original prompt");
}

#[test]
fn end_to_end_match_rewrites_system_message() {
    let mut archive = Archive::new();
    let text = "Alpha facts about X.\n\nBeta facts about Y.";
    let doc = archive.store("notes.txt".to_string(), text.to_string(), 0).unwrap();
    let mut embedder = StubEmbedder::new();
    let mut store = StubVectorStore::new(0.8);
    let score_of = |chunk: &str| if chunk.contains('X') { 0.9f32 } else { 0.5f32 };
    ingest(&archive, &doc.id, &doc.filename, 25, &score_of, &mut embedder, &mut store).unwrap();

    let req = ChatRequest {
        messages: vec![system("Per-conversation prompt"), user("What does it say about X?")],
        stream: None,
        user: None,
    };
    let cfg = config();
    let base = "You answer from the given context.".to_string();
    let (messages, stream) =
        answer(req, Some(&cfg), Some(&base), &mut embedder, &mut store).unwrap();
    assert!(!stream);
    assert_eq!(messages.len(), 2);
    assert_eq!(messages[0].role, Role::System);
    let head = content_text(&messages[0]);
    assert!(head.starts_with("You answer from the given context."));
    assert!(head.contains("Alpha facts about X."));
    assert!(!head.contains("Beta"));
    assert!(!head.contains("Per-conversation prompt"));
}

#[test]
fn end_to_end_no_match_leaves_conversation_untouched() {
    let mut archive = Archive::new();
    let text = "Alpha facts about X.\n\nBeta facts about Y.";
    let doc = archive.store("notes.txt".to_string(), text.to_string(), 0).unwrap();
    let mut embedder = StubEmbedder::new();
    let mut store = StubVectorStore::new(0.8);
    ingest(&archive, &doc.id, &doc.filename, 25, &|_| 0.3, &mut embedder, &mut store).unwrap();

    let req = ChatRequest {
        messages: vec![system("Per-conversation prompt"), user("Anything about Z?")],
        stream: Some(true),
        user: None,
    };
    let cfg = config();
    let base = "You answer from the given context.".to_string();
    let (messages, stream) =
        answer(req, Some(&cfg), Some(&base), &mut embedder, &mut store).unwrap();
    assert!(stream);
    assert_eq!(messages.len(), 2);
    assert_eq!(content_text(&messages[0]), "Per-conversation prompt");
}

#[test]
fn context_insertion_adds_system_head_when_absent() {
    let points = vec![RetrievedPoint { source: Some("ctx".to_string()) }];
    let mut messages = vec![user("Question")];
    let base = "Base".to_string();
    inject_context(&mut messages, Some(&base), &points).unwrap();
    assert_eq!(messages.len(), 2);
    assert_eq!(messages[0].role, Role::System);
    assert_eq!(content_text(&messages[0]), "Base\nctx");
    assert_eq!(content_text(&messages[1]), "Question");
}

#[test]
fn missing_base_prompt_with_context_is_a_configuration_error() {
    let points = vec![RetrievedPoint { source: Some("ctx".to_string()) }];
    let mut messages = vec![system("Head")];
    let r = inject_context(&mut messages, None, &points);
    assert!(matches!(r, Err(RagError::Configuration)));
    assert_eq!(content_text(&messages[0]), "Head");
}

#[test]
fn unknown_document_cannot_be_ingested() {
    let archive = Archive::new();
    let r = chunk_stored(&archive, &"file_missing".to_string(), &"a.txt".to_string(), 100);
    assert!(matches!(r, Err(RagError::NotFound)));
}

#[test]
fn errors_carry_human_readable_messages() {
    let errors = vec![
        RagError::Validation,
        RagError::NotFound,
        RagError::UnsupportedFormat,
        RagError::Chunking,
        RagError::Embedding,
        RagError::Persistence,
        RagError::Configuration,
    ];
    for e in errors {
        assert!(!e.describe().is_empty());
    }
}
