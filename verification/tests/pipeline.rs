use capsa::embedder::{ChunkSizes, Embedder, EmbeddingClient, EmbeddingSplitter};
use capsa::embeddings::{pack_embeddings, EmbeddedChunk};
use capsa::error::{
    collect_results, CapsaError, DatabaseError, EmbeddingError, ProcessingError,
};
use capsa::pipeline::{
    chunk_task, compressed_text, embed_task, peeked, started, waited, write_embeddings, write_task,
    StageEvent, StagePhase, CHUNK_CONCURRENCY,
};
use capsa::queue::{PendingEmbed, PendingWrite, QueueItem, QueueStatement};
use text_splitter::{ChunkConfig, TextSplitter};

fn item() -> QueueItem {
    QueueItem {
        id: 3,
        source: "s".to_string(),
        metadata: "{}".to_string(),
        text: "text".to_string(),
    }
}

fn embed_item() -> PendingEmbed {
    PendingEmbed {
        id: 8,
        queue_id: 3,
        source: "s".to_string(),
        metadata: "{}".to_string(),
        text: "text".to_string(),
        chunks: vec![("c".to_string(), 0, 1)],
    }
}

fn write_item(blob: Vec<u8>) -> PendingWrite {
    PendingWrite {
        id: 5,
        queue_id: 3,
        source: "s".to_string(),
        metadata: "{}".to_string(),
        compressed_text: vec![],
        embeddings_blob: blob,
    }
}

fn failure(text: &str) -> CapsaError {
    CapsaError::Database(DatabaseError::QueryFailed(text.to_string()))
}

#[test]
fn a_stage_drains_before_it_waits() {
    let mut phase = StagePhase::start();
    for event in [StageEvent::Found, StageEvent::Finished, StageEvent::Found] {
        phase = phase.next(event);
    }
    assert_eq!(phase, StagePhase::Working);
    assert_eq!(phase.next(StageEvent::ShutDown), StagePhase::Working);
    phase = phase.next(StageEvent::Finished).next(StageEvent::NothingFound);
    assert_eq!(phase, StagePhase::Waiting);
    assert_eq!(phase.next(StageEvent::Woken), StagePhase::Peeking);
    assert_eq!(StagePhase::Peeking.next(StageEvent::PeekFailed), StagePhase::Waiting);
    let stopped = phase.next(StageEvent::ShutDown);
    assert_eq!(stopped, StagePhase::Stopped);
    assert_eq!(stopped.next(StageEvent::Woken), StagePhase::Stopped);
    assert_eq!(waited(true, true), Some(StageEvent::ShutDown));
    assert_eq!(waited(false, true), Some(StageEvent::Woken));
    assert_eq!(waited(false, false), None);
    assert_eq!(peeked(&Ok(vec![1])), StageEvent::Found);
    assert_eq!(peeked::<u8>(&Ok(vec![])), StageEvent::NothingFound);
    assert_eq!(peeked::<u8>(&Err(failure("x"))), StageEvent::PeekFailed);
    assert_eq!(CHUNK_CONCURRENCY, 4);
}

#[test]
fn documents_without_chunks_fail() {
    let change = chunk_task(&item(), &vec![]).unwrap();
    assert!(!change.wakes_next);
    match &change.changes[..] {
        [QueueStatement::SetFailed { id, error }] => {
            assert_eq!(*id, 3);
            assert_eq!(error, "document produced no embeddable chunks");
        }
        other => panic!("unexpected: {:?}", other),
    }
    let change = chunk_task(&item(), &vec![("search_document: text".to_string(), 0, 4)]).unwrap();
    assert!(change.wakes_next);
    match &change.changes[..] {
        [QueueStatement::Claim { id }, QueueStatement::AddEmbed { queue_id, text, chunks, .. }] => {
            assert_eq!((*id, *queue_id), (3, 3));
            assert_eq!(text, "text");
            assert_eq!(chunks, "[[\"search_document: text\",0,4]]");
        }
        other => panic!("unexpected: {:?}", other),
    }
}

#[test]
fn the_embedding_stage_hands_on_or_fails() {
    let embeddings: Vec<EmbeddedChunk> = vec![(vec![1, 2], 0, 4)];
    let frame = compressed_text(&embed_item()).unwrap();
    let change = embed_task(&embed_item(), Ok(embeddings.clone()), Ok(frame.clone()));
    assert!(change.wakes_next);
    match &change.changes[..] {
        [QueueStatement::AddWrite { queue_id, compressed_text, embeddings: blob, .. }, QueueStatement::DropEmbed { id }] =>
        {
            assert_eq!((*queue_id, *id), (3, 8));
            assert_eq!(*compressed_text, frame);
            assert_eq!(*blob, pack_embeddings(&embeddings));
            let back = write_embeddings(&write_item(blob.clone())).unwrap();
            assert_eq!(back, embeddings);
            assert_eq!(capsa::codec::decompress_text(compressed_text).unwrap(), "text");
        }
        other => panic!("unexpected: {:?}", other),
    }
    let change = embed_task(&embed_item(), Err(failure("a")), Err(failure("b")));
    assert!(!change.wakes_next);
    match &change.changes[..] {
        [QueueStatement::SetFailed { id: 3, error }, QueueStatement::DropEmbed { id: 8 }] => {
            assert_eq!(error, "Database error: Failed to query database: a")
        }
        other => panic!("unexpected: {:?}", other),
    }
    let change = embed_task(&embed_item(), Ok(embeddings), Err(failure("b")));
    match &change.changes[0] {
        QueueStatement::SetFailed { error, .. } => {
            assert_eq!(error, "Database error: Failed to query database: b")
        }
        other => panic!("unexpected: {:?}", other),
    }
}

#[test]
fn the_writing_stage_completes_or_fails() {
    let change = write_task(&write_item(vec![]), Ok(77));
    match &change.changes[..] {
        [QueueStatement::SetDone { id: 3 }, QueueStatement::DropWrite { id: 5 }] => {}
        other => panic!("unexpected: {:?}", other),
    }
    let broken = write_embeddings(&write_item(vec![1])).map(|_| 0);
    let change = write_task(&write_item(vec![1]), broken);
    match &change.changes[..] {
        [QueueStatement::SetFailed { id: 3, error }, QueueStatement::DropWrite { id: 5 }] => {
            assert_eq!(
                error,
                "Processing error: Missing required data: malformed embeddings blob"
            )
        }
        other => panic!("unexpected: {:?}", other),
    }
}

#[test]
fn the_first_error_of_the_start_is_reported() {
    assert!(started(Ok(()), Ok(()), Ok(())).is_ok());
    let text = |r: Result<(), CapsaError>| r.unwrap_err().message();
    let full = |s: &str| format!("Database error: Failed to query database: {}", s);
    assert_eq!(text(started(Err(failure("c")), Err(failure("e")), Ok(()))), full("c"));
    assert_eq!(text(started(Ok(()), Err(failure("e")), Err(failure("w")))), full("e"));
    assert_eq!(text(started(Ok(()), Ok(()), Err(failure("w")))), full("w"));
}

#[test]
fn results_are_collected_up_to_the_first_error() {
    assert_eq!(collect_results(vec![Ok(1), Ok(2)]).unwrap(), vec![1, 2]);
    let err = collect_results::<u8>(vec![Ok(1), Err(failure("x")), Err(failure("y"))]).unwrap_err();
    assert_eq!(err.message(), "Database error: Failed to query database: x");
}

#[test]
fn errors_display_their_source() {
    let text = |e: EmbeddingError| CapsaError::from(e).message();
    assert_eq!(
        text(EmbeddingError::NoEmbeddingReturned),
        "Embedding error: No embedding returned from API"
    );
    assert_eq!(
        text(EmbeddingError::TokenizerLoad { model: "m".to_string(), message: "x".to_string() }),
        "Embedding error: Failed to load tokenizer 'm': x"
    );
    assert_eq!(
        text(EmbeddingError::TokenizationFailed("t".to_string())),
        "Embedding error: Failed to tokenize text: t"
    );
    assert_eq!(
        text(EmbeddingError::InvalidInput("i".to_string())),
        "Embedding error: Invalid input: i"
    );
    let json = serde_json::from_str::<u8>("x").unwrap_err();
    let expected = format!("Processing error: JSON processing error: {}", json);
    assert_eq!(CapsaError::from(json).message(), expected);
    let io = std::io::Error::other("disk");
    assert_eq!(CapsaError::from(io).message(), "Processing error: I/O error: disk");
    let sql = libsql::Error::QueryReturnedNoRows;
    let expected = format!("Database error: Database operation failed: {}", sql);
    assert_eq!(CapsaError::from(sql).message(), expected);
    let api = async_openai::error::OpenAIError::InvalidArgument("bad".to_string());
    let expected = format!("Embedding error: Embedding API error: {}", api);
    assert_eq!(CapsaError::from(api).message(), expected);
    let api = async_openai::error::OpenAIError::InvalidArgument("bad".to_string());
    let expected = format!("Failed to build embedding request: {}", api);
    assert_eq!(EmbeddingError::RequestBuild(api).message(), expected);
    let config = text_splitter::ChunkConfig::new(1).with_overlap(2).err().unwrap();
    let expected = format!("Embedding error: Failed to configure text chunking: {}", config);
    assert_eq!(CapsaError::from(config).message(), expected);
    assert_eq!(
        DatabaseError::SchemaSetup("s".to_string()).message(),
        "Failed to setup database schema: s"
    );
    assert_eq!(
        ProcessingError::MissingData("d".to_string()).message(),
        "Missing required data: d"
    );
}

fn splitter() -> EmbeddingSplitter {
    EmbeddingSplitter::new(512, 6, 6)
}

/// Where a splitter that counts characters puts the bounds.
fn bounds(capacity: usize, text: &str) -> Vec<(usize, usize)> {
    TextSplitter::new(capacity)
        .chunk_indices(text)
        .map(|(start, chunk)| (start, start + chunk.len()))
        .collect()
}

#[test]
fn truncate_query_short() {
    let s = splitter();
    let txt = "short text";
    let tr = s.truncate_query(txt, &bounds(s.query.capacity, txt));
    assert_eq!(tr, txt);
}

#[test]
fn truncate_query_empty() {
    let s = splitter();
    let tr = s.truncate_query("", &bounds(s.query.capacity, ""));
    assert_eq!(tr, "");
}

#[test]
fn document_chunks_short() {
    let s = splitter();
    let txt = "short doc";
    let ch = s.document_chunks(txt, &bounds(s.document.capacity, txt));
    assert_eq!(ch.len(), 1);
    assert_eq!(ch[0], txt);
}

#[test]
fn document_chunks_empty() {
    let s = splitter();
    let ch = s.document_chunks("", &bounds(s.document.capacity, ""));
    assert!(ch.is_empty());
}

#[test]
fn document_chunks_with_offsets() {
    let s = splitter();
    let txt: String = (0..1000).map(|i| format!("word{} ", i)).collect();
    let chunks = s.document_chunks_with_offsets(&txt, &bounds(s.document.capacity, &txt));
    for (chunk, start, end) in &chunks {
        assert_eq!(*chunk, &txt[*start..*end]);
        assert!(start < end);
        assert!(*end <= txt.len());
    }
    assert!(chunks.len() > 1);
    let (_, first_start, _) = chunks[0];
    assert_eq!(first_start, 0);
}

#[test]
fn chunk_sizes_leave_room_for_the_prefix() {
    let sizes = EmbeddingSplitter::create_splitter(128, 6);
    assert_eq!((sizes.capacity, sizes.overlap), (122, 6));
    for n in 0..5000usize {
        let sizes = EmbeddingSplitter::create_splitter(n + 7, 7);
        assert_eq!(sizes.capacity, n);
        assert_eq!(sizes.overlap, ((n as f32) * 0.05) as usize);
    }
    let s = EmbeddingSplitter::new(512, 5, 12);
    assert_eq!((s.query.capacity, s.document.capacity), (507, 500));
    assert_eq!((s.query.overlap, s.document.overlap), (25, 25));
}

#[test]
fn inputs_carry_their_prefixes() {
    let embedder =
        Embedder::new("u".to_string(), "m".to_string(), Some("k".to_string()), splitter());
    assert_eq!(embedder.client.base_url, "u");
    assert_eq!(embedder.client.model, "m");
    assert_eq!(embedder.client.api_key, Some("k".to_string()));
    assert_eq!(embedder.embed_query("what is it", &vec![(0, 4), (5, 7)]), "search_query: what");
    assert_eq!(embedder.embed_query("", &vec![]), "search_query: ");
    let chunks = Embedder::chunk_document("aä bc", &vec![(0, 3), (4, 6)]);
    assert_eq!(
        chunks,
        vec![
            ("search_document: aä".to_string(), 0, 3),
            ("search_document: bc".to_string(), 4, 6),
        ]
    );
    let replies = vec![Ok(vec![1u32]), Ok(vec![2, 3])];
    assert_eq!(
        Embedder::embed_document(&chunks, replies).unwrap(),
        vec![(vec![1], 0, 3), (vec![2, 3], 4, 6)]
    );
    let replies = vec![Ok(vec![1u32]), Err(failure("x"))];
    assert!(Embedder::embed_document(&chunks, replies).is_err());
}

#[test]
fn a_reply_without_an_embedding_is_an_error() {
    let client = EmbeddingClient::new("u".to_string(), None, "m".to_string());
    assert_eq!(client.embed_raw(vec!['a', 'b']).unwrap(), 'a');
    let err = client.embed_raw::<char>(vec![]).unwrap_err();
    assert_eq!(err.message(), "Embedding error: No embedding returned from API");
    assert_eq!(Embedder::probed_dimension(768).unwrap(), 768);
    assert!(matches!(
        Embedder::probed_dimension(0),
        Err(CapsaError::Embedding(EmbeddingError::NoEmbeddingReturned))
    ));
}

#[test]
fn the_two_ways_to_chunk_give_the_same_texts() {
    let s = splitter();
    let txt: String = (0..300).map(|i| format!("wörd{} ", i)).collect();
    let bounds = bounds(s.document.capacity, &txt);
    let texts = s.document_chunks(&txt, &bounds);
    let chunks = s.document_chunks_with_offsets(&txt, &bounds);
    assert!(texts.len() > 1);
    assert_eq!(texts, chunks.into_iter().map(|(text, _, _)| text).collect::<Vec<_>>());
}

#[test]
fn a_refused_overlap_is_told_in_fixed_words() {
    let config = text_splitter::ChunkConfig::new(1).with_overlap(2).err().unwrap();
    assert_eq!(
        EmbeddingError::from(config).message(),
        "Failed to configure text chunking: \
         The overlap is larger than or equal to the desired chunk capacity"
    );
}

/// Where a splitter that counts characters and keeps to the sizes puts the bounds.
fn sized_bounds(sizes: ChunkSizes, text: &str) -> Vec<(usize, usize)> {
    let config = ChunkConfig::new(sizes.capacity).with_overlap(sizes.overlap).unwrap();
    TextSplitter::new(config)
        .chunk_indices(text)
        .map(|(start, chunk)| (start, start + chunk.len()))
        .collect()
}

/// How texts are split for a context of `n` characters.
fn character_splitter(n: usize) -> EmbeddingSplitter {
    let length = |text: String| text.chars().count();
    let query = EmbeddingSplitter::query_prefix_len(
        length(Embedder::query_text("")),
        length(Embedder::reserved_query_prefix()),
    );
    EmbeddingSplitter::new(n, query, length(Embedder::document_text("")))
}

#[test]
fn truncate_query_limits_tokens() {
    let n = 512;
    let s = character_splitter(n);
    let p = "query_document: ";
    let txt: String = (0..2000).map(|i| format!("test{} ", i)).collect();
    let tr = s.truncate_query(&txt, &sized_bounds(s.query, &txt));
    let full = format!("{}{}", p, tr);
    assert!(full.chars().count() <= n);
    assert!(!tr.is_empty() && txt.starts_with(&tr));
    assert!(Embedder::query_text(&tr).chars().count() <= n);
    assert_eq!(s.query.capacity, n - p.len());
}

#[test]
fn document_chunks_limits_and_overlap() {
    let n = 512;
    let s = character_splitter(n);
    let p = "search_document: ";
    let cl = n - p.len();
    let ol = ((cl as f32) * 0.05) as usize;
    assert_eq!((s.document.capacity, s.document.overlap), (cl, ol));
    let txt: String = (0..3000).map(|i| format!("chunk{} ", i)).collect();
    let ch = s.document_chunks(&txt, &sized_bounds(s.document, &txt));
    assert!(ch.len() > 1);
    for c in &ch {
        let full = format!("{}{}", p, c);
        assert!(full.chars().count() <= n);
    }
    for w in ch.windows(2) {
        let a = w[0].as_str();
        let b = w[1].as_str();
        let mut overlap_chars = 0;
        for i in (1..=a.len().min(b.len())).rev() {
            if a[a.len() - i..] == b[0..i] {
                overlap_chars = i;
                break;
            }
        }
        assert!(overlap_chars > 0);
        let o_len = a[a.len() - overlap_chars..].chars().count();
        assert!((o_len as i32 - ol as i32).abs() <= 10); /* allow variance */
    }
}

#[test]
fn room_is_kept_for_the_longer_prefix_of_a_query() {
    assert_eq!(Embedder::reserved_query_prefix(), "query_document: ");
    assert_eq!(EmbeddingSplitter::query_prefix_len(4, 6), 6);
    assert_eq!(EmbeddingSplitter::query_prefix_len(7, 6), 7);
    assert_eq!(EmbeddingSplitter::query_prefix_len(0, 0), 0);
}

#[test]
fn chunks_lie_in_the_text() {
    let s = character_splitter(64);
    let txt: String = (0..200).map(|i| format!("wörd{} ", i)).collect();
    let chunks = s.document_chunks_with_offsets(&txt, &sized_bounds(s.document, &txt));
    assert!(chunks.len() > 1);
    for (chunk, start, end) in &chunks {
        assert!(start < end && *end <= txt.len());
        assert_eq!(txt.get(*start..*end), Some(chunk.as_str()));
    }
    assert!(s.document_chunks_with_offsets("", &sized_bounds(s.document, "")).is_empty());
}
