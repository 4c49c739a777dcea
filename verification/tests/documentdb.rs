use capsa::config::Config;
use capsa::documentdb::{DocumentDatabase, DocumentDatabaseConnection};
use capsa::embedder::{Embedder, EmbeddingSplitter};
use capsa::error::{CapsaError, EmbeddingError};
use capsa::executor::Executor;
use capsa::queue::{Queue, QueueQuery, QueueStatement};
use capsa::sql::{Param, Statement};
use capsa::vectordb::{
    get_metadata, legacy_tables, opening, set_metadata, setup_metadata_table, StoredSettings,
    VectorDatabase,
};
use libsql::{Builder, Connection, Database, Row, Value};
use std::collections::hash_map::DefaultHasher;
use std::hash::{Hash, Hasher};
use text_splitter::TextSplitter;
use tokio::runtime::Runtime;

const SIZE: usize = 384;

/// Generates embeddings from the hash of the input, so that no server is needed.
fn mock_embedding(input: &str) -> Result<Vec<f32>, CapsaError> {
    if input.is_empty() {
        return Err(EmbeddingError::InvalidInput("Empty input not allowed".to_string()).into());
    }
    let mut hasher = DefaultHasher::new();
    input.hash(&mut hasher);
    let hash = hasher.finish();
    Ok((0..SIZE)
        .map(|i| ((hash.wrapping_mul((i + 1) as u64)) % 1000) as f32 / 1000.0)
        .collect())
}

fn values(statement: &Statement) -> Vec<Value> {
    statement
        .params
        .iter()
        .map(|p| match p {
            Param::Integer(n) => Value::Integer(*n),
            Param::Text(s) => Value::Text(s.clone()),
            Param::Blob(b) => Value::Blob(b.clone()),
        })
        .collect()
}

fn rows<T>(rt: &Runtime, conn: &Connection, statement: &Statement, convert: fn(&Row) -> T) -> Vec<T> {
    rt.block_on(async {
        let mut rows = conn.query(&statement.sql, values(statement)).await.unwrap();
        let mut out = Vec::new();
        while let Some(row) = rows.next().await.unwrap() {
            out.push(convert(&row));
        }
        out
    })
}

fn json(text: &str) -> serde_json::Value {
    serde_json::from_str(text).unwrap()
}

struct TestDb {
    rt: Runtime,
    raw: Database,
    db: DocumentDatabase,
    embedder: Embedder,
}

struct Conn<'a> {
    test: &'a TestDb,
    raw: Connection,
    queue: Connection,
    conn: DocumentDatabaseConnection,
}

fn create_test_db(path: &str) -> TestDb {
    let rt = tokio::runtime::Builder::new_current_thread().enable_all().build().unwrap();
    let raw = rt.block_on(async { Builder::new_local(path).build().await.unwrap() });
    let splitter = EmbeddingSplitter::new(512, 6, 6);
    let embedder = Embedder::new("u".to_string(), "m".to_string(), None, splitter);
    let probe = mock_embedding(&embedder.embed_query("test", &vec![(0, 4)])).unwrap();
    let dim = Embedder::probed_dimension(probe.len()).unwrap();
    let db = DocumentDatabase {
        vdb: VectorDatabase::new(path, dim, Executor::sequential()),
        queue: Some(Queue::new(":memory:")),
        model: None,
    };
    TestDb { rt, raw, db, embedder }
}

impl TestDb {
    fn connect(&self) -> Conn<'_> {
        let raw = self.raw.connect().unwrap();
        for statement in opening() {
            rows(&self.rt, &raw, &statement, |_| ());
        }
        rows(&self.rt, &raw, &setup_metadata_table(), |_| ());
        let text = |row: &Row| row.get::<String>(0).unwrap();
        let stored = StoredSettings {
            dim: rows(&self.rt, &raw, &get_metadata("embedding_dim"), text).pop(),
            table_names: rows(&self.rt, &raw, &legacy_tables(), text),
            model: rows(&self.rt, &raw, &get_metadata("embedding_model"), text).pop(),
        };
        let (conn, settings) = self.db.connect(stored).unwrap();
        for (key, value) in &settings {
            rows(&self.rt, &raw, &set_metadata(key, value), |_| ());
        }
        for statement in conn.vconn.setup_schema() {
            rows(&self.rt, &raw, &statement, |_| ());
        }
        let queue = self.rt.block_on(async {
            Builder::new_local(":memory:").build().await.unwrap().connect().unwrap()
        });
        for statement in self.db.queue.as_ref().unwrap().connect() {
            rows(&self.rt, &queue, &statement, |_| ());
        }
        Conn { test: self, raw, queue, conn }
    }

    fn bounds(capacity: usize, text: &str) -> Vec<(usize, usize)> {
        TextSplitter::new(capacity)
            .chunk_indices(text)
            .map(|(start, chunk)| (start, start + chunk.len()))
            .collect()
    }
}

impl Conn<'_> {
    fn insert_direct(&self, metadata: serde_json::Value, text: &str) -> i64 {
        let embedder = &self.test.embedder;
        let bounds = TestDb::bounds(embedder.splitter.document.capacity, text);
        let chunks = Embedder::chunk_document(text, &bounds);
        let replies = chunks
            .iter()
            .map(|(input, _, _)| {
                mock_embedding(input).map(|v| v.iter().map(|f| f.to_bits()).collect())
            })
            .collect();
        let embedded = Embedder::embed_document(&chunks, replies).unwrap();
        let vectors: Vec<(String, usize, usize)> = embedded
            .into_iter()
            .map(|(words, s, e)| {
                let vector: Vec<f32> = words.into_iter().map(f32::from_bits).collect();
                (serde_json::to_string(&vector).unwrap(), s, e)
            })
            .collect();
        let rt = &self.test.rt;
        let insert = self.conn.vconn.insert_document(text, &metadata.to_string()).unwrap();
        let id = rows(rt, &self.raw, &insert, |row| row.get::<i64>(0).unwrap()).pop();
        let id = self.conn.vconn.inserted_id(id).unwrap();
        for (statement, _) in self.conn.vconn.insert_document_with_progress(id, &vectors) {
            rows(rt, &self.raw, &statement, |_| ());
        }
        id
    }

    fn query_vector(&self, query: &str) -> String {
        let embedder = &self.test.embedder;
        let bounds = TestDb::bounds(embedder.splitter.query.capacity, query);
        let vector = mock_embedding(&embedder.embed_query(query, &bounds)).unwrap();
        serde_json::to_string(&vector).unwrap()
    }

    fn search_topk(&self, query: &str, limit: usize) -> Vec<(i64, serde_json::Value)> {
        let statement = self.conn.search_topk(&self.query_vector(query), limit);
        let found = rows(&self.test.rt, &self.raw, &statement, |row| {
            (
                row.get::<i64>(0).unwrap(),
                row.get::<String>(1).unwrap(),
                row.get::<i64>(2).unwrap(),
                row.get::<i64>(3).unwrap(),
            )
        });
        assert_eq!(self.conn.vconn.hits(&found).unwrap().len(), found.len());
        found.into_iter().map(|row| (row.0, json(&row.1))).collect()
    }

    fn search_topk_with_distance(
        &self,
        query: &str,
        limit: usize,
    ) -> Vec<(i64, serde_json::Value, f32)> {
        let statement = self.conn.search_topk_with_distance(&self.query_vector(query), limit);
        let found = rows(&self.test.rt, &self.raw, &statement, |row| {
            (
                row.get::<i64>(0).unwrap(),
                row.get::<String>(1).unwrap(),
                row.get::<Option<f64>>(2).unwrap().map(|d| (d as f32).to_bits()),
                row.get::<i64>(3).unwrap(),
                row.get::<i64>(4).unwrap(),
            )
        });
        let hits = self.conn.vconn.distance_hits(&found).unwrap();
        hits.into_iter()
            .zip(found)
            .map(|(hit, row)| (hit.0, json(&row.1), f32::from_bits(hit.2)))
            .collect()
    }
}

#[test]
fn test_document_database_creation() {
    let db = create_test_db(":memory:");
    let conn = db.connect();
    drop(conn);
}

#[test]
fn test_insert_and_search() {
    let db = create_test_db(":memory:");
    let conn = db.connect();
    let metadata = json("{\"title\":\"Test Document\",\"author\":\"Test Author\"}");
    let doc_id = conn.insert_direct(metadata, "This is a test document about embeddings");
    assert!(doc_id > 0);

    let results = conn.search_topk("embeddings and vectors", 5);
    assert!(!results.is_empty());
    assert_eq!(results[0].0, doc_id);
    assert_eq!(results[0].1["title"], "Test Document");
}

#[test]
fn test_insert_and_search_with_distance() {
    let db = create_test_db(":memory:");
    let conn = db.connect();
    let doc_id = conn.insert_direct(
        json("{\"category\":\"technology\"}"),
        "Machine learning and artificial intelligence",
    );
    assert!(doc_id > 0);

    let results = conn.search_topk_with_distance("AI and ML", 5);
    assert!(!results.is_empty());
    assert_eq!(results[0].0, doc_id);
    assert_eq!(results[0].1["category"], "technology");
    assert!(results[0].2 >= 0.0);
    assert!(results[0].2.is_finite());
}

#[test]
fn test_search_with_limit() {
    let db = create_test_db(":memory:");
    let conn = db.connect();
    for i in 0..5 {
        conn.insert_direct(
            json(&format!("{{\"index\":{}}}", i)),
            &format!("Document number {} about various topics", i),
        );
    }
    assert_eq!(conn.search_topk("document topics", 2).len(), 2);
    assert_eq!(conn.search_topk("document topics", 10).len(), 5);
}

#[test]
fn documentdb_test_search_empty_database() {
    let db = create_test_db(":memory:");
    let conn = db.connect();
    assert_eq!(conn.search_topk("anything", 5).len(), 0);
    assert_eq!(conn.search_topk_with_distance("anything", 5).len(), 0);
}

#[test]
fn documentdb_test_complex_metadata() {
    let db = create_test_db(":memory:");
    let conn = db.connect();
    let complex_metadata = json(
        "{\"title\":\"Research Paper\",\"authors\":[\"Alice\",\"Bob\"],\"year\":2024,\
         \"tags\":[\"AI\",\"ML\",\"embeddings\"],\"metrics\":{\"citations\":100,\"views\":5000}}",
    );
    let doc_id = conn.insert_direct(complex_metadata, "Advanced research in embeddings");

    let results = conn.search_topk("research embeddings", 1);
    assert_eq!(results.len(), 1);
    assert_eq!(results[0].0, doc_id);
    assert_eq!(results[0].1["title"], "Research Paper");
    assert_eq!(results[0].1["authors"][0], "Alice");
    assert_eq!(results[0].1["metrics"]["citations"], 100);
}

#[test]
fn test_long_text_chunking() {
    let db = create_test_db(":memory:");
    let conn = db.connect();
    let long_text = (0..1000)
        .map(|i| format!("This is sentence number {}. It contains some information. ", i))
        .collect::<String>();
    let doc_id = conn.insert_direct(json("{\"type\":\"long\"}"), &long_text);
    assert!(doc_id > 0);

    let results = conn.search_topk("sentence information", 1);
    assert_eq!(results.len(), 1);
    assert_eq!(results[0].0, doc_id);
}

#[test]
fn test_empty_text_insertion() {
    let db = create_test_db(":memory:");
    let conn = db.connect();
    assert!(conn.insert_direct(json("{}"), "") > 0);
}

#[test]
fn test_duplicate_content() {
    let db = create_test_db(":memory:");
    let conn = db.connect();
    let content = "Duplicate content test";
    let doc1_id = conn.insert_direct(json("{\"version\":1}"), content);
    let doc2_id = conn.insert_direct(json("{\"version\":2}"), content);
    assert_ne!(doc1_id, doc2_id);

    let results = conn.search_topk(content, 5);
    assert!(results.len() >= 2);
    let doc_ids: Vec<i64> = results.iter().map(|(id, _)| *id).collect();
    assert!(doc_ids.contains(&doc1_id));
    assert!(doc_ids.contains(&doc2_id));
}

#[test]
fn test_special_characters_in_text() {
    let db = create_test_db(":memory:");
    let conn = db.connect();
    let special_text = "Text with special chars: @#$% & 'quotes' \"double\" \n\t tabs";
    let doc_id = conn.insert_direct(json("{\"type\":\"special\"}"), special_text);
    assert!(doc_id > 0);
    assert!(!conn.search_topk("special chars quotes", 1).is_empty());
}

#[test]
fn test_unicode_text() {
    let db = create_test_db(":memory:");
    let conn = db.connect();
    let unicode_text = "Unicode: 你好世界 مرحبا العالم Привет мир 🌍🚀";
    let doc_id = conn.insert_direct(json("{\"lang\":\"multi\"}"), unicode_text);
    assert!(doc_id > 0);
    assert!(!conn.search_topk("unicode world", 1).is_empty());
}

#[test]
fn test_search_consistency() {
    let db = create_test_db(":memory:");
    let conn = db.connect();
    conn.insert_direct(json("{\"test\":\"consistency\"}"), "Consistency test document");
    let results_basic = conn.search_topk("consistency test", 5);
    let results_distance = conn.search_topk_with_distance("consistency test", 5);
    assert_eq!(results_basic.len(), results_distance.len());
    for i in 0..results_basic.len() {
        assert_eq!(results_basic[i].0, results_distance[i].0);
        assert_eq!(results_basic[i].1, results_distance[i].1);
    }
}

#[test]
fn test_multiple_connections() {
    let db = create_test_db("file:multiple_connections?mode=memory&cache=shared");
    let conn1 = db.connect();
    let conn2 = db.connect();
    let doc_id = conn1.insert_direct(
        json("{\"source\":\"conn1\"}"),
        "Rust programming language documentation",
    );
    let results = conn2.search_topk("Rust programming documentation", 5);
    assert!(!results.is_empty());
    assert_eq!(results[0].0, doc_id);
}

#[test]
fn test_pipeline_status() {
    let db = create_test_db(":memory:");
    let conn = db.connect();
    let change = conn.conn.insert("{\"title\":\"queued\"}", "some text").unwrap();
    match &change {
        QueueStatement::Enqueue { source, .. } => assert_eq!(source, ""),
        other => panic!("unexpected: {:?}", other),
    }
    rows(&db.rt, &conn.queue, &change.to_statement(), |_| ());

    let by_status = rows(&db.rt, &conn.queue, &QueueQuery::CountByStatus.to_statement(), |row| {
        (row.get::<String>(0).unwrap(), row.get::<i64>(1).unwrap())
    });
    let count = |query: QueueQuery| {
        rows(&db.rt, &conn.queue, &query.to_statement(), |row| row.get::<i64>(0).unwrap()).pop()
    };
    let embeds = count(QueueQuery::CountEmbeds);
    let writes = count(QueueQuery::CountWrites);
    assert!(embeds.is_some() && writes.is_some());
    let status = conn.conn.pipeline_status().unwrap().status_counts(&by_status, embeds, writes);
    assert_eq!(status.pending, 1);
    assert_eq!(status.chunked, 0);
    assert_eq!(status.embedded, 0);
    assert_eq!(status.done, 0);
}

#[test]
fn databases_are_opened_by_configuration() {
    let config: Config<String> =
        Config::new("u".to_string(), "model".to_string(), "/data/x.db".to_string(), None);
    let db = DocumentDatabase::new(&config, 3).unwrap();
    assert_eq!(db.queue.as_ref().unwrap().path, "/data/x-queue.db");
    assert_eq!(db.vdb.db_path, "/data/x.db");
    assert_eq!(db.vdb.schema.vec_size, 3);
    assert_eq!(db.model, Some("model".to_string()));
    assert!(matches!(
        DocumentDatabase::new(&config, 0),
        Err(CapsaError::Embedding(EmbeddingError::NoEmbeddingReturned))
    ));

    let reader = DocumentDatabase::new_reader(&config, 3).unwrap();
    assert!(reader.queue.is_none());
    let stored = StoredSettings { dim: None, table_names: vec![], model: None };
    let (conn, settings) = reader.connect(stored).unwrap();
    assert_eq!(settings.len(), 2);
    assert_eq!(
        conn.insert("{}", "x").unwrap_err().message(),
        "Database error: Failed to insert document: insert requires a writable connection \
         (use DocumentDatabase::new, not new_reader)"
    );
    assert_eq!(
        conn.pipeline_status().unwrap_err().message(),
        "Database error: Failed to query database: pipeline_status requires a writable connection"
    );
    assert_eq!(
        conn.failed_items().unwrap_err().message(),
        "Database error: Failed to query database: failed_items requires a writable connection"
    );
    let stored =
        StoredSettings { dim: Some("4".to_string()), table_names: vec![], model: None };
    assert!(reader.connect(stored).is_err());
    let fetch = conn.fetch_document(5);
    assert_eq!(fetch.sql, "SELECT content, metadata FROM documents_3 WHERE id = ?1");
}
