use capsa::error::CapsaError;
use capsa::executor::Executor;
use capsa::sql::{Param, Statement};
use capsa::storing::{Storing, StoringAction, StoringEvent, StoringPhase};
use capsa::vectordb::{
    get_metadata, legacy_tables, opening, set_metadata, setup_metadata_table, StoredSettings,
    VectorDatabase, VectorDatabaseConnection,
};
use libsql::{Builder, Connection, Row, TransactionBehavior, Value};
use tokio::runtime::Runtime;

fn values(statement: &Statement) -> Vec<Value> {
    statement
        .params
        .iter()
        .map(|p| match p {
            Param::Integer(n) => Value::Integer(*n),
            Param::Text(s) => Value::Text(s.clone()),
            Param::Blob(b) => Value::Blob(b.clone()),
        })
        .collect()
}

fn runtime() -> Runtime {
    tokio::runtime::Builder::new_current_thread().enable_all().build().unwrap()
}

fn rows<T>(rt: &Runtime, conn: &Connection, statement: &Statement, convert: fn(&Row) -> T) -> Vec<T> {
    rt.block_on(async {
        let mut rows = conn.query(&statement.sql, values(statement)).await.unwrap();
        let mut out = Vec::new();
        while let Some(row) = rows.next().await.unwrap() {
            out.push(convert(&row));
        }
        out
    })
}

fn metadata(text: &str) -> serde_json::Value {
    serde_json::from_str(text).unwrap()
}

struct Db {
    rt: Runtime,
    conn: Connection,
    vconn: VectorDatabaseConnection,
}

/// Opens a database as a connection does: it is validated and set up.
fn open(path: &str, dim: usize, executor: Executor, model: Option<&str>) -> Result<Db, CapsaError> {
    let rt = runtime();
    let conn = rt.block_on(async {
        let db = Builder::new_local(path).build().await.unwrap();
        db.connect().unwrap()
    });
    for statement in opening() {
        rows(&rt, &conn, &statement, |_| ());
    }
    rows(&rt, &conn, &setup_metadata_table(), |_| ());
    let text = |row: &Row| row.get::<String>(0).unwrap();
    let stored = StoredSettings {
        dim: rows(&rt, &conn, &get_metadata("embedding_dim"), text).pop(),
        table_names: rows(&rt, &conn, &legacy_tables(), text),
        model: rows(&rt, &conn, &get_metadata("embedding_model"), text).pop(),
    };
    let vdb = VectorDatabase::new(path, dim, executor);
    let (vconn, settings) = match model {
        None => vdb.connect(stored)?,
        Some(m) => vdb.connect_with_model(Some(m), stored)?,
    };
    for (key, value) in &settings {
        rows(&rt, &conn, &set_metadata(key, value), |_| ());
    }
    for statement in vconn.setup_schema() {
        rows(&rt, &conn, &statement, |_| ());
    }
    Ok(Db { rt, conn, vconn })
}

impl Db {
    fn insert_document(
        &self,
        content: &str,
        metadata: serde_json::Value,
        embeddings: Vec<(Vec<f32>, usize, usize)>,
    ) -> i64 {
        let insert = self.vconn.insert_document(content, &metadata.to_string()).unwrap();
        let vectors: Vec<(String, usize, usize)> = self
            .vconn
            .executor
            .par_map(embeddings, |(v, s, e)| (serde_json::to_string(&v).unwrap(), s, e));
        self.rt.block_on(async {
            let tx = self
                .conn
                .transaction_with_behavior(TransactionBehavior::Deferred)
                .await
                .unwrap();
            let mut returned = tx.query(&insert.sql, values(&insert)).await.unwrap();
            let row = returned.next().await.unwrap().map(|row| row.get::<i64>(0).unwrap());
            let id = self.vconn.inserted_id(row).unwrap();
            drop(returned);
            for (i, (statement, progress)) in
                self.vconn.insert_document_with_progress(id, &vectors).iter().enumerate()
            {
                tx.execute(&statement.sql, values(statement)).await.unwrap();
                assert_eq!(*progress, i + 1);
            }
            tx.commit().await.unwrap();
            id
        })
    }

    fn search_topk(&self, query: Vec<f32>, limit: usize) -> Vec<(i64, serde_json::Value, i64, i64)> {
        let vector = serde_json::to_string(&query).unwrap();
        let found = rows(&self.rt, &self.conn, &self.vconn.search_topk(&vector, limit), |row| {
            (
                row.get::<i64>(0).unwrap(),
                row.get::<String>(1).unwrap(),
                row.get::<i64>(2).unwrap(),
                row.get::<i64>(3).unwrap(),
            )
        });
        let hits = self.vconn.hits(&found).unwrap();
        assert_eq!(hits.len(), found.len());
        hits.into_iter()
            .zip(found)
            .map(|((id, _, start, end), row)| (id, metadata(&row.1), start, end))
            .collect()
    }

    fn search_topk_with_distance(
        &self,
        query: Vec<f32>,
        limit: usize,
    ) -> Vec<(i64, serde_json::Value, f32, i64, i64)> {
        let vector = serde_json::to_string(&query).unwrap();
        let statement = self.vconn.search_topk_with_distance(&vector, limit);
        let found = rows(&self.rt, &self.conn, &statement, |row| {
            (
                row.get::<i64>(0).unwrap(),
                row.get::<String>(1).unwrap(),
                row.get::<Option<f64>>(2).unwrap().map(|d| (d as f32).to_bits()),
                row.get::<i64>(3).unwrap(),
                row.get::<i64>(4).unwrap(),
            )
        });
        let hits = self.vconn.distance_hits(&found).unwrap();
        hits.into_iter()
            .zip(found)
            .map(|((id, _, distance, start, end), row)| {
                (id, metadata(&row.1), f32::from_bits(distance), start, end)
            })
            .collect()
    }

    fn search_topk_with_vectors(
        &self,
        query: Vec<f32>,
        limit: usize,
    ) -> Vec<(i64, serde_json::Value, Vec<f32>, i64, i64)> {
        let vector = serde_json::to_string(&query).unwrap();
        let statement = self.vconn.search_topk_with_vectors(&vector, limit);
        let found = rows(&self.rt, &self.conn, &statement, |row| {
            (
                row.get::<i64>(0).unwrap(),
                row.get::<String>(1).unwrap(),
                row.get::<Vec<u8>>(2).unwrap(),
                row.get::<i64>(3).unwrap(),
                row.get::<i64>(4).unwrap(),
            )
        });
        let hits = self.vconn.vector_hits(&found).unwrap();
        hits.into_iter()
            .zip(found)
            .map(|((id, _, words, start, end), row)| {
                let vector = words.into_iter().map(f32::from_bits).collect();
                (id, metadata(&row.1), vector, start, end)
            })
            .collect()
    }

    fn fetch_document(&self, doc_id: i64) -> Option<(String, capsa::metadata::Metadata)> {
        let row = rows(&self.rt, &self.conn, &self.vconn.fetch_document(doc_id), |row| {
            (row.get::<Vec<u8>>(0).unwrap(), row.get::<String>(1).unwrap())
        })
        .pop();
        self.vconn.fetched_document(row).unwrap()
    }
}

fn seq() -> Executor {
    Executor::sequential()
}

fn par() -> Executor {
    Executor::parallel()
}

fn memory(dim: usize, executor: Executor) -> Db {
    open(":memory:", dim, executor, None).unwrap()
}

fn add_offsets(embeddings: Vec<Vec<f32>>) -> Vec<(Vec<f32>, usize, usize)> {
    embeddings
        .into_iter()
        .enumerate()
        .map(|(i, vec)| (vec, i * 100, (i + 1) * 100))
        .collect()
}

#[test]
fn test_full_flow() {
    let db = memory(3, seq());
    let content = "The quick brown fox jumps over the lazy dog.";
    let meta = metadata("{\"source\":\"test_suite\",\"author\":\"rust_bot\"}");
    let doc_id = db.insert_document(content, meta, add_offsets(vec![vec![1.0, 0.0, 0.0]]));
    assert!(doc_id > 0);

    let results = db.search_topk_with_distance(vec![0.9, 0.1, 0.0], 1);
    assert_eq!(results.len(), 1);
    let (found_doc_id, found_meta, distance, _, _) = &results[0];
    assert_eq!(*found_doc_id, doc_id);
    assert_eq!(found_meta["author"], "rust_bot");
    assert!(*distance < 0.2);

    let (fetched_content, _) = db.fetch_document(*found_doc_id).unwrap();
    assert_eq!(fetched_content, content);
}

#[test]
fn test_embedding_dimension_mismatch_rejected() {
    let db_uri = "file:dim_mismatch?mode=memory&cache=shared";
    let _conn_3d = open(db_uri, 3, seq(), None).unwrap();
    let err = open(db_uri, 4, seq(), None).err().expect("dimension mismatch should fail");
    assert!(
        err.message().contains("Embedding dimension mismatch"),
        "unexpected error: {}",
        err.message()
    );
    assert_eq!(
        err.message(),
        "Database error: Failed to setup database schema: Embedding dimension mismatch: \
         database uses 3, requested 4"
    );
}

#[test]
fn test_embedding_model_mismatch_rejected() {
    let db_uri = "file:model_mismatch?mode=memory&cache=shared";
    let _conn = open(db_uri, 3, seq(), Some("model-a")).unwrap();
    let err = open(db_uri, 3, seq(), Some("model-b")).err().expect("model mismatch should fail");
    assert!(
        err.message().contains("Embedding model mismatch"),
        "unexpected error: {}",
        err.message()
    );
    assert!(open(db_uri, 3, seq(), Some("model-a")).is_ok());
    assert!(open(db_uri, 3, seq(), None).is_ok());
}

#[test]
fn test_legacy_dimension_mismatch_rejected() {
    let db_uri = "file:legacy_dim_mismatch?mode=memory&cache=shared";
    let rt = runtime();
    let legacy_conn = rt.block_on(async {
        let legacy_db = Builder::new_local(db_uri).build().await.unwrap();
        let conn = legacy_db.connect().unwrap();
        conn.execute(
            "CREATE TABLE IF NOT EXISTS documents_3 (
                id INTEGER PRIMARY KEY AUTOINCREMENT,
                content BLOB,
                metadata JSON
            )",
            (),
        )
        .await
        .unwrap();
        conn
    });
    let err = open(db_uri, 4, seq(), None).err().expect("legacy dimension mismatch should fail");
    assert!(
        err.message().contains("Legacy database uses embedding dimension 3"),
        "unexpected error: {}",
        err.message()
    );
    assert!(open(db_uri, 3, seq(), None).is_ok());
    drop(legacy_conn);
}

#[test]
fn test_cascade_delete() {
    let db = memory(2, seq());
    let doc_id = db.insert_document(
        "Delete me",
        metadata("{}"),
        add_offsets(vec![vec![1.0, 1.0], vec![0.0, 0.0]]),
    );
    let count: i64 = db.rt.block_on(async {
        db.conn.execute("DELETE FROM documents_2 WHERE id = ?1", [doc_id]).await.unwrap();
        let mut rows =
            db.conn.query("SELECT COUNT(*) FROM document_embeddings_2", ()).await.unwrap();
        rows.next().await.unwrap().unwrap().get(0).unwrap()
    });
    assert_eq!(count, 0, "Vectors should have been deleted by cascade");
}

#[test]
fn test_multiple_documents_search_ordering() {
    let db = memory(3, seq());
    db.insert_document(
        "Document 1",
        metadata("{\"id\":1}"),
        add_offsets(vec![vec![0.99, 0.01, 0.0]]),
    );
    db.insert_document("Document 2", metadata("{\"id\":2}"), add_offsets(vec![vec![0.0, 1.0, 0.0]]));
    db.insert_document("Document 3", metadata("{\"id\":3}"), add_offsets(vec![vec![0.7, 0.7, 0.0]]));

    let results = db.search_topk_with_distance(vec![1.0, 0.0, 0.0], 3);
    assert_eq!(results.len(), 3);
    assert_eq!(results[0].1["id"], 1);
    assert_eq!(results[1].1["id"], 3);
    assert_eq!(results[2].1["id"], 2);
    assert!(results[0].2 < results[1].2);
    assert!(results[1].2 < results[2].2);
}

#[test]
fn vectordb_test_search_empty_database() {
    let db = memory(3, seq());
    let results = db.search_topk_with_distance(vec![1.0, 0.0, 0.0], 10);
    assert_eq!(results.len(), 0, "Empty database should return no results");
}

#[test]
fn test_multiple_chunks_per_document() {
    let db = memory(4, seq());
    let chunks = vec![
        vec![1.0, 0.0, 0.0, 0.0],
        vec![0.0, 1.0, 0.0, 0.0],
        vec![0.0, 0.0, 1.0, 0.0],
        vec![0.0, 0.0, 0.0, 1.0],
        vec![0.5, 0.5, 0.0, 0.0],
    ];
    let doc_id =
        db.insert_document("Multi-chunk document", metadata("{\"chunks\":5}"), add_offsets(chunks));
    assert!(doc_id > 0);

    let results = db.search_topk_with_distance(vec![0.95, 0.05, 0.0, 0.0], 1);
    assert_eq!(results.len(), 1);
    assert_eq!(results[0].0, doc_id);

    let results = db.search_topk_with_distance(vec![1.0, 0.0, 0.0, 0.0], 10);
    assert_eq!(results.len(), 5, "Should find all 5 chunks");
    for result in &results {
        assert_eq!(result.0, doc_id);
        assert_eq!(result.1["chunks"], 5);
    }

    let (fetched_content, _) = db.fetch_document(doc_id).unwrap();
    assert_eq!(fetched_content, "Multi-chunk document");
}

#[test]
fn test_search_limit_parameter() {
    let db = memory(2, seq());
    for i in 0..10 {
        db.insert_document(
            &format!("Document {}", i),
            metadata(&format!("{{\"index\":{}}}", i)),
            add_offsets(vec![vec![i as f32 / 10.0, 1.0 - i as f32 / 10.0]]),
        );
    }
    assert_eq!(db.search_topk_with_distance(vec![0.0, 1.0], 1).len(), 1);
    assert_eq!(db.search_topk_with_distance(vec![0.0, 1.0], 5).len(), 5);
    assert_eq!(
        db.search_topk_with_distance(vec![0.0, 1.0], 100).len(),
        10,
        "Should return all available documents"
    );
}

#[test]
fn vectordb_test_complex_metadata() {
    let db = memory(3, seq());
    let complex_metadata = metadata(
        "{\"title\":\"Research Paper\",\"authors\":[\"Alice\",\"Bob\",\"Charlie\"],\
         \"year\":2024,\"tags\":[\"machine-learning\",\"embeddings\",\"vector-search\"],\
         \"stats\":{\"citations\":42,\"views\":1337},\"available\":true}",
    );
    let doc_id = db.insert_document(
        "Paper content",
        complex_metadata,
        add_offsets(vec![vec![1.0, 0.0, 0.0]]),
    );
    assert!(doc_id > 0);

    let results = db.search_topk_with_distance(vec![1.0, 0.0, 0.0], 1);
    assert_eq!(results.len(), 1);
    let (_, meta, _, _, _) = &results[0];
    assert_eq!(meta["title"], "Research Paper");
    assert_eq!(meta["authors"][0], "Alice");
    assert_eq!(meta["stats"]["citations"], 42);
    assert_eq!(meta["available"], true);
}

#[test]
fn test_realistic_embedding_dimensions() {
    let db = memory(384, seq());
    let mut embedding = vec![0.0; 384];
    embedding[0] = 1.0;
    embedding[100] = 0.5;
    embedding[200] = 0.3;
    let doc_id = db.insert_document(
        "Large embedding doc",
        metadata("{}"),
        add_offsets(vec![embedding.clone()]),
    );
    assert!(doc_id > 0);

    let results = db.search_topk_with_distance(embedding, 1);
    assert_eq!(results.len(), 1);
    assert_eq!(results[0].0, doc_id);
    assert!(results[0].2 < 0.01);

    let (fetched_content, _) = db.fetch_document(doc_id).unwrap();
    assert_eq!(fetched_content, "Large embedding doc");
}

#[test]
fn test_zero_vectors() {
    let db = memory(3, seq());
    let doc_id = db.insert_document(
        "Zero vector doc",
        metadata("{}"),
        add_offsets(vec![vec![0.0, 0.0, 0.0]]),
    );
    assert!(doc_id > 0);
    let results = db.search_topk_with_distance(vec![1.0, 0.0, 0.0], 1);
    assert_eq!(results.len(), 1);
}

#[test]
fn test_duplicate_documents() {
    let db = memory(3, seq());
    let content = "Duplicate content";
    let embedding = add_offsets(vec![vec![1.0, 0.0, 0.0]]);
    let doc_id_1 = db.insert_document(content, metadata("{\"version\":1}"), embedding.clone());
    let doc_id_2 = db.insert_document(content, metadata("{\"version\":2}"), embedding.clone());
    assert_ne!(doc_id_1, doc_id_2, "Should create separate documents");

    let results = db.search_topk_with_distance(vec![1.0, 0.0, 0.0], 10);
    assert_eq!(results.len(), 2);
    assert_ne!(results[0].0, results[1].0);

    let (content_1, _) = db.fetch_document(results[0].0).unwrap();
    let (content_2, _) = db.fetch_document(results[1].0).unwrap();
    assert_eq!(content_1, content);
    assert_eq!(content_2, content);
}

#[test]
fn test_normalized_vs_unnormalized_vectors() {
    let db = memory(3, seq());
    db.insert_document(
        "Normalized",
        metadata("{\"type\":\"normalized\"}"),
        add_offsets(vec![vec![1.0, 0.0, 0.0]]),
    );
    db.insert_document(
        "Unnormalized",
        metadata("{\"type\":\"unnormalized\"}"),
        add_offsets(vec![vec![10.0, 0.0, 0.0]]),
    );
    let results = db.search_topk_with_distance(vec![1.0, 0.0, 0.0], 2);
    assert_eq!(results.len(), 2);
    assert!(results[0].2 < 0.01);
    assert!(results[1].2 < 0.01);
}

#[test]
fn test_empty_embeddings_list() {
    let db = memory(3, seq());
    let doc_id = db.insert_document("No embeddings", metadata("{}"), vec![]);
    assert!(doc_id > 0, "Should successfully insert document even with no embeddings");
    let results = db.search_topk_with_distance(vec![1.0, 0.0, 0.0], 10);
    assert_eq!(results.len(), 0);
}

#[test]
fn test_all_search_functions_consistency() {
    let db = memory(3, seq());
    let doc_ids = [
        db.insert_document(
            "Doc 1",
            metadata("{\"name\":\"doc1\"}"),
            add_offsets(vec![vec![0.99, 0.01, 0.0]]),
        ),
        db.insert_document(
            "Doc 2",
            metadata("{\"name\":\"doc2\"}"),
            add_offsets(vec![vec![0.0, 1.0, 0.0]]),
        ),
        db.insert_document(
            "Doc 3",
            metadata("{\"name\":\"doc3\"}"),
            add_offsets(vec![vec![0.7, 0.7, 0.0]]),
        ),
        db.insert_document(
            "Doc 4",
            metadata("{\"name\":\"doc4\"}"),
            add_offsets(vec![vec![1.0, 0.0, 0.0]]),
        ),
        db.insert_document(
            "Doc 5",
            metadata("{\"name\":\"doc5\"}"),
            add_offsets(vec![vec![0.5, 0.5, 0.5]]),
        ),
    ];

    let query = vec![1.0, 0.0, 0.0];
    let k = 3;
    let results_basic = db.search_topk(query.clone(), k);
    let results_distance = db.search_topk_with_distance(query.clone(), k);
    let results_vectors = db.search_topk_with_vectors(query.clone(), k);

    assert_eq!(results_basic.len(), k);
    assert_eq!(results_distance.len(), k);
    assert_eq!(results_vectors.len(), k);

    for i in 0..k {
        assert_eq!(results_basic[i].0, results_distance[i].0, "doc_id at position {}", i);
        assert_eq!(results_basic[i].0, results_vectors[i].0, "doc_id at position {}", i);
        assert_eq!(results_basic[i].1, results_distance[i].1, "metadata at position {}", i);
        assert_eq!(results_basic[i].1, results_vectors[i].1, "metadata at position {}", i);
    }

    for i in 0..results_distance.len() - 1 {
        assert!(
            results_distance[i].2 <= results_distance[i + 1].2,
            "Distances not in ascending order: {} > {}",
            results_distance[i].2,
            results_distance[i + 1].2
        );
    }

    for (_, _, vec, _, _) in &results_vectors {
        assert_eq!(vec.len(), 3, "Vector should have 3 dimensions");
    }

    assert_eq!(results_basic[0].0, doc_ids[3]);
    assert_eq!(results_basic[0].1["name"], "doc4");
    assert_eq!(results_basic[1].0, doc_ids[0]);
    assert_eq!(results_basic[1].1["name"], "doc1");
    assert_eq!(results_vectors[0].2, vec![1.0, 0.0, 0.0]);
}

#[test]
fn test_concurrent_inserts() {
    let db = memory(3, seq());
    let mut doc_ids = Vec::new();
    for i in 0..5 {
        let id = db.insert_document(
            &format!("Concurrent doc {}", i),
            metadata(&format!("{{\"index\":{}}}", i)),
            add_offsets(vec![vec![i as f32 / 5.0, 0.0, 0.0]]),
        );
        doc_ids.push(id);
    }
    assert_eq!(doc_ids.len(), 5);
    let mut unique_ids = doc_ids.clone();
    unique_ids.sort();
    unique_ids.dedup();
    assert_eq!(unique_ids.len(), 5);
    let results = db.search_topk_with_distance(vec![0.5, 0.0, 0.0], 10);
    assert_eq!(results.len(), 5);
}

#[test]
fn test_parallel_insert_and_fetch() {
    let db = memory(3, par());
    let content = "Parallel executor test document";
    let embeddings = add_offsets(vec![vec![1.0, 0.0, 0.0], vec![0.0, 1.0, 0.0]]);
    let doc_id = db.insert_document(content, metadata("{\"executor\":\"parallel\"}"), embeddings);
    assert!(doc_id > 0);

    let (fetched_content, fetched_meta) = db.fetch_document(doc_id).unwrap();
    assert_eq!(fetched_content, content);
    assert_eq!(fetched_meta.get_text("executor"), Some("parallel".to_string()));
}

#[test]
fn test_parallel_search() {
    let db = memory(3, par());
    for i in 0..5 {
        db.insert_document(
            &format!("Document {}", i),
            metadata(&format!("{{\"index\":{}}}", i)),
            add_offsets(vec![vec![i as f32 / 5.0, 1.0 - i as f32 / 5.0, 0.0]]),
        );
    }
    let results = db.search_topk_with_distance(vec![0.0, 1.0, 0.0], 3);
    assert_eq!(results.len(), 3);
    for i in 0..results.len() - 1 {
        assert!(results[i].2 <= results[i + 1].2);
    }
}

#[test]
fn test_parallel_large_embedding() {
    let db = memory(768, par());
    let embedding: Vec<f32> = (0..768).map(|i| (i as f32) / 768.0).collect();
    let mut other = embedding.clone();
    other[0] = 0.5;
    let embeddings = add_offsets(vec![embedding.clone(), other]);
    let doc_id = db.insert_document("Large parallel doc", metadata("{}"), embeddings);
    assert!(doc_id > 0);

    let results = db.search_topk(embedding, 1);
    assert_eq!(results.len(), 1);
    assert_eq!(results[0].0, doc_id);

    let (content, _) = db.fetch_document(doc_id).unwrap();
    assert_eq!(content, "Large parallel doc");
}

#[test]
fn test_parallel_many_chunks() {
    let db = memory(4, par());
    let chunks: Vec<Vec<f32>> = (0..50)
        .map(|i| {
            let mut v = vec![0.0f32; 4];
            v[i % 4] = 1.0;
            v
        })
        .collect();
    let doc_id =
        db.insert_document("Many chunks doc", metadata("{\"chunks\":50}"), add_offsets(chunks));
    assert!(doc_id > 0);

    let results = db.search_topk(vec![1.0, 0.0, 0.0, 0.0], 10);
    assert!(!results.is_empty());
    assert!(results.iter().all(|(id, _, _, _)| *id == doc_id));
}

#[test]
fn fetching_gives_back_what_was_stored() {
    let db = memory(2, seq());
    let long = "größe 你好 ".repeat(40_000);
    for content in ["", "a", "line\nline\0end", &long] {
        let id = db.insert_document(content, metadata("{\"k\":\"v\"}"), vec![]);
        let (fetched, meta) = db.fetch_document(id).unwrap();
        assert_eq!(fetched, content);
        assert_eq!(meta.get_text("k"), Some("v".to_string()));
    }
    assert!(db.fetch_document(999).is_none());
}

#[test]
fn chunk_offsets_come_back() {
    let db = memory(2, seq());
    let id = db.insert_document(
        "abcdef",
        metadata("{}"),
        vec![(vec![1.0, 0.0], 0, 3), (vec![0.0, 1.0], 2, 6)],
    );
    let hit = &db.search_topk(vec![0.0, 1.0], 1)[0];
    assert_eq!((hit.0, hit.2, hit.3), (id, 2, 6));
}

#[test]
fn documents_that_cannot_be_read_are_refused() {
    let conn = memory(2, seq()).vconn;
    let good = conn.insert_document("x", "{}").unwrap();
    let frame = match &good.params[0] {
        Param::Blob(b) => b.clone(),
        _ => unreachable!(),
    };
    assert!(conn.fetched_document(None).unwrap().is_none());
    let err = conn.fetched_document(Some((vec![1, 2, 3, 4, 5], "{}".to_string()))).unwrap_err();
    assert!(err.message().starts_with("Processing error: I/O error: "));
    let err = conn.fetched_document(Some((frame, "no json".to_string()))).unwrap_err();
    assert!(err.message().starts_with("Processing error: JSON processing error: "));
    let raw = capsa::codec::compress(&[0xff, 0xfe]).unwrap();
    let err = conn.fetched_document(Some((raw, "{}".to_string()))).unwrap_err();
    assert_eq!(
        err.message(),
        "Processing error: Missing required data: document content is not valid UTF-8"
    );
    let err = conn.inserted_id(None).unwrap_err();
    assert_eq!(err.message(), "Database error: Failed to insert document: No ID returned");
    assert_eq!(conn.inserted_id(Some(7)).unwrap(), 7);
}

#[test]
fn a_missing_distance_is_the_largest() {
    let conn = memory(2, seq()).vconn;
    let rows = vec![
        (1, "{}".to_string(), None, 0, 1),
        (2, "{}".to_string(), Some(0.25f32.to_bits()), 0, 1),
    ];
    let hits = conn.distance_hits(&rows).unwrap();
    assert_eq!(f32::from_bits(hits[0].2), f32::MAX);
    assert_eq!(f32::from_bits(hits[1].2), 0.25);
    assert!(conn.distance_hits(&vec![(1, "x".to_string(), None, 0, 1)]).is_err());
    assert!(conn.hits(&vec![(1, "x".to_string(), 0, 1)]).is_err());
    assert!(conn.vector_hits(&vec![(1, "x".to_string(), vec![], 0, 1)]).is_err());
    assert_eq!(capsa::vectordb::vector_words(&vec![1, 0, 0, 0, 9, 9]), vec![1]);
}

fn validated(
    dim: usize,
    model: Option<&str>,
    stored_dim: Option<&str>,
    tables: &[&str],
    stored_model: Option<&str>,
) -> Result<Vec<(String, String)>, String> {
    capsa::vectordb::validate_metadata(
        dim,
        model,
        stored_dim.map(|s| s.to_string()),
        &tables.iter().map(|s| s.to_string()).collect(),
        stored_model.map(|s| s.to_string()),
    )
    .map_err(|e| {
        let text = e.message();
        let prefix = "Database error: Failed to setup database schema: ";
        assert!(text.starts_with(prefix));
        text[prefix.len()..].to_string()
    })
}

#[test]
fn validation_answers() {
    let dim = |n: &str| ("embedding_dim".to_string(), n.to_string());
    let model = |m: &str| ("embedding_model".to_string(), m.to_string());
    assert_eq!(validated(3, None, None, &[], None), Ok(vec![dim("3")]));
    assert_eq!(validated(3, Some("m"), None, &[], None), Ok(vec![dim("3"), model("m")]));
    assert_eq!(validated(3, Some("m"), Some("3"), &[], None), Ok(vec![model("m")]));
    assert_eq!(validated(3, Some("m"), Some("3"), &["documents_9"], Some("m")), Ok(vec![]));
    assert_eq!(validated(3, None, Some("+3"), &[], Some("other")), Ok(vec![]));
    assert_eq!(
        validated(3, None, None, &["documents_3", "other_4", "documents_03"], None),
        Ok(vec![dim("3")])
    );
    assert_eq!(
        validated(3, None, Some("4"), &[], None),
        Err("Embedding dimension mismatch: database uses 4, requested 3".to_string())
    );
    assert_eq!(
        validated(3, None, Some("x"), &[], None),
        Err("Invalid stored embedding dimension 'x': invalid digit found in string".to_string())
    );
    assert_eq!(
        validated(3, None, Some(""), &[], None),
        Err("Invalid stored embedding dimension '': cannot parse integer from empty string"
            .to_string())
    );
    assert_eq!(
        validated(3, None, Some("99999999999999999999999"), &[], None),
        Err("Invalid stored embedding dimension '99999999999999999999999': \
             number too large to fit in target type"
            .to_string())
    );
    assert_eq!(
        validated(3, None, None, &["documents_5"], None),
        Err("Legacy database uses embedding dimension 5, requested 3".to_string())
    );
    assert_eq!(
        validated(3, None, None, &["documents_12", "documents_3", "documents_12"], None),
        Err("Legacy database contains multiple embedding dimensions: [3, 12]".to_string())
    );
    assert_eq!(
        validated(3, None, None, &["documents_3", "documents_3x"], None),
        Err("Invalid legacy table name 'documents_3x': invalid digit found in string".to_string())
    );
    assert_eq!(
        validated(3, Some("b"), Some("3"), &[], Some("a")),
        Err("Embedding model mismatch: database uses 'a', requested 'b'".to_string())
    );
}

#[test]
fn stored_dimensions_are_read() {
    assert_eq!(VectorDatabase::read_stored_embedding_dim(None).unwrap(), None);
    assert_eq!(
        VectorDatabase::read_stored_embedding_dim(Some("384".to_string())).unwrap(),
        Some(384)
    );
    assert!(VectorDatabase::read_stored_embedding_dim(Some("3.5".to_string())).is_err());
}

#[test]
fn the_schema_is_that_of_its_dimension() {
    let schema = capsa::vectordb::VectorDatabaseSchema::new(384);
    assert_eq!(schema.vec_size, 384);
    assert_eq!(
        schema.insert_document,
        "INSERT INTO documents_384 (content, metadata) VALUES (?1, ?2) RETURNING id"
    );
    assert_eq!(schema.fetch_document, "SELECT content, metadata FROM documents_384 WHERE id = ?1");
    assert!(schema.create_vectors_table.contains("F32_BLOB(384)"));
    assert!(schema.create_vectors_table.contains("REFERENCES documents_384(id)"));
    assert!(schema.create_index_table.contains("metric=cosine"));
}

/// Stores a document step by step, as the library says.
fn store(db: &Db, content: &str, vectors: Vec<(String, usize, usize)>) -> Storing {
    let insert = db.vconn.insert_document(content, "{}").unwrap();
    let mut storing = Storing::new(insert, vectors);
    let mut open_transaction = None;
    loop {
        let event = match storing.action(&db.vconn) {
            StoringAction::Begin => {
                let tx = db.rt.block_on(async { db.conn.transaction().await.unwrap() });
                open_transaction = Some(tx);
                StoringEvent::Done
            }
            StoringAction::Query(statement) => {
                let tx = open_transaction.as_ref().unwrap();
                let id = rows(&db.rt, tx, statement, |row| row.get::<i64>(0).unwrap()).pop();
                StoringEvent::Returned(id)
            }
            StoringAction::Execute(statement) => {
                let tx = open_transaction.as_ref().unwrap();
                let done =
                    db.rt.block_on(async { tx.execute(&statement.sql, values(&statement)).await });
                match done {
                    Ok(_) => StoringEvent::Done,
                    Err(_) => StoringEvent::Failed,
                }
            }
            StoringAction::Commit => {
                let tx = open_transaction.take().unwrap();
                db.rt.block_on(async { tx.commit().await.unwrap() });
                StoringEvent::Done
            }
            StoringAction::RollBack => {
                let tx = open_transaction.take().unwrap();
                db.rt.block_on(async { tx.rollback().await.unwrap() });
                StoringEvent::Done
            }
            StoringAction::Nothing => return storing,
        };
        storing.next(event);
    }
}

#[test]
fn a_document_and_its_chunks_are_stored_together_or_not_at_all() {
    let db = memory(3, seq());
    let count = |table: &str| {
        let statement =
            Statement { sql: format!("SELECT COUNT(*) FROM {}", table), params: vec![] };
        rows(&db.rt, &db.conn, &statement, |row| row.get::<i64>(0).unwrap()).pop().unwrap()
    };
    let vector = |s: &str, start: usize, end: usize| (s.to_string(), start, end);

    let stored = store(&db, "good", vec![vector("[1,0,0]", 0, 2), vector("[0,1,0]", 2, 4)]);
    assert_eq!(stored.progress(), 2);
    let id = match stored.phase {
        StoringPhase::Stored { doc_id } => doc_id,
        other => panic!("unexpected: {:?}", other),
    };
    assert_eq!((count("documents_3"), count("document_embeddings_3")), (1, 2));
    assert_eq!(db.search_topk(vec![1.0, 0.0, 0.0], 1)[0].0, id);

    let failed = store(&db, "bad", vec![vector("[1,0,0]", 0, 2), vector("no vector", 2, 4)]);
    assert_eq!(failed.phase, StoringPhase::NotStored);
    assert_eq!(failed.progress(), 0);
    assert_eq!((count("documents_3"), count("document_embeddings_3")), (1, 2));

    let alone = store(&db, "no chunks", vec![]);
    assert!(matches!(alone.phase, StoringPhase::Stored { .. }));
    assert_eq!((count("documents_3"), count("document_embeddings_3")), (2, 2));
}

#[test]
fn a_document_without_a_number_is_not_stored() {
    let db = memory(3, seq());
    let insert = db.vconn.insert_document("x", "{}").unwrap();
    let mut storing = Storing::new(insert, vec![]);
    assert!(matches!(storing.action(&db.vconn), StoringAction::Begin));
    storing.next(StoringEvent::Done);
    assert!(matches!(storing.action(&db.vconn), StoringAction::Query(_)));
    storing.next(StoringEvent::Done);
    assert_eq!(storing.phase, StoringPhase::Document);
    storing.next(StoringEvent::Returned(None));
    assert!(matches!(storing.action(&db.vconn), StoringAction::RollBack));
    storing.next(StoringEvent::Done);
    assert!(matches!(storing.action(&db.vconn), StoringAction::Nothing));
    assert_eq!(storing.phase, StoringPhase::NotStored);
}

#[test]
fn two_dimensions_share_no_table() {
    let small = memory(3, seq());
    let large = VectorDatabase::new(":memory:", 33, seq());
    let none = StoredSettings { dim: None, table_names: vec![], model: None };
    let (large, _) = large.connect(none).unwrap();
    for statement in large.setup_schema() {
        rows(&small.rt, &small.conn, &statement, |_| ());
    }
    let insert = large.insert_document("other", "{}").unwrap();
    rows(&small.rt, &small.conn, &insert, |_| ());
    let count = |table: &str| {
        let statement =
            Statement { sql: format!("SELECT COUNT(*) FROM {}", table), params: vec![] };
        rows(&small.rt, &small.conn, &statement, |row| row.get::<i64>(0).unwrap()).pop()
    };
    assert_eq!(count("documents_33"), Some(1));
    assert_eq!(count("documents_3"), Some(0));
}

#[test]
fn the_three_searches_fail_together() {
    let db = memory(2, seq());
    let row = |id: i64, metadata: &str| (id, metadata.to_string(), 4 * id, 4 * id + 4);
    let rows = vec![row(1, "{}"), row(2, "{"), row(3, "[")];
    let distances = rows
        .iter()
        .map(|(id, metadata, start, end)| (*id, metadata.clone(), Some(0), *start, *end))
        .collect();
    let vectors: Vec<_> = rows
        .iter()
        .map(|(id, metadata, start, end)| (*id, metadata.clone(), vec![0u8; 8], *start, *end))
        .collect();
    let error = serde_json::from_str::<serde_json::Value>("{").unwrap_err();
    let expected = format!("Processing error: JSON processing error: {}", error);
    assert_eq!(db.vconn.hits(&rows).unwrap_err().message(), expected);
    assert_eq!(db.vconn.distance_hits(&distances).unwrap_err().message(), expected);
    assert_eq!(db.vconn.vector_hits(&vectors).unwrap_err().message(), expected);
    let found = db.vconn.vector_hits(&vectors[..1].to_vec()).unwrap();
    assert_eq!(found[0].2, vec![0u32; 2]);
}
