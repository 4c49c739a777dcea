use capsa::codec::TextChunk;
use capsa::error::{CapsaError, ProcessingError};
use capsa::queue::{
    queue_db_path, FailedItem, PendingEmbed, PendingWrite, PipelineStatus, Queue, QueueConnection,
    QueueItem, QueueQuery, QueueStatement, StageItem,
};
use capsa::sql::{Param, Statement};
use libsql::{Builder, Connection, Row, TransactionBehavior, Value};
use tokio::runtime::Runtime;

struct Db {
    rt: Runtime,
    conn: Connection,
    queue: QueueConnection,
}

fn values(statement: &Statement) -> Vec<Value> {
    statement
        .params
        .iter()
        .map(|p| match p {
            Param::Integer(n) => Value::Integer(*n),
            Param::Text(s) => Value::Text(s.clone()),
            Param::Blob(b) => Value::Blob(b.clone()),
        })
        .collect()
}

fn chunk(text: &str, start: usize, end: usize) -> TextChunk {
    (text.to_string(), start, end)
}

impl Db {
    fn new() -> Db {
        let rt = tokio::runtime::Builder::new_current_thread().enable_all().build().unwrap();
        let conn = rt.block_on(async {
            let db = Builder::new_local(":memory:").build().await.unwrap();
            let conn = db.connect().unwrap();
            for statement in Queue::new(":memory:").connect() {
                let mut rows = conn.query(&statement.sql, values(&statement)).await.unwrap();
                while rows.next().await.unwrap().is_some() {}
            }
            conn
        });
        Db { rt, conn, queue: QueueConnection {} }
    }

    fn rows<T>(&self, query: QueueQuery, convert: fn(&Row) -> T) -> Vec<T> {
        let statement = query.to_statement();
        self.rt.block_on(async {
            let mut rows = self.conn.query(&statement.sql, values(&statement)).await.unwrap();
            let mut out = Vec::new();
            while let Some(row) = rows.next().await.unwrap() {
                out.push(convert(&row));
            }
            out
        })
    }

    fn count(&self, query: QueueQuery) -> Option<i64> {
        self.rows(query, |row| row.get::<i64>(0).unwrap()).pop()
    }

    fn apply(&self, changes: &[QueueStatement]) {
        self.rt.block_on(async {
            let tx = self
                .conn
                .transaction_with_behavior(TransactionBehavior::Immediate)
                .await
                .unwrap();
            for change in changes {
                let statement = change.to_statement();
                tx.execute(&statement.sql, values(&statement)).await.unwrap();
            }
            tx.commit().await.unwrap();
        })
    }

    fn enqueue(&self, source: &str, metadata: &str, text: &str) -> i64 {
        self.apply(&[self.queue.enqueue(source, metadata, text)]);
        self.conn.last_insert_rowid()
    }

    fn pending_row(row: &Row) -> (i64, String, String, String) {
        (row.get(0).unwrap(), row.get(1).unwrap(), row.get(2).unwrap(), row.get(3).unwrap())
    }

    fn dequeue_batch(&self, limit: usize) -> Vec<QueueItem> {
        let rows = self.rows(QueueQuery::PendingBatch { limit }, Self::pending_row);
        let (items, changes) = self.queue.dequeue_batch(rows).unwrap();
        self.apply(&changes);
        items
    }

    fn status(&self) -> PipelineStatus {
        let rows = self.rows(QueueQuery::CountByStatus, |row| {
            (row.get::<String>(0).unwrap(), row.get::<i64>(1).unwrap())
        });
        let embeds = self.count(QueueQuery::CountEmbeds);
        let writes = self.count(QueueQuery::CountWrites);
        self.queue.status_counts(&rows, embeds, writes)
    }

    fn failed_items(&self) -> Vec<FailedItem> {
        let rows = self.rows(QueueQuery::FailedItems, |row| {
            (
                row.get::<i64>(0).unwrap(),
                row.get::<String>(1).unwrap(),
                row.get::<String>(2).unwrap(),
                row.get::<String>(3).unwrap(),
                row.get::<i64>(4).unwrap(),
            )
        });
        self.queue.failed_items(&rows).unwrap()
    }

    fn stage_row(row: &Row) -> (String, String, i64, i64) {
        (row.get(0).unwrap(), row.get(1).unwrap(), row.get(2).unwrap(), row.get(3).unwrap())
    }

    fn chunked_items(&self) -> Vec<StageItem> {
        let rows = self.rows(QueueQuery::ChunkedItems, Self::stage_row);
        self.queue.chunked_items(&rows).unwrap()
    }

    fn embedded_items(&self) -> Vec<StageItem> {
        let rows = self.rows(QueueQuery::EmbeddedItems, Self::stage_row);
        self.queue.embedded_items(&rows).unwrap()
    }

    fn peek_pending(&self) -> Option<QueueItem> {
        let row = self.rows(QueueQuery::FirstPending, Self::pending_row).pop();
        self.queue.peek_pending(row).unwrap()
    }

    fn peek_embed(&self) -> Option<PendingEmbed> {
        let row = self
            .rows(QueueQuery::FirstEmbed, |row| {
                (
                    row.get::<i64>(0).unwrap(),
                    row.get::<i64>(1).unwrap(),
                    row.get::<String>(2).unwrap(),
                    row.get::<String>(3).unwrap(),
                    row.get::<String>(4).unwrap(),
                    row.get::<String>(5).unwrap(),
                )
            })
            .pop();
        self.queue.peek_embed(row).unwrap()
    }

    fn peek_write(&self) -> Option<PendingWrite> {
        let row = self
            .rows(QueueQuery::FirstWrite, |row| {
                (
                    row.get::<i64>(0).unwrap(),
                    row.get::<i64>(1).unwrap(),
                    row.get::<String>(2).unwrap(),
                    row.get::<String>(3).unwrap(),
                    row.get::<Vec<u8>>(4).unwrap(),
                    row.get::<Vec<u8>>(5).unwrap(),
                )
            })
            .pop();
        self.queue.peek_write(row).unwrap()
    }

    fn promote_to_embeds(&self, id: i64, source: &str, metadata: &str, text: &str, chunks: &[TextChunk]) {
        self.apply(&self.queue.promote_to_embeds(id, source, metadata, text, chunks).unwrap());
    }

    fn promote_to_writes(
        &self,
        embed_id: i64,
        id: i64,
        source: &str,
        metadata: &str,
        text: Vec<u8>,
        blob: Vec<u8>,
    ) {
        self.apply(&self.queue.promote_to_writes(embed_id, id, source, metadata, text, blob));
    }

    fn retry_failed(&self) -> u64 {
        let (count, changes) = self.queue.retry_failed(self.count(QueueQuery::CountFailed));
        self.apply(&changes);
        count
    }

    fn reset_processing(&self) -> u64 {
        let (count, changes) = self.queue.reset_processing(self.count(QueueQuery::CountProcessing));
        self.apply(&changes);
        count
    }

    fn reset_pipeline(&self) -> u64 {
        let (count, changes) = self.queue.reset_pipeline(self.count(QueueQuery::CountOrphans));
        self.apply(&changes);
        count
    }
}

#[test]
fn test_queue_db_path() {
    assert_eq!(queue_db_path("capsa.db"), "capsa-queue.db");
    assert_eq!(queue_db_path("test.db"), "test-queue.db");
    assert_eq!(queue_db_path("/data/mydb"), "/data/mydb-queue");
    assert_eq!(queue_db_path("/path/to/capsa.db"), "/path/to/capsa-queue.db");
}

#[test]
fn test_enqueue_and_status() {
    let db = Db::new();
    db.enqueue("pdf:a.pdf", "{\"title\":\"A\"}", "hello");
    db.enqueue("pdf:b.pdf", "{}", "world");

    let s = db.status();
    assert_eq!(s.pending, 2);
    assert_eq!(s.chunked, 0);
    assert_eq!(s.embedded, 0);
    assert_eq!(s.done, 0);
    assert_eq!(s.failed, 0);
}

#[test]
fn test_dequeue_batch_marks_processing() {
    let db = Db::new();
    db.enqueue("s:a", "{}", "doc a");
    db.enqueue("s:b", "{}", "doc b");
    db.enqueue("s:c", "{}", "doc c");

    let items = db.dequeue_batch(2);
    assert_eq!(items.len(), 2);
    assert_eq!(db.status().pending, 1);
}

#[test]
fn test_dequeue_preserves_order() {
    let db = Db::new();
    db.enqueue("s:first", "{}", "first");
    db.enqueue("s:second", "{}", "second");

    let items = db.dequeue_batch(2);
    assert_eq!(items[0].text, "first");
    assert_eq!(items[1].text, "second");
}

#[test]
fn test_mark_done() {
    let db = Db::new();
    db.enqueue("s:a", "{}", "doc a");
    let items = db.dequeue_batch(1);
    db.apply(&[db.queue.mark_done(items[0].id)]);
    assert_eq!(db.status().done, 1);
}

#[test]
fn test_mark_failed() {
    let db = Db::new();
    db.enqueue("s:a", "{}", "doc a");
    let items = db.dequeue_batch(1);
    db.apply(&[db.queue.mark_failed(items[0].id, "embedding API timeout")]);

    assert_eq!(db.status().failed, 1);

    let failed = db.failed_items();
    assert_eq!(failed.len(), 1);
    assert_eq!(failed[0].error, "embedding API timeout");
    assert_eq!(failed[0].source, "s:a");
}

#[test]
fn test_reset_processing() {
    let db = Db::new();
    db.enqueue("s:a", "{}", "doc a");
    db.enqueue("s:b", "{}", "doc b");
    let _ = db.dequeue_batch(2);

    let reset = db.reset_processing();
    assert_eq!(reset, 2);
    assert_eq!(db.status().pending, 2);
}

#[test]
fn test_empty_dequeue() {
    let db = Db::new();
    let items = db.dequeue_batch(10);
    assert!(items.is_empty());
}

#[test]
fn test_peek_pending_empty() {
    let db = Db::new();
    assert!(db.peek_pending().is_none());
}

#[test]
fn test_peek_pending_does_not_consume() {
    let db = Db::new();
    db.enqueue("pdf:a.pdf", "{}", "hello");
    let item = db.peek_pending().unwrap();
    assert_eq!(item.source, "pdf:a.pdf");
    assert_eq!(item.text, "hello");
    assert_eq!(db.status().pending, 1);
}

#[test]
fn test_promote_to_embeds() {
    let db = Db::new();
    let id = db.enqueue("pdf:a.pdf", "{\"k\":\"v\"}", "text");
    let chunks = vec![chunk("search_document: text", 0, 4)];
    db.promote_to_embeds(id, "pdf:a.pdf", "{\"k\":\"v\"}", "text", &chunks);
    let s = db.status();
    assert_eq!(s.pending, 0);
    assert_eq!(s.chunked, 1);
    let embed = db.peek_embed().unwrap();
    assert_eq!(embed.queue_id, id);
    assert_eq!(embed.source, "pdf:a.pdf");
    assert_eq!(embed.chunks.len(), 1);
    assert_eq!(embed.chunks[0].0, "search_document: text");
    assert_eq!(embed.chunks[0].1, 0);
    assert_eq!(embed.chunks[0].2, 4);
}

#[test]
fn test_promote_to_writes() {
    let db = Db::new();
    let id = db.enqueue("pdf:a.pdf", "{}", "text");
    let chunks = vec![chunk("search_document: text", 0, 4)];
    db.promote_to_embeds(id, "pdf:a.pdf", "{}", "text", &chunks);
    let embed_id = db.peek_embed().unwrap().id;
    db.promote_to_writes(embed_id, id, "pdf:a.pdf", "{}", vec![1, 2, 3], vec![4, 5, 6]);
    assert!(db.peek_embed().is_none());
    let write = db.peek_write().unwrap();
    assert_eq!(write.queue_id, id);
    assert_eq!(write.compressed_text, vec![1, 2, 3]);
    assert_eq!(write.embeddings_blob, vec![4, 5, 6]);
}

#[test]
fn test_chunked_items_use_display_name_and_chunk_count() {
    let db = Db::new();
    let metadata = "{\"title\":\"Unknown\",\"drive_name\":\"real-name.pdf\"}";
    let id = db.enqueue("pdf:/tmp/random.pdf", metadata, "text");
    let chunks =
        vec![chunk("search_document: first", 0, 5), chunk("search_document: second", 6, 12)];
    db.promote_to_embeds(id, "pdf:/tmp/random.pdf", metadata, "text", &chunks);

    let items = db.chunked_items();
    assert_eq!(items.len(), 1);
    assert_eq!(items[0].display_name, "real-name.pdf");
    assert_eq!(items[0].size, 4);
    assert_eq!(items[0].chunk_count, Some(2));
    assert_eq!(items[0].aux_size, None);
}

#[test]
fn test_embedded_items_report_embedding_size_and_display_name() {
    let db = Db::new();
    let metadata = "{\"title\":\"spreadsheet-name.xlsx\"}";
    let id = db.enqueue("xls:/tmp/random.xlsx", metadata, "spreadsheet text");
    let chunks = vec![chunk("search_document: row", 0, 3)];
    db.promote_to_embeds(id, "xls:/tmp/random.xlsx", metadata, "spreadsheet text", &chunks);
    let embed_id = db.peek_embed().unwrap().id;
    db.promote_to_writes(
        embed_id,
        id,
        "xls:/tmp/random.xlsx",
        metadata,
        vec![1, 2, 3, 4],
        vec![9; 32],
    );

    let items = db.embedded_items();
    assert_eq!(items.len(), 1);
    assert_eq!(items[0].display_name, "spreadsheet-name.xlsx");
    assert_eq!(items[0].size, 32);
    assert_eq!(items[0].aux_size, Some(4));
    assert_eq!(items[0].chunk_count, None);
}

#[test]
fn test_complete_write() {
    let db = Db::new();
    let id = db.enqueue("pdf:a.pdf", "{}", "text");
    db.promote_to_embeds(id, "pdf:a.pdf", "{}", "text", &[chunk("c", 0, 1)]);
    let embed_id = db.peek_embed().unwrap().id;
    db.promote_to_writes(embed_id, id, "pdf:a.pdf", "{}", vec![], vec![]);
    let write_id = db.peek_write().unwrap().id;
    db.apply(&db.queue.complete_write(write_id, id));
    assert_eq!(db.status().done, 1);
    assert!(db.peek_write().is_none());
}

#[test]
fn test_fail_embed() {
    let db = Db::new();
    let id = db.enqueue("pdf:a.pdf", "{}", "text");
    db.promote_to_embeds(id, "pdf:a.pdf", "{}", "text", &[chunk("c", 0, 1)]);
    let embed_id = db.peek_embed().unwrap().id;
    db.apply(&db.queue.fail_embed(embed_id, id, "timeout"));
    assert_eq!(db.status().failed, 1);
    assert!(db.peek_embed().is_none());
    assert_eq!(db.failed_items()[0].error, "timeout");
}

#[test]
fn test_fail_write() {
    let db = Db::new();
    let id = db.enqueue("pdf:a.pdf", "{}", "text");
    db.promote_to_embeds(id, "pdf:a.pdf", "{}", "text", &[chunk("c", 0, 1)]);
    let embed_id = db.peek_embed().unwrap().id;
    db.promote_to_writes(embed_id, id, "pdf:a.pdf", "{}", vec![], vec![]);
    let write_id = db.peek_write().unwrap().id;
    db.apply(&db.queue.fail_write(write_id, id, "db error"));
    assert_eq!(db.status().failed, 1);
    assert!(db.peek_write().is_none());
}

#[test]
fn test_reset_pipeline_preserves_intermediate_tables() {
    let db = Db::new();
    let id = db.enqueue("pdf:a.pdf", "{}", "text");
    db.promote_to_embeds(id, "pdf:a.pdf", "{}", "text", &[chunk("c", 0, 1)]);
    let reset = db.reset_pipeline();
    assert_eq!(reset, 0);
    assert!(db.peek_embed().is_some());
    let s = db.status();
    assert_eq!(s.pending, 0);
    assert_eq!(s.chunked, 1);
}

#[test]
fn test_reset_pipeline_fixes_orphans() {
    let db = Db::new();
    db.enqueue("pdf:a.pdf", "{}", "text");
    let _ = db.dequeue_batch(1);
    let reset = db.reset_pipeline();
    assert_eq!(reset, 1);
    assert_eq!(db.status().pending, 1);
}

#[test]
fn reset_pipeline_tells_orphans_from_work_by_the_number_in_the_queue() {
    let db = Db::new();
    // The item of the embedding stage gets a number that differs from that of its document.
    db.enqueue("s:a", "{}", "orphan");
    let held = db.enqueue("s:b", "{}", "held");
    let _ = db.dequeue_batch(1);
    db.promote_to_embeds(held, "s:b", "{}", "held", &[chunk("c", 0, 1)]);
    assert_ne!(db.peek_embed().unwrap().id, held);

    assert_eq!(db.reset_pipeline(), 1);
    let s = db.status();
    assert_eq!(s.pending, 1);
    assert_eq!(s.chunked, 1);
    assert_eq!(db.peek_pending().unwrap().text, "orphan");

    // An item with the number of another document's row does not hide an orphan.
    let db = Db::new();
    let held = db.enqueue("s:a", "{}", "held");
    db.enqueue("s:b", "{}", "orphan");
    db.promote_to_embeds(held, "s:a", "{}", "held", &[chunk("c", 0, 1)]);
    assert_eq!(db.peek_embed().unwrap().id, held);
    let _ = db.dequeue_batch(1);
    assert_eq!(db.reset_pipeline(), 1);
    assert_eq!(db.status().pending, 1);
    assert_eq!(db.reset_pipeline(), 0);
}

#[test]
fn retry_failed_makes_documents_pending_without_an_error() {
    let db = Db::new();
    assert_eq!(db.retry_failed(), 0);
    let a = db.enqueue("s:a", "{}", "a");
    let b = db.enqueue("s:b", "{}", "b");
    db.enqueue("s:c", "{}", "c");
    db.apply(&[db.queue.mark_failed(a, "x"), db.queue.mark_failed(b, "y")]);
    assert_eq!(db.status().failed, 2);
    assert_eq!(db.retry_failed(), 2);
    let s = db.status();
    assert_eq!((s.pending, s.failed), (3, 0));
    assert!(db.failed_items().is_empty());
    assert_eq!(db.peek_pending().unwrap().id, a);
}

#[test]
fn the_stages_count_every_document_once() {
    let db = Db::new();
    let ids: Vec<i64> = (0..7).map(|i| db.enqueue("s", "{}", &format!("doc {}", i))).collect();
    for id in &ids[..5] {
        db.promote_to_embeds(*id, "s", "{}", "t", &[chunk("c", 0, 1)]);
    }
    for _ in 0..3 {
        let item = db.peek_embed().unwrap();
        db.promote_to_writes(item.id, item.queue_id, "s", "{}", vec![], vec![]);
    }
    let item = db.peek_write().unwrap();
    db.apply(&db.queue.complete_write(item.id, item.queue_id));
    let item = db.peek_embed().unwrap();
    db.apply(&db.queue.fail_embed(item.id, item.queue_id, "e"));
    let s = db.status();
    assert_eq!((s.pending, s.chunked, s.embedded, s.done, s.failed), (2, 1, 2, 1, 1));
    assert_eq!(s.pending + s.chunked + s.embedded + s.done + s.failed, 7);
    assert_eq!(db.reset_pipeline(), 0);
}

#[test]
fn stage_sizes_are_in_bytes() {
    let db = Db::new();
    let id = db.enqueue("s:x", "{}", "größe");
    db.promote_to_embeds(id, "s:x", "{}", "größe", &[chunk("c", 0, 1)]);
    assert_eq!(db.chunked_items()[0].size, 7);
}

#[test]
fn chunks_come_back_as_they_were_handed_on() {
    let db = Db::new();
    let id = db.enqueue("s", "{}", "t");
    let chunks = vec![chunk("quote \" and \n and ü", 1, usize::MAX), chunk("", 0, 0)];
    db.promote_to_embeds(id, "s", "{}", "t", &chunks);
    assert_eq!(db.peek_embed().unwrap().chunks, chunks);
}

#[test]
fn rows_whose_metadata_is_no_json_are_refused() {
    let queue = QueueConnection {};
    let row = (1, "s".to_string(), "not json".to_string(), "t".to_string());
    assert!(matches!(
        queue.peek_pending(Some(row.clone())),
        Err(CapsaError::Processing(ProcessingError::Json(_)))
    ));
    let good = (1, "s".to_string(), "{}".to_string(), "t".to_string());
    assert!(queue.peek_pending_batch(vec![good, row]).is_err());
    let embed = (1, 1, "s".to_string(), "{}".to_string(), "t".to_string(), "{".to_string());
    assert!(matches!(
        queue.peek_embed(Some(embed)),
        Err(CapsaError::Processing(ProcessingError::Json(_)))
    ));
    let write = (1, 1, "s".to_string(), "[".to_string(), vec![], vec![]);
    assert!(queue.peek_write(Some(write)).is_err());
    assert!(queue.peek_write(None).unwrap().is_none());
    let stage = ("s".to_string(), "?".to_string(), 1, 2);
    assert!(queue.chunked_items(&vec![stage.clone()]).is_err());
    assert!(queue.embedded_items(&vec![stage]).is_err());
    let failed = (1, "s".to_string(), "?".to_string(), "e".to_string(), 3);
    assert!(queue.failed_items(&vec![failed]).is_err());
}

#[test]
fn counts_that_are_missing_are_zero() {
    let queue = QueueConnection {};
    let (count, changes) = queue.retry_failed(None);
    assert_eq!(count, 0);
    assert!(changes.is_empty());
    let (count, changes) = queue.reset_processing(None);
    assert_eq!(count, 0);
    assert!(changes.is_empty());
    let (count, changes) = queue.reset_pipeline(None);
    assert_eq!(count, 0);
    assert_eq!(changes.len(), 1);
    let s = queue.status_counts(&vec![], None, None);
    assert_eq!((s.pending, s.chunked, s.embedded, s.done, s.failed), (0, 0, 0, 0, 0));
}

#[test]
fn a_new_document_is_the_last_of_the_pending() {
    let db = Db::new();
    let a = db.enqueue("s:a", "{}", "doc a");
    let b = db.enqueue("s:b", "{\"k\":1}", "doc b");
    db.apply(&[db.queue.mark_done(a)]);
    let before = db.status();
    let c = db.enqueue("s:c", "{\"title\":\"C\"}", "doc c");
    assert!(c > b && b > a);
    let rows = db.rows(QueueQuery::PendingBatch { limit: i64::MAX as usize }, Db::pending_row);
    let items = db.queue.peek_pending_batch(rows).unwrap();
    let ids: Vec<i64> = items.iter().map(|item| item.id).collect();
    assert_eq!(ids, vec![b, c]);
    let last = items.last().unwrap();
    assert_eq!(last.source, "s:c");
    assert_eq!(last.metadata, "{\"title\":\"C\"}");
    assert_eq!(last.text, "doc c");
    let after = db.status();
    assert_eq!(after.pending, before.pending + 1);
    assert_eq!((after.done, after.failed), (before.done, before.failed));
}

#[test]
fn nothing_is_taken_where_the_metadata_of_one_is_no_json() {
    let row = |id: i64, metadata: &str| {
        (id, "s".to_string(), metadata.to_string(), "text".to_string())
    };
    let queue = QueueConnection {};
    let err = queue.dequeue_batch(vec![row(1, "{}"), row(2, "{"), row(3, "[")]).unwrap_err();
    let expected = serde_json::from_str::<serde_json::Value>("{").unwrap_err().to_string();
    assert_eq!(err.message(), format!("Processing error: JSON processing error: {}", expected));
    let (items, changes) = queue.dequeue_batch(vec![row(4, "{}"), row(5, "1")]).unwrap();
    assert_eq!(items.iter().map(|item| item.id).collect::<Vec<_>>(), vec![4, 5]);
    assert!(matches!(
        changes.as_slice(),
        [QueueStatement::SetProcessing { id: 4 }, QueueStatement::SetProcessing { id: 5 }]
    ));
}

#[test]
fn a_queue_of_which_the_last_number_is_used_takes_no_more() {
    let db = Db::new();
    let first = db.enqueue("s:a", "{}", "doc a");
    db.rt.block_on(async {
        let sql = "UPDATE sqlite_sequence SET seq = ?1 WHERE name = 'capsa_queue'";
        db.conn.execute(sql, vec![Value::Integer(i64::MAX - 1)]).await.unwrap();
    });
    let last = db.enqueue("s:b", "{}", "doc b");
    assert_eq!((first, last), (1, i64::MAX));
    let before = db.status();
    let refused = db.queue.enqueue("s:c", "{}", "doc c").to_statement();
    let outcome =
        db.rt.block_on(async { db.conn.execute(&refused.sql, values(&refused)).await });
    assert!(outcome.is_err());
    let after = db.status();
    assert_eq!((after.pending, after.done, after.failed), (2, before.done, before.failed));
    assert_eq!(before.pending, 2);
    let ids: Vec<i64> = db.dequeue_batch(i64::MAX as usize).iter().map(|item| item.id).collect();
    assert_eq!(ids, vec![1, i64::MAX]);
}

#[test]
fn the_documents_of_all_statuses_are_those_that_were_enqueued() {
    let db = Db::new();
    let ids: Vec<i64> = (0..6).map(|i| db.enqueue("s:x", "{}", &format!("doc {}", i))).collect();
    assert!(ids.windows(2).all(|w| w[0] < w[1]));
    db.dequeue_batch(4);
    db.apply(&[db.queue.mark_done(ids[0])]);
    db.apply(&[db.queue.mark_failed(ids[1], "no")]);
    let status = db.status();
    assert_eq!((status.pending, status.done, status.failed), (2, 1, 1));
    assert_eq!((status.chunked, status.embedded), (0, 0));
    let processing = 2;
    assert_eq!(status.pending + status.done + status.failed + processing, 6);
}
