//! What the queries of the queue return: the text of each is that of a query, and this tells of the
//! tables what the model of the queue says.

use vstd::prelude::*;
use crate::codec::json_chunks;
use crate::queue::QueueQuery;
use crate::queue_history::{
    at_most, law_pending_in_order, pending_ids, pending_rows, row_of, PendingView,
};
use crate::queue_meaning::{
    is_embed_row, is_job_row, is_write_row, lemma_digits, lemma_held, lemma_names,
    lemma_names_differ, lemma_statuses, lemma_with_status, stands_for,
};
use crate::queue_model::{
    count_with, counts_by_status, has_status, is_orphan, jobs_with, status_name, valid, Job,
    JobStatus, Tables, WaitingEmbed, WaitingWrite,
};
use crate::relations::{
    all_wanted, all_with, answers, are_counts, holds, is_selection, list, named, number, row_limit,
    shown, sorted_before, term_texts, value, wanted, Cell, Condition, Database, Query, Scope,
    SortKey, Term,
};
use crate::sql::ParamView;
use crate::text::byte_len;

verus! {

/// What the statement of a question to the queue asks.
pub open spec fn query_of(q: QueueQuery) -> Query {
    match q {
        QueueQuery::PendingBatch { .. } => Query::Rows { values: seq![Term::Column("id"@), Term::Column("source"@), Term::Column("metadata"@), Term::Column("text"@)], table: "capsa_queue"@, condition: Some(Condition::Same(Term::Column("status"@), Term::Text("pending"@))), order: seq![SortKey { column: "id"@, descending: false }], limit: Some(Term::Param(1)) },
        QueueQuery::FirstPending => Query::Rows { values: seq![Term::Column("id"@), Term::Column("source"@), Term::Column("metadata"@), Term::Column("text"@)], table: "capsa_queue"@, condition: Some(Condition::Same(Term::Column("status"@), Term::Text("pending"@))), order: seq![SortKey { column: "id"@, descending: false }], limit: Some(Term::Number(1)) },
        QueueQuery::FirstEmbed => Query::Rows { values: seq![Term::Column("id"@), Term::Column("queue_id"@), Term::Column("source"@), Term::Column("metadata"@), Term::Column("text"@), Term::Column("chunks"@)], table: "pending_embeds"@, condition: None, order: seq![SortKey { column: "id"@, descending: false }], limit: Some(Term::Number(1)) },
        QueueQuery::FirstWrite => Query::Rows { values: seq![Term::Column("id"@), Term::Column("queue_id"@), Term::Column("source"@), Term::Column("metadata"@), Term::Column("compressed_text"@), Term::Column("embeddings"@)], table: "pending_writes"@, condition: None, order: seq![SortKey { column: "id"@, descending: false }], limit: Some(Term::Number(1)) },
        QueueQuery::FailedItems => Query::Rows { values: seq![Term::Column("id"@), Term::Column("source"@), Term::Column("metadata"@), Term::Coalesce(Box::new(Term::Column("error"@)), Box::new(Term::Text(Seq::empty()))), Term::Column("created_at"@)], table: "capsa_queue"@, condition: Some(Condition::Same(Term::Column("status"@), Term::Text("failed"@))), order: seq![SortKey { column: "created_at"@, descending: true }, SortKey { column: "id"@, descending: true }], limit: None },
        QueueQuery::ChunkedItems => Query::Rows { values: seq![Term::Column("source"@), Term::Column("metadata"@), Term::TextLength(Box::new(Term::Column("text"@))), Term::ArrayLength(Box::new(Term::Column("chunks"@)))], table: "pending_embeds"@, condition: None, order: seq![SortKey { column: "id"@, descending: false }], limit: None },
        QueueQuery::EmbeddedItems => Query::Rows { values: seq![Term::Column("source"@), Term::Column("metadata"@), Term::Length(Box::new(Term::Column("embeddings"@))), Term::Length(Box::new(Term::Column("compressed_text"@)))], table: "pending_writes"@, condition: None, order: seq![SortKey { column: "id"@, descending: false }], limit: None },
        QueueQuery::CountFailed => Query::Count { table: "capsa_queue"@, name: None, condition: Some(Condition::Same(Term::Column("status"@), Term::Text("failed"@))) },
        QueueQuery::CountProcessing => Query::Count { table: "capsa_queue"@, name: None, condition: Some(Condition::Same(Term::Column("status"@), Term::Text("processing"@))) },
        QueueQuery::CountOrphans => Query::Count { table: "capsa_queue"@, name: Some("cq"@), condition: Some(Condition::Both(Box::new(Condition::Both(Box::new(Condition::Same(Term::Of("cq"@, "status"@), Term::Text("processing"@))), Box::new(Condition::NoRow("pending_embeds"@, "pe"@, Term::Of("pe"@, "queue_id"@), Term::Of("cq"@, "id"@))))), Box::new(Condition::NoRow("pending_writes"@, "pw"@, Term::Of("pw"@, "queue_id"@), Term::Of("cq"@, "id"@))))) },
        QueueQuery::CountByStatus => Query::CountBy { table: "capsa_queue"@, column: "status"@ },
        QueueQuery::CountEmbeds => Query::Count { table: "pending_embeds"@, name: None, condition: None },
        QueueQuery::CountWrites => Query::Count { table: "pending_writes"@, name: None, condition: None },
    }
}

#[verifier::rlimit(60)]
proof fn lemma_pending_batch_text(c: QueueQuery)
    requires
        c is PendingBatch,
    ensures
        query_of(c).text() == c.statement().sql,
{
    reveal_strlit("SELECT ");
    reveal_strlit(" FROM ");
    reveal_strlit(", ");
    reveal_strlit(" ORDER BY ");
    reveal_strlit(" LIMIT ");
    reveal_strlit(" WHERE ");
    reveal_strlit(" = ");
    reveal_strlit("?");
    reveal_strlit("'");
    reveal_strlit("id");
    reveal_strlit("source");
    reveal_strlit("metadata");
    reveal_strlit("text");
    reveal_strlit("capsa_queue");
    reveal_strlit("status");
    reveal_strlit("pending");
    reveal_strlit("SELECT id, source, metadata, text FROM capsa_queue WHERE status = 'pending' ORDER BY id LIMIT ?1");
    reveal_with_fuel(list, 7);
    reveal_with_fuel(Term::text, 3);
    reveal_with_fuel(Condition::text, 4);
    lemma_digits();
    reveal_strlit("id, source, metadata, text");
    let values = query_of(c)->Rows_values;
    assert(list(term_texts(values), values.len() as int) =~= "id, source, metadata, text"@);
    reveal_strlit("status = 'pending'");
    assert((query_of(c)->Rows_condition->0).text() =~= "status = 'pending'"@);
    assert(query_of(c).text() =~= "SELECT id, source, metadata, text FROM capsa_queue WHERE status = 'pending' ORDER BY id LIMIT ?1"@);
}

#[verifier::rlimit(60)]
proof fn lemma_first_pending_text(c: QueueQuery)
    requires
        c is FirstPending,
    ensures
        query_of(c).text() == c.statement().sql,
{
    reveal_strlit("SELECT ");
    reveal_strlit(" FROM ");
    reveal_strlit(", ");
    reveal_strlit(" ORDER BY ");
    reveal_strlit(" LIMIT ");
    reveal_strlit(" WHERE ");
    reveal_strlit(" = ");
    reveal_strlit("'");
    reveal_strlit("id");
    reveal_strlit("source");
    reveal_strlit("metadata");
    reveal_strlit("text");
    reveal_strlit("capsa_queue");
    reveal_strlit("status");
    reveal_strlit("pending");
    reveal_strlit("SELECT id, source, metadata, text FROM capsa_queue WHERE status = 'pending' ORDER BY id LIMIT 1");
    reveal_with_fuel(list, 7);
    reveal_with_fuel(Term::text, 3);
    reveal_with_fuel(Condition::text, 4);
    lemma_digits();
    reveal_strlit("id, source, metadata, text");
    let values = query_of(c)->Rows_values;
    assert(list(term_texts(values), values.len() as int) =~= "id, source, metadata, text"@);
    reveal_strlit("status = 'pending'");
    assert((query_of(c)->Rows_condition->0).text() =~= "status = 'pending'"@);
    assert(query_of(c).text() =~= "SELECT id, source, metadata, text FROM capsa_queue WHERE status = 'pending' ORDER BY id LIMIT 1"@);
}

#[verifier::rlimit(60)]
proof fn lemma_first_embed_text(c: QueueQuery)
    requires
        c is FirstEmbed,
    ensures
        query_of(c).text() == c.statement().sql,
{
    reveal_strlit("SELECT ");
    reveal_strlit(" FROM ");
    reveal_strlit(", ");
    reveal_strlit(" ORDER BY ");
    reveal_strlit(" LIMIT ");
    reveal_strlit("id");
    reveal_strlit("queue_id");
    reveal_strlit("source");
    reveal_strlit("metadata");
    reveal_strlit("text");
    reveal_strlit("chunks");
    reveal_strlit("pending_embeds");
    reveal_strlit("SELECT id, queue_id, source, metadata, text, chunks FROM pending_embeds ORDER BY id LIMIT 1");
    reveal_with_fuel(list, 7);
    reveal_with_fuel(Term::text, 3);
    reveal_with_fuel(Condition::text, 4);
    lemma_digits();
    reveal_strlit("id, queue_id, source, metadata, text, chunks");
    let values = query_of(c)->Rows_values;
    assert(list(term_texts(values), values.len() as int) =~= "id, queue_id, source, metadata, text, chunks"@);
    assert(query_of(c).text() =~= "SELECT id, queue_id, source, metadata, text, chunks FROM pending_embeds ORDER BY id LIMIT 1"@);
}

#[verifier::rlimit(60)]
proof fn lemma_first_write_text(c: QueueQuery)
    requires
        c is FirstWrite,
    ensures
        query_of(c).text() == c.statement().sql,
{
    reveal_strlit("SELECT ");
    reveal_strlit(" FROM ");
    reveal_strlit(", ");
    reveal_strlit(" ORDER BY ");
    reveal_strlit(" LIMIT ");
    reveal_strlit("id");
    reveal_strlit("queue_id");
    reveal_strlit("source");
    reveal_strlit("metadata");
    reveal_strlit("compressed_text");
    reveal_strlit("embeddings");
    reveal_strlit("pending_writes");
    reveal_strlit("SELECT id, queue_id, source, metadata, compressed_text, embeddings FROM pending_writes ORDER BY id LIMIT 1");
    reveal_with_fuel(list, 7);
    reveal_with_fuel(Term::text, 3);
    reveal_with_fuel(Condition::text, 4);
    lemma_digits();
    reveal_strlit("id, queue_id, source, metadata, compressed_text, embeddings");
    let values = query_of(c)->Rows_values;
    assert(list(term_texts(values), values.len() as int) =~= "id, queue_id, source, metadata, compressed_text, embeddings"@);
    assert(query_of(c).text() =~= "SELECT id, queue_id, source, metadata, compressed_text, embeddings FROM pending_writes ORDER BY id LIMIT 1"@);
}

#[verifier::rlimit(60)]
proof fn lemma_failed_items_text(c: QueueQuery)
    requires
        c is FailedItems,
    ensures
        query_of(c).text() == c.statement().sql,
{
    reveal_strlit("SELECT ");
    reveal_strlit(" FROM ");
    reveal_strlit(", ");
    reveal_strlit(" ORDER BY ");
    reveal_strlit(" DESC");
    reveal_strlit(" WHERE ");
    reveal_strlit(" = ");
    reveal_strlit("'");
    reveal_strlit("COALESCE(");
    reveal_strlit(")");
    reveal_strlit("id");
    reveal_strlit("source");
    reveal_strlit("metadata");
    reveal_strlit("error");
    reveal_strlit("created_at");
    reveal_strlit("capsa_queue");
    reveal_strlit("status");
    reveal_strlit("failed");
    reveal_strlit("SELECT id, source, metadata, COALESCE(error, ''), created_at FROM capsa_queue WHERE status = 'failed' ORDER BY created_at DESC, id DESC");
    reveal_with_fuel(list, 7);
    reveal_with_fuel(Term::text, 3);
    reveal_with_fuel(Condition::text, 4);
    lemma_digits();
    reveal_strlit("id, source, metadata, COALESCE(error, ''), created_at");
    let values = query_of(c)->Rows_values;
    assert(list(term_texts(values), values.len() as int) =~= "id, source, metadata, COALESCE(error, ''), created_at"@);
    reveal_strlit("status = 'failed'");
    assert((query_of(c)->Rows_condition->0).text() =~= "status = 'failed'"@);
    assert(query_of(c).text() =~= "SELECT id, source, metadata, COALESCE(error, ''), created_at FROM capsa_queue WHERE status = 'failed' ORDER BY created_at DESC, id DESC"@);
}

#[verifier::rlimit(60)]
proof fn lemma_chunked_items_text(c: QueueQuery)
    requires
        c is ChunkedItems,
    ensures
        query_of(c).text() == c.statement().sql,
{
    reveal_strlit("SELECT ");
    reveal_strlit(" FROM ");
    reveal_strlit(", ");
    reveal_strlit(" ORDER BY ");
    reveal_strlit("'");
    reveal_strlit("LENGTH(CAST(");
    reveal_strlit(" AS BLOB))");
    reveal_strlit("json_array_length(");
    reveal_strlit(")");
    reveal_strlit("source");
    reveal_strlit("metadata");
    reveal_strlit("text");
    reveal_strlit("chunks");
    reveal_strlit("pending_embeds");
    reveal_strlit("id");
    reveal_strlit("SELECT source, metadata, LENGTH(CAST(text AS BLOB)), json_array_length(chunks) FROM pending_embeds ORDER BY id");
    reveal_with_fuel(list, 7);
    reveal_with_fuel(Term::text, 3);
    reveal_with_fuel(Condition::text, 4);
    lemma_digits();
    reveal_strlit("source, metadata, LENGTH(CAST(text AS BLOB)), json_array_length(chunks)");
    let values = query_of(c)->Rows_values;
    assert(list(term_texts(values), values.len() as int) =~= "source, metadata, LENGTH(CAST(text AS BLOB)), json_array_length(chunks)"@);
    assert(query_of(c).text() =~= "SELECT source, metadata, LENGTH(CAST(text AS BLOB)), json_array_length(chunks) FROM pending_embeds ORDER BY id"@);
}

#[verifier::rlimit(60)]
proof fn lemma_embedded_items_text(c: QueueQuery)
    requires
        c is EmbeddedItems,
    ensures
        query_of(c).text() == c.statement().sql,
{
    reveal_strlit("SELECT ");
    reveal_strlit(" FROM ");
    reveal_strlit(", ");
    reveal_strlit(" ORDER BY ");
    reveal_strlit("LENGTH(");
    reveal_strlit(")");
    reveal_strlit("source");
    reveal_strlit("metadata");
    reveal_strlit("embeddings");
    reveal_strlit("compressed_text");
    reveal_strlit("pending_writes");
    reveal_strlit("id");
    reveal_strlit("SELECT source, metadata, LENGTH(embeddings), LENGTH(compressed_text) FROM pending_writes ORDER BY id");
    reveal_with_fuel(list, 7);
    reveal_with_fuel(Term::text, 3);
    reveal_with_fuel(Condition::text, 4);
    lemma_digits();
    reveal_strlit("source, metadata, LENGTH(embeddings), LENGTH(compressed_text)");
    let values = query_of(c)->Rows_values;
    assert(list(term_texts(values), values.len() as int) =~= "source, metadata, LENGTH(embeddings), LENGTH(compressed_text)"@);
    assert(query_of(c).text() =~= "SELECT source, metadata, LENGTH(embeddings), LENGTH(compressed_text) FROM pending_writes ORDER BY id"@);
}

#[verifier::rlimit(60)]
proof fn lemma_count_failed_text(c: QueueQuery)
    requires
        c is CountFailed,
    ensures
        query_of(c).text() == c.statement().sql,
{
    reveal_strlit("SELECT COUNT(*) FROM ");
    reveal_strlit(" WHERE ");
    reveal_strlit(" = ");
    reveal_strlit("'");
    reveal_strlit("capsa_queue");
    reveal_strlit("status");
    reveal_strlit("failed");
    reveal_strlit("SELECT COUNT(*) FROM capsa_queue WHERE status = 'failed'");
    reveal_with_fuel(list, 7);
    reveal_with_fuel(Term::text, 3);
    reveal_with_fuel(Condition::text, 4);
    lemma_digits();
    assert(query_of(c).text() =~= "SELECT COUNT(*) FROM capsa_queue WHERE status = 'failed'"@);
}

#[verifier::rlimit(60)]
proof fn lemma_count_processing_text(c: QueueQuery)
    requires
        c is CountProcessing,
    ensures
        query_of(c).text() == c.statement().sql,
{
    reveal_strlit("SELECT COUNT(*) FROM ");
    reveal_strlit(" WHERE ");
    reveal_strlit(" = ");
    reveal_strlit("'");
    reveal_strlit("capsa_queue");
    reveal_strlit("status");
    reveal_strlit("processing");
    reveal_strlit("SELECT COUNT(*) FROM capsa_queue WHERE status = 'processing'");
    reveal_with_fuel(list, 7);
    reveal_with_fuel(Term::text, 3);
    reveal_with_fuel(Condition::text, 4);
    lemma_digits();
    assert(query_of(c).text() =~= "SELECT COUNT(*) FROM capsa_queue WHERE status = 'processing'"@);
}

#[verifier::rlimit(60)]
proof fn lemma_count_orphans_text(c: QueueQuery)
    requires
        c is CountOrphans,
    ensures
        query_of(c).text() == c.statement().sql,
{
    reveal_strlit("SELECT COUNT(*) FROM ");
    reveal_strlit(" WHERE ");
    reveal_strlit(" ");
    reveal_strlit(" = ");
    reveal_strlit(" AND ");
    reveal_strlit("NOT EXISTS (SELECT 1 FROM ");
    reveal_strlit(")");
    reveal_strlit(".");
    reveal_strlit("'");
    reveal_strlit("capsa_queue");
    reveal_strlit("cq");
    reveal_strlit("status");
    reveal_strlit("processing");
    reveal_strlit("pending_embeds");
    reveal_strlit("pe");
    reveal_strlit("queue_id");
    reveal_strlit("id");
    reveal_strlit("pending_writes");
    reveal_strlit("pw");
    reveal_strlit("SELECT COUNT(*) FROM capsa_queue cq WHERE cq.status = 'processing' AND NOT EXISTS (SELECT 1 FROM pending_embeds pe WHERE pe.queue_id = cq.id) AND NOT EXISTS (SELECT 1 FROM pending_writes pw WHERE pw.queue_id = cq.id)");
    reveal_with_fuel(list, 7);
    reveal_with_fuel(Term::text, 3);
    reveal_with_fuel(Condition::text, 4);
    lemma_digits();
    assert(query_of(c).text() =~= "SELECT COUNT(*) FROM capsa_queue cq WHERE cq.status = 'processing' AND NOT EXISTS (SELECT 1 FROM pending_embeds pe WHERE pe.queue_id = cq.id) AND NOT EXISTS (SELECT 1 FROM pending_writes pw WHERE pw.queue_id = cq.id)"@);
}

#[verifier::rlimit(60)]
proof fn lemma_count_by_status_text(c: QueueQuery)
    requires
        c is CountByStatus,
    ensures
        query_of(c).text() == c.statement().sql,
{
    reveal_strlit("SELECT ");
    reveal_strlit(", COUNT(*) FROM ");
    reveal_strlit(" GROUP BY ");
    reveal_strlit("capsa_queue");
    reveal_strlit("status");
    reveal_strlit("SELECT status, COUNT(*) FROM capsa_queue GROUP BY status");
    reveal_with_fuel(list, 7);
    reveal_with_fuel(Term::text, 3);
    reveal_with_fuel(Condition::text, 4);
    lemma_digits();
    assert(query_of(c).text() =~= "SELECT status, COUNT(*) FROM capsa_queue GROUP BY status"@);
}

#[verifier::rlimit(60)]
proof fn lemma_count_embeds_text(c: QueueQuery)
    requires
        c is CountEmbeds,
    ensures
        query_of(c).text() == c.statement().sql,
{
    reveal_strlit("SELECT COUNT(*) FROM ");
    reveal_strlit("pending_embeds");
    reveal_strlit("SELECT COUNT(*) FROM pending_embeds");
    reveal_with_fuel(list, 7);
    reveal_with_fuel(Term::text, 3);
    reveal_with_fuel(Condition::text, 4);
    lemma_digits();
    assert(query_of(c).text() =~= "SELECT COUNT(*) FROM pending_embeds"@);
}

#[verifier::rlimit(60)]
proof fn lemma_count_writes_text(c: QueueQuery)
    requires
        c is CountWrites,
    ensures
        query_of(c).text() == c.statement().sql,
{
    reveal_strlit("SELECT COUNT(*) FROM ");
    reveal_strlit("pending_writes");
    reveal_strlit("SELECT COUNT(*) FROM pending_writes");
    reveal_with_fuel(list, 7);
    reveal_with_fuel(Term::text, 3);
    reveal_with_fuel(Condition::text, 4);
    lemma_digits();
    assert(query_of(c).text() =~= "SELECT COUNT(*) FROM pending_writes"@);
}

/// The statement of a question to the queue is the text of that query.
#[verifier::rlimit(60)]
pub proof fn law_query_text(q: QueueQuery)
    ensures
        query_of(q).text() == q.statement().sql,
        query_of(q).wf(),
{
    lemma_names();
    reveal_with_fuel(Term::wf, 3);
    reveal_with_fuel(Condition::wf, 4);
    match q {
        QueueQuery::PendingBatch { .. } => lemma_pending_batch_text(q),
        QueueQuery::FirstPending => lemma_first_pending_text(q),
        QueueQuery::FirstEmbed => lemma_first_embed_text(q),
        QueueQuery::FirstWrite => lemma_first_write_text(q),
        QueueQuery::FailedItems => lemma_failed_items_text(q),
        QueueQuery::ChunkedItems => lemma_chunked_items_text(q),
        QueueQuery::EmbeddedItems => lemma_embedded_items_text(q),
        QueueQuery::CountFailed => lemma_count_failed_text(q),
        QueueQuery::CountProcessing => lemma_count_processing_text(q),
        QueueQuery::CountOrphans => lemma_count_orphans_text(q),
        QueueQuery::CountByStatus => lemma_count_by_status_text(q),
        QueueQuery::CountEmbeds => lemma_count_embeds_text(q),
        QueueQuery::CountWrites => lemma_count_writes_text(q),
    }
}

/// The values of a row of pending documents.
pub open spec fn pending_cells(r: PendingView) -> Seq<Cell> {
    seq![
        Cell::Integer(r.0 as int),
        Cell::Text(r.1),
        Cell::Text(r.2),
        Cell::Text(r.3),
    ]
}

/// The keys that sort by number.
spec fn by_number() -> Seq<SortKey> {
    seq![SortKey { column: "id"@, descending: false }]
}

proof fn lemma_by_number(db: Database, table: Seq<char>, a: i64, b: i64)
    ensures
        sorted_before(db, table, by_number(), 0, a, b) == (a < b),
{
    reveal_with_fuel(sorted_before, 3);
}

/// Of two ascending lists, one that leaves out the highest numbers of the other alone is the
/// beginning of it.
proof fn lemma_beginning(ids: Seq<i64>, all: Seq<i64>, i: int)
    requires
        forall|a: int, b: int| 0 <= a < b < ids.len() ==> ids[a] < ids[b],
        forall|a: int, b: int| 0 <= a < b < all.len() ==> all[a] < all[b],
        forall|a: int| 0 <= a < ids.len() ==> all.contains(#[trigger] ids[a]),
        forall|id: i64| #[trigger]
            all.contains(id) && !ids.contains(id) ==> forall|a: int|
                0 <= a < ids.len() ==> ids[a] < id,
        0 <= i <= ids.len(),
    ensures
        i <= all.len(),
        forall|k: int| 0 <= k < i ==> ids[k] == all[k],
    decreases i,
{
    if i > 0 {
        lemma_beginning(ids, all, i - 1);
        let j = i - 1;
        assert(all.contains(ids[j]));
        let m = choose|m: int| 0 <= m < all.len() && all[m] == ids[j];
        if m < j {
            assert(ids[m] == all[m]);
        } else if m > j {
            let x = all[j];
            assert(all.contains(x));
            assert(x < all[m]);
            if ids.contains(x) {
                let k = choose|k: int| 0 <= k < ids.len() && ids[k] == x;
                if k < j {
                    assert(ids[k] == all[k]);
                } else if k > j {
                    assert(ids[j] < ids[k]);
                }
            }
            assert(ids[j] < x);
        }
    }
}

proof fn lemma_pending_selection(
    db: Database,
    t: Tables,
    limit: nat,
    params: Seq<ParamView>,
    ids: Seq<i64>,
)
    requires
        stands_for(db, t),
        valid(t),
        is_selection(
            db,
            "capsa_queue"@,
            Some(Condition::Same(Term::Column("status"@), Term::Text("pending"@))),
            by_number(),
            Some(limit as int),
            params,
            ids,
        ),
    ensures
        ids == pending_ids(t).take(at_most(limit, pending_ids(t).len()) as int),
{
    let condition = Some(Condition::Same(Term::Column("status"@), Term::Text("pending"@)));
    let all = pending_ids(t);
    law_pending_in_order(t);
    assert forall|id: i64| #[trigger]
        wanted(db, "capsa_queue"@, "capsa_queue"@, condition, id, params) == all.contains(id) by {
        if t.jobs.dom().contains(id) {
            lemma_with_status(db, t, id, JobStatus::Pending, params, 0);
        }
        assert(all.contains(id) == has_status(t, id, JobStatus::Pending));
    }
    assert forall|a: int, b: int| 0 <= a < b < ids.len() implies ids[a] < ids[b] by {
        lemma_by_number(db, "capsa_queue"@, ids[a], ids[b]);
    }
    assert forall|a: int| 0 <= a < ids.len() implies all.contains(#[trigger] ids[a]) by {
        assert(wanted(db, "capsa_queue"@, "capsa_queue"@, condition, ids[a], params));
    }
    assert forall|id: i64| #[trigger] all.contains(id) && !ids.contains(id) implies forall|a: int|
        0 <= a < ids.len() ==> ids[a] < id by {
        assert(wanted(db, "capsa_queue"@, "capsa_queue"@, condition, id, params));
        assert forall|a: int| 0 <= a < ids.len() implies ids[a] < id by {
            lemma_by_number(db, "capsa_queue"@, ids[a], id);
        }
    }
    lemma_beginning(ids, all, ids.len() as int);
    if ids.len() < all.len() {
        let id = all[ids.len() as int];
        assert(all.contains(id));
        assert(!ids.contains(id)) by {
            if ids.contains(id) {
                let k = choose|k: int| 0 <= k < ids.len() && ids[k] == id;
                assert(all[k] == id);
            }
        }
        assert(wanted(db, "capsa_queue"@, "capsa_queue"@, condition, id, params));
    }
    assert(ids =~= all.take(at_most(limit, all.len()) as int));
}

proof fn lemma_pending_cells(db: Database, t: Tables, id: i64, params: Seq<ParamView>)
    requires
        stands_for(db, t),
        t.jobs.dom().contains(id),
    ensures
        shown(
            db,
            "capsa_queue"@,
            seq![
                Term::Column("id"@),
                Term::Column("source"@),
                Term::Column("metadata"@),
                Term::Column("text"@),
            ],
            id,
            params,
        ) == pending_cells(row_of(t, id)),
{
    lemma_names_differ();
    assert(is_job_row(db["capsa_queue"@].rows[id], t.jobs[id]));
    assert(shown(
        db,
        "capsa_queue"@,
        seq![
            Term::Column("id"@),
            Term::Column("source"@),
            Term::Column("metadata"@),
            Term::Column("text"@),
        ],
        id,
        params,
    ) =~= pending_cells(row_of(t, id)));
}

/// The query for the oldest pending documents returns their numbers, sources, metadata and texts,
/// in the order of their numbers and up to the limit.
pub proof fn law_pending_batch_is_answered(
    db: Database,
    t: Tables,
    limit: usize,
    rows: Seq<Seq<Cell>>,
)
    requires
        stands_for(db, t),
        valid(t),
        limit <= i64::MAX,
        answers(
            db,
            query_of(QueueQuery::PendingBatch { limit }),
            (QueueQuery::PendingBatch { limit }).statement().params,
            rows,
        ),
    ensures
        rows == pending_rows(t, limit as nat).map_values(|r: PendingView| pending_cells(r)),
{
    let q = QueueQuery::PendingBatch { limit };
    let params = q.statement().params;
    let values = query_of(q)->Rows_values;
    let condition = query_of(q)->Rows_condition;
    assert(row_limit(query_of(q)->Rows_limit, params) == Some(limit as int));
    let ids = choose|ids: Seq<i64>|
        {
            &&& #[trigger] is_selection(
                db,
                "capsa_queue"@,
                condition,
                by_number(),
                Some(limit as int),
                params,
                ids,
            )
            &&& rows.len() == ids.len()
            &&& forall|i: int|
                0 <= i < ids.len() ==> (#[trigger] rows[i]) == shown(
                    db,
                    "capsa_queue"@,
                    values,
                    ids[i],
                    params,
                )
        };
    lemma_pending_selection(db, t, limit as nat, params, ids);
    let wanted_rows = pending_rows(t, limit as nat).map_values(|r: PendingView| pending_cells(r));
    law_pending_in_order(t);
    assert forall|i: int| 0 <= i < ids.len() implies rows[i] == wanted_rows[i] by {
        assert(pending_ids(t).contains(pending_ids(t)[i]));
        lemma_pending_cells(db, t, ids[i], params);
    }
    assert(rows =~= wanted_rows);
}

/// The query for the oldest pending document returns it alone, or nothing where none is pending.
pub proof fn law_first_pending_is_answered(db: Database, t: Tables, rows: Seq<Seq<Cell>>)
    requires
        stands_for(db, t),
        valid(t),
        answers(
            db,
            query_of(QueueQuery::FirstPending),
            QueueQuery::FirstPending.statement().params,
            rows,
        ),
    ensures
        rows == pending_rows(t, 1).map_values(|r: PendingView| pending_cells(r)),
{
    let q = QueueQuery::FirstPending;
    let params = q.statement().params;
    let values = query_of(q)->Rows_values;
    let condition = query_of(q)->Rows_condition;
    assert(row_limit(query_of(q)->Rows_limit, params) == Some(1int));
    let ids = choose|ids: Seq<i64>|
        {
            &&& #[trigger] is_selection(
                db,
                "capsa_queue"@,
                condition,
                by_number(),
                Some(1int),
                params,
                ids,
            )
            &&& rows.len() == ids.len()
            &&& forall|i: int|
                0 <= i < ids.len() ==> (#[trigger] rows[i]) == shown(
                    db,
                    "capsa_queue"@,
                    values,
                    ids[i],
                    params,
                )
        };
    lemma_pending_selection(db, t, 1, params, ids);
    let wanted_rows = pending_rows(t, 1).map_values(|r: PendingView| pending_cells(r));
    law_pending_in_order(t);
    assert forall|i: int| 0 <= i < ids.len() implies rows[i] == wanted_rows[i] by {
        assert(pending_ids(t).contains(pending_ids(t)[i]));
        lemma_pending_cells(db, t, ids[i], params);
    }
    assert(rows =~= wanted_rows);
}

/// The values of an item of the embedding stage.
pub open spec fn embed_cells(id: i64, e: WaitingEmbed) -> Seq<Cell> {
    seq![
        Cell::Integer(id as int),
        Cell::Integer(e.queue_id as int),
        Cell::Text(e.source),
        Cell::Text(e.metadata),
        Cell::Text(e.text),
        Cell::Text(e.chunks),
    ]
}

/// The values of an item of the writing stage.
pub open spec fn write_cells(id: i64, w: WaitingWrite) -> Seq<Cell> {
    seq![
        Cell::Integer(id as int),
        Cell::Integer(w.queue_id as int),
        Cell::Text(w.source),
        Cell::Text(w.metadata),
        Cell::Blob(w.compressed_text),
        Cell::Blob(w.embeddings),
    ]
}

/// The lowest number of some.
pub open spec fn is_lowest(ids: Set<i64>, id: i64) -> bool {
    ids.contains(id) && forall|other: i64| #[trigger] ids.contains(other) ==> id <= other
}

proof fn lemma_first_selected(
    db: Database,
    table: Seq<char>,
    params: Seq<ParamView>,
    ids: Seq<i64>,
)
    requires
        is_selection(db, table, None, by_number(), Some(1), params, ids),
    ensures
        db[table].rows.dom() =~= Set::<i64>::empty() ==> ids.len() == 0,
        !(db[table].rows.dom() =~= Set::<i64>::empty()) ==> ids.len() == 1 && is_lowest(
            db[table].rows.dom(),
            ids[0],
        ),
{
    if ids.len() > 0 {
        assert(wanted(db, table, table, None, ids[0], params));
        assert forall|other: i64| #[trigger] db[table].rows.dom().contains(other) implies ids[0]
            <= other by {
            if ids.contains(other) {
                assert(ids[0] == other);
            } else {
                assert(wanted(db, table, table, None, other, params));
                lemma_by_number(db, table, ids[0], other);
            }
        }
    } else {
        assert forall|other: i64| !db[table].rows.dom().contains(other) by {
            if db[table].rows.dom().contains(other) {
                assert(wanted(db, table, table, None, other, params));
            }
        }
    }
}

/// The query for the oldest item of the embedding stage returns the one with the lowest number, or
/// nothing where the stage is empty.
pub proof fn law_first_embed_is_answered(db: Database, t: Tables, rows: Seq<Seq<Cell>>)
    requires
        stands_for(db, t),
        answers(
            db,
            query_of(QueueQuery::FirstEmbed),
            QueueQuery::FirstEmbed.statement().params,
            rows,
        ),
    ensures
        t.embeds.dom() =~= Set::<i64>::empty() ==> rows.len() == 0,
        !(t.embeds.dom() =~= Set::<i64>::empty()) ==> exists|id: i64| #[trigger]
            is_lowest(t.embeds.dom(), id) && rows == seq![embed_cells(id, t.embeds[id])],
{
    lemma_names_differ();
    let q = QueueQuery::FirstEmbed;
    let params = q.statement().params;
    let values = query_of(q)->Rows_values;
    assert(row_limit(query_of(q)->Rows_limit, params) == Some(1int));
    let ids = choose|ids: Seq<i64>|
        {
            &&& #[trigger] is_selection(
                db,
                "pending_embeds"@,
                None,
                by_number(),
                Some(1int),
                params,
                ids,
            )
            &&& rows.len() == ids.len()
            &&& forall|i: int|
                0 <= i < ids.len() ==> (#[trigger] rows[i]) == shown(
                    db,
                    "pending_embeds"@,
                    values,
                    ids[i],
                    params,
                )
        };
    lemma_first_selected(db, "pending_embeds"@, params, ids);
    if ids.len() > 0 {
        let id = ids[0];
        assert(t.embeds.dom().contains(id));
        assert(is_embed_row(db["pending_embeds"@].rows[id], t.embeds[id]));
        assert(shown(db, "pending_embeds"@, values, id, params) =~= embed_cells(
            id,
            t.embeds[id],
        ));
        assert(rows =~= seq![embed_cells(id, t.embeds[id])]);
        assert(is_lowest(t.embeds.dom(), id));
    }
}

/// The query for the oldest item of the writing stage returns the one with the lowest number, or
/// nothing where the stage is empty.
pub proof fn law_first_write_is_answered(db: Database, t: Tables, rows: Seq<Seq<Cell>>)
    requires
        stands_for(db, t),
        answers(
            db,
            query_of(QueueQuery::FirstWrite),
            QueueQuery::FirstWrite.statement().params,
            rows,
        ),
    ensures
        t.writes.dom() =~= Set::<i64>::empty() ==> rows.len() == 0,
        !(t.writes.dom() =~= Set::<i64>::empty()) ==> exists|id: i64| #[trigger]
            is_lowest(t.writes.dom(), id) && rows == seq![write_cells(id, t.writes[id])],
{
    lemma_names_differ();
    let q = QueueQuery::FirstWrite;
    let params = q.statement().params;
    let values = query_of(q)->Rows_values;
    assert(row_limit(query_of(q)->Rows_limit, params) == Some(1int));
    let ids = choose|ids: Seq<i64>|
        {
            &&& #[trigger] is_selection(
                db,
                "pending_writes"@,
                None,
                by_number(),
                Some(1int),
                params,
                ids,
            )
            &&& rows.len() == ids.len()
            &&& forall|i: int|
                0 <= i < ids.len() ==> (#[trigger] rows[i]) == shown(
                    db,
                    "pending_writes"@,
                    values,
                    ids[i],
                    params,
                )
        };
    lemma_first_selected(db, "pending_writes"@, params, ids);
    if ids.len() > 0 {
        let id = ids[0];
        assert(t.writes.dom().contains(id));
        assert(is_write_row(db["pending_writes"@].rows[id], t.writes[id]));
        assert(shown(db, "pending_writes"@, values, id, params) =~= write_cells(
            id,
            t.writes[id],
        ));
        assert(rows =~= seq![write_cells(id, t.writes[id])]);
        assert(is_lowest(t.writes.dom(), id));
    }
}

/// When a document was put into the queue.
pub open spec fn put_at(db: Database, id: i64) -> int {
    number(db, "capsa_queue"@, id, "created_at"@)
}

/// The values of a failed document: its number, source and metadata, its error or an empty text,
/// and when it was put into the queue.
pub open spec fn failed_cells(db: Database, id: i64, job: Job) -> Seq<Cell> {
    seq![
        Cell::Integer(id as int),
        Cell::Text(job.source),
        Cell::Text(job.metadata),
        Cell::Text(
            match job.error {
                Some(e) => e,
                None => Seq::empty(),
            },
        ),
        db["capsa_queue"@].rows[id]["created_at"@],
    ]
}

/// The query for the failed documents returns each of them once, and no others: the newest first,
/// and of those of the same time the one with the highest number first.
#[verifier::rlimit(60)]
pub proof fn law_failed_items_are_answered(db: Database, t: Tables, rows: Seq<Seq<Cell>>)
    requires
        stands_for(db, t),
        answers(
            db,
            query_of(QueueQuery::FailedItems),
            QueueQuery::FailedItems.statement().params,
            rows,
        ),
    ensures
        exists|ids: Seq<i64>|
            {
                &&& rows.len() == ids.len()
                &&& forall|id: i64| #[trigger]
                    ids.contains(id) <==> has_status(t, id, JobStatus::Failed)
                &&& forall|i: int, j: int|
                    0 <= i < j < ids.len() ==> put_at(db, #[trigger] ids[i]) > put_at(
                        db,
                        #[trigger] ids[j],
                    ) || (put_at(db, ids[i]) == put_at(db, ids[j]) && ids[i] > ids[j])
                &&& forall|i: int|
                    0 <= i < ids.len() ==> (#[trigger] rows[i]) == failed_cells(
                        db,
                        ids[i],
                        t.jobs[ids[i]],
                    )
            },
{
    lemma_names_differ();
    let q = QueueQuery::FailedItems;
    let params = q.statement().params;
    let values = query_of(q)->Rows_values;
    let condition = query_of(q)->Rows_condition;
    let order = query_of(q)->Rows_order;
    let ids = choose|ids: Seq<i64>|
        {
            &&& #[trigger] is_selection(db, "capsa_queue"@, condition, order, None, params, ids)
            &&& rows.len() == ids.len()
            &&& forall|i: int|
                0 <= i < ids.len() ==> (#[trigger] rows[i]) == shown(
                    db,
                    "capsa_queue"@,
                    values,
                    ids[i],
                    params,
                )
        };
    assert forall|id: i64| #[trigger] ids.contains(id) <==> has_status(
        t,
        id,
        JobStatus::Failed,
    ) by {
        if t.jobs.dom().contains(id) {
            lemma_with_status(db, t, id, JobStatus::Failed, params, 0);
        }
        if ids.contains(id) {
            let i = choose|i: int| 0 <= i < ids.len() && ids[i] == id;
            assert(wanted(db, "capsa_queue"@, "capsa_queue"@, condition, ids[i], params));
        } else if has_status(t, id, JobStatus::Failed) {
            assert(wanted(db, "capsa_queue"@, "capsa_queue"@, condition, id, params));
        }
    }
    reveal_with_fuel(sorted_before, 4);
    assert forall|i: int, j: int| 0 <= i < j < ids.len() implies put_at(db, #[trigger] ids[i])
        > put_at(db, #[trigger] ids[j]) || (put_at(db, ids[i]) == put_at(db, ids[j]) && ids[i]
        > ids[j]) by {
        assert(sorted_before(db, "capsa_queue"@, order, 0, ids[i], ids[j]));
    }
    reveal_with_fuel(value, 3);
    assert forall|i: int| 0 <= i < ids.len() implies (#[trigger] rows[i]) == failed_cells(
        db,
        ids[i],
        t.jobs[ids[i]],
    ) by {
        let id = ids[i];
        assert(ids.contains(id));
        assert(is_job_row(db["capsa_queue"@].rows[id], t.jobs[id]));
        assert(rows[i] =~= failed_cells(db, id, t.jobs[id]));
    }
}

proof fn lemma_all_selected(
    db: Database,
    table: Seq<char>,
    params: Seq<ParamView>,
    ids: Seq<i64>,
)
    requires
        is_selection(db, table, None, by_number(), None, params, ids),
    ensures
        forall|id: i64| #[trigger] ids.contains(id) <==> db[table].rows.dom().contains(id),
        forall|i: int, j: int| 0 <= i < j < ids.len() ==> ids[i] < ids[j],
{
    assert forall|id: i64| #[trigger] ids.contains(id) <==> db[table].rows.dom().contains(id) by {
        if ids.contains(id) {
            let i = choose|i: int| 0 <= i < ids.len() && ids[i] == id;
            assert(wanted(db, table, table, None, ids[i], params));
        } else if db[table].rows.dom().contains(id) {
            assert(wanted(db, table, table, None, id, params));
        }
    }
    assert forall|i: int, j: int| 0 <= i < j < ids.len() implies ids[i] < ids[j] by {
        lemma_by_number(db, table, ids[i], ids[j]);
    }
}

/// The query for the items of the embedding stage returns each of them once, in the order of their
/// numbers: source, metadata, the bytes of the text and the number of chunks.
pub proof fn law_chunked_items_are_answered(db: Database, t: Tables, rows: Seq<Seq<Cell>>)
    requires
        stands_for(db, t),
        forall|e: i64| #[trigger]
            t.embeds.dom().contains(e) ==> json_chunks(t.embeds[e].chunks) is Some,
        answers(
            db,
            query_of(QueueQuery::ChunkedItems),
            QueueQuery::ChunkedItems.statement().params,
            rows,
        ),
    ensures
        exists|ids: Seq<i64>|
            {
                &&& rows.len() == ids.len()
                &&& forall|id: i64| #[trigger] ids.contains(id) <==> t.embeds.dom().contains(id)
                &&& forall|i: int, j: int| 0 <= i < j < ids.len() ==> ids[i] < ids[j]
                &&& forall|i: int|
                    0 <= i < ids.len() ==> (#[trigger] rows[i]) == seq![
                        Cell::Text(t.embeds[ids[i]].source),
                        Cell::Text(t.embeds[ids[i]].metadata),
                        Cell::Integer(byte_len(t.embeds[ids[i]].text) as int),
                        Cell::Integer((json_chunks(t.embeds[ids[i]].chunks)->0).len() as int),
                    ]
            },
{
    lemma_names_differ();
    let q = QueueQuery::ChunkedItems;
    let params = q.statement().params;
    let values = query_of(q)->Rows_values;
    let ids = choose|ids: Seq<i64>|
        {
            &&& #[trigger] is_selection(
                db,
                "pending_embeds"@,
                None,
                by_number(),
                None,
                params,
                ids,
            )
            &&& rows.len() == ids.len()
            &&& forall|i: int|
                0 <= i < ids.len() ==> (#[trigger] rows[i]) == shown(
                    db,
                    "pending_embeds"@,
                    values,
                    ids[i],
                    params,
                )
        };
    lemma_all_selected(db, "pending_embeds"@, params, ids);
    reveal_with_fuel(value, 3);
    assert forall|i: int| 0 <= i < ids.len() implies (#[trigger] rows[i]) == seq![
        Cell::Text(t.embeds[ids[i]].source),
        Cell::Text(t.embeds[ids[i]].metadata),
        Cell::Integer(byte_len(t.embeds[ids[i]].text) as int),
        Cell::Integer((json_chunks(t.embeds[ids[i]].chunks)->0).len() as int),
    ] by {
        let id = ids[i];
        assert(ids.contains(id));
        assert(is_embed_row(db["pending_embeds"@].rows[id], t.embeds[id]));
        assert(rows[i] =~= seq![
            Cell::Text(t.embeds[id].source),
            Cell::Text(t.embeds[id].metadata),
            Cell::Integer(byte_len(t.embeds[id].text) as int),
            Cell::Integer((json_chunks(t.embeds[id].chunks)->0).len() as int),
        ]);
    }
}

/// The query for the items of the writing stage returns each of them once, in the order of their
/// numbers: source, metadata, and the bytes of the embeddings and of the compressed text.
pub proof fn law_embedded_items_are_answered(db: Database, t: Tables, rows: Seq<Seq<Cell>>)
    requires
        stands_for(db, t),
        answers(
            db,
            query_of(QueueQuery::EmbeddedItems),
            QueueQuery::EmbeddedItems.statement().params,
            rows,
        ),
    ensures
        exists|ids: Seq<i64>|
            {
                &&& rows.len() == ids.len()
                &&& forall|id: i64| #[trigger] ids.contains(id) <==> t.writes.dom().contains(id)
                &&& forall|i: int, j: int| 0 <= i < j < ids.len() ==> ids[i] < ids[j]
                &&& forall|i: int|
                    0 <= i < ids.len() ==> (#[trigger] rows[i]) == seq![
                        Cell::Text(t.writes[ids[i]].source),
                        Cell::Text(t.writes[ids[i]].metadata),
                        Cell::Integer(t.writes[ids[i]].embeddings.len() as int),
                        Cell::Integer(t.writes[ids[i]].compressed_text.len() as int),
                    ]
            },
{
    lemma_names_differ();
    let q = QueueQuery::EmbeddedItems;
    let params = q.statement().params;
    let values = query_of(q)->Rows_values;
    let ids = choose|ids: Seq<i64>|
        {
            &&& #[trigger] is_selection(
                db,
                "pending_writes"@,
                None,
                by_number(),
                None,
                params,
                ids,
            )
            &&& rows.len() == ids.len()
            &&& forall|i: int|
                0 <= i < ids.len() ==> (#[trigger] rows[i]) == shown(
                    db,
                    "pending_writes"@,
                    values,
                    ids[i],
                    params,
                )
        };
    lemma_all_selected(db, "pending_writes"@, params, ids);
    reveal_with_fuel(value, 3);
    assert forall|i: int| 0 <= i < ids.len() implies (#[trigger] rows[i]) == seq![
        Cell::Text(t.writes[ids[i]].source),
        Cell::Text(t.writes[ids[i]].metadata),
        Cell::Integer(t.writes[ids[i]].embeddings.len() as int),
        Cell::Integer(t.writes[ids[i]].compressed_text.len() as int),
    ] by {
        let id = ids[i];
        assert(ids.contains(id));
        assert(is_write_row(db["pending_writes"@].rows[id], t.writes[id]));
        assert(rows[i] =~= seq![
            Cell::Text(t.writes[id].source),
            Cell::Text(t.writes[id].metadata),
            Cell::Integer(t.writes[id].embeddings.len() as int),
            Cell::Integer(t.writes[id].compressed_text.len() as int),
        ]);
    }
}

/// The orphans of the queue.
pub open spec fn orphans(t: Tables) -> Set<i64> {
    t.jobs.dom().filter(|id: i64| is_orphan(t, id))
}

/// A counting query returns one number: how many documents have failed, how many are being
/// processed, how many of those no later stage holds, and how many items each stage has.
#[verifier::rlimit(60)]
pub proof fn law_counts_are_answered(db: Database, t: Tables, q: QueueQuery, rows: Seq<Seq<Cell>>)
    requires
        stands_for(db, t),
        answers(db, query_of(q), q.statement().params, rows),
    ensures
        q is CountFailed ==> rows == seq![
            seq![Cell::Integer(count_with(t, JobStatus::Failed) as int)],
        ],
        q is CountProcessing ==> rows == seq![
            seq![Cell::Integer(count_with(t, JobStatus::Processing) as int)],
        ],
        q is CountOrphans ==> rows == seq![seq![Cell::Integer(orphans(t).len() as int)]],
        q is CountEmbeds ==> rows == seq![seq![Cell::Integer(t.embeds.dom().len() as int)]],
        q is CountWrites ==> rows == seq![seq![Cell::Integer(t.writes.dom().len() as int)]],
{
    lemma_names_differ();
    let params = q.statement().params;
    match q {
        QueueQuery::CountFailed => {
            let c = query_of(q)->Count_condition;
            let found = all_wanted(db, "capsa_queue"@, "capsa_queue"@, c, params);
            assert forall|id: i64| found.contains(id) == jobs_with(t, JobStatus::Failed).contains(
                id,
            ) by {
                if t.jobs.dom().contains(id) {
                    lemma_with_status(db, t, id, JobStatus::Failed, params, 0);
                }
            }
            assert(found =~= jobs_with(t, JobStatus::Failed));
        },
        QueueQuery::CountProcessing => {
            let c = query_of(q)->Count_condition;
            let found = all_wanted(db, "capsa_queue"@, "capsa_queue"@, c, params);
            assert forall|id: i64| found.contains(id) == jobs_with(
                t,
                JobStatus::Processing,
            ).contains(id) by {
                if t.jobs.dom().contains(id) {
                    lemma_with_status(db, t, id, JobStatus::Processing, params, 0);
                }
            }
            assert(found =~= jobs_with(t, JobStatus::Processing));
        },
        QueueQuery::CountOrphans => {
            let c = query_of(q)->Count_condition;
            let found = all_wanted(db, "capsa_queue"@, "cq"@, c, params);
            reveal_with_fuel(holds, 4);
            assert forall|id: i64| found.contains(id) == orphans(t).contains(id) by {
                if t.jobs.dom().contains(id) {
                    let row = db["capsa_queue"@].rows[id];
                    assert(is_job_row(row, t.jobs[id]));
                    lemma_statuses(t.jobs[id].status, JobStatus::Processing);
                    lemma_held(db, t, "cq"@, id, row, params, 0);
                    let scopes = seq![Scope { name: "cq"@, id, row }];
                    reveal_with_fuel(named, 2);
                    assert(named(scopes, "cq"@) == scopes[0]);
                }
            }
            assert(found =~= orphans(t));
        },
        QueueQuery::CountEmbeds => {
            let found = all_wanted(db, "pending_embeds"@, "pending_embeds"@, None, params);
            assert(found =~= t.embeds.dom());
        },
        QueueQuery::CountWrites => {
            let found = all_wanted(db, "pending_writes"@, "pending_writes"@, None, params);
            assert(found =~= t.writes.dom());
        },
        _ => {},
    }
}

/// The query that counts by status returns, for each status that occurs, its name and the number of
/// documents that have it.
pub proof fn law_counts_by_status_are_answered(
    db: Database,
    t: Tables,
    cells: Seq<Seq<Cell>>,
    rows: Seq<(String, i64)>,
)
    requires
        stands_for(db, t),
        valid(t),
        answers(
            db,
            query_of(QueueQuery::CountByStatus),
            QueueQuery::CountByStatus.statement().params,
            cells,
        ),
        cells.len() == rows.len(),
        forall|i: int|
            0 <= i < rows.len() ==> (#[trigger] cells[i]) == seq![
                Cell::Text(rows[i].0@),
                Cell::Integer(rows[i].1 as int),
            ],
    ensures
        counts_by_status(t, rows),
{
    lemma_names_differ();
    let queue = "capsa_queue"@;
    assert(are_counts(db[queue], "status"@, cells));
    assert forall|status: JobStatus| #[trigger]
        all_with(db[queue], "status"@, Cell::Text(status_name(status))) == jobs_with(t, status) by {
        let found = all_with(db[queue], "status"@, Cell::Text(status_name(status)));
        assert forall|id: i64| found.contains(id) == jobs_with(t, status).contains(id) by {
            if t.jobs.dom().contains(id) {
                assert(is_job_row(db[queue].rows[id], t.jobs[id]));
                lemma_statuses(t.jobs[id].status, status);
            }
        }
        assert(found =~= jobs_with(t, status));
    }
    assert forall|i: int, status: JobStatus|
        0 <= i < rows.len() && (#[trigger] rows[i]).0@ == #[trigger] status_name(
            status,
        ) implies rows[i].1 == count_with(t, status) by {
        assert(cells[i][0] == Cell::Text(rows[i].0@));
        assert(cells[i][1] == Cell::Integer(rows[i].1 as int));
        assert(all_with(db[queue], "status"@, Cell::Text(status_name(status))) == jobs_with(
            t,
            status,
        ));
    }
    assert forall|status: JobStatus| #[trigger] count_with(t, status) > 0 implies exists|i: int|
        0 <= i < rows.len() && (#[trigger] rows[i]).0@ == status_name(status) by {
        let set = jobs_with(t, status);
        vstd::set_lib::lemma_len_subset(set, t.jobs.dom());
        assert(exists|id: i64| set.contains(id)) by {
            if forall|id: i64| !set.contains(id) {
                assert(set =~= Set::<i64>::empty());
            }
        }
        let id = choose|id: i64| set.contains(id);
        assert(db[queue].rows.dom().contains(id));
        assert(is_job_row(db[queue].rows[id], t.jobs[id]));
        let i = choose|i: int|
            0 <= i < cells.len() && (#[trigger] cells[i])[0] == db[queue].rows[id]["status"@];
        assert(cells[i][0] == Cell::Text(rows[i].0@));
        assert(rows[i].0@ == status_name(status));
    }
}

} // verus!
