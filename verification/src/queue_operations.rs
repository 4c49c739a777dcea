//! What the operations of the queue and the work of the stages do to the tables, and what becomes of
//! the rows that the database returns. These laws speak of what calls of the functions give back.

use vstd::prelude::*;
use vstd::utf8::encode_utf8;
use crate::codec::{json_chunks, lz4_decoded, text_chunk_views, TextChunk};
use crate::documentdb::DocumentDatabaseConnection;
use crate::embeddings::{chunk_views, law_pack_unpack, packed, ChunkView, EmbeddedChunk};
use crate::error::{CapsaError, Result};
use crate::metadata::{display_name, json_metadata};
use crate::pipeline::{
    chunk_task, compressed_text, embed_task, peeked, started, waited, write_embeddings, write_task,
    StageChange, StageEvent, StagePhase,
};
use crate::queue::{
    change_views, is_chunked_of, is_embed_of, is_embedded_of, is_failed_of, is_item_of,
    is_write_of, EmbedRow, FailedItem, FailedRow, PendingEmbed, PendingRow, PendingWrite,
    PipelineStatus, QueueConnection, QueueItem, QueueQuery, QueueStatement, QueueStatementView,
    StageItem, StageRow, WriteRow,
};
use crate::queue_answers::{
    embed_cells, failed_cells, law_query_text, orphans, pending_cells, query_of, write_cells,
};
use crate::queue_history::{is_status_of, law_status_is_that_of_the_tables, row_of};
use crate::queue_meaning::{law_statement_makes_its_change, stands_for, times_kept};
use crate::queue_model::{
    after, applied, consistent, count_with, counts_by_status, embed_number, faithful, fits,
    has_status, in_later_stage, is_orphan, job_number, jobs_with, law_complete_write, law_enqueue,
    law_fail_embed, law_fail_write, law_mark_failed, law_promote_to_embeds, law_promote_to_writes,
    law_reset_pipeline, nothing_lost, others_unchanged, valid, with_status, write_number, Job,
    JobStatus, Tables, WaitingEmbed, WaitingWrite,
};
use crate::relations::{changed, Cell, Change, Database};
use crate::sql::{ParamView, Statement};
use crate::text::byte_len;

verus! {

proof fn lemma_one_change(t: Tables, c: QueueStatementView)
    ensures
        after(t, seq![c]) == applied(t, c),
        after(t, Seq::empty()) == t,
{
    reveal_with_fuel(after, 2);
    assert(seq![c].drop_last() =~= Seq::<QueueStatementView>::empty());
    assert(seq![c].last() == c);
}

proof fn lemma_none_with(t: Tables, status: JobStatus)
    requires
        valid(t),
        count_with(t, status) == 0,
    ensures
        forall|id: i64| #[trigger] t.jobs.dom().contains(id) ==> t.jobs[id].status != status,
{
    vstd::set_lib::lemma_len_subset(jobs_with(t, status), t.jobs.dom());
    assert forall|id: i64| #[trigger] t.jobs.dom().contains(id) implies t.jobs[id].status
        != status by {
        if t.jobs[id].status == status {
            assert(jobs_with(t, status).contains(id));
            assert(jobs_with(t, status).len() > 0);
        }
    }
}

/// A retry, given how many documents have failed, re-queues these and no others: each is pending
/// again and without an error, every other document is as it was, and so are the later stages. It
/// reports how many it re-queued.
pub proof fn law_retry(
    conn: &QueueConnection,
    failed: i64,
    res: (u64, Vec<QueueStatement>),
    t: Tables,
)
    requires
        valid(t),
        failed == count_with(t, JobStatus::Failed),
        call_ensures(QueueConnection::retry_failed, (conn, Some(failed)), res),
    ensures
        ({
            let later = after(t, change_views(res.1@));
            &&& res.0 == count_with(t, JobStatus::Failed)
            &&& later.jobs.dom() == t.jobs.dom()
            &&& nothing_lost(t, later)
            &&& later.embeds == t.embeds
            &&& later.writes == t.writes
            &&& forall|id: i64| #[trigger]
                t.jobs.dom().contains(id) ==> if t.jobs[id].status == JobStatus::Failed {
                    later.jobs[id].status == JobStatus::Pending && later.jobs[id].error is None
                } else {
                    later.jobs[id] == t.jobs[id]
                }
        }),
{
    lemma_one_change(t, QueueStatementView::RetryFailed);
    if failed == 0 {
        lemma_none_with(t, JobStatus::Failed);
        assert(change_views(res.1@) == Seq::<QueueStatementView>::empty());
    } else {
        let later = applied(t, QueueStatementView::RetryFailed);
        assert(later.jobs.dom() =~= t.jobs.dom());
    }
}

/// Resetting what is being processed, given how many documents are, makes these pending and leaves
/// all others as they were. It reports how many there were.
pub proof fn law_reset_processing(
    conn: &QueueConnection,
    processing: i64,
    res: (u64, Vec<QueueStatement>),
    t: Tables,
)
    requires
        valid(t),
        processing == count_with(t, JobStatus::Processing),
        call_ensures(QueueConnection::reset_processing, (conn, Some(processing)), res),
    ensures
        ({
            let later = after(t, change_views(res.1@));
            &&& res.0 == count_with(t, JobStatus::Processing)
            &&& later.jobs.dom() == t.jobs.dom()
            &&& later.embeds == t.embeds
            &&& later.writes == t.writes
            &&& forall|id: i64| #[trigger]
                t.jobs.dom().contains(id) ==> later.jobs[id] == (if t.jobs[id].status
                    == JobStatus::Processing {
                    with_status(t.jobs[id], JobStatus::Pending)
                } else {
                    t.jobs[id]
                })
        }),
{
    lemma_one_change(t, QueueStatementView::ReleaseProcessing);
    if processing == 0 {
        lemma_none_with(t, JobStatus::Processing);
        assert(change_views(res.1@) == Seq::<QueueStatementView>::empty());
    } else {
        let later = applied(t, QueueStatementView::ReleaseProcessing);
        assert(later.jobs.dom() =~= t.jobs.dom());
    }
}

/// Resetting the pipeline, given how many orphans there are, makes these pending and leaves all
/// other documents and the later stages as they were. It reports how many there were.
pub proof fn law_reset_pipeline_call(
    conn: &QueueConnection,
    found: i64,
    res: (u64, Vec<QueueStatement>),
    t: Tables,
)
    requires
        valid(t),
        found == orphans(t).len(),
        call_ensures(QueueConnection::reset_pipeline, (conn, Some(found)), res),
    ensures
        ({
            let later = after(t, change_views(res.1@));
            &&& res.0 == orphans(t).len()
            &&& later.jobs.dom() == t.jobs.dom()
            &&& later.embeds == t.embeds
            &&& later.writes == t.writes
            &&& forall|id: i64| #[trigger]
                t.jobs.dom().contains(id) ==> later.jobs[id] == (if is_orphan(t, id) {
                    with_status(t.jobs[id], JobStatus::Pending)
                } else {
                    t.jobs[id]
                })
        }),
{
    lemma_one_change(t, QueueStatementView::ReleaseOrphans);
    law_reset_pipeline(t);
    let later = applied(t, QueueStatementView::ReleaseOrphans);
    assert(later.jobs.dom() =~= t.jobs.dom());
}

/// Putting a document into the queue makes it pending, with the source, the metadata and the text
/// that were given.
pub proof fn law_enqueue_call(
    conn: &QueueConnection,
    source: &str,
    metadata: &str,
    text: &str,
    res: QueueStatement,
    t: Tables,
)
    requires
        consistent(t),
        t.next_job <= i64::MAX,
        call_ensures(QueueConnection::enqueue, (conn, source, metadata, text), res),
    ensures
        ({
            let later = applied(t, res@);
            let job = later.jobs[job_number(t)];
            &&& has_status(later, job_number(t), JobStatus::Pending)
            &&& job.source == source@
            &&& job.metadata == metadata@
            &&& job.text == text@
            &&& job.error is None
            &&& nothing_lost(t, later)
        }),
{
    law_enqueue(t, source@, metadata@, text@);
}

/// Putting a document into a document database puts it into its queue, with its metadata and text
/// and without a source; where the database has no queue, nothing is put anywhere.
pub proof fn law_insert_call(
    conn: &DocumentDatabaseConnection,
    metadata: &str,
    text: &str,
    res: Result<QueueStatement>,
    t: Tables,
)
    requires
        consistent(t),
        t.next_job <= i64::MAX,
        call_ensures(DocumentDatabaseConnection::insert, (conn, metadata, text), res),
    ensures
        res is Ok <==> conn.queue is Some,
        res matches Ok(change) ==> {
            let later = applied(t, change@);
            let job = later.jobs[job_number(t)];
            &&& has_status(later, job_number(t), JobStatus::Pending)
            &&& job.source.len() == 0
            &&& job.metadata == metadata@
            &&& job.text == text@
        },
{
    reveal_strlit("");
    if res is Ok {
        law_enqueue(t, ""@, metadata@, text@);
    }
}

/// Marking a document as ingested or as failed changes that document alone.
pub proof fn law_mark_calls(
    conn: &QueueConnection,
    id: i64,
    error: &str,
    done: QueueStatement,
    failed: QueueStatement,
    t: Tables,
)
    requires
        t.jobs.dom().contains(id),
        call_ensures(QueueConnection::mark_done, (conn, id), done),
        call_ensures(QueueConnection::mark_failed, (conn, id, error), failed),
    ensures
        has_status(applied(t, done@), id, JobStatus::Done),
        others_unchanged(t, applied(t, done@), id),
        has_status(applied(t, failed@), id, JobStatus::Failed),
        applied(t, failed@).jobs[id].error == Some(error@),
        others_unchanged(t, applied(t, failed@), id),
{
}

/// The chunk stage hands a pending document with chunks to the embedding stage, which it wakes: with
/// its own source, metadata and text, and with the chunks. A document without chunks fails, with an
/// error that says so, and no stage is woken.
#[verifier::rlimit(60)]
pub proof fn law_chunk_task(
    item: &QueueItem,
    chunks: &Vec<TextChunk>,
    res: Result<StageChange>,
    t: Tables,
)
    requires
        consistent(t),
        faithful(t),
        t.next_embed <= i64::MAX,
        has_status(t, item.id, JobStatus::Pending),
        item.source@ == t.jobs[item.id].source,
        item.metadata@ == t.jobs[item.id].metadata,
        item.text@ == t.jobs[item.id].text,
        call_ensures(chunk_task, (item, chunks), res),
    ensures
        res matches Ok(change) && {
            let later = after(t, change.views());
            let waiting = later.embeds[embed_number(t)];
            &&& consistent(later)
            &&& faithful(later)
            &&& others_unchanged(t, later, item.id)
            &&& change.wakes_next == (chunks@.len() > 0)
            &&& if chunks@.len() == 0 {
                &&& has_status(later, item.id, JobStatus::Failed)
                &&& later.jobs[item.id].error == Some(
                    "document produced no embeddable chunks"@,
                )
                &&& later.embeds == t.embeds
                &&& later.writes == t.writes
            } else {
                &&& has_status(later, item.id, JobStatus::Processing)
                &&& later.embeds == t.embeds.insert(embed_number(t), waiting)
                &&& later.writes == t.writes
                &&& waiting.queue_id == item.id
                &&& waiting.source == item.source@
                &&& waiting.metadata == item.metadata@
                &&& waiting.text == item.text@
                &&& json_chunks(waiting.chunks) == Some(text_chunk_views(chunks@))
            }
        },
{
    let change = res->Ok_0;
    if chunks@.len() == 0 {
        let error = "document produced no embeddable chunks"@;
        lemma_one_change(t, QueueStatementView::SetFailed { id: item.id, error });
        law_mark_failed(t, item.id, error);
    } else {
        law_promote_to_embeds(
            t,
            item.id,
            item.source@,
            item.metadata@,
            item.text@,
            crate::codec::chunks_json(text_chunk_views(chunks@)),
        );
    }
}

/// The error of two results that comes first.
pub open spec fn first_error<A, B>(a: Result<A>, b: Result<B>) -> CapsaError {
    if a is Err {
        a->Err_0
    } else {
        b->Err_0
    }
}

/// The embedding stage hands an item whose chunks are embedded and whose text is compressed to the
/// writing stage, which it wakes: with its own source and metadata, the compressed text and the
/// embeddings. Where either failed, the document has failed, and no stage is woken.
#[verifier::rlimit(60)]
pub proof fn law_embed_task(
    item: &PendingEmbed,
    embeddings: Result<Vec<EmbeddedChunk>>,
    compressed: Result<Vec<u8>>,
    res: StageChange,
    t: Tables,
)
    requires
        consistent(t),
        t.next_write <= i64::MAX,
        t.embeds.dom().contains(item.id),
        t.embeds[item.id].queue_id == item.queue_id,
        call_ensures(embed_task, (item, embeddings, compressed), res),
    ensures
        ({
            let later = after(t, res.views());
            let written = later.writes[write_number(t)];
            &&& consistent(later)
            &&& later.embeds == t.embeds.remove(item.id)
            &&& res.wakes_next == (embeddings is Ok && compressed is Ok)
            &&& if embeddings is Ok && compressed is Ok {
                &&& later.jobs == t.jobs
                &&& later.writes == t.writes.insert(write_number(t), written)
                &&& written.queue_id == item.queue_id
                &&& written.source == item.source@
                &&& written.metadata == item.metadata@
                &&& written.compressed_text == (compressed->Ok_0)@
                &&& written.embeddings == packed(chunk_views((embeddings->Ok_0)@))
            } else {
                &&& later.writes == t.writes
                &&& has_status(later, item.queue_id, JobStatus::Failed)
                &&& others_unchanged(t, later, item.queue_id)
                &&& exists|text: String| #[trigger]
                    call_ensures(
                        CapsaError::message,
                        (&first_error(embeddings, compressed),),
                        text,
                    ) && later.jobs[item.queue_id].error == Some(text@)
            }
        }),
{
    match (embeddings, compressed) {
        (Ok(v), Ok(frame)) => {
            law_promote_to_writes(
                t,
                item.id,
                item.source@,
                item.metadata@,
                frame@,
                packed(chunk_views(v@)),
            );
        },
        (Err(e), _) => {
            let text = choose|text: String| #[trigger]
                call_ensures(CapsaError::message, (&e,), text) && res.views()
                    == crate::queue::failure_of_embed(item.id, item.queue_id, text@);
            law_fail_embed(t, item.id, text@);
        },
        (Ok(_), Err(e)) => {
            let text = choose|text: String| #[trigger]
                call_ensures(CapsaError::message, (&e,), text) && res.views()
                    == crate::queue::failure_of_embed(item.id, item.queue_id, text@);
            law_fail_embed(t, item.id, text@);
        },
    }
}

/// The writing stage ends an item: where its document was stored, that is done, otherwise it has
/// failed with the message of the error. Either way no later stage holds it any more.
#[verifier::rlimit(60)]
pub proof fn law_write_task(
    item: &PendingWrite,
    stored: Result<i64>,
    res: StageChange,
    t: Tables,
)
    requires
        consistent(t),
        t.writes.dom().contains(item.id),
        t.writes[item.id].queue_id == item.queue_id,
        call_ensures(write_task, (item, stored), res),
    ensures
        ({
            let later = after(t, res.views());
            &&& consistent(later)
            &&& later.embeds == t.embeds
            &&& later.writes == t.writes.remove(item.id)
            &&& others_unchanged(t, later, item.queue_id)
            &&& !in_later_stage(later, item.queue_id)
            &&& stored is Ok ==> has_status(later, item.queue_id, JobStatus::Done)
            &&& stored matches Err(e) ==> has_status(later, item.queue_id, JobStatus::Failed)
                && exists|text: String| #[trigger]
                    call_ensures(CapsaError::message, (&e,), text)
                        && later.jobs[item.queue_id].error == Some(text@)
        }),
{
    match stored {
        Ok(_) => law_complete_write(t, item.id),
        Err(e) => {
            let text = choose|text: String| #[trigger]
                call_ensures(CapsaError::message, (&e,), text) && res.views()
                    == crate::queue::failure_of_write(item.id, item.queue_id, text@);
            law_fail_write(t, item.id, text@);
        },
    }
}

/// The pipeline has started where all of its stages have; otherwise it ends with the error of the
/// first stage that has not, in the order in which documents pass through them.
pub proof fn law_started(
    chunk: Result<()>,
    embed: Result<()>,
    write: Result<()>,
    res: Result<()>,
)
    requires
        call_ensures(started, (chunk, embed, write), res),
    ensures
        res is Ok <==> chunk is Ok && embed is Ok && write is Ok,
        chunk matches Err(e) ==> res == Err::<(), CapsaError>(e),
        chunk is Ok && embed is Err ==> res == embed,
        chunk is Ok && embed is Ok ==> res == write,
{
}

/// A wait ends when the pipeline is shut down or when there are new items, and a shutdown is not
/// overlooked for the sake of new items.
pub proof fn law_waited(shut_down: bool, woken: bool, res: Option<StageEvent>)
    requires
        call_ensures(waited, (shut_down, woken), res),
    ensures
        res is None <==> !shut_down && !woken,
        shut_down ==> res == Some(StageEvent::ShutDown),
        !shut_down && woken ==> res == Some(StageEvent::Woken),
{
}

/// The status that is reported, given what the database counts, is that of the tables.
pub proof fn law_status_call(
    conn: &QueueConnection,
    rows: &Vec<(String, i64)>,
    embeds: i64,
    writes: i64,
    res: PipelineStatus,
    t: Tables,
)
    requires
        valid(t),
        counts_by_status(t, rows@),
        embeds == t.embeds.dom().len(),
        writes == t.writes.dom().len(),
        call_ensures(
            QueueConnection::status_counts,
            (conn, rows, Some(embeds), Some(writes)),
            res,
        ),
    ensures
        res.pending == count_with(t, JobStatus::Pending),
        res.done == count_with(t, JobStatus::Done),
        res.failed == count_with(t, JobStatus::Failed),
        res.chunked == t.embeds.dom().len(),
        res.embedded == t.writes.dom().len(),
{
    assert(is_status_of(res, rows@, embeds, writes));
    law_status_is_that_of_the_tables(t, rows@, embeds, writes, res);
}

/// A row of a pending document becomes an item with the number, the source, the metadata and the
/// text of that document.
pub proof fn law_pending_row_becomes_item(t: Tables, id: i64, row: PendingRow, item: QueueItem)
    requires
        pending_cells((row.0, row.1@, row.2@, row.3@)) == pending_cells(row_of(t, id)),
        is_item_of(item, row),
    ensures
        item.id == id,
        item.source@ == t.jobs[id].source,
        item.metadata@ == t.jobs[id].metadata,
        item.text@ == t.jobs[id].text,
{
    let a = pending_cells((row.0, row.1@, row.2@, row.3@));
    let b = pending_cells(row_of(t, id));
    assert(a[0] == b[0] && a[1] == b[1] && a[2] == b[2] && a[3] == b[3]);
}

/// A row of the embedding stage becomes the item that stands there.
pub proof fn law_embed_row_becomes_item(
    id: i64,
    waiting: WaitingEmbed,
    row: EmbedRow,
    item: PendingEmbed,
)
    requires
        embed_cells(
            row.0,
            WaitingEmbed {
                queue_id: row.1,
                source: row.2@,
                metadata: row.3@,
                text: row.4@,
                chunks: row.5@,
            },
        ) == embed_cells(id, waiting),
        is_embed_of(item, row),
    ensures
        item.id == id,
        item.queue_id == waiting.queue_id,
        item.source@ == waiting.source,
        item.metadata@ == waiting.metadata,
        item.text@ == waiting.text,
        json_chunks(waiting.chunks) == Some(text_chunk_views(item.chunks@)),
{
    let a = embed_cells(
        row.0,
        WaitingEmbed {
            queue_id: row.1,
            source: row.2@,
            metadata: row.3@,
            text: row.4@,
            chunks: row.5@,
        },
    );
    let b = embed_cells(id, waiting);
    assert(a[0] == b[0] && a[1] == b[1] && a[2] == b[2] && a[3] == b[3]);
    assert(a[4] == b[4] && a[5] == b[5]);
}

/// A row of the writing stage becomes the item that stands there.
pub proof fn law_write_row_becomes_item(
    id: i64,
    waiting: WaitingWrite,
    row: WriteRow,
    item: PendingWrite,
)
    requires
        write_cells(
            row.0,
            WaitingWrite {
                queue_id: row.1,
                source: row.2@,
                metadata: row.3@,
                compressed_text: row.4@,
                embeddings: row.5@,
            },
        ) == write_cells(id, waiting),
        is_write_of(item, row),
    ensures
        item.id == id,
        item.queue_id == waiting.queue_id,
        item.source@ == waiting.source,
        item.metadata@ == waiting.metadata,
        item.compressed_text@ == waiting.compressed_text,
        item.embeddings_blob@ == waiting.embeddings,
{
    let a = write_cells(
        row.0,
        WaitingWrite {
            queue_id: row.1,
            source: row.2@,
            metadata: row.3@,
            compressed_text: row.4@,
            embeddings: row.5@,
        },
    );
    let b = write_cells(id, waiting);
    assert(a[0] == b[0] && a[1] == b[1] && a[2] == b[2] && a[3] == b[3]);
    assert(a[4] == b[4] && a[5] == b[5]);
}

/// A row of a failed document becomes an item with the number, the source and the error of that
/// document and the time at which it was put into the queue, by the name under which the document is
/// shown.
pub proof fn law_failed_row_becomes_item(
    db: Database,
    id: i64,
    job: Job,
    row: FailedRow,
    item: FailedItem,
)
    requires
        seq![
            Cell::Integer(row.0 as int),
            Cell::Text(row.1@),
            Cell::Text(row.2@),
            Cell::Text(row.3@),
            Cell::Integer(row.4 as int),
        ] == failed_cells(db, id, job),
        is_failed_of(item, row),
    ensures
        item.job_id == id,
        item.source@ == job.source,
        job.error matches Some(e) ==> item.error@ == e,
        job.error is None ==> item.error@.len() == 0,
        item.display_name@ == display_name(json_metadata(job.metadata)->0, job.source),
        Cell::Integer(item.created_at as int) == db["capsa_queue"@].rows[id]["created_at"@],
{
    let a = seq![
        Cell::Integer(row.0 as int),
        Cell::Text(row.1@),
        Cell::Text(row.2@),
        Cell::Text(row.3@),
        Cell::Integer(row.4 as int),
    ];
    let b = failed_cells(db, id, job);
    assert(a[0] == b[0] && a[1] == b[1] && a[2] == b[2] && a[3] == b[3] && a[4] == b[4]);
}

/// A row of the embedding stage is summed up by the name of its document, the bytes of its text and
/// the number of its chunks.
pub proof fn law_chunked_row_is_summed_up(waiting: WaitingEmbed, row: StageRow, item: StageItem)
    requires
        row.0@ == waiting.source,
        row.1@ == waiting.metadata,
        row.2 == byte_len(waiting.text),
        row.3 == (json_chunks(waiting.chunks)->0).len(),
        row.2 <= usize::MAX,
        row.3 <= usize::MAX,
        is_chunked_of(item, row),
    ensures
        item.display_name@ == display_name(json_metadata(waiting.metadata)->0, waiting.source),
        item.size == byte_len(waiting.text),
        item.chunk_count == Some((json_chunks(waiting.chunks)->0).len() as usize),
        item.aux_size is None,
{
}

/// A row of the writing stage is summed up by the name of its document and the bytes of its
/// embeddings and of its compressed text.
pub proof fn law_embedded_row_is_summed_up(waiting: WaitingWrite, row: StageRow, item: StageItem)
    requires
        row.0@ == waiting.source,
        row.1@ == waiting.metadata,
        row.2 == waiting.embeddings.len(),
        row.3 == waiting.compressed_text.len(),
        row.2 <= usize::MAX,
        row.3 <= usize::MAX,
        is_embedded_of(item, row),
    ensures
        item.display_name@ == display_name(json_metadata(waiting.metadata)->0, waiting.source),
        item.size == waiting.embeddings.len(),
        item.aux_size == Some(waiting.compressed_text.len() as usize),
        item.chunk_count is None,
{
}

/// Handing a document on marks it as being processed and adds it, with its chunks, to the embedding
/// stage.
pub proof fn law_promote_to_embeds_call(
    conn: &QueueConnection,
    queue_id: i64,
    source: &str,
    metadata: &str,
    text: &str,
    chunks: &[TextChunk],
    res: Result<Vec<QueueStatement>>,
)
    requires
        call_ensures(
            QueueConnection::promote_to_embeds,
            (conn, queue_id, source, metadata, text, chunks),
            res,
        ),
    ensures
        res matches Ok(changes) && {
            &&& changes@.len() == 2
            &&& changes@[0]@ == (QueueStatementView::Claim { id: queue_id })
            &&& changes@[1]@ matches QueueStatementView::AddEmbed {
                queue_id: q,
                source: s,
                metadata: m,
                text: t,
                chunks: c,
            } && q == queue_id && s == source@ && m == metadata@ && t == text@ && json_chunks(c)
                == Some(text_chunk_views(chunks@))
        },
{
    let changes = res->Ok_0;
    let views = change_views(changes@);
    assert(views.len() == changes@.len());
    assert(views[0] == changes@[0]@ && views[1] == changes@[1]@);
}

/// Handing an item on adds it, with its embeddings, to the writing stage, and takes it from the
/// embedding stage.
pub proof fn law_promote_to_writes_call(
    conn: &QueueConnection,
    embed_id: i64,
    queue_id: i64,
    source: &str,
    metadata: &str,
    frame: Vec<u8>,
    embeddings: Vec<u8>,
    res: Vec<QueueStatement>,
)
    requires
        call_ensures(
            QueueConnection::promote_to_writes,
            (conn, embed_id, queue_id, source, metadata, frame, embeddings),
            res,
        ),
    ensures
        res@.len() == 2,
        res@[0]@ == (QueueStatementView::AddWrite {
            queue_id,
            source: source@,
            metadata: metadata@,
            compressed_text: frame@,
            embeddings: embeddings@,
        }),
        res@[1]@ == (QueueStatementView::DropEmbed { id: embed_id }),
{
    let views = change_views(res@);
    assert(views.len() == res@.len());
    assert(views[0] == res@[0]@ && views[1] == res@[1]@);
}

/// An item that fails, or that is written, is settled in the queue and leaves its stage.
pub proof fn law_settling_calls(
    conn: &QueueConnection,
    item_id: i64,
    queue_id: i64,
    error: &str,
    failed_embed: Vec<QueueStatement>,
    failed_write: Vec<QueueStatement>,
    completed: Vec<QueueStatement>,
)
    requires
        call_ensures(QueueConnection::fail_embed, (conn, item_id, queue_id, error), failed_embed),
        call_ensures(QueueConnection::fail_write, (conn, item_id, queue_id, error), failed_write),
        call_ensures(QueueConnection::complete_write, (conn, item_id, queue_id), completed),
    ensures
        failed_embed@.len() == 2,
        failed_embed@[0]@ == (QueueStatementView::SetFailed { id: queue_id, error: error@ }),
        failed_embed@[1]@ == (QueueStatementView::DropEmbed { id: item_id }),
        failed_write@.len() == 2,
        failed_write@[0]@ == (QueueStatementView::SetFailed { id: queue_id, error: error@ }),
        failed_write@[1]@ == (QueueStatementView::DropWrite { id: item_id }),
        completed@.len() == 2,
        completed@[0]@ == (QueueStatementView::SetDone { id: queue_id }),
        completed@[1]@ == (QueueStatementView::DropWrite { id: item_id }),
{
    let a = change_views(failed_embed@);
    let b = change_views(failed_write@);
    let c = change_views(completed@);
    assert(a.len() == failed_embed@.len() && b.len() == failed_write@.len() && c.len()
        == completed@.len());
    assert(a[0] == failed_embed@[0]@ && a[1] == failed_embed@[1]@);
    assert(b[0] == failed_write@[0]@ && b[1] == failed_write@[1]@);
    assert(c[0] == completed@[0]@ && c[1] == completed@[1]@);
}

/// Taking documents from the queue gives each as its row has it, in their order, and marks each as
/// being processed.
pub proof fn law_dequeue_call(
    conn: &QueueConnection,
    rows: Vec<PendingRow>,
    items: Vec<QueueItem>,
    changes: Vec<QueueStatement>,
    i: int,
)
    requires
        call_ensures(QueueConnection::dequeue_batch, (conn, rows), Ok((items, changes))),
        0 <= i < rows@.len(),
    ensures
        items@.len() == rows@.len(),
        changes@.len() == rows@.len(),
        items@[i].id == rows@[i].0,
        items@[i].source@ == rows@[i].1@,
        json_metadata(rows@[i].2@) is Some,
        items@[i].text@ == rows@[i].3@,
        changes@[i]@ == (QueueStatementView::SetProcessing { id: rows@[i].0 }),
{
    assert(is_item_of(items@[i], rows@[i])) by {
        assert(rows@[i] == rows@[i]);
    }
    let views = change_views(changes@);
    assert(views.len() == changes@.len());
    assert(views[i] == changes@[i]@);
}

/// What a stage looks for is there, is not there, or cannot be looked for.
pub proof fn law_peeked(items: &Result<Vec<QueueItem>>, res: StageEvent)
    requires
        call_ensures(peeked::<QueueItem>, (items,), res),
    ensures
        *items is Err ==> res == StageEvent::PeekFailed,
        *items matches Ok(v) ==> (v@.len() > 0 <==> res == StageEvent::Found),
        *items matches Ok(v) ==> (v@.len() == 0 <==> res == StageEvent::NothingFound),
{
}

/// A stage begins by looking. It works on what it finds, and then looks again. Where there is
/// nothing it waits, and looks again when it is woken. It stops only while it waits.
pub proof fn law_stage_goes_round(
    start: StagePhase,
    found: StagePhase,
    finished: StagePhase,
    waiting: StagePhase,
    failing: StagePhase,
    woken: StagePhase,
    stopped: StagePhase,
    busy: StagePhase,
)
    requires
        call_ensures(StagePhase::start, (), start),
        call_ensures(StagePhase::next, (start, StageEvent::Found), found),
        call_ensures(StagePhase::next, (found, StageEvent::Finished), finished),
        call_ensures(StagePhase::next, (start, StageEvent::NothingFound), waiting),
        call_ensures(StagePhase::next, (start, StageEvent::PeekFailed), failing),
        call_ensures(StagePhase::next, (waiting, StageEvent::Woken), woken),
        call_ensures(StagePhase::next, (waiting, StageEvent::ShutDown), stopped),
        call_ensures(StagePhase::next, (found, StageEvent::ShutDown), busy),
    ensures
        start == StagePhase::Peeking,
        found == StagePhase::Working,
        finished == start,
        waiting == StagePhase::Waiting,
        failing == waiting,
        woken == start,
        stopped == StagePhase::Stopped,
        busy == found,
{
}

/// The text that goes to the writing stage is that of the document, compressed.
pub proof fn law_text_is_compressed(item: &PendingEmbed, res: Result<Vec<u8>>)
    requires
        call_ensures(compressed_text, (item,), res),
    ensures
        res matches Ok(frame) && lz4_decoded(frame@) == Some(encode_utf8(item.text@)),
{
}

/// The embeddings that are written are those that were handed on.
pub proof fn law_embeddings_are_written(
    item: &PendingWrite,
    embeddings: Seq<ChunkView>,
    res: Result<Vec<EmbeddedChunk>>,
)
    requires
        call_ensures(write_embeddings, (item,), res),
        item.embeddings_blob@ == packed(embeddings),
        embeddings.len() <= u32::MAX,
        forall|i: int|
            0 <= i < embeddings.len() ==> (#[trigger] embeddings[i]).0.len() <= u32::MAX,
    ensures
        res matches Ok(v) && chunk_views(v@) == embeddings,
{
    law_pack_unpack(embeddings);
}

/// The statement of a change is one that makes the change in the database, whatever else is done
/// with it.
pub proof fn law_statement_call(
    db: Database,
    t: Tables,
    change: &QueueStatement,
    res: Statement,
    now: int,
)
    requires
        stands_for(db, t),
        valid(t),
        fits(t, change@),
        call_ensures(QueueStatement::to_statement, (change,), res),
    ensures
        exists|c: Change|
            {
                &&& c.wf()
                &&& #[trigger] c.text() == res@.sql
                &&& stands_for(changed(db, c, res@.params, now), applied(t, change@))
            },
{
    law_statement_makes_its_change(db, t, change@, now);
    let c = choose|c: Change|
        {
            let later = changed(db, c, change@.statement().params, now);
            &&& c.wf()
            &&& #[trigger] c.text() == change@.statement().sql
            &&& stands_for(later, applied(t, change@))
            &&& times_kept(db, later)
            &&& change@ is Enqueue ==> later["capsa_queue"@].rows[job_number(t)]["created_at"@]
                == Cell::Integer(now)
        };
    assert(c.text() == res@.sql);
}

/// The statement of a question is one that asks it of the tables of the queue.
pub proof fn law_question_call(q: &QueueQuery, res: Statement)
    requires
        call_ensures(QueueQuery::to_statement, (q,), res),
    ensures
        res@.sql == query_of(*q).text(),
        res@.params.len() == if *q is PendingBatch {
            1nat
        } else {
            0nat
        },
        *q matches QueueQuery::PendingBatch { limit } ==> limit <= i64::MAX ==> res@.params[0]
            == ParamView::Integer(limit as i64),
{
    law_query_text(*q);
}

/// Trying again is one statement, which makes every failed document of the database pending and
/// leaves all others as they are.
pub proof fn law_retry_statement(
    conn: &QueueConnection,
    failed: i64,
    changes: (u64, Vec<QueueStatement>),
    statement: Statement,
    db: Database,
    t: Tables,
    now: int,
)
    requires
        stands_for(db, t),
        valid(t),
        failed > 0,
        failed == count_with(t, JobStatus::Failed),
        call_ensures(QueueConnection::retry_failed, (conn, Some(failed)), changes),
        changes.1@.len() > 0,
        call_ensures(QueueStatement::to_statement, (&changes.1@[0],), statement),
    ensures
        changes.1@.len() == 1,
        exists|c: Change, later: Tables|
            {
                &&& c.wf()
                &&& #[trigger] c.text() == statement@.sql
                &&& #[trigger] stands_for(changed(db, c, statement@.params, now), later)
                &&& later.jobs.dom() == t.jobs.dom()
                &&& forall|id: i64| #[trigger]
                    t.jobs.dom().contains(id) ==> if t.jobs[id].status == JobStatus::Failed {
                        later.jobs[id].status == JobStatus::Pending && later.jobs[id].error is None
                    } else {
                        later.jobs[id] == t.jobs[id]
                    }
            },
{
    law_retry(conn, failed, changes, t);
    let views = change_views(changes.1@);
    assert(views.len() == changes.1@.len());
    assert(views[0] == changes.1@[0]@);
    assert(views =~= seq![views[0]]);
    lemma_one_change(t, views[0]);
    law_statement_call(db, t, &changes.1@[0], statement, now);
    let later = applied(t, views[0]);
    let c = choose|c: Change|
        {
            &&& c.wf()
            &&& #[trigger] c.text() == statement@.sql
            &&& stands_for(changed(db, c, statement@.params, now), later)
        };
    assert(c.text() == statement@.sql && stands_for(
        changed(db, c, statement@.params, now),
        later,
    ));
}

} // verus!
