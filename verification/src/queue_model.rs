//! What the changes of the queue database mean, and what they keep.
//!
//! The model leaves the times at which rows were written out of account.

use vstd::prelude::*;
use vstd::utf8::encode_utf8;
use crate::codec::{law_compressed_text_round_trip, lz4_decoded};
use crate::queue::{
    completion_of_write, failure_of_embed, failure_of_write, promotion_to_embeds,
    promotion_to_writes, status_count, QueueStatementView,
};
use crate::sql::{stmt, ParamView};
use crate::vectordb::{insert_document_sql, is_insert_of, stored_text};

verus! {

/// The status of a document in the queue.
pub enum JobStatus {
    Pending,
    Processing,
    Done,
    Failed,
}

/// A document in the queue.
#[verifier::ext_equal]
pub struct Job {
    pub source: Seq<char>,
    pub metadata: Seq<char>,
    pub text: Seq<char>,
    pub status: JobStatus,
    pub error: Option<Seq<char>>,
}

/// An item that waits to be embedded.
#[verifier::ext_equal]
pub struct WaitingEmbed {
    pub queue_id: i64,
    pub source: Seq<char>,
    pub metadata: Seq<char>,
    pub text: Seq<char>,
    pub chunks: Seq<char>,
}

/// An item that waits to be written.
#[verifier::ext_equal]
pub struct WaitingWrite {
    pub queue_id: i64,
    pub source: Seq<char>,
    pub metadata: Seq<char>,
    pub compressed_text: Seq<u8>,
    pub embeddings: Seq<u8>,
}

/// The tables of the queue database, by the numbers of their rows, and the numbers that their
/// next rows will get.
#[verifier::ext_equal]
pub struct Tables {
    pub jobs: Map<i64, Job>,
    pub embeds: Map<i64, WaitingEmbed>,
    pub writes: Map<i64, WaitingWrite>,
    pub next_job: int,
    pub next_embed: int,
    pub next_write: int,
}

/// The number that the next document gets.
pub open spec fn job_number(t: Tables) -> i64 {
    t.next_job as i64
}

/// The number that the next item of the embedding stage gets.
pub open spec fn embed_number(t: Tables) -> i64 {
    t.next_embed as i64
}

/// The number that the next item of the writing stage gets.
pub open spec fn write_number(t: Tables) -> i64 {
    t.next_write as i64
}

/// The queue of a new database.
pub open spec fn empty_tables() -> Tables {
    Tables {
        jobs: Map::empty(),
        embeds: Map::empty(),
        writes: Map::empty(),
        next_job: 1,
        next_embed: 1,
        next_write: 1,
    }
}

/// The jobs once each of those that `which` names has been changed by `change`.
pub open spec fn changed_jobs(
    jobs: Map<i64, Job>,
    which: spec_fn(i64) -> bool,
    change: spec_fn(Job) -> Job,
) -> Map<i64, Job> {
    jobs.map_entries(
        |id: i64, job: Job|
            if which(id) {
                change(job)
            } else {
                job
            },
    )
}

/// A job with another status.
pub open spec fn with_status(job: Job, status: JobStatus) -> Job {
    Job { status, ..job }
}

/// Whether a later stage holds the document.
pub open spec fn in_later_stage(t: Tables, id: i64) -> bool {
    ||| exists|e: i64| t.embeds.dom().contains(e) && (#[trigger] t.embeds[e]).queue_id == id
    ||| exists|w: i64| t.writes.dom().contains(w) && (#[trigger] t.writes[w]).queue_id == id
}

/// Whether the document has the status.
pub open spec fn has_status(t: Tables, id: i64, status: JobStatus) -> bool {
    t.jobs.dom().contains(id) && t.jobs[id].status == status
}

/// Whether the document is being processed though no later stage holds it.
pub open spec fn is_orphan(t: Tables, id: i64) -> bool {
    has_status(t, id, JobStatus::Processing) && !in_later_stage(t, id)
}

/// Whether the database makes a change. Rows are numbered from 1 on and no number is used twice, so
/// a table of which the last number is used takes no row more.
pub open spec fn fits(t: Tables, change: QueueStatementView) -> bool {
    match change {
        QueueStatementView::Enqueue { .. } => t.next_job <= i64::MAX,
        QueueStatementView::AddEmbed { .. } => t.next_embed <= i64::MAX,
        QueueStatementView::AddWrite { .. } => t.next_write <= i64::MAX,
        _ => true,
    }
}

/// The tables after one change that the database makes.
pub open spec fn applied(t: Tables, change: QueueStatementView) -> Tables {
    match change {
        QueueStatementView::Enqueue { source, metadata, text } => Tables {
            jobs: t.jobs.insert(
                job_number(t),
                Job { source, metadata, text, status: JobStatus::Pending, error: None },
            ),
            next_job: t.next_job + 1,
            ..t
        },
        QueueStatementView::SetProcessing { id } => Tables {
            jobs: changed_jobs(
                t.jobs,
                |k: i64| k == id,
                |job: Job| with_status(job, JobStatus::Processing),
            ),
            ..t
        },
        QueueStatementView::Claim { id } => Tables {
            jobs: changed_jobs(
                t.jobs,
                |k: i64| k == id && t.jobs[k].status == JobStatus::Pending,
                |job: Job| with_status(job, JobStatus::Processing),
            ),
            ..t
        },
        QueueStatementView::SetDone { id } => Tables {
            jobs: changed_jobs(
                t.jobs,
                |k: i64| k == id,
                |job: Job| with_status(job, JobStatus::Done),
            ),
            ..t
        },
        QueueStatementView::SetFailed { id, error } => Tables {
            jobs: changed_jobs(
                t.jobs,
                |k: i64| k == id,
                |job: Job| Job { status: JobStatus::Failed, error: Some(error), ..job },
            ),
            ..t
        },
        QueueStatementView::RetryFailed => Tables {
            jobs: changed_jobs(
                t.jobs,
                |k: i64| t.jobs[k].status == JobStatus::Failed,
                |job: Job| Job { status: JobStatus::Pending, error: None, ..job },
            ),
            ..t
        },
        QueueStatementView::ReleaseProcessing => Tables {
            jobs: changed_jobs(
                t.jobs,
                |k: i64| t.jobs[k].status == JobStatus::Processing,
                |job: Job| with_status(job, JobStatus::Pending),
            ),
            ..t
        },
        QueueStatementView::ReleaseOrphans => Tables {
            jobs: changed_jobs(
                t.jobs,
                |k: i64| is_orphan(t, k),
                |job: Job| with_status(job, JobStatus::Pending),
            ),
            ..t
        },
        QueueStatementView::AddEmbed { queue_id, source, metadata, text, chunks } => Tables {
            embeds: t.embeds.insert(
                embed_number(t),
                WaitingEmbed { queue_id, source, metadata, text, chunks },
            ),
            next_embed: t.next_embed + 1,
            ..t
        },
        QueueStatementView::DropEmbed { id } => Tables { embeds: t.embeds.remove(id), ..t },
        QueueStatementView::AddWrite { queue_id, source, metadata, compressed_text, embeddings } =>
            Tables {
            writes: t.writes.insert(
                write_number(t),
                WaitingWrite { queue_id, source, metadata, compressed_text, embeddings },
            ),
            next_write: t.next_write + 1,
            ..t
        },
        QueueStatementView::DropWrite { id } => Tables { writes: t.writes.remove(id), ..t },
    }
}

/// The tables after the changes of one operation, in their order, where the database makes all of
/// them.
pub open spec fn after(t: Tables, changes: Seq<QueueStatementView>) -> Tables
    decreases changes.len(),
{
    if changes.len() == 0 {
        t
    } else {
        applied(after(t, changes.drop_last()), changes.last())
    }
}

/// Whether the tables are those of a database: finitely many rows, with numbers from 1 on and below
/// the next ones.
pub open spec fn valid(t: Tables) -> bool {
    &&& t.jobs.dom().finite()
    &&& t.embeds.dom().finite()
    &&& t.writes.dom().finite()
    &&& 1 <= t.next_job <= i64::MAX + 1
    &&& 1 <= t.next_embed <= i64::MAX + 1
    &&& 1 <= t.next_write <= i64::MAX + 1
    &&& forall|id: i64| #[trigger] t.jobs.dom().contains(id) ==> 1 <= id < t.next_job
    &&& forall|id: i64| #[trigger] t.embeds.dom().contains(id) ==> 1 <= id < t.next_embed
    &&& forall|id: i64| #[trigger] t.writes.dom().contains(id) ==> 1 <= id < t.next_write
}

/// Whether the pipeline is consistent: the documents that are being processed are those that the
/// later stages hold, and each stands there once.
pub open spec fn consistent(t: Tables) -> bool {
    &&& valid(t)
    &&& forall|e: i64| #[trigger]
        t.embeds.dom().contains(e) ==> has_status(t, t.embeds[e].queue_id, JobStatus::Processing)
    &&& forall|w: i64| #[trigger]
        t.writes.dom().contains(w) ==> has_status(t, t.writes[w].queue_id, JobStatus::Processing)
    &&& forall|a: i64, b: i64|
        #![trigger t.embeds.dom().contains(a), t.embeds.dom().contains(b)]
        t.embeds.dom().contains(a) && t.embeds.dom().contains(b) && t.embeds[a].queue_id
            == t.embeds[b].queue_id ==> a == b
    &&& forall|a: i64, b: i64|
        #![trigger t.writes.dom().contains(a), t.writes.dom().contains(b)]
        t.writes.dom().contains(a) && t.writes.dom().contains(b) && t.writes[a].queue_id
            == t.writes[b].queue_id ==> a == b
    &&& forall|a: i64, b: i64|
        #![trigger t.embeds.dom().contains(a), t.writes.dom().contains(b)]
        t.embeds.dom().contains(a) && t.writes.dom().contains(b) ==> t.embeds[a].queue_id
            != t.writes[b].queue_id
    &&& forall|id: i64| #[trigger]
        t.jobs.dom().contains(id) && t.jobs[id].status == JobStatus::Processing ==> in_later_stage(
            t,
            id,
        )
}

/// Whether the later stages hold the documents as they were put into the queue: the same source,
/// metadata and text, the text compressed in the writing stage.
pub open spec fn faithful(t: Tables) -> bool {
    &&& forall|e: i64| #[trigger]
        t.embeds.dom().contains(e) ==> {
            let job = t.jobs[t.embeds[e].queue_id];
            &&& t.embeds[e].source == job.source
            &&& t.embeds[e].metadata == job.metadata
            &&& t.embeds[e].text == job.text
        }
    &&& forall|w: i64| #[trigger]
        t.writes.dom().contains(w) ==> {
            let job = t.jobs[t.writes[w].queue_id];
            &&& t.writes[w].source == job.source
            &&& t.writes[w].metadata == job.metadata
            &&& lz4_decoded(t.writes[w].compressed_text) == Some(encode_utf8(job.text))
        }
}

/// Whether every document of `before` is in `later`, unchanged but for its status and error.
pub open spec fn nothing_lost(before: Tables, later: Tables) -> bool {
    forall|id: i64| #[trigger]
        before.jobs.dom().contains(id) ==> {
            &&& later.jobs.dom().contains(id)
            &&& later.jobs[id].source == before.jobs[id].source
            &&& later.jobs[id].metadata == before.jobs[id].metadata
            &&& later.jobs[id].text == before.jobs[id].text
        }
}

/// Whether all documents but `id` are as before.
pub open spec fn others_unchanged(before: Tables, later: Tables, id: i64) -> bool {
    forall|k: i64| #[trigger]
        before.jobs.dom().contains(k) && k != id ==> later.jobs[k] == before.jobs[k]
}

proof fn lemma_two_changes(t: Tables, a: QueueStatementView, b: QueueStatementView)
    ensures
        after(t, seq![a, b]) == applied(applied(t, a), b),
{
    let both = seq![a, b];
    let one = both.drop_last();
    assert(one =~= seq![a]);
    assert(one.drop_last() =~= Seq::<QueueStatementView>::empty());
    assert(after(t, one.drop_last()) == t);
    assert(one.last() == a);
    assert(after(t, one) == applied(t, a));
    assert(both.last() == b);
}

/// A new database is consistent.
pub proof fn law_empty_consistent()
    ensures
        consistent(empty_tables()),
        faithful(empty_tables()),
{
}

/// Putting a document into the queue keeps the pipeline consistent and makes the document pending.
/// Its number is above those of all documents before it, so the order of the numbers is that of
/// arrival.
pub proof fn law_enqueue(t: Tables, source: Seq<char>, metadata: Seq<char>, text: Seq<char>)
    requires
        consistent(t),
        t.next_job <= i64::MAX,
    ensures
        ({
            let later = applied(t, QueueStatementView::Enqueue { source, metadata, text });
            &&& consistent(later)
            &&& faithful(t) ==> faithful(later)
            &&& nothing_lost(t, later)
            &&& has_status(later, job_number(t), JobStatus::Pending)
            &&& later.jobs[job_number(t)].source == source
            &&& later.jobs[job_number(t)].metadata == metadata
            &&& later.jobs[job_number(t)].text == text
            &&& forall|id: i64| #[trigger] t.jobs.dom().contains(id) ==> id < job_number(t)
        }),
{
    let later = applied(t, QueueStatementView::Enqueue { source, metadata, text });
    assert forall|id: i64| #[trigger]
        later.jobs.dom().contains(id) && later.jobs[id].status
            == JobStatus::Processing implies in_later_stage(later, id) by {
        assert(t.jobs.dom().contains(id));
        lemma_same_stages(t, later, id);
    }
}

proof fn lemma_same_stages(t: Tables, later: Tables, id: i64)
    requires
        t.embeds == later.embeds,
        t.writes == later.writes,
    ensures
        in_later_stage(t, id) == in_later_stage(later, id),
{
}

/// Handing a pending document to the embedding stage keeps the pipeline consistent: the document
/// is now being processed, and one item of the embedding stage holds it.
pub proof fn law_promote_to_embeds(
    t: Tables,
    queue_id: i64,
    source: Seq<char>,
    metadata: Seq<char>,
    text: Seq<char>,
    chunks: Seq<char>,
)
    requires
        consistent(t),
        t.next_embed <= i64::MAX,
        has_status(t, queue_id, JobStatus::Pending),
    ensures
        ({
            let later = after(t, promotion_to_embeds(queue_id, source, metadata, text, chunks));
            &&& consistent(later)
            &&& nothing_lost(t, later)
            &&& others_unchanged(t, later, queue_id)
            &&& has_status(later, queue_id, JobStatus::Processing)
            &&& later.embeds == t.embeds.insert(
                embed_number(t),
                WaitingEmbed { queue_id, source, metadata, text, chunks },
            )
            &&& later.writes == t.writes
            &&& faithful(t) && source == t.jobs[queue_id].source && metadata
                == t.jobs[queue_id].metadata && text == t.jobs[queue_id].text ==> faithful(later)
        }),
{
    let claim = QueueStatementView::Claim { id: queue_id };
    let add = QueueStatementView::AddEmbed { queue_id, source, metadata, text, chunks };
    lemma_two_changes(t, claim, add);
    let later = applied(applied(t, claim), add);
    assert(later.jobs.dom() =~= t.jobs.dom());
    assert(promotion_to_embeds(queue_id, source, metadata, text, chunks) =~= seq![claim, add]);
    assert(later.embeds.dom().contains(embed_number(t)));
    assert(later.embeds[embed_number(t)].queue_id == queue_id);
    assert forall|id: i64| #[trigger]
        later.jobs.dom().contains(id) && later.jobs[id].status
            == JobStatus::Processing implies in_later_stage(later, id) by {
        if id != queue_id {
            assert(t.jobs.dom().contains(id));
            lemma_still_held(t, later, id);
        }
    }
    lemma_not_held(t, queue_id);
}

/// A document that is not being processed stands in no later stage.
proof fn lemma_not_held(t: Tables, id: i64)
    requires
        consistent(t),
        !has_status(t, id, JobStatus::Processing),
    ensures
        forall|e: i64| #[trigger] t.embeds.dom().contains(e) ==> t.embeds[e].queue_id != id,
        forall|w: i64| #[trigger] t.writes.dom().contains(w) ==> t.writes[w].queue_id != id,
{
}

/// A document stays in a later stage while the items about it stay.
proof fn lemma_still_held(t: Tables, later: Tables, id: i64)
    requires
        in_later_stage(t, id),
        forall|e: i64| #[trigger]
            t.embeds.dom().contains(e) && t.embeds[e].queue_id == id ==> later.embeds.dom().contains(e)
                && later.embeds[e] == t.embeds[e],
        forall|w: i64| #[trigger]
            t.writes.dom().contains(w) && t.writes[w].queue_id == id ==> later.writes.dom().contains(w)
                && later.writes[w] == t.writes[w],
    ensures
        in_later_stage(later, id),
{
    if exists|e: i64| t.embeds.dom().contains(e) && (#[trigger] t.embeds[e]).queue_id == id {
        let e = choose|e: i64|
            t.embeds.dom().contains(e) && (#[trigger] t.embeds[e]).queue_id == id;
        assert(later.embeds.dom().contains(e) && later.embeds[e].queue_id == id);
    } else {
        let w = choose|w: i64|
            t.writes.dom().contains(w) && (#[trigger] t.writes[w]).queue_id == id;
        assert(later.writes.dom().contains(w) && later.writes[w].queue_id == id);
    }
}

/// Handing an item of the embedding stage to the writing stage keeps the pipeline consistent: the
/// document is still being processed, and one item of the writing stage holds it.
pub proof fn law_promote_to_writes(
    t: Tables,
    embed_id: i64,
    source: Seq<char>,
    metadata: Seq<char>,
    compressed_text: Seq<u8>,
    embeddings: Seq<u8>,
)
    requires
        consistent(t),
        t.next_write <= i64::MAX,
        t.embeds.dom().contains(embed_id),
    ensures
        ({
            let item = t.embeds[embed_id];
            let later = after(
                t,
                promotion_to_writes(
                    embed_id,
                    item.queue_id,
                    source,
                    metadata,
                    compressed_text,
                    embeddings,
                ),
            );
            &&& consistent(later)
            &&& later.jobs == t.jobs
            &&& later.embeds == t.embeds.remove(embed_id)
            &&& later.writes == t.writes.insert(
                write_number(t),
                WaitingWrite {
                    queue_id: item.queue_id,
                    source,
                    metadata,
                    compressed_text,
                    embeddings,
                },
            )
            &&& faithful(t) && source == item.source && metadata == item.metadata && lz4_decoded(
                compressed_text,
            ) == Some(encode_utf8(item.text)) ==> faithful(later)
        }),
{
    let queue_id = t.embeds[embed_id].queue_id;
    let add = QueueStatementView::AddWrite {
        queue_id,
        source,
        metadata,
        compressed_text,
        embeddings,
    };
    let drop_it = QueueStatementView::DropEmbed { id: embed_id };
    lemma_two_changes(t, add, drop_it);
    let later = applied(applied(t, add), drop_it);
    assert(later.jobs.dom() =~= t.jobs.dom());
    assert(promotion_to_writes(embed_id, queue_id, source, metadata, compressed_text, embeddings)
        =~= seq![add, drop_it]);
    assert(later.writes.dom().contains(write_number(t)));
    assert(later.writes[write_number(t)].queue_id == queue_id);
    assert forall|id: i64| #[trigger]
        later.jobs.dom().contains(id) && later.jobs[id].status
            == JobStatus::Processing implies in_later_stage(later, id) by {
        if id != queue_id {
            assert(t.jobs.dom().contains(id));
            lemma_still_held(t, later, id);
        }
    }
}

/// Failing an item of the embedding stage keeps the pipeline consistent: the document has failed
/// with the error, and no later stage holds it.
pub proof fn law_fail_embed(t: Tables, embed_id: i64, error: Seq<char>)
    requires
        consistent(t),
        t.embeds.dom().contains(embed_id),
    ensures
        ({
            let queue_id = t.embeds[embed_id].queue_id;
            let later = after(t, failure_of_embed(embed_id, queue_id, error));
            &&& consistent(later)
            &&& faithful(t) ==> faithful(later)
            &&& nothing_lost(t, later)
            &&& others_unchanged(t, later, queue_id)
            &&& has_status(later, queue_id, JobStatus::Failed)
            &&& later.jobs[queue_id].error == Some(error)
            &&& later.embeds == t.embeds.remove(embed_id)
            &&& later.writes == t.writes
            &&& !in_later_stage(later, queue_id)
        }),
{
    let queue_id = t.embeds[embed_id].queue_id;
    let fail = QueueStatementView::SetFailed { id: queue_id, error };
    let drop_it = QueueStatementView::DropEmbed { id: embed_id };
    lemma_two_changes(t, fail, drop_it);
    let later = applied(applied(t, fail), drop_it);
    assert(later.jobs.dom() =~= t.jobs.dom());
    assert(failure_of_embed(embed_id, queue_id, error) =~= seq![fail, drop_it]);
    assert forall|id: i64| #[trigger]
        later.jobs.dom().contains(id) && later.jobs[id].status
            == JobStatus::Processing implies in_later_stage(later, id) by {
        assert(t.jobs.dom().contains(id));
        lemma_still_held(t, later, id);
    }
}

/// Completing an item of the writing stage keeps the pipeline consistent: the document is done,
/// and no later stage holds it.
pub proof fn law_complete_write(t: Tables, write_id: i64)
    requires
        consistent(t),
        t.writes.dom().contains(write_id),
    ensures
        ({
            let queue_id = t.writes[write_id].queue_id;
            let later = after(t, completion_of_write(write_id, queue_id));
            &&& consistent(later)
            &&& faithful(t) ==> faithful(later)
            &&& nothing_lost(t, later)
            &&& others_unchanged(t, later, queue_id)
            &&& has_status(later, queue_id, JobStatus::Done)
            &&& later.embeds == t.embeds
            &&& later.writes == t.writes.remove(write_id)
            &&& !in_later_stage(later, queue_id)
        }),
{
    let queue_id = t.writes[write_id].queue_id;
    let done = QueueStatementView::SetDone { id: queue_id };
    let drop_it = QueueStatementView::DropWrite { id: write_id };
    lemma_two_changes(t, done, drop_it);
    let later = applied(applied(t, done), drop_it);
    assert(later.jobs.dom() =~= t.jobs.dom());
    assert(completion_of_write(write_id, queue_id) =~= seq![done, drop_it]);
    assert forall|id: i64| #[trigger]
        later.jobs.dom().contains(id) && later.jobs[id].status
            == JobStatus::Processing implies in_later_stage(later, id) by {
        assert(t.jobs.dom().contains(id));
        lemma_still_held(t, later, id);
    }
}

/// Failing an item of the writing stage keeps the pipeline consistent: the document has failed
/// with the error, and no later stage holds it.
pub proof fn law_fail_write(t: Tables, write_id: i64, error: Seq<char>)
    requires
        consistent(t),
        t.writes.dom().contains(write_id),
    ensures
        ({
            let queue_id = t.writes[write_id].queue_id;
            let later = after(t, failure_of_write(write_id, queue_id, error));
            &&& consistent(later)
            &&& faithful(t) ==> faithful(later)
            &&& nothing_lost(t, later)
            &&& others_unchanged(t, later, queue_id)
            &&& has_status(later, queue_id, JobStatus::Failed)
            &&& later.jobs[queue_id].error == Some(error)
            &&& later.embeds == t.embeds
            &&& later.writes == t.writes.remove(write_id)
            &&& !in_later_stage(later, queue_id)
        }),
{
    let queue_id = t.writes[write_id].queue_id;
    let fail = QueueStatementView::SetFailed { id: queue_id, error };
    let drop_it = QueueStatementView::DropWrite { id: write_id };
    lemma_two_changes(t, fail, drop_it);
    let later = applied(applied(t, fail), drop_it);
    assert(later.jobs.dom() =~= t.jobs.dom());
    assert(failure_of_write(write_id, queue_id, error) =~= seq![fail, drop_it]);
    assert forall|id: i64| #[trigger]
        later.jobs.dom().contains(id) && later.jobs[id].status
            == JobStatus::Processing implies in_later_stage(later, id) by {
        assert(t.jobs.dom().contains(id));
        lemma_still_held(t, later, id);
    }
}

/// Marking a pending document as failed keeps the pipeline consistent.
pub proof fn law_mark_failed(t: Tables, id: i64, error: Seq<char>)
    requires
        consistent(t),
        has_status(t, id, JobStatus::Pending),
    ensures
        ({
            let later = applied(t, QueueStatementView::SetFailed { id, error });
            &&& consistent(later)
            &&& faithful(t) ==> faithful(later)
            &&& nothing_lost(t, later)
            &&& others_unchanged(t, later, id)
            &&& has_status(later, id, JobStatus::Failed)
            &&& later.jobs[id].error == Some(error)
        }),
{
    let later = applied(t, QueueStatementView::SetFailed { id, error });
    assert(later.jobs.dom() =~= t.jobs.dom());
    assert forall|k: i64| #[trigger]
        later.jobs.dom().contains(k) && later.jobs[k].status
            == JobStatus::Processing implies in_later_stage(later, k) by {
        assert(t.jobs.dom().contains(k));
        lemma_same_stages(t, later, k);
    }
}

/// Retrying keeps the pipeline consistent: every failed document is pending again, without an
/// error, and all others are as before.
pub proof fn law_retry_failed(t: Tables)
    requires
        consistent(t),
    ensures
        ({
            let later = applied(t, QueueStatementView::RetryFailed);
            &&& consistent(later)
            &&& faithful(t) ==> faithful(later)
            &&& nothing_lost(t, later)
            &&& forall|id: i64| #[trigger]
                t.jobs.dom().contains(id) ==> if t.jobs[id].status == JobStatus::Failed {
                    later.jobs[id].status == JobStatus::Pending && later.jobs[id].error is None
                } else {
                    later.jobs[id] == t.jobs[id]
                }
        }),
{
    let later = applied(t, QueueStatementView::RetryFailed);
    assert(later.jobs.dom() =~= t.jobs.dom());
    assert forall|k: i64| #[trigger]
        later.jobs.dom().contains(k) && later.jobs[k].status
            == JobStatus::Processing implies in_later_stage(later, k) by {
        assert(t.jobs.dom().contains(k));
        lemma_same_stages(t, later, k);
    }
}

/// Retrying undoes the failure of a pending document, where nothing else has failed.
pub proof fn law_retry_undoes_failure(t: Tables, id: i64, error: Seq<char>)
    requires
        has_status(t, id, JobStatus::Pending),
        t.jobs[id].error is None,
        forall|k: i64| #[trigger]
            t.jobs.dom().contains(k) ==> t.jobs[k].status != JobStatus::Failed,
    ensures
        applied(
            applied(t, QueueStatementView::SetFailed { id, error }),
            QueueStatementView::RetryFailed,
        ) == t,
{
    let later = applied(
        applied(t, QueueStatementView::SetFailed { id, error }),
        QueueStatementView::RetryFailed,
    );
    assert(later.jobs =~= t.jobs);
}

/// Retrying where nothing has failed changes nothing, so that not executing the statement is the
/// same.
pub proof fn law_retry_without_failures(t: Tables)
    requires
        forall|id: i64| #[trigger]
            t.jobs.dom().contains(id) ==> t.jobs[id].status != JobStatus::Failed,
    ensures
        applied(t, QueueStatementView::RetryFailed) == t,
{
    assert(applied(t, QueueStatementView::RetryFailed).jobs =~= t.jobs);
}

/// Resetting what is being processed where nothing is changes nothing.
pub proof fn law_reset_processing_without_work(t: Tables)
    requires
        forall|id: i64| #[trigger]
            t.jobs.dom().contains(id) ==> t.jobs[id].status != JobStatus::Processing,
    ensures
        applied(t, QueueStatementView::ReleaseProcessing) == t,
{
    assert(applied(t, QueueStatementView::ReleaseProcessing).jobs =~= t.jobs);
}

/// Resetting the pipeline changes orphans alone: they are pending afterwards, no document is an
/// orphan any more, and the later stages hold what they held.
pub proof fn law_reset_pipeline(t: Tables)
    ensures
        ({
            let later = applied(t, QueueStatementView::ReleaseOrphans);
            &&& later.embeds == t.embeds
            &&& later.writes == t.writes
            &&& nothing_lost(t, later)
            &&& forall|id: i64| #[trigger]
                t.jobs.dom().contains(id) ==> if is_orphan(t, id) {
                    later.jobs[id] == with_status(t.jobs[id], JobStatus::Pending)
                } else {
                    later.jobs[id] == t.jobs[id]
                }
            &&& forall|id: i64| !is_orphan(later, id)
        }),
{
    let later = applied(t, QueueStatementView::ReleaseOrphans);
    assert(later.jobs.dom() =~= t.jobs.dom());
    assert forall|id: i64| !is_orphan(later, id) by {
        lemma_same_stages(t, later, id);
    }
}

/// Resetting a consistent pipeline changes nothing: work that later stages hold is resumed, not
/// repeated.
pub proof fn law_reset_pipeline_keeps_work(t: Tables)
    requires
        consistent(t),
    ensures
        applied(t, QueueStatementView::ReleaseOrphans) == t,
        forall|id: i64| !is_orphan(t, id),
{
    let later = applied(t, QueueStatementView::ReleaseOrphans);
    assert(later.jobs.dom() =~= t.jobs.dom());
    assert(later.jobs =~= t.jobs);
}

/// A pending document passes through the stages: it is embedded, written and done. The writing
/// stage holds its source, its metadata and its text, compressed; nothing else is touched; and at
/// the end no later stage holds it.
pub proof fn law_document_passes_through(
    t: Tables,
    id: i64,
    chunks: Seq<char>,
    compressed_text: Seq<u8>,
    embeddings: Seq<u8>,
)
    requires
        consistent(t),
        faithful(t),
        t.next_embed <= i64::MAX,
        t.next_write <= i64::MAX,
        has_status(t, id, JobStatus::Pending),
        lz4_decoded(compressed_text) == Some(encode_utf8(t.jobs[id].text)),
    ensures
        ({
            let job = t.jobs[id];
            let chunked = after(
                t,
                promotion_to_embeds(id, job.source, job.metadata, job.text, chunks),
            );
            let item = chunked.embeds[embed_number(t)];
            let embedded = after(
                chunked,
                promotion_to_writes(
                    embed_number(t),
                    item.queue_id,
                    item.source,
                    item.metadata,
                    compressed_text,
                    embeddings,
                ),
            );
            let write = embedded.writes[write_number(t)];
            let written = after(embedded, completion_of_write(write_number(t), write.queue_id));
            &&& item.queue_id == id
            &&& item.text == job.text
            &&& item.chunks == chunks
            &&& write.queue_id == id
            &&& write.source == job.source
            &&& write.metadata == job.metadata
            &&& lz4_decoded(write.compressed_text) == Some(encode_utf8(job.text))
            &&& write.embeddings == embeddings
            &&& consistent(written)
            &&& faithful(written)
            &&& has_status(written, id, JobStatus::Done)
            &&& others_unchanged(t, written, id)
            &&& written.embeds == t.embeds
            &&& written.writes == t.writes
        }),
{
    let job = t.jobs[id];
    law_promote_to_embeds(t, id, job.source, job.metadata, job.text, chunks);
    let chunked = after(t, promotion_to_embeds(id, job.source, job.metadata, job.text, chunks));
    let claim = QueueStatementView::Claim { id };
    let add = QueueStatementView::AddEmbed {
        queue_id: id,
        source: job.source,
        metadata: job.metadata,
        text: job.text,
        chunks,
    };
    lemma_two_changes(t, claim, add);
    assert(promotion_to_embeds(id, job.source, job.metadata, job.text, chunks) =~= seq![
        claim,
        add,
    ]);
    assert(chunked.next_write == t.next_write && chunked.next_job == t.next_job);
    let item = chunked.embeds[embed_number(t)];
    assert(chunked.embeds.dom().contains(embed_number(t)));
    law_promote_to_writes(
        chunked,
        embed_number(t),
        item.source,
        item.metadata,
        compressed_text,
        embeddings,
    );
    let embedded = after(
        chunked,
        promotion_to_writes(
            embed_number(t),
            item.queue_id,
            item.source,
            item.metadata,
            compressed_text,
            embeddings,
        ),
    );
    assert(embedded.writes.dom().contains(write_number(t)));
    law_complete_write(embedded, write_number(t));
    let written = after(
        embedded,
        completion_of_write(write_number(t), embedded.writes[write_number(t)].queue_id),
    );
    assert(!t.embeds.dom().contains(embed_number(t)));
    assert(!t.writes.dom().contains(write_number(t)));
    assert(written.embeds =~= t.embeds);
    assert(written.writes =~= t.writes);
    assert forall|k: i64| #[trigger] t.jobs.dom().contains(k) && k != id implies written.jobs[k]
        == t.jobs[k] by {
        assert(chunked.jobs.dom().contains(k));
        assert(embedded.jobs.dom().contains(k));
    }
}

/// A document that the writing stage holds is stored with the text and the metadata with which it
/// was put into the queue, so that fetching it gives these back.
pub proof fn law_stored_as_enqueued(t: Tables, write_id: i64, dim: nat)
    requires
        faithful(t),
        t.writes.dom().contains(write_id),
    ensures
        ({
            let item = t.writes[write_id];
            let job = t.jobs[item.queue_id];
            let stored = stmt(
                insert_document_sql(dim),
                seq![ParamView::Blob(item.compressed_text), ParamView::Text(item.metadata)],
            );
            &&& is_insert_of(stored, dim, job.text, job.metadata)
            &&& stored_text(item.compressed_text) == Some(job.text)
        }),
{
    let item = t.writes[write_id];
    law_compressed_text_round_trip(t.jobs[item.queue_id].text, item.compressed_text);
}

/// What taking documents from the queue changes.
pub open spec fn taking(ids: Seq<i64>) -> Seq<QueueStatementView> {
    ids.map_values(|id: i64| QueueStatementView::SetProcessing { id })
}

/// Taking documents from the queue marks them, and no others, as being processed.
pub proof fn law_dequeue(t: Tables, ids: Seq<i64>)
    ensures
        ({
            let later = after(t, taking(ids));
            &&& nothing_lost(t, later)
            &&& later.jobs.dom() == t.jobs.dom()
            &&& later.embeds == t.embeds
            &&& later.writes == t.writes
            &&& later.next_job == t.next_job
            &&& later.next_embed == t.next_embed
            &&& later.next_write == t.next_write
            &&& forall|id: i64| #[trigger]
                t.jobs.dom().contains(id) ==> later.jobs[id] == (if ids.contains(id) {
                    with_status(t.jobs[id], JobStatus::Processing)
                } else {
                    t.jobs[id]
                })
        }),
    decreases ids.len(),
{
    if ids.len() == 0 {
        assert(taking(ids) =~= Seq::<QueueStatementView>::empty());
    } else {
        let front = ids.drop_last();
        let last = ids.last();
        law_dequeue(t, front);
        let change = QueueStatementView::SetProcessing { id: last };
        assert(taking(ids).drop_last() =~= taking(front));
        assert(taking(ids).last() == change);
        let mid = after(t, taking(front));
        let later = applied(mid, change);
        assert(later.jobs.dom() =~= t.jobs.dom());
        assert forall|id: i64| #[trigger] t.jobs.dom().contains(id) implies later.jobs[id] == (
        if ids.contains(id) {
            with_status(t.jobs[id], JobStatus::Processing)
        } else {
            t.jobs[id]
        }) by {
            assert(mid.jobs.dom().contains(id));
            assert(ids.contains(id) <==> (id == last || front.contains(id))) by {
                if ids.contains(id) {
                    let i = choose|i: int| 0 <= i < ids.len() && ids[i] == id;
                    if i < front.len() {
                        assert(front[i] == id);
                    }
                }
                if front.contains(id) {
                    let i = choose|i: int| 0 <= i < front.len() && front[i] == id;
                    assert(ids[i] == id);
                }
                if id == last {
                    assert(ids[ids.len() - 1] == id);
                }
            }
        }
    }
}

/// Resetting the pipeline undoes taking pending documents from a consistent queue.
pub proof fn law_reset_undoes_dequeue(t: Tables, ids: Seq<i64>)
    requires
        consistent(t),
        forall|i: int| 0 <= i < ids.len() ==> has_status(t, #[trigger] ids[i], JobStatus::Pending),
    ensures
        applied(after(t, taking(ids)), QueueStatementView::ReleaseOrphans) == t,
{
    law_dequeue(t, ids);
    let mid = after(t, taking(ids));
    let later = applied(mid, QueueStatementView::ReleaseOrphans);
    assert(later.jobs.dom() =~= t.jobs.dom());
    assert forall|id: i64| #[trigger] t.jobs.dom().contains(id) implies later.jobs[id]
        == t.jobs[id] by {
        assert(mid.jobs.dom().contains(id));
        lemma_same_stages(t, mid, id);
        if ids.contains(id) {
            let i = choose|i: int| 0 <= i < ids.len() && ids[i] == id;
            assert(has_status(t, ids[i], JobStatus::Pending));
            lemma_not_held(t, id);
            assert(!in_later_stage(t, id));
            assert(is_orphan(mid, id));
        }
    }
    assert(later.jobs =~= t.jobs);
}

/// Resetting what is being processed undoes taking pending documents from a queue of which nothing
/// was being processed.
pub proof fn law_reset_processing_undoes_dequeue(t: Tables, ids: Seq<i64>)
    requires
        forall|id: i64| #[trigger]
            t.jobs.dom().contains(id) ==> t.jobs[id].status != JobStatus::Processing,
        forall|i: int| 0 <= i < ids.len() ==> has_status(t, #[trigger] ids[i], JobStatus::Pending),
    ensures
        applied(after(t, taking(ids)), QueueStatementView::ReleaseProcessing) == t,
{
    law_dequeue(t, ids);
    let mid = after(t, taking(ids));
    let later = applied(mid, QueueStatementView::ReleaseProcessing);
    assert(later.jobs.dom() =~= t.jobs.dom());
    assert forall|id: i64| #[trigger] t.jobs.dom().contains(id) implies later.jobs[id]
        == t.jobs[id] by {
        assert(mid.jobs.dom().contains(id));
        if ids.contains(id) {
            let i = choose|i: int| 0 <= i < ids.len() && ids[i] == id;
            assert(has_status(t, ids[i], JobStatus::Pending));
        }
    }
    assert(later.jobs =~= t.jobs);
}

/// The documents with a status.
pub open spec fn jobs_with(t: Tables, status: JobStatus) -> Set<i64> {
    t.jobs.dom().filter(|id: i64| t.jobs[id].status == status)
}

/// How many documents have a status.
pub open spec fn count_with(t: Tables, status: JobStatus) -> nat {
    jobs_with(t, status).len()
}

/// The stages count every document once: those that are pending, done and failed, and the items
/// of the two stages between, are together as many as there are documents in the queue.
pub proof fn law_status_counts_every_document(t: Tables)
    requires
        consistent(t),
    ensures
        count_with(t, JobStatus::Pending) + t.embeds.dom().len() + t.writes.dom().len() + count_with(
            t,
            JobStatus::Done,
        ) + count_with(t, JobStatus::Failed) == t.jobs.dom().len(),
        count_with(t, JobStatus::Processing) == t.embeds.dom().len() + t.writes.dom().len(),
{
    let p = jobs_with(t, JobStatus::Pending);
    let w = jobs_with(t, JobStatus::Processing);
    let d = jobs_with(t, JobStatus::Done);
    let f = jobs_with(t, JobStatus::Failed);
    let all = t.jobs.dom();
    vstd::set_lib::lemma_len_subset(p, all);
    vstd::set_lib::lemma_len_subset(w, all);
    vstd::set_lib::lemma_len_subset(d, all);
    vstd::set_lib::lemma_len_subset(f, all);
    assert(p.union(w).union(d).union(f) =~= all);
    vstd::set_lib::lemma_set_disjoint_lens(p, w);
    vstd::set_lib::lemma_set_disjoint_lens(p.union(w), d);
    vstd::set_lib::lemma_set_disjoint_lens(p.union(w).union(d), f);
    let of_embed = |e: i64| t.embeds[e].queue_id;
    let of_write = |x: i64| t.writes[x].queue_id;
    let es = t.embeds.dom().map(of_embed);
    let ws = t.writes.dom().map(of_write);
    t.embeds.dom().lemma_map_finite(of_embed);
    t.writes.dom().lemma_map_finite(of_write);
    vstd::set_lib::lemma_map_size(t.embeds.dom(), es, of_embed);
    vstd::set_lib::lemma_map_size(t.writes.dom(), ws, of_write);
    assert forall|id: i64| es.union(ws).contains(id) == w.contains(id) by {
        if es.contains(id) {
            let e = choose|e: i64| t.embeds.dom().contains(e) && of_embed(e) == id;
            assert(t.embeds.dom().contains(e));
        }
        if ws.contains(id) {
            let x = choose|x: i64| t.writes.dom().contains(x) && of_write(x) == id;
            assert(t.writes.dom().contains(x));
        }
        if w.contains(id) {
            assert(t.jobs.dom().contains(id));
            assert(in_later_stage(t, id));
            if exists|e: i64| t.embeds.dom().contains(e) && (#[trigger] t.embeds[e]).queue_id
                == id {
                let e = choose|e: i64|
                    t.embeds.dom().contains(e) && (#[trigger] t.embeds[e]).queue_id == id;
                assert(of_embed(e) == id);
            } else {
                let x = choose|x: i64|
                    t.writes.dom().contains(x) && (#[trigger] t.writes[x]).queue_id == id;
                assert(of_write(x) == id);
            }
        }
    }
    assert(es.union(ws) =~= w);
    assert(es.disjoint(ws)) by {
        assert forall|id: i64| !(es.contains(id) && ws.contains(id)) by {
            if es.contains(id) && ws.contains(id) {
                let e = choose|e: i64| t.embeds.dom().contains(e) && of_embed(e) == id;
                let x = choose|x: i64| t.writes.dom().contains(x) && of_write(x) == id;
                assert(t.embeds.dom().contains(e) && t.writes.dom().contains(x));
            }
        }
    }
    vstd::set_lib::lemma_set_disjoint_lens(es, ws);
}

/// The name of a status in the database.
pub open spec fn status_name(status: JobStatus) -> Seq<char> {
    match status {
        JobStatus::Pending => "pending"@,
        JobStatus::Processing => "processing"@,
        JobStatus::Done => "done"@,
        JobStatus::Failed => "failed"@,
    }
}

/// Whether the rows count the documents by status: each row is about a status and holds its
/// count, and each status that occurs has a row.
pub open spec fn counts_by_status(t: Tables, rows: Seq<(String, i64)>) -> bool {
    &&& forall|i: int, status: JobStatus|
        0 <= i < rows.len() && (#[trigger] rows[i]).0@ == #[trigger] status_name(status)
            ==> rows[i].1 == count_with(t, status)
    &&& forall|status: JobStatus|
        count_with(t, status) > 0 ==> exists|i: int|
            0 <= i < rows.len() && (#[trigger] rows[i]).0@ == #[trigger] status_name(status)
}

proof fn lemma_status_count(rows: Seq<(String, i64)>, name: Seq<char>)
    ensures
        if exists|i: int| 0 <= i < rows.len() && (#[trigger] rows[i]).0@ == name {
            exists|i: int|
                0 <= i < rows.len() && (#[trigger] rows[i]).0@ == name && status_count(rows, name)
                    == rows[i].1 as u64
        } else {
            status_count(rows, name) == 0
        },
    decreases rows.len(),
{
    if rows.len() > 0 {
        let front = rows.drop_last();
        if rows.last().0@ == name {
            assert(rows[rows.len() - 1].0@ == name);
        } else {
            lemma_status_count(front, name);
            if exists|i: int| 0 <= i < rows.len() && (#[trigger] rows[i]).0@ == name {
                let i = choose|i: int| 0 <= i < rows.len() && (#[trigger] rows[i]).0@ == name;
                assert(front[i].0@ == name);
                let k = choose|k: int|
                    0 <= k < front.len() && (#[trigger] front[k]).0@ == name && status_count(
                        front,
                        name,
                    ) == front[k].1 as u64;
                assert(rows[k].0@ == name);
            } else if exists|i: int| 0 <= i < front.len() && (#[trigger] front[i]).0@ == name {
                let i = choose|i: int| 0 <= i < front.len() && (#[trigger] front[i]).0@ == name;
                assert(rows[i].0@ == name);
            }
        }
    }
}

/// The status that is reported is that of the tables.
pub proof fn law_status_reported(t: Tables, rows: Seq<(String, i64)>, status: JobStatus)
    requires
        counts_by_status(t, rows),
    ensures
        status_count(rows, status_name(status)) == count_with(t, status),
{
    let name = status_name(status);
    lemma_status_count(rows, name);
    if exists|i: int| 0 <= i < rows.len() && (#[trigger] rows[i]).0@ == name {
        let i = choose|i: int|
            0 <= i < rows.len() && (#[trigger] rows[i]).0@ == name && status_count(rows, name)
                == rows[i].1 as u64;
        assert(rows[i].0@ == status_name(status));
        assert(rows[i].1 == count_with(t, status));
    }
}

} // verus!
