//! What the queue database answers, and what holds over every series of its changes.

use vstd::prelude::*;
use crate::queue::{
    is_item_of, marks_of, status_count, PendingRow, PipelineStatus, QueueItem, QueueStatementView,
};
use crate::queue_model::{
    after, applied, count_with, counts_by_status, empty_tables, fits, has_status, job_number,
    jobs_with, law_dequeue, law_status_reported, nothing_lost, status_name, taking, valid,
    with_status, Job, JobStatus, Tables,
};

verus! {

/// The numbers below `n` of the documents with a status, in ascending order.
pub open spec fn ids_below(t: Tables, status: JobStatus, n: int) -> Seq<i64>
    decreases n - i64::MIN,
{
    if n <= i64::MIN {
        Seq::empty()
    } else {
        let lower = ids_below(t, status, n - 1);
        if has_status(t, (n - 1) as i64, status) {
            lower.push((n - 1) as i64)
        } else {
            lower
        }
    }
}

/// The numbers of the pending documents, in ascending order.
pub open spec fn pending_ids(t: Tables) -> Seq<i64> {
    ids_below(t, JobStatus::Pending, t.next_job as int)
}

/// A row of pending documents as a mathematical value: number, source, metadata and text.
pub type PendingView = (i64, Seq<char>, Seq<char>, Seq<char>);

/// The values of rows of pending documents.
pub open spec fn row_views(rows: Seq<PendingRow>) -> Seq<PendingView> {
    rows.map_values(|r: PendingRow| (r.0, r.1@, r.2@, r.3@))
}

/// The row of a document.
pub open spec fn row_of(t: Tables, id: i64) -> PendingView {
    (id, t.jobs[id].source, t.jobs[id].metadata, t.jobs[id].text)
}

/// The smaller of two numbers.
pub open spec fn at_most(limit: nat, n: nat) -> nat {
    if limit < n {
        limit
    } else {
        n
    }
}

/// What the query for the oldest pending documents returns: the rows of those with the lowest
/// numbers, up to the limit, in the order of their numbers.
pub open spec fn pending_rows(t: Tables, limit: nat) -> Seq<PendingView> {
    let ids = pending_ids(t);
    Seq::new(at_most(limit, ids.len()), |i: int| row_of(t, ids[i]))
}

proof fn lemma_ids_below(t: Tables, status: JobStatus, n: int)
    requires
        n <= i64::MAX + 1,
    ensures
        forall|i: int, j: int|
            0 <= i < j < ids_below(t, status, n).len() ==> ids_below(t, status, n)[i] < ids_below(
                t,
                status,
                n,
            )[j],
        forall|id: i64| #[trigger]
            ids_below(t, status, n).contains(id) <==> id < n && has_status(t, id, status),
    decreases n - i64::MIN,
{
    if n > i64::MIN {
        lemma_ids_below(t, status, n - 1);
        let lower = ids_below(t, status, n - 1);
        let all = ids_below(t, status, n);
        let last = (n - 1) as i64;
        assert forall|i: int| 0 <= i < lower.len() implies #[trigger] lower[i] < last by {
            assert(lower.contains(lower[i]));
        }
        assert forall|id: i64| #[trigger] all.contains(id) <==> id < n && has_status(
            t,
            id,
            status,
        ) by {
            if all.contains(id) {
                let i = choose|i: int| 0 <= i < all.len() && all[i] == id;
                if i < lower.len() {
                    assert(lower[i] == id);
                    assert(lower.contains(id));
                }
            }
            if id < n && has_status(t, id, status) {
                if id < last {
                    assert(lower.contains(id));
                    let i = choose|i: int| 0 <= i < lower.len() && lower[i] == id;
                    assert(all[i] == id);
                } else {
                    assert(id == last);
                    assert(all[lower.len() as int] == id);
                }
            }
        }
    }
}

/// The list of pending documents holds each of them once, in the order of their numbers, which is
/// that of their arrival.
pub proof fn law_pending_in_order(t: Tables)
    requires
        valid(t),
    ensures
        forall|i: int, j: int|
            0 <= i < j < pending_ids(t).len() ==> pending_ids(t)[i] < pending_ids(t)[j],
        forall|id: i64| #[trigger]
            pending_ids(t).contains(id) <==> has_status(t, id, JobStatus::Pending),
{
    lemma_ids_below(t, JobStatus::Pending, t.next_job as int);
    assert forall|id: i64| has_status(t, id, JobStatus::Pending) implies id < t.next_job by {
        assert(t.jobs.dom().contains(id));
    }
}

proof fn lemma_same_ids(t: Tables, later: Tables, status: JobStatus, n: int)
    requires
        n <= i64::MAX + 1,
        forall|id: i64|
            id < n ==> (#[trigger] has_status(t, id, status) <==> has_status(later, id, status)),
    ensures
        ids_below(t, status, n) == ids_below(later, status, n),
    decreases n - i64::MIN,
{
    if n > i64::MIN {
        lemma_same_ids(t, later, status, n - 1);
        assert(has_status(t, (n - 1) as i64, status) == has_status(later, (n - 1) as i64, status));
    }
}

proof fn lemma_few_pending(t: Tables, n: int)
    requires
        valid(t),
        n <= i64::MAX + 1,
    ensures
        ids_below(t, JobStatus::Pending, n).len() <= if n < 1 {
            0
        } else {
            n - 1
        },
    decreases n - i64::MIN,
{
    let ids = ids_below(t, JobStatus::Pending, n);
    if n <= 1 {
        lemma_ids_below(t, JobStatus::Pending, n);
        if ids.len() > 0 {
            assert(ids.contains(ids[0]));
            assert(t.jobs.dom().contains(ids[0]));
        }
    } else {
        lemma_few_pending(t, n - 1);
    }
}

/// A document that the queue has just taken has a number above all others. It is the last of the
/// pending documents, and a read of these with room for it, or with the largest limit, gives it
/// last, with its own source, metadata and text. One more document is pending, and nothing else
/// has changed.
pub proof fn law_enqueued_is_last(
    t: Tables,
    source: Seq<char>,
    metadata: Seq<char>,
    text: Seq<char>,
    limit: nat,
)
    requires
        valid(t),
        fits(t, QueueStatementView::Enqueue { source, metadata, text }),
        pending_ids(t).len() < limit || limit >= i64::MAX,
    ensures
        ({
            let id = job_number(t);
            let later = applied(t, QueueStatementView::Enqueue { source, metadata, text });
            let rows = pending_rows(later, limit);
            &&& valid(later)
            &&& forall|k: i64| #[trigger] t.jobs.dom().contains(k) ==> k < id
            &&& later.next_job > id
            &&& pending_ids(later) == pending_ids(t).push(id)
            &&& rows.len() == pending_ids(t).len() + 1
            &&& rows.last() == (id, source, metadata, text)
            &&& rows.drop_last() == pending_rows(t, limit)
            &&& later.jobs == t.jobs.insert(
                id,
                Job { source, metadata, text, status: JobStatus::Pending, error: None },
            )
            &&& later.embeds == t.embeds
            &&& later.writes == t.writes
            &&& count_with(later, JobStatus::Pending) == count_with(t, JobStatus::Pending) + 1
            &&& count_with(later, JobStatus::Processing) == count_with(t, JobStatus::Processing)
            &&& count_with(later, JobStatus::Done) == count_with(t, JobStatus::Done)
            &&& count_with(later, JobStatus::Failed) == count_with(t, JobStatus::Failed)
        }),
{
    let id = job_number(t);
    let later = applied(t, QueueStatementView::Enqueue { source, metadata, text });
    lemma_few_pending(t, t.next_job);
    lemma_same_ids(t, later, JobStatus::Pending, id as int);
    assert(has_status(later, id, JobStatus::Pending));
    assert(pending_ids(later) == pending_ids(t).push(id));
    law_pending_in_order(t);
    let before = pending_ids(t);
    let rows = pending_rows(later, limit);
    assert(rows.last() == row_of(later, id));
    assert forall|i: int| 0 <= i < before.len() implies #[trigger] row_of(later, before[i])
        == row_of(t, before[i]) by {
        assert(before.contains(before[i]));
    }
    assert(rows.drop_last() =~= pending_rows(t, limit));
    assert(!t.jobs.dom().contains(id));
    assert(jobs_with(later, JobStatus::Pending) =~= jobs_with(t, JobStatus::Pending).insert(id));
    assert(jobs_with(later, JobStatus::Processing) =~= jobs_with(t, JobStatus::Processing));
    assert(jobs_with(later, JobStatus::Done) =~= jobs_with(t, JobStatus::Done));
    assert(jobs_with(later, JobStatus::Failed) =~= jobs_with(t, JobStatus::Failed));
    vstd::set_lib::lemma_len_subset(jobs_with(t, JobStatus::Pending), t.jobs.dom());
}

/// Reading the pending documents after one was put into the queue gives that one last: the item
/// has the number of the document, its source, its metadata and its text.
pub proof fn law_enqueued_is_read_last(
    t: Tables,
    source: Seq<char>,
    metadata: Seq<char>,
    text: Seq<char>,
    limit: nat,
    rows: Seq<PendingRow>,
    items: Seq<QueueItem>,
)
    requires
        valid(t),
        fits(t, QueueStatementView::Enqueue { source, metadata, text }),
        pending_ids(t).len() < limit || limit >= i64::MAX,
        row_views(rows) == pending_rows(
            applied(t, QueueStatementView::Enqueue { source, metadata, text }),
            limit,
        ),
        items.len() == rows.len(),
        forall|i: int| 0 <= i < rows.len() ==> is_item_of(#[trigger] items[i], rows[i]),
    ensures
        items.len() == pending_ids(t).len() + 1,
        items.last().id == job_number(t),
        items.last().source@ == source,
        items.last().metadata@ == metadata,
        items.last().text@ == text,
{
    law_enqueued_is_last(t, source, metadata, text, limit);
    let views = row_views(rows);
    let last = rows.len() - 1;
    assert(views.len() == rows.len());
    assert(views.last() == (rows[last].0, rows[last].1@, rows[last].2@, rows[last].3@));
    assert(is_item_of(items[last], rows[last]));
}

/// The numbers of some documents.
pub open spec fn item_ids(items: Seq<QueueItem>) -> Seq<i64> {
    items.map_values(|item: QueueItem| item.id)
}

/// Taking documents from the queue takes the pending documents with the lowest numbers, up to the
/// limit and in the order of their numbers, each with its own source, metadata and text. These are
/// then being processed; every other document is as it was, and so are the later stages.
pub proof fn law_dequeue_batch(
    t: Tables,
    limit: nat,
    rows: Seq<PendingRow>,
    items: Seq<QueueItem>,
)
    requires
        valid(t),
        row_views(rows) == pending_rows(t, limit),
        items.len() == rows.len(),
        forall|i: int| 0 <= i < rows.len() ==> is_item_of(#[trigger] items[i], rows[i]),
    ensures
        ({
            let later = after(t, marks_of(items));
            let n = at_most(limit, pending_ids(t).len());
            &&& item_ids(items) == pending_ids(t).take(n as int)
            &&& forall|i: int|
                0 <= i < items.len() ==> {
                    let job = t.jobs[(#[trigger] items[i]).id];
                    &&& items[i].source@ == job.source
                    &&& items[i].metadata@ == job.metadata
                    &&& items[i].text@ == job.text
                }
            &&& later.jobs.dom() == t.jobs.dom()
            &&& forall|id: i64| #[trigger]
                t.jobs.dom().contains(id) ==> later.jobs[id] == (if item_ids(items).contains(id) {
                    with_status(t.jobs[id], JobStatus::Processing)
                } else {
                    t.jobs[id]
                })
            &&& later.embeds == t.embeds
            &&& later.writes == t.writes
        }),
{
    let ids = item_ids(items);
    let wanted = pending_rows(t, limit);
    assert(row_views(rows).len() == items.len());
    assert(wanted.len() == at_most(limit, pending_ids(t).len()));
    assert forall|i: int| 0 <= i < items.len() implies {
        let job = t.jobs[(#[trigger] items[i]).id];
        &&& items[i].id == pending_ids(t)[i]
        &&& items[i].source@ == job.source
        &&& items[i].metadata@ == job.metadata
        &&& items[i].text@ == job.text
    } by {
        assert(is_item_of(items[i], rows[i]));
        assert(row_views(rows)[i] == wanted[i]);
        assert(wanted[i] == row_of(t, pending_ids(t)[i]));
    }
    assert(ids =~= pending_ids(t).take(at_most(limit, pending_ids(t).len()) as int));
    assert(marks_of(items) =~= taking(ids));
    law_dequeue(t, ids);
}

/// How many changes of a series add a document to the queue.
pub open spec fn enqueues(changes: Seq<QueueStatementView>) -> nat
    decreases changes.len(),
{
    if changes.len() == 0 {
        0
    } else {
        enqueues(changes.drop_last()) + if changes.last() is Enqueue {
            1nat
        } else {
            0
        }
    }
}

/// Whether the database makes all changes of one operation, in their order.
pub open spec fn all_fit(t: Tables, changes: Seq<QueueStatementView>) -> bool
    decreases changes.len(),
{
    changes.len() == 0 || {
        &&& all_fit(t, changes.drop_last())
        &&& fits(after(t, changes.drop_last()), changes.last())
    }
}

/// The tables after an operation, which makes all of its changes or none.
pub open spec fn operated(t: Tables, changes: Seq<QueueStatementView>) -> Tables {
    if all_fit(t, changes) {
        after(t, changes)
    } else {
        t
    }
}

/// The tables after a series of operations.
pub open spec fn after_all(t: Tables, operations: Seq<Seq<QueueStatementView>>) -> Tables
    decreases operations.len(),
{
    if operations.len() == 0 {
        t
    } else {
        operated(after_all(t, operations.drop_last()), operations.last())
    }
}

/// How many documents the queue takes over a series of operations.
pub open spec fn taken(t: Tables, operations: Seq<Seq<QueueStatementView>>) -> nat
    decreases operations.len(),
{
    if operations.len() == 0 {
        0
    } else {
        let front = operations.drop_last();
        taken(t, front) + if all_fit(after_all(t, front), operations.last()) {
            enqueues(operations.last())
        } else {
            0
        }
    }
}

/// What every change and every operation keeps, where the queue takes `n` documents.
spec fn keeps(t: Tables, later: Tables, n: nat) -> bool {
    &&& valid(later)
    &&& nothing_lost(t, later)
    &&& later.jobs.dom().len() == t.jobs.dom().len() + n
    &&& t.next_job <= later.next_job
}

proof fn lemma_change_keeps(t: Tables, change: QueueStatementView)
    requires
        valid(t),
        fits(t, change),
    ensures
        keeps(
            t,
            applied(t, change),
            if change is Enqueue {
                1
            } else {
                0
            },
        ),
{
    let later = applied(t, change);
    if change is Enqueue {
        assert(!t.jobs.dom().contains(job_number(t)));
        assert(later.jobs.dom() =~= t.jobs.dom().insert(job_number(t)));
    } else {
        assert(later.jobs.dom() =~= t.jobs.dom());
    }
}

proof fn lemma_keeps_twice(a: Tables, b: Tables, c: Tables, n: nat, m: nat)
    requires
        keeps(a, b, n),
        keeps(b, c, m),
    ensures
        keeps(a, c, n + m),
{
    assert forall|id: i64| #[trigger] a.jobs.dom().contains(id) implies {
        &&& c.jobs.dom().contains(id)
        &&& c.jobs[id].source == a.jobs[id].source
        &&& c.jobs[id].metadata == a.jobs[id].metadata
        &&& c.jobs[id].text == a.jobs[id].text
    } by {
        assert(b.jobs.dom().contains(id));
    }
}

proof fn lemma_operation_keeps(t: Tables, changes: Seq<QueueStatementView>)
    requires
        valid(t),
        all_fit(t, changes),
    ensures
        keeps(t, after(t, changes), enqueues(changes)),
    decreases changes.len(),
{
    if changes.len() > 0 {
        let front = changes.drop_last();
        lemma_operation_keeps(t, front);
        let mid = after(t, front);
        lemma_change_keeps(mid, changes.last());
        let n = if changes.last() is Enqueue {
            1nat
        } else {
            0
        };
        lemma_keeps_twice(t, mid, after(t, changes), enqueues(front), n);
    }
}

proof fn lemma_series_keeps(t: Tables, operations: Seq<Seq<QueueStatementView>>)
    requires
        valid(t),
    ensures
        keeps(t, after_all(t, operations), taken(t, operations)),
    decreases operations.len(),
{
    if operations.len() > 0 {
        let front = operations.drop_last();
        lemma_series_keeps(t, front);
        let mid = after_all(t, front);
        if all_fit(mid, operations.last()) {
            lemma_operation_keeps(mid, operations.last());
            lemma_keeps_twice(
                t,
                mid,
                after_all(t, operations),
                taken(t, front),
                enqueues(operations.last()),
            );
        }
    }
}

/// No series of operations loses a document: each that was in the queue is still there, with its
/// own source, metadata and text, and there are as many more as the queue has taken.
pub proof fn law_no_document_is_lost(t: Tables, operations: Seq<Seq<QueueStatementView>>)
    requires
        valid(t),
    ensures
        valid(after_all(t, operations)),
        nothing_lost(t, after_all(t, operations)),
        after_all(t, operations).jobs.dom().len() == t.jobs.dom().len() + taken(t, operations),
{
    lemma_series_keeps(t, operations);
}

/// Whatever happens after a document was put into the queue, it stays there under its number, and
/// every document that the queue takes later gets a higher number.
pub proof fn law_later_numbers_are_higher(
    t: Tables,
    source: Seq<char>,
    metadata: Seq<char>,
    text: Seq<char>,
    operations: Seq<Seq<QueueStatementView>>,
)
    requires
        valid(t),
        fits(t, QueueStatementView::Enqueue { source, metadata, text }),
    ensures
        ({
            let first = applied(t, QueueStatementView::Enqueue { source, metadata, text });
            let later = after_all(first, operations);
            &&& later.jobs.dom().contains(job_number(t))
            &&& later.jobs[job_number(t)].source == source
            &&& later.jobs[job_number(t)].metadata == metadata
            &&& later.jobs[job_number(t)].text == text
            &&& later.next_job > job_number(t)
            &&& later.next_job <= i64::MAX ==> job_number(later) > job_number(t)
        }),
{
    let enqueue = QueueStatementView::Enqueue { source, metadata, text };
    lemma_change_keeps(t, enqueue);
    let first = applied(t, enqueue);
    lemma_series_keeps(first, operations);
    assert(first.jobs.dom().contains(job_number(t)));
}

/// Every document has one of the four statuses, whatever state the pipeline is in.
pub proof fn law_status_splits_documents(t: Tables)
    requires
        valid(t),
    ensures
        count_with(t, JobStatus::Pending) + count_with(t, JobStatus::Processing) + count_with(
            t,
            JobStatus::Done,
        ) + count_with(t, JobStatus::Failed) == t.jobs.dom().len(),
{
    let p = jobs_with(t, JobStatus::Pending);
    let w = jobs_with(t, JobStatus::Processing);
    let d = jobs_with(t, JobStatus::Done);
    let f = jobs_with(t, JobStatus::Failed);
    let all = t.jobs.dom();
    vstd::set_lib::lemma_len_subset(p, all);
    vstd::set_lib::lemma_len_subset(w, all);
    vstd::set_lib::lemma_len_subset(d, all);
    vstd::set_lib::lemma_len_subset(f, all);
    assert(p.union(w).union(d).union(f) =~= all);
    vstd::set_lib::lemma_set_disjoint_lens(p, w);
    vstd::set_lib::lemma_set_disjoint_lens(p.union(w), d);
    vstd::set_lib::lemma_set_disjoint_lens(p.union(w).union(d), f);
}

/// Whatever is done to a new database, the documents that are pending, being processed, done and
/// failed are together as many as the queue has ever taken.
pub proof fn law_every_enqueued_document_counts(operations: Seq<Seq<QueueStatementView>>)
    ensures
        ({
            let t = after_all(empty_tables(), operations);
            count_with(t, JobStatus::Pending) + count_with(t, JobStatus::Processing) + count_with(
                t,
                JobStatus::Done,
            ) + count_with(t, JobStatus::Failed) == taken(empty_tables(), operations)
        }),
{
    lemma_series_keeps(empty_tables(), operations);
    law_status_splits_documents(after_all(empty_tables(), operations));
}

/// Whether a status is what the counts of the database make of it: the rows that count the
/// documents by status, and the numbers of items of the two later stages.
pub open spec fn is_status_of(
    status: PipelineStatus,
    rows: Seq<(String, i64)>,
    embeds: i64,
    writes: i64,
) -> bool {
    &&& status.pending == status_count(rows, "pending"@)
    &&& status.done == status_count(rows, "done"@)
    &&& status.failed == status_count(rows, "failed"@)
    &&& status.chunked == embeds as u64
    &&& status.embedded == writes as u64
}

/// The status that is reported is that of the tables: the documents that are pending, done and
/// failed, and the items of the two later stages. With those that are being processed, the first
/// three are all documents of the queue.
pub proof fn law_status_is_that_of_the_tables(
    t: Tables,
    rows: Seq<(String, i64)>,
    embeds: i64,
    writes: i64,
    status: PipelineStatus,
)
    requires
        valid(t),
        counts_by_status(t, rows),
        embeds == t.embeds.dom().len(),
        writes == t.writes.dom().len(),
        is_status_of(status, rows, embeds, writes),
    ensures
        status.pending == count_with(t, JobStatus::Pending),
        status.done == count_with(t, JobStatus::Done),
        status.failed == count_with(t, JobStatus::Failed),
        status.chunked == t.embeds.dom().len(),
        status.embedded == t.writes.dom().len(),
        status.pending + status.done + status.failed + count_with(t, JobStatus::Processing)
            == t.jobs.dom().len(),
{
    law_status_reported(t, rows, JobStatus::Pending);
    law_status_reported(t, rows, JobStatus::Done);
    law_status_reported(t, rows, JobStatus::Failed);
    law_status_splits_documents(t);
    assert(status_name(JobStatus::Pending) == "pending"@);
}

/// The status that is reported after any series of operations on a new database: the documents
/// that are pending, done and failed and the items of the two later stages, as many as there are.
/// With those that are being processed, the first three are all documents that the queue has ever
/// taken.
pub proof fn law_status_after_operations(
    operations: Seq<Seq<QueueStatementView>>,
    rows: Seq<(String, i64)>,
    embeds: i64,
    writes: i64,
    status: PipelineStatus,
)
    requires
        counts_by_status(after_all(empty_tables(), operations), rows),
        embeds == after_all(empty_tables(), operations).embeds.dom().len(),
        writes == after_all(empty_tables(), operations).writes.dom().len(),
        is_status_of(status, rows, embeds, writes),
    ensures
        ({
            let t = after_all(empty_tables(), operations);
            &&& status.pending == count_with(t, JobStatus::Pending)
            &&& status.done == count_with(t, JobStatus::Done)
            &&& status.failed == count_with(t, JobStatus::Failed)
            &&& status.chunked == t.embeds.dom().len()
            &&& status.embedded == t.writes.dom().len()
            &&& status.pending + status.done + status.failed + count_with(t, JobStatus::Processing)
                == taken(empty_tables(), operations)
        }),
{
    lemma_series_keeps(empty_tables(), operations);
    let t = after_all(empty_tables(), operations);
    law_status_is_that_of_the_tables(t, rows, embeds, writes, status);
}

/// Putting a document into the queue raises the reported number of pending documents by one, and
/// leaves the other numbers as they were.
pub proof fn law_enqueue_changes_status(
    t: Tables,
    source: Seq<char>,
    metadata: Seq<char>,
    text: Seq<char>,
    rows: Seq<(String, i64)>,
    later_rows: Seq<(String, i64)>,
    embeds: i64,
    writes: i64,
    status: PipelineStatus,
    later_status: PipelineStatus,
)
    requires
        valid(t),
        fits(t, QueueStatementView::Enqueue { source, metadata, text }),
        counts_by_status(t, rows),
        counts_by_status(
            applied(t, QueueStatementView::Enqueue { source, metadata, text }),
            later_rows,
        ),
        embeds == t.embeds.dom().len(),
        writes == t.writes.dom().len(),
        is_status_of(status, rows, embeds, writes),
        is_status_of(later_status, later_rows, embeds, writes),
    ensures
        later_status.pending == status.pending + 1,
        later_status.chunked == status.chunked,
        later_status.embedded == status.embedded,
        later_status.done == status.done,
        later_status.failed == status.failed,
{
    let later = applied(t, QueueStatementView::Enqueue { source, metadata, text });
    law_enqueued_is_last(t, source, metadata, text, i64::MAX as nat);
    law_status_is_that_of_the_tables(t, rows, embeds, writes, status);
    law_status_is_that_of_the_tables(later, later_rows, embeds, writes, later_status);
}

} // verus!
