//! What the changes of the queue mean: the text of each statement is that of a change, and this does
//! to the tables what the model of the queue says.

use vstd::prelude::*;
use crate::queue::{queue_schema, QueueStatementView};
use crate::queue_model::{
    applied, empty_tables, fits, in_later_stage, is_orphan, job_number, status_name, valid, Job,
    JobStatus, Tables, WaitingEmbed, WaitingWrite,
};
use crate::relations::{
    are_columns, are_same, assigned, changed, chosen, column_texts, defaults, filled, holds,
    is_name, list, named, no_such_row, table_text, Cell, Change, Column, Columns, Condition,
    Database, Scope, Table, Term,
};
use crate::sql::{stmt, ParamView};
use crate::text::decimal;

verus! {

/// What the statement of a change of the queue says.
pub open spec fn change_of(c: QueueStatementView) -> Change {
    match c {
        QueueStatementView::Enqueue { .. } => Change::Insert("capsa_queue"@, seq!["source"@, "metadata"@, "text"@], seq![Term::Param(1), Term::Param(2), Term::Param(3)]),
        QueueStatementView::SetProcessing { .. } => Change::Update("capsa_queue"@, seq![("status"@, Term::Text("processing"@)), ("updated_at"@, Term::Now)], Condition::Same(Term::Column("id"@), Term::Param(1))),
        QueueStatementView::Claim { .. } => Change::Update("capsa_queue"@, seq![("status"@, Term::Text("processing"@)), ("updated_at"@, Term::Now)], Condition::Both(Box::new(Condition::Same(Term::Column("id"@), Term::Param(1))), Box::new(Condition::Same(Term::Column("status"@), Term::Text("pending"@))))),
        QueueStatementView::SetDone { .. } => Change::Update("capsa_queue"@, seq![("status"@, Term::Text("done"@)), ("updated_at"@, Term::Now)], Condition::Same(Term::Column("id"@), Term::Param(1))),
        QueueStatementView::SetFailed { .. } => Change::Update("capsa_queue"@, seq![("status"@, Term::Text("failed"@)), ("error"@, Term::Param(1)), ("updated_at"@, Term::Now)], Condition::Same(Term::Column("id"@), Term::Param(2))),
        QueueStatementView::RetryFailed => Change::Update("capsa_queue"@, seq![("status"@, Term::Text("pending"@)), ("error"@, Term::Null), ("updated_at"@, Term::Now)], Condition::Same(Term::Column("status"@), Term::Text("failed"@))),
        QueueStatementView::ReleaseProcessing => Change::Update("capsa_queue"@, seq![("status"@, Term::Text("pending"@)), ("updated_at"@, Term::Now)], Condition::Same(Term::Column("status"@), Term::Text("processing"@))),
        QueueStatementView::ReleaseOrphans => Change::Update("capsa_queue"@, seq![("status"@, Term::Text("pending"@)), ("updated_at"@, Term::Now)], Condition::Both(Box::new(Condition::Both(Box::new(Condition::Same(Term::Column("status"@), Term::Text("processing"@))), Box::new(Condition::NoRow("pending_embeds"@, "pe"@, Term::Of("pe"@, "queue_id"@), Term::Of("capsa_queue"@, "id"@))))), Box::new(Condition::NoRow("pending_writes"@, "pw"@, Term::Of("pw"@, "queue_id"@), Term::Of("capsa_queue"@, "id"@))))),
        QueueStatementView::AddEmbed { .. } => Change::Insert("pending_embeds"@, seq!["queue_id"@, "source"@, "metadata"@, "text"@, "chunks"@], seq![Term::Param(1), Term::Param(2), Term::Param(3), Term::Param(4), Term::Param(5)]),
        QueueStatementView::DropEmbed { .. } => Change::Delete("pending_embeds"@, Condition::Same(Term::Column("id"@), Term::Param(1))),
        QueueStatementView::AddWrite { .. } => Change::Insert("pending_writes"@, seq!["queue_id"@, "source"@, "metadata"@, "compressed_text"@, "embeddings"@], seq![Term::Param(1), Term::Param(2), Term::Param(3), Term::Param(4), Term::Param(5)]),
        QueueStatementView::DropWrite { .. } => Change::Delete("pending_writes"@, Condition::Same(Term::Column("id"@), Term::Param(1))),
    }
}

/// The digits of small numbers.
pub proof fn lemma_digits()
    ensures
        decimal(1) == seq!['1'],
        decimal(2) == seq!['2'],
        decimal(3) == seq!['3'],
        decimal(4) == seq!['4'],
        decimal(5) == seq!['5'],
{
    assert((48 + 1) as u8 as char == '1');
    assert((48 + 2) as u8 as char == '2');
    assert((48 + 3) as u8 as char == '3');
    assert((48 + 4) as u8 as char == '4');
    assert((48 + 5) as u8 as char == '5');
}

#[verifier::rlimit(60)]
proof fn lemma_enqueue_text(c: QueueStatementView)
    requires
        c is Enqueue,
    ensures
        change_of(c).text() == c.statement().sql,
{
    reveal_strlit("INSERT INTO ");
    reveal_strlit(" (");
    reveal_strlit(") VALUES (");
    reveal_strlit(")");
    reveal_strlit(", ");
    reveal_strlit("?");
    reveal_strlit("capsa_queue");
    reveal_strlit("source");
    reveal_strlit("metadata");
    reveal_strlit("text");
    reveal_strlit("INSERT INTO capsa_queue (source, metadata, text) VALUES (?1, ?2, ?3)");
    reveal_with_fuel(list, 7);
    reveal_with_fuel(Term::text, 3);
    reveal_with_fuel(Condition::text, 4);
    lemma_digits();
    assert(change_of(c).text() =~= "INSERT INTO capsa_queue (source, metadata, text) VALUES (?1, ?2, ?3)"@);
}

#[verifier::rlimit(60)]
proof fn lemma_set_processing_text(c: QueueStatementView)
    requires
        c is SetProcessing,
    ensures
        change_of(c).text() == c.statement().sql,
{
    reveal_strlit("UPDATE ");
    reveal_strlit(" SET ");
    reveal_strlit(" WHERE ");
    reveal_strlit(" = ");
    reveal_strlit(", ");
    reveal_strlit("?");
    reveal_strlit("'");
    reveal_strlit("unixepoch()");
    reveal_strlit("capsa_queue");
    reveal_strlit("status");
    reveal_strlit("processing");
    reveal_strlit("updated_at");
    reveal_strlit("id");
    reveal_strlit("UPDATE capsa_queue SET status = 'processing', updated_at = unixepoch() WHERE id = ?1");
    reveal_with_fuel(list, 7);
    reveal_with_fuel(Term::text, 3);
    reveal_with_fuel(Condition::text, 4);
    lemma_digits();
    assert(change_of(c).text() =~= "UPDATE capsa_queue SET status = 'processing', updated_at = unixepoch() WHERE id = ?1"@);
}

#[verifier::rlimit(60)]
proof fn lemma_claim_text(c: QueueStatementView)
    requires
        c is Claim,
    ensures
        change_of(c).text() == c.statement().sql,
{
    reveal_strlit("UPDATE ");
    reveal_strlit(" SET ");
    reveal_strlit(" WHERE ");
    reveal_strlit(" = ");
    reveal_strlit(", ");
    reveal_strlit(" AND ");
    reveal_strlit("?");
    reveal_strlit("'");
    reveal_strlit("unixepoch()");
    reveal_strlit("capsa_queue");
    reveal_strlit("status");
    reveal_strlit("processing");
    reveal_strlit("updated_at");
    reveal_strlit("id");
    reveal_strlit("pending");
    reveal_strlit("UPDATE capsa_queue SET status = 'processing', updated_at = unixepoch() WHERE id = ?1 AND status = 'pending'");
    reveal_with_fuel(list, 7);
    reveal_with_fuel(Term::text, 3);
    reveal_with_fuel(Condition::text, 4);
    lemma_digits();
    assert(change_of(c).text() =~= "UPDATE capsa_queue SET status = 'processing', updated_at = unixepoch() WHERE id = ?1 AND status = 'pending'"@);
}

#[verifier::rlimit(60)]
proof fn lemma_set_done_text(c: QueueStatementView)
    requires
        c is SetDone,
    ensures
        change_of(c).text() == c.statement().sql,
{
    reveal_strlit("UPDATE ");
    reveal_strlit(" SET ");
    reveal_strlit(" WHERE ");
    reveal_strlit(" = ");
    reveal_strlit(", ");
    reveal_strlit("?");
    reveal_strlit("'");
    reveal_strlit("unixepoch()");
    reveal_strlit("capsa_queue");
    reveal_strlit("status");
    reveal_strlit("done");
    reveal_strlit("updated_at");
    reveal_strlit("id");
    reveal_strlit("UPDATE capsa_queue SET status = 'done', updated_at = unixepoch() WHERE id = ?1");
    reveal_with_fuel(list, 7);
    reveal_with_fuel(Term::text, 3);
    reveal_with_fuel(Condition::text, 4);
    lemma_digits();
    assert(change_of(c).text() =~= "UPDATE capsa_queue SET status = 'done', updated_at = unixepoch() WHERE id = ?1"@);
}

#[verifier::rlimit(60)]
proof fn lemma_set_failed_text(c: QueueStatementView)
    requires
        c is SetFailed,
    ensures
        change_of(c).text() == c.statement().sql,
{
    reveal_strlit("UPDATE ");
    reveal_strlit(" SET ");
    reveal_strlit(" WHERE ");
    reveal_strlit(" = ");
    reveal_strlit(", ");
    reveal_strlit("?");
    reveal_strlit("'");
    reveal_strlit("unixepoch()");
    reveal_strlit("capsa_queue");
    reveal_strlit("status");
    reveal_strlit("failed");
    reveal_strlit("error");
    reveal_strlit("updated_at");
    reveal_strlit("id");
    reveal_strlit("UPDATE capsa_queue SET status = 'failed', error = ?1, updated_at = unixepoch() WHERE id = ?2");
    reveal_with_fuel(list, 7);
    reveal_with_fuel(Term::text, 3);
    reveal_with_fuel(Condition::text, 4);
    lemma_digits();
    assert(change_of(c).text() =~= "UPDATE capsa_queue SET status = 'failed', error = ?1, updated_at = unixepoch() WHERE id = ?2"@);
}

#[verifier::rlimit(60)]
proof fn lemma_retry_failed_text(c: QueueStatementView)
    requires
        c is RetryFailed,
    ensures
        change_of(c).text() == c.statement().sql,
{
    reveal_strlit("UPDATE ");
    reveal_strlit(" SET ");
    reveal_strlit(" WHERE ");
    reveal_strlit(" = ");
    reveal_strlit(", ");
    reveal_strlit("'");
    reveal_strlit("NULL");
    reveal_strlit("unixepoch()");
    reveal_strlit("capsa_queue");
    reveal_strlit("status");
    reveal_strlit("pending");
    reveal_strlit("error");
    reveal_strlit("updated_at");
    reveal_strlit("failed");
    reveal_strlit("UPDATE capsa_queue SET status = 'pending', error = NULL, updated_at = unixepoch() WHERE status = 'failed'");
    reveal_with_fuel(list, 7);
    reveal_with_fuel(Term::text, 3);
    reveal_with_fuel(Condition::text, 4);
    lemma_digits();
    assert(change_of(c).text() =~= "UPDATE capsa_queue SET status = 'pending', error = NULL, updated_at = unixepoch() WHERE status = 'failed'"@);
}

#[verifier::rlimit(60)]
proof fn lemma_release_processing_text(c: QueueStatementView)
    requires
        c is ReleaseProcessing,
    ensures
        change_of(c).text() == c.statement().sql,
{
    reveal_strlit("UPDATE ");
    reveal_strlit(" SET ");
    reveal_strlit(" WHERE ");
    reveal_strlit(" = ");
    reveal_strlit(", ");
    reveal_strlit("'");
    reveal_strlit("unixepoch()");
    reveal_strlit("capsa_queue");
    reveal_strlit("status");
    reveal_strlit("pending");
    reveal_strlit("updated_at");
    reveal_strlit("processing");
    reveal_strlit("UPDATE capsa_queue SET status = 'pending', updated_at = unixepoch() WHERE status = 'processing'");
    reveal_with_fuel(list, 7);
    reveal_with_fuel(Term::text, 3);
    reveal_with_fuel(Condition::text, 4);
    lemma_digits();
    assert(change_of(c).text() =~= "UPDATE capsa_queue SET status = 'pending', updated_at = unixepoch() WHERE status = 'processing'"@);
}

#[verifier::rlimit(60)]
proof fn lemma_release_orphans_text(c: QueueStatementView)
    requires
        c is ReleaseOrphans,
    ensures
        change_of(c).text() == c.statement().sql,
{
    reveal_strlit("UPDATE ");
    reveal_strlit(" SET ");
    reveal_strlit(" WHERE ");
    reveal_strlit(" = ");
    reveal_strlit(", ");
    reveal_strlit(" AND ");
    reveal_strlit("NOT EXISTS (SELECT 1 FROM ");
    reveal_strlit(" ");
    reveal_strlit(")");
    reveal_strlit(".");
    reveal_strlit("'");
    reveal_strlit("unixepoch()");
    reveal_strlit("capsa_queue");
    reveal_strlit("status");
    reveal_strlit("pending");
    reveal_strlit("updated_at");
    reveal_strlit("processing");
    reveal_strlit("pending_embeds");
    reveal_strlit("pe");
    reveal_strlit("queue_id");
    reveal_strlit("id");
    reveal_strlit("pending_writes");
    reveal_strlit("pw");
    reveal_strlit("UPDATE capsa_queue SET status = 'pending', updated_at = unixepoch() WHERE status = 'processing' AND NOT EXISTS (SELECT 1 FROM pending_embeds pe WHERE pe.queue_id = capsa_queue.id) AND NOT EXISTS (SELECT 1 FROM pending_writes pw WHERE pw.queue_id = capsa_queue.id)");
    reveal_with_fuel(list, 7);
    reveal_with_fuel(Term::text, 3);
    reveal_with_fuel(Condition::text, 4);
    lemma_digits();
    assert(change_of(c).text() =~= "UPDATE capsa_queue SET status = 'pending', updated_at = unixepoch() WHERE status = 'processing' AND NOT EXISTS (SELECT 1 FROM pending_embeds pe WHERE pe.queue_id = capsa_queue.id) AND NOT EXISTS (SELECT 1 FROM pending_writes pw WHERE pw.queue_id = capsa_queue.id)"@);
}

#[verifier::rlimit(60)]
proof fn lemma_add_embed_text(c: QueueStatementView)
    requires
        c is AddEmbed,
    ensures
        change_of(c).text() == c.statement().sql,
{
    reveal_strlit("INSERT INTO ");
    reveal_strlit(" (");
    reveal_strlit(") VALUES (");
    reveal_strlit(")");
    reveal_strlit(", ");
    reveal_strlit("?");
    reveal_strlit("pending_embeds");
    reveal_strlit("queue_id");
    reveal_strlit("source");
    reveal_strlit("metadata");
    reveal_strlit("text");
    reveal_strlit("chunks");
    reveal_strlit("INSERT INTO pending_embeds (queue_id, source, metadata, text, chunks) VALUES (?1, ?2, ?3, ?4, ?5)");
    reveal_with_fuel(list, 7);
    reveal_with_fuel(Term::text, 3);
    reveal_with_fuel(Condition::text, 4);
    lemma_digits();
    assert(change_of(c).text() =~= "INSERT INTO pending_embeds (queue_id, source, metadata, text, chunks) VALUES (?1, ?2, ?3, ?4, ?5)"@);
}

#[verifier::rlimit(60)]
proof fn lemma_drop_embed_text(c: QueueStatementView)
    requires
        c is DropEmbed,
    ensures
        change_of(c).text() == c.statement().sql,
{
    reveal_strlit("DELETE FROM ");
    reveal_strlit(" WHERE ");
    reveal_strlit(" = ");
    reveal_strlit("?");
    reveal_strlit("pending_embeds");
    reveal_strlit("id");
    reveal_strlit("DELETE FROM pending_embeds WHERE id = ?1");
    reveal_with_fuel(list, 7);
    reveal_with_fuel(Term::text, 3);
    reveal_with_fuel(Condition::text, 4);
    lemma_digits();
    assert(change_of(c).text() =~= "DELETE FROM pending_embeds WHERE id = ?1"@);
}

#[verifier::rlimit(60)]
proof fn lemma_add_write_text(c: QueueStatementView)
    requires
        c is AddWrite,
    ensures
        change_of(c).text() == c.statement().sql,
{
    reveal_strlit("INSERT INTO ");
    reveal_strlit(" (");
    reveal_strlit(") VALUES (");
    reveal_strlit(")");
    reveal_strlit(", ");
    reveal_strlit("?");
    reveal_strlit("pending_writes");
    reveal_strlit("queue_id");
    reveal_strlit("source");
    reveal_strlit("metadata");
    reveal_strlit("compressed_text");
    reveal_strlit("embeddings");
    reveal_strlit("INSERT INTO pending_writes (queue_id, source, metadata, compressed_text, embeddings) VALUES (?1, ?2, ?3, ?4, ?5)");
    reveal_with_fuel(list, 7);
    reveal_with_fuel(Term::text, 3);
    reveal_with_fuel(Condition::text, 4);
    lemma_digits();
    assert(change_of(c).text() =~= "INSERT INTO pending_writes (queue_id, source, metadata, compressed_text, embeddings) VALUES (?1, ?2, ?3, ?4, ?5)"@);
}

#[verifier::rlimit(60)]
proof fn lemma_drop_write_text(c: QueueStatementView)
    requires
        c is DropWrite,
    ensures
        change_of(c).text() == c.statement().sql,
{
    reveal_strlit("DELETE FROM ");
    reveal_strlit(" WHERE ");
    reveal_strlit(" = ");
    reveal_strlit("?");
    reveal_strlit("pending_writes");
    reveal_strlit("id");
    reveal_strlit("DELETE FROM pending_writes WHERE id = ?1");
    reveal_with_fuel(list, 7);
    reveal_with_fuel(Term::text, 3);
    reveal_with_fuel(Condition::text, 4);
    lemma_digits();
    assert(change_of(c).text() =~= "DELETE FROM pending_writes WHERE id = ?1"@);
}

pub proof fn lemma_names()
    ensures
        is_name("capsa_queue"@),
        is_name("pending_embeds"@),
        is_name("pending_writes"@),
        is_name("id"@),
        is_name("source"@),
        is_name("metadata"@),
        is_name("text"@),
        is_name("status"@),
        is_name("error"@),
        is_name("created_at"@),
        is_name("updated_at"@),
        is_name("queue_id"@),
        is_name("chunks"@),
        is_name("compressed_text"@),
        is_name("embeddings"@),
        is_name("pe"@),
        is_name("pw"@),
        is_name("cq"@),
        !"pending"@.contains('\''),
        !"processing"@.contains('\''),
        !"done"@.contains('\''),
        !"failed"@.contains('\''),
{
    reveal_strlit("capsa_queue");
    reveal_strlit("pending_embeds");
    reveal_strlit("pending_writes");
    reveal_strlit("id");
    reveal_strlit("source");
    reveal_strlit("metadata");
    reveal_strlit("text");
    reveal_strlit("status");
    reveal_strlit("error");
    reveal_strlit("created_at");
    reveal_strlit("updated_at");
    reveal_strlit("queue_id");
    reveal_strlit("chunks");
    reveal_strlit("compressed_text");
    reveal_strlit("embeddings");
    reveal_strlit("pe");
    reveal_strlit("pw");
    reveal_strlit("cq");
    reveal_strlit("pending");
    reveal_strlit("processing");
    reveal_strlit("done");
    reveal_strlit("failed");
}

/// The names of tables, columns and statuses differ from one another.
pub proof fn lemma_names_differ()
    ensures
        "capsa_queue"@ != "pending_embeds"@,
        "capsa_queue"@ != "pending_writes"@,
        "pending_embeds"@ != "pending_writes"@,
        "pe"@ != "capsa_queue"@,
        "pw"@ != "capsa_queue"@,
        "pe"@ != "cq"@,
        "pw"@ != "cq"@,
        forall|c: Seq<char>|
            #![trigger is_other(c)]
            is_other(c) ==> c != "id"@ && c != "rowid"@,
        is_other("source"@),
        is_other("metadata"@),
        is_other("text"@),
        is_other("status"@),
        is_other("error"@),
        is_other("created_at"@),
        is_other("updated_at"@),
        is_other("queue_id"@),
        is_other("chunks"@),
        is_other("compressed_text"@),
        is_other("embeddings"@),
        "source"@ != "metadata"@ && "source"@ != "text"@ && "source"@ != "status"@ && "source"@
            != "error"@ && "source"@ != "created_at"@ && "source"@ != "updated_at"@ && "source"@
            != "queue_id"@ && "source"@ != "chunks"@ && "source"@ != "compressed_text"@
            && "source"@ != "embeddings"@,
        "metadata"@ != "text"@ && "metadata"@ != "status"@ && "metadata"@ != "error"@
            && "metadata"@ != "created_at"@ && "metadata"@ != "updated_at"@ && "metadata"@
            != "queue_id"@ && "metadata"@ != "chunks"@ && "metadata"@ != "compressed_text"@
            && "metadata"@ != "embeddings"@,
        "text"@ != "status"@ && "text"@ != "error"@ && "text"@ != "created_at"@ && "text"@
            != "updated_at"@ && "text"@ != "queue_id"@ && "text"@ != "chunks"@ && "text"@
            != "compressed_text"@ && "text"@ != "embeddings"@,
        "status"@ != "error"@ && "status"@ != "created_at"@ && "status"@ != "updated_at"@
            && "status"@ != "queue_id"@ && "status"@ != "chunks"@,
        "error"@ != "created_at"@ && "error"@ != "updated_at"@,
        "created_at"@ != "updated_at"@ && "created_at"@ != "queue_id"@ && "created_at"@
            != "chunks"@ && "created_at"@ != "compressed_text"@ && "created_at"@ != "embeddings"@,
        "queue_id"@ != "chunks"@ && "queue_id"@ != "compressed_text"@ && "queue_id"@
            != "embeddings"@,
        "compressed_text"@ != "embeddings"@,
        "pending"@ != "processing"@ && "pending"@ != "done"@ && "pending"@ != "failed"@,
        "processing"@ != "done"@ && "processing"@ != "failed"@,
        "done"@ != "failed"@,
{
    reveal_strlit("capsa_queue");
    reveal_strlit("pending_embeds");
    reveal_strlit("pending_writes");
    reveal_strlit("id");
    reveal_strlit("rowid");
    reveal_strlit("source");
    reveal_strlit("metadata");
    reveal_strlit("text");
    reveal_strlit("status");
    reveal_strlit("error");
    reveal_strlit("created_at");
    reveal_strlit("updated_at");
    reveal_strlit("queue_id");
    reveal_strlit("chunks");
    reveal_strlit("compressed_text");
    reveal_strlit("embeddings");
    reveal_strlit("pe");
    reveal_strlit("pw");
    reveal_strlit("cq");
    reveal_strlit("pending");
    reveal_strlit("processing");
    reveal_strlit("done");
    reveal_strlit("failed");
    assert("capsa_queue"@.len() == 11 && "pending_embeds"@.len() == 14);
    assert("pending_writes"@.len() == 14);
    assert("pending_embeds"@[8] == 'e' && "pending_writes"@[8] == 'w');
    assert("pe"@.len() == 2 && "pw"@.len() == 2 && "cq"@.len() == 2);
    assert("pe"@[0] == 'p' && "pw"@[0] == 'p' && "cq"@[0] == 'c');
    assert("id"@.len() == 2 && "rowid"@.len() == 5 && "rowid"@[0] == 'r');
    assert("source"@.len() == 6 && "status"@.len() == 6 && "chunks"@.len() == 6);
    assert("source"@[1] == 'o' && "status"@[1] == 't' && "chunks"@[1] == 'h');
    assert("metadata"@.len() == 8 && "queue_id"@.len() == 8);
    assert("metadata"@[0] == 'm' && "queue_id"@[0] == 'q');
    assert("text"@.len() == 4 && "error"@.len() == 5 && "error"@[0] == 'e');
    assert("created_at"@.len() == 10 && "updated_at"@.len() == 10 && "embeddings"@.len() == 10);
    assert("created_at"@[0] == 'c' && "updated_at"@[0] == 'u' && "embeddings"@[0] == 'e');
    assert("compressed_text"@.len() == 15);
    assert("pending"@.len() == 7 && "processing"@.len() == 10 && "done"@.len() == 4);
    assert("failed"@.len() == 6);
}

/// Whether a name is not that of a row's number.
pub open spec fn is_other(c: Seq<char>) -> bool {
    c != "id"@ && c != "rowid"@
}

/// The statement of a change of the queue is the text of that change.
#[verifier::rlimit(60)]
pub proof fn law_change_text(c: QueueStatementView)
    ensures
        change_of(c).text() == c.statement().sql,
        change_of(c).wf(),
{
    lemma_names();
    reveal_with_fuel(Term::wf, 3);
    reveal_with_fuel(Condition::wf, 4);
    match c {
        QueueStatementView::Enqueue { .. } => lemma_enqueue_text(c),
        QueueStatementView::SetProcessing { .. } => lemma_set_processing_text(c),
        QueueStatementView::Claim { .. } => lemma_claim_text(c),
        QueueStatementView::SetDone { .. } => lemma_set_done_text(c),
        QueueStatementView::SetFailed { .. } => lemma_set_failed_text(c),
        QueueStatementView::RetryFailed => lemma_retry_failed_text(c),
        QueueStatementView::ReleaseProcessing => lemma_release_processing_text(c),
        QueueStatementView::ReleaseOrphans => lemma_release_orphans_text(c),
        QueueStatementView::AddEmbed { .. } => lemma_add_embed_text(c),
        QueueStatementView::DropEmbed { .. } => lemma_drop_embed_text(c),
        QueueStatementView::AddWrite { .. } => lemma_add_write_text(c),
        QueueStatementView::DropWrite { .. } => lemma_drop_write_text(c),
    }
}

/// A column that must have a value, and has none by default.
pub open spec fn required(name: Seq<char>, kind: Seq<char>) -> Column {
    Column { name, kind, required: true, default: None }
}

/// A column that holds the time by default.
pub open spec fn time_column(name: Seq<char>) -> Column {
    Column { name, kind: "INTEGER"@, required: true, default: Some(Term::Now) }
}

/// The columns of the queue.
pub open spec fn queue_columns() -> Seq<Column> {
    seq![
        required("source"@, "TEXT"@),
        required("metadata"@, "TEXT"@),
        required("text"@, "TEXT"@),
        Column {
            name: "status"@,
            kind: "TEXT"@,
            required: true,
            default: Some(Term::Text("pending"@)),
        },
        Column { name: "error"@, kind: "TEXT"@, required: false, default: None },
        time_column("created_at"@),
        time_column("updated_at"@),
    ]
}

/// The columns of the embedding stage.
pub open spec fn embed_columns() -> Seq<Column> {
    seq![
        required("queue_id"@, "INTEGER"@),
        required("source"@, "TEXT"@),
        required("metadata"@, "TEXT"@),
        required("text"@, "TEXT"@),
        required("chunks"@, "TEXT"@),
        time_column("created_at"@),
    ]
}

/// The columns of the writing stage.
pub open spec fn write_columns() -> Seq<Column> {
    seq![
        required("queue_id"@, "INTEGER"@),
        required("source"@, "TEXT"@),
        required("metadata"@, "TEXT"@),
        required("compressed_text"@, "BLOB"@),
        required("embeddings"@, "BLOB"@),
        time_column("created_at"@),
    ]
}

/// A text that may be missing.
pub open spec fn optional_cell(s: Option<Seq<char>>) -> Cell {
    match s {
        Some(x) => Cell::Text(x),
        None => Cell::Null,
    }
}

/// Whether a row of the queue is a document.
pub open spec fn is_job_row(row: Columns, job: Job) -> bool {
    &&& row["source"@] == Cell::Text(job.source)
    &&& row["metadata"@] == Cell::Text(job.metadata)
    &&& row["text"@] == Cell::Text(job.text)
    &&& row["status"@] == Cell::Text(status_name(job.status))
    &&& row["error"@] == optional_cell(job.error)
}

/// Whether a row of the embedding stage is an item of it.
pub open spec fn is_embed_row(row: Columns, item: WaitingEmbed) -> bool {
    &&& row["queue_id"@] == Cell::Integer(item.queue_id as int)
    &&& row["source"@] == Cell::Text(item.source)
    &&& row["metadata"@] == Cell::Text(item.metadata)
    &&& row["text"@] == Cell::Text(item.text)
    &&& row["chunks"@] == Cell::Text(item.chunks)
}

/// Whether a row of the writing stage is an item of it.
pub open spec fn is_write_row(row: Columns, item: WaitingWrite) -> bool {
    &&& row["queue_id"@] == Cell::Integer(item.queue_id as int)
    &&& row["source"@] == Cell::Text(item.source)
    &&& row["metadata"@] == Cell::Text(item.metadata)
    &&& row["compressed_text"@] == Cell::Blob(item.compressed_text)
    &&& row["embeddings"@] == Cell::Blob(item.embeddings)
}

/// Whether a database holds the tables of the queue: the same rows under the same numbers.
pub open spec fn stands_for(db: Database, t: Tables) -> bool {
    let queue = db["capsa_queue"@];
    let embeds = db["pending_embeds"@];
    let writes = db["pending_writes"@];
    &&& queue.columns == queue_columns()
    &&& embeds.columns == embed_columns()
    &&& writes.columns == write_columns()
    &&& queue.next == t.next_job
    &&& embeds.next == t.next_embed
    &&& writes.next == t.next_write
    &&& queue.rows.dom() == t.jobs.dom()
    &&& embeds.rows.dom() == t.embeds.dom()
    &&& writes.rows.dom() == t.writes.dom()
    &&& forall|id: i64| #[trigger]
        t.jobs.dom().contains(id) ==> is_job_row(queue.rows[id], t.jobs[id])
    &&& forall|id: i64| #[trigger]
        t.embeds.dom().contains(id) ==> is_embed_row(embeds.rows[id], t.embeds[id])
    &&& forall|id: i64| #[trigger]
        t.writes.dom().contains(id) ==> is_write_row(writes.rows[id], t.writes[id])
}

/// Whether every document that stays in the queue keeps the time at which it was put there.
pub open spec fn times_kept(db: Database, later: Database) -> bool {
    forall|id: i64| #[trigger]
        db["capsa_queue"@].rows.dom().contains(id) ==> later["capsa_queue"@].rows[id]["created_at"@]
            == db["capsa_queue"@].rows[id]["created_at"@]
}

pub proof fn lemma_statuses(a: JobStatus, b: JobStatus)
    ensures
        status_name(a) == status_name(b) ==> a == b,
{
    lemma_names_differ();
}

proof fn lemma_numbered(db: Database, table: Seq<char>, id: i64, x: i64, k: nat, params: Seq<ParamView>, now: int)
    requires
        k >= 1,
        params[k - 1] == ParamView::Integer(x),
    ensures
        chosen(
            db,
            table,
            Condition::Same(Term::Column("id"@), Term::Param(k)),
            id,
            params,
            now,
        ) == (id == x),
{
}

pub proof fn lemma_with_status(
    db: Database,
    t: Tables,
    id: i64,
    status: JobStatus,
    params: Seq<ParamView>,
    now: int,
)
    requires
        stands_for(db, t),
        t.jobs.dom().contains(id),
    ensures
        chosen(
            db,
            "capsa_queue"@,
            Condition::Same(Term::Column("status"@), Term::Text(status_name(status))),
            id,
            params,
            now,
        ) == (t.jobs[id].status == status),
{
    lemma_names_differ();
    lemma_statuses(t.jobs[id].status, status);
    assert(is_job_row(db["capsa_queue"@].rows[id], t.jobs[id]));
}

/// The conditions that no later stage holds a document, by the name of the queue's rows.
pub open spec fn held_nowhere(name: Seq<char>) -> (Condition, Condition) {
    (
        Condition::NoRow(
            "pending_embeds"@,
            "pe"@,
            Term::Of("pe"@, "queue_id"@),
            Term::Of(name, "id"@),
        ),
        Condition::NoRow(
            "pending_writes"@,
            "pw"@,
            Term::Of("pw"@, "queue_id"@),
            Term::Of(name, "id"@),
        ),
    )
}

pub proof fn lemma_held(
    db: Database,
    t: Tables,
    name: Seq<char>,
    id: i64,
    row: Columns,
    params: Seq<ParamView>,
    now: int,
)
    requires
        stands_for(db, t),
        name != "pe"@,
        name != "pw"@,
    ensures
        (holds(held_nowhere(name).0, db, seq![Scope { name, id, row }], params, now) && holds(
            held_nowhere(name).1,
            db,
            seq![Scope { name, id, row }],
            params,
            now,
        )) == !in_later_stage(t, id),
{
    lemma_names_differ();
    reveal_with_fuel(named, 3);
    let outer = seq![Scope { name, id, row }];
    let embeds = db["pending_embeds"@];
    let writes = db["pending_writes"@];
    assert forall|e: i64| #[trigger] embeds.rows.dom().contains(e) implies are_same(
        Term::Of("pe"@, "queue_id"@),
        Term::Of(name, "id"@),
        outer.push(Scope { name: "pe"@, id: e, row: embeds.rows[e] }),
        params,
        now,
    ) == (t.embeds[e].queue_id == id) by {
        assert(t.embeds.dom().contains(e));
        let scopes = outer.push(Scope { name: "pe"@, id: e, row: embeds.rows[e] });
        assert(scopes.drop_last() =~= outer);
        assert(named(scopes, "pe"@) == scopes.last());
        assert(named(scopes, name) == outer[0]);
    }
    assert forall|w: i64| #[trigger] writes.rows.dom().contains(w) implies are_same(
        Term::Of("pw"@, "queue_id"@),
        Term::Of(name, "id"@),
        outer.push(Scope { name: "pw"@, id: w, row: writes.rows[w] }),
        params,
        now,
    ) == (t.writes[w].queue_id == id) by {
        assert(t.writes.dom().contains(w));
        let scopes = outer.push(Scope { name: "pw"@, id: w, row: writes.rows[w] });
        assert(scopes.drop_last() =~= outer);
        assert(named(scopes, "pw"@) == scopes.last());
        assert(named(scopes, name) == outer[0]);
    }
    if in_later_stage(t, id) {
        if exists|e: i64| t.embeds.dom().contains(e) && (#[trigger] t.embeds[e]).queue_id == id {
            let e = choose|e: i64|
                t.embeds.dom().contains(e) && (#[trigger] t.embeds[e]).queue_id == id;
            assert(embeds.rows.dom().contains(e));
            assert(!no_such_row(
                embeds,
                "pe"@,
                Term::Of("pe"@, "queue_id"@),
                Term::Of(name, "id"@),
                outer,
                params,
                now,
            ));
            assert(!holds(held_nowhere(name).0, db, outer, params, now));
        } else {
            let w = choose|w: i64|
                t.writes.dom().contains(w) && (#[trigger] t.writes[w]).queue_id == id;
            assert(writes.rows.dom().contains(w));
            assert(!no_such_row(
                writes,
                "pw"@,
                Term::Of("pw"@, "queue_id"@),
                Term::Of(name, "id"@),
                outer,
                params,
                now,
            ));
            assert(!holds(held_nowhere(name).1, db, outer, params, now));
        }
    } else {
        assert forall|e: i64| #[trigger] embeds.rows.dom().contains(e) implies t.embeds[e].queue_id
            != id by {
            assert(t.embeds.dom().contains(e));
        }
        assert(holds(held_nowhere(name).0, db, outer, params, now));
        assert forall|w: i64| #[trigger] writes.rows.dom().contains(w) implies t.writes[w].queue_id
            != id by {
            assert(t.writes.dom().contains(w));
        }
        assert(holds(held_nowhere(name).1, db, outer, params, now));
    }
}

/// Which documents a statement changes.
spec fn touches(t: Tables, c: QueueStatementView, id: i64) -> bool {
    match c {
        QueueStatementView::SetProcessing { id: x } => id == x,
        QueueStatementView::Claim { id: x } => id == x && t.jobs[id].status == JobStatus::Pending,
        QueueStatementView::SetDone { id: x } => id == x,
        QueueStatementView::SetFailed { id: x, .. } => id == x,
        QueueStatementView::RetryFailed => t.jobs[id].status == JobStatus::Failed,
        QueueStatementView::ReleaseProcessing => t.jobs[id].status == JobStatus::Processing,
        QueueStatementView::ReleaseOrphans => is_orphan(t, id),
        _ => false,
    }
}

#[verifier::rlimit(60)]
proof fn lemma_touched(db: Database, t: Tables, c: QueueStatementView, id: i64, now: int)
    requires
        stands_for(db, t),
        t.jobs.dom().contains(id),
        change_of(c) is Update,
    ensures
        chosen(db, "capsa_queue"@, change_of(c)->Update_2, id, c.statement().params, now)
            == touches(t, c, id),
{
    let params = c.statement().params;
    match c {
        QueueStatementView::SetProcessing { id: x } => {
            lemma_numbered(db, "capsa_queue"@, id, x, 1, params, now);
        },
        QueueStatementView::Claim { id: x } => {
            lemma_numbered(db, "capsa_queue"@, id, x, 1, params, now);
            lemma_with_status(db, t, id, JobStatus::Pending, params, now);
        },
        QueueStatementView::SetDone { id: x } => {
            lemma_numbered(db, "capsa_queue"@, id, x, 1, params, now);
        },
        QueueStatementView::SetFailed { id: x, .. } => {
            lemma_numbered(db, "capsa_queue"@, id, x, 2, params, now);
        },
        QueueStatementView::RetryFailed => {
            lemma_with_status(db, t, id, JobStatus::Failed, params, now);
        },
        QueueStatementView::ReleaseProcessing => {
            lemma_with_status(db, t, id, JobStatus::Processing, params, now);
        },
        QueueStatementView::ReleaseOrphans => {
            lemma_names_differ();
            lemma_with_status(db, t, id, JobStatus::Processing, params, now);
            lemma_held(
                db,
                t,
                "capsa_queue"@,
                id,
                db["capsa_queue"@].rows[id],
                params,
                now,
            );
            reveal_with_fuel(holds, 4);
        },
        _ => {},
    }
}

#[verifier::rlimit(100)]
proof fn lemma_update(db: Database, t: Tables, c: QueueStatementView, now: int)
    requires
        stands_for(db, t),
        change_of(c) is Update,
    ensures
        stands_for(changed(db, change_of(c), c.statement().params, now), applied(t, c)),
        times_kept(db, changed(db, change_of(c), c.statement().params, now)),
{
    lemma_names_differ();
    let params = c.statement().params;
    let later = changed(db, change_of(c), params, now);
    let after = applied(t, c);
    let queue = db["capsa_queue"@];
    assert(later["pending_embeds"@] == db["pending_embeds"@]);
    assert(later["pending_writes"@] == db["pending_writes"@]);
    assert(later["capsa_queue"@].rows.dom() =~= queue.rows.dom());
    assert(after.jobs.dom() =~= t.jobs.dom());
    reveal_with_fuel(assigned, 4);
    assert forall|id: i64| #[trigger] t.jobs.dom().contains(id) implies is_job_row(
        later["capsa_queue"@].rows[id],
        after.jobs[id],
    ) && later["capsa_queue"@].rows[id]["created_at"@] == queue.rows[id]["created_at"@] by {
        lemma_touched(db, t, c, id, now);
        assert(is_job_row(queue.rows[id], t.jobs[id]));
    }
}

#[verifier::rlimit(100)]
proof fn lemma_insert(db: Database, t: Tables, c: QueueStatementView, now: int)
    requires
        stands_for(db, t),
        valid(t),
        fits(t, c),
        change_of(c) is Insert,
    ensures
        stands_for(changed(db, change_of(c), c.statement().params, now), applied(t, c)),
        times_kept(db, changed(db, change_of(c), c.statement().params, now)),
        c is Enqueue ==> changed(
            db,
            change_of(c),
            c.statement().params,
            now,
        )["capsa_queue"@].rows[job_number(t)]["created_at"@] == Cell::Integer(now),
{
    lemma_names_differ();
    let later = changed(db, change_of(c), c.statement().params, now);
    let after = applied(t, c);
    reveal_with_fuel(filled, 6);
    reveal_with_fuel(defaults, 8);
    assert(later["capsa_queue"@].rows.dom() =~= after.jobs.dom());
    assert(later["pending_embeds"@].rows.dom() =~= after.embeds.dom());
    assert(later["pending_writes"@].rows.dom() =~= after.writes.dom());
}

#[verifier::rlimit(60)]
proof fn lemma_delete(db: Database, t: Tables, c: QueueStatementView, now: int)
    requires
        stands_for(db, t),
        change_of(c) is Delete,
    ensures
        stands_for(changed(db, change_of(c), c.statement().params, now), applied(t, c)),
        times_kept(db, changed(db, change_of(c), c.statement().params, now)),
{
    lemma_names_differ();
    let params = c.statement().params;
    let later = changed(db, change_of(c), params, now);
    let after = applied(t, c);
    match c {
        QueueStatementView::DropEmbed { id: x } => {
            assert forall|id: i64| chosen(
                db,
                "pending_embeds"@,
                change_of(c)->Delete_1,
                id,
                params,
                now,
            ) == (id == x) by {
                lemma_numbered(db, "pending_embeds"@, id, x, 1, params, now);
            }
            assert(later["pending_embeds"@].rows.dom() =~= after.embeds.dom());
        },
        QueueStatementView::DropWrite { id: x } => {
            assert forall|id: i64| chosen(
                db,
                "pending_writes"@,
                change_of(c)->Delete_1,
                id,
                params,
                now,
            ) == (id == x) by {
                lemma_numbered(db, "pending_writes"@, id, x, 1, params, now);
            }
            assert(later["pending_writes"@].rows.dom() =~= after.writes.dom());
        },
        _ => {},
    }
}

/// The statement of a change does to the tables what the change is: where a database holds the
/// tables of the queue, executing the statement leaves it with the tables after the change. The
/// time at which a document was put into the queue stays, and that of a new one is the present.
pub proof fn law_statement_makes_its_change(
    db: Database,
    t: Tables,
    c: QueueStatementView,
    now: int,
)
    requires
        stands_for(db, t),
        valid(t),
        fits(t, c),
    ensures
        exists|change: Change|
            {
                let later = changed(db, change, c.statement().params, now);
                &&& change.wf()
                &&& #[trigger] change.text() == c.statement().sql
                &&& stands_for(later, applied(t, c))
                &&& times_kept(db, later)
                &&& c is Enqueue ==> later["capsa_queue"@].rows[job_number(t)]["created_at"@]
                    == Cell::Integer(now)
            },
{
    law_change_text(c);
    match change_of(c) {
        Change::Insert(..) => lemma_insert(db, t, c, now),
        Change::Update(..) => lemma_update(db, t, c, now),
        Change::Delete(..) => lemma_delete(db, t, c, now),
    }
    assert(change_of(c).text() == c.statement().sql);
}

#[verifier::rlimit(60)]
proof fn lemma_queue_table_text()
    ensures
        table_text("capsa_queue"@, queue_columns()) == queue_schema()[1].sql,
{
    reveal_strlit(" ");
    reveal_strlit("TEXT");
    reveal_strlit("INTEGER");
    reveal_strlit(" NOT NULL");
    reveal_strlit(" DEFAULT (unixepoch())");
    reveal_strlit(" DEFAULT ");
    reveal_strlit("'");
    reveal_strlit("pending");
    reveal_strlit(", ");
    reveal_strlit("source");
    reveal_strlit("metadata");
    reveal_strlit("text");
    reveal_strlit("status");
    reveal_strlit("error");
    reveal_strlit("created_at");
    reveal_strlit("updated_at");
    reveal_strlit("source TEXT NOT NULL");
    reveal_strlit("metadata TEXT NOT NULL");
    reveal_strlit("text TEXT NOT NULL");
    reveal_strlit("status TEXT NOT NULL DEFAULT 'pending'");
    reveal_strlit("error TEXT");
    reveal_strlit("created_at INTEGER NOT NULL DEFAULT (unixepoch())");
    reveal_strlit("updated_at INTEGER NOT NULL DEFAULT (unixepoch())");
    let parts = column_texts(queue_columns());
    assert(parts[0] =~= "source TEXT NOT NULL"@);
    assert(parts[1] =~= "metadata TEXT NOT NULL"@);
    assert(parts[2] =~= "text TEXT NOT NULL"@);
    assert(parts[3] =~= "status TEXT NOT NULL DEFAULT 'pending'"@);
    assert(parts[4] =~= "error TEXT"@);
    assert(parts[5] =~= "created_at INTEGER NOT NULL DEFAULT (unixepoch())"@);
    assert(parts[6] =~= "updated_at INTEGER NOT NULL DEFAULT (unixepoch())"@);
    lemma_queue_list(parts);
    lemma_queue_whole();
}

#[verifier::rlimit(100)]
proof fn lemma_queue_list(parts: Seq<Seq<char>>)
    requires
        parts[0] == "source TEXT NOT NULL"@,
        parts[1] == "metadata TEXT NOT NULL"@,
        parts[2] == "text TEXT NOT NULL"@,
        parts[3] == "status TEXT NOT NULL DEFAULT 'pending'"@,
        parts[4] == "error TEXT"@,
        parts[5] == "created_at INTEGER NOT NULL DEFAULT (unixepoch())"@,
        parts[6] == "updated_at INTEGER NOT NULL DEFAULT (unixepoch())"@,
    ensures
        list(parts, 7) == "source TEXT NOT NULL, metadata TEXT NOT NULL, text TEXT NOT NULL, "@
            + "status TEXT NOT NULL DEFAULT 'pending', error TEXT, "@
            + "created_at INTEGER NOT NULL DEFAULT (unixepoch()), "@
            + "updated_at INTEGER NOT NULL DEFAULT (unixepoch())"@,
{
    reveal_strlit(", ");
    reveal_strlit("source TEXT NOT NULL");
    reveal_strlit("metadata TEXT NOT NULL");
    reveal_strlit("text TEXT NOT NULL");
    reveal_strlit("status TEXT NOT NULL DEFAULT 'pending'");
    reveal_strlit("error TEXT");
    reveal_strlit("created_at INTEGER NOT NULL DEFAULT (unixepoch())");
    reveal_strlit("source TEXT NOT NULL, metadata TEXT NOT NULL, text TEXT NOT NULL, ");
    reveal_strlit("status TEXT NOT NULL DEFAULT 'pending', error TEXT, ");
    reveal_strlit("created_at INTEGER NOT NULL DEFAULT (unixepoch()), ");
    reveal_with_fuel(list, 8);
    let a = "source TEXT NOT NULL, metadata TEXT NOT NULL, text TEXT NOT NULL, "@;
    let b = "status TEXT NOT NULL DEFAULT 'pending', error TEXT, "@;
    let c = "created_at INTEGER NOT NULL DEFAULT (unixepoch()), "@;
    assert(list(parts, 3) + ", "@ =~= a);
    assert("status TEXT NOT NULL DEFAULT 'pending'"@ + ", "@ + "error TEXT"@ + ", "@ =~= b);
    assert(parts[5] + ", "@ =~= c);
    assert(list(parts, 5) + ", "@ =~= a + b);
    assert(list(parts, 6) + ", "@ =~= a + b + c);
}

#[verifier::rlimit(100)]
proof fn lemma_queue_whole()
    ensures
        "CREATE TABLE IF NOT EXISTS "@ + "capsa_queue"@
            + " (id INTEGER PRIMARY KEY AUTOINCREMENT, "@ + (
        "source TEXT NOT NULL, metadata TEXT NOT NULL, text TEXT NOT NULL, "@
            + "status TEXT NOT NULL DEFAULT 'pending', error TEXT, "@
            + "created_at INTEGER NOT NULL DEFAULT (unixepoch()), "@
            + "updated_at INTEGER NOT NULL DEFAULT (unixepoch())"@) + ")"@
            == queue_schema()[1].sql,
{
    reveal_strlit("CREATE TABLE IF NOT EXISTS ");
    reveal_strlit("capsa_queue");
    reveal_strlit(" (id INTEGER PRIMARY KEY AUTOINCREMENT, ");
    reveal_strlit("source TEXT NOT NULL, metadata TEXT NOT NULL, text TEXT NOT NULL, ");
    reveal_strlit("status TEXT NOT NULL DEFAULT 'pending', error TEXT, ");
    reveal_strlit("created_at INTEGER NOT NULL DEFAULT (unixepoch()), ");
    reveal_strlit("updated_at INTEGER NOT NULL DEFAULT (unixepoch())");
    reveal_strlit(")");
    reveal_strlit("CREATE TABLE IF NOT EXISTS capsa_queue (id INTEGER PRIMARY KEY AUTOINCREMENT, source TEXT NOT NULL, metadata TEXT NOT NULL, text TEXT NOT NULL, status TEXT NOT NULL DEFAULT 'pending', error TEXT, created_at INTEGER NOT NULL DEFAULT (unixepoch()), updated_at INTEGER NOT NULL DEFAULT (unixepoch()))");
    let whole = "CREATE TABLE IF NOT EXISTS capsa_queue (id INTEGER PRIMARY KEY AUTOINCREMENT, source TEXT NOT NULL, metadata TEXT NOT NULL, text TEXT NOT NULL, status TEXT NOT NULL DEFAULT 'pending', error TEXT, created_at INTEGER NOT NULL DEFAULT (unixepoch()), updated_at INTEGER NOT NULL DEFAULT (unixepoch()))"@;
    let a = "CREATE TABLE IF NOT EXISTS "@ + "capsa_queue"@
        + " (id INTEGER PRIMARY KEY AUTOINCREMENT, "@;
    let b = "source TEXT NOT NULL, metadata TEXT NOT NULL, text TEXT NOT NULL, "@;
    let c = "status TEXT NOT NULL DEFAULT 'pending', error TEXT, "@;
    let d = "created_at INTEGER NOT NULL DEFAULT (unixepoch()), "@;
    let e = "updated_at INTEGER NOT NULL DEFAULT (unixepoch())"@;
    assert(whole.subrange(0, 78) =~= a);
    assert(whole.subrange(78, 144) =~= b);
    assert(whole.subrange(144, 196) =~= c);
    assert(whole.subrange(196, 247) =~= d);
    assert(whole.subrange(247, 296) =~= e);
    assert(whole.subrange(296, 297) =~= ")"@);
    lemma_six_parts(whole, 78, 144, 196, 247, 296);
}

proof fn lemma_six_parts(s: Seq<char>, i: int, j: int, k: int, l: int, m: int)
    requires
        0 <= i <= j <= k <= l <= m <= s.len(),
    ensures
        s.subrange(0, i) + (s.subrange(i, j) + s.subrange(j, k) + s.subrange(k, l) + s.subrange(
            l,
            m,
        )) + s.subrange(m, s.len() as int) == s,
{
    assert(s.subrange(0, i) + (s.subrange(i, j) + s.subrange(j, k) + s.subrange(k, l) + s.subrange(
        l,
        m,
    )) + s.subrange(m, s.len() as int) =~= s);
}

#[verifier::rlimit(100)]
proof fn lemma_embeds_table_text()
    ensures
        table_text("pending_embeds"@, embed_columns()) == queue_schema()[3].sql,
{
    reveal_strlit(" ");
    reveal_strlit("TEXT");
    reveal_strlit("INTEGER");
    reveal_strlit(" NOT NULL");
    reveal_strlit(" DEFAULT (unixepoch())");
    reveal_strlit(", ");
    reveal_strlit("queue_id");
    reveal_strlit("source");
    reveal_strlit("metadata");
    reveal_strlit("text");
    reveal_strlit("chunks");
    reveal_strlit("created_at");
    reveal_strlit("queue_id INTEGER NOT NULL");
    reveal_strlit("source TEXT NOT NULL");
    reveal_strlit("metadata TEXT NOT NULL");
    reveal_strlit("text TEXT NOT NULL");
    reveal_strlit("chunks TEXT NOT NULL");
    reveal_strlit("created_at INTEGER NOT NULL DEFAULT (unixepoch())");
    let parts = column_texts(embed_columns());
    assert(parts[0] =~= "queue_id INTEGER NOT NULL"@);
    assert(parts[1] =~= "source TEXT NOT NULL"@);
    assert(parts[2] =~= "metadata TEXT NOT NULL"@);
    assert(parts[3] =~= "text TEXT NOT NULL"@);
    assert(parts[4] =~= "chunks TEXT NOT NULL"@);
    assert(parts[5] =~= "created_at INTEGER NOT NULL DEFAULT (unixepoch())"@);
    lemma_embeds_list(parts);
    lemma_embeds_whole();
}

#[verifier::rlimit(100)]
proof fn lemma_embeds_list(parts: Seq<Seq<char>>)
    requires
        parts[0] == "queue_id INTEGER NOT NULL"@,
        parts[1] == "source TEXT NOT NULL"@,
        parts[2] == "metadata TEXT NOT NULL"@,
        parts[3] == "text TEXT NOT NULL"@,
        parts[4] == "chunks TEXT NOT NULL"@,
        parts[5] == "created_at INTEGER NOT NULL DEFAULT (unixepoch())"@,
    ensures
        list(parts, 6) == "queue_id INTEGER NOT NULL, source TEXT NOT NULL, "@
            + "metadata TEXT NOT NULL, text TEXT NOT NULL, "@ + "chunks TEXT NOT NULL, "@
            + "created_at INTEGER NOT NULL DEFAULT (unixepoch())"@,
{
    reveal_strlit(", ");
    reveal_strlit("queue_id INTEGER NOT NULL");
    reveal_strlit("source TEXT NOT NULL");
    reveal_strlit("metadata TEXT NOT NULL");
    reveal_strlit("text TEXT NOT NULL");
    reveal_strlit("chunks TEXT NOT NULL");
    reveal_strlit("queue_id INTEGER NOT NULL, source TEXT NOT NULL, ");
    reveal_strlit("metadata TEXT NOT NULL, text TEXT NOT NULL, ");
    reveal_strlit("chunks TEXT NOT NULL, ");
    reveal_with_fuel(list, 7);
    let a = "queue_id INTEGER NOT NULL, source TEXT NOT NULL, "@;
    let b = "metadata TEXT NOT NULL, text TEXT NOT NULL, "@;
    let c = "chunks TEXT NOT NULL, "@;
    assert(list(parts, 2) + ", "@ =~= a);
    assert("metadata TEXT NOT NULL"@ + ", "@ + "text TEXT NOT NULL"@ + ", "@ =~= b);
    assert(parts[4] + ", "@ =~= c);
    assert(list(parts, 4) + ", "@ =~= a + b);
    assert(list(parts, 5) + ", "@ =~= a + b + c);
}

#[verifier::rlimit(100)]
proof fn lemma_embeds_whole()
    ensures
        "CREATE TABLE IF NOT EXISTS "@ + "pending_embeds"@
            + " (id INTEGER PRIMARY KEY AUTOINCREMENT, "@ + (
        "queue_id INTEGER NOT NULL, source TEXT NOT NULL, "@
            + "metadata TEXT NOT NULL, text TEXT NOT NULL, "@ + "chunks TEXT NOT NULL, "@
            + "created_at INTEGER NOT NULL DEFAULT (unixepoch())"@) + ")"@
            == queue_schema()[3].sql,
{
    reveal_strlit("CREATE TABLE IF NOT EXISTS ");
    reveal_strlit("pending_embeds");
    reveal_strlit(" (id INTEGER PRIMARY KEY AUTOINCREMENT, ");
    reveal_strlit("queue_id INTEGER NOT NULL, source TEXT NOT NULL, ");
    reveal_strlit("metadata TEXT NOT NULL, text TEXT NOT NULL, ");
    reveal_strlit("chunks TEXT NOT NULL, ");
    reveal_strlit("created_at INTEGER NOT NULL DEFAULT (unixepoch())");
    reveal_strlit(")");
    reveal_strlit("CREATE TABLE IF NOT EXISTS pending_embeds (id INTEGER PRIMARY KEY AUTOINCREMENT, queue_id INTEGER NOT NULL, source TEXT NOT NULL, metadata TEXT NOT NULL, text TEXT NOT NULL, chunks TEXT NOT NULL, created_at INTEGER NOT NULL DEFAULT (unixepoch()))");
    let whole = "CREATE TABLE IF NOT EXISTS pending_embeds (id INTEGER PRIMARY KEY AUTOINCREMENT, queue_id INTEGER NOT NULL, source TEXT NOT NULL, metadata TEXT NOT NULL, text TEXT NOT NULL, chunks TEXT NOT NULL, created_at INTEGER NOT NULL DEFAULT (unixepoch()))"@;
    assert(whole.subrange(0, 81) =~= "CREATE TABLE IF NOT EXISTS "@ + "pending_embeds"@
        + " (id INTEGER PRIMARY KEY AUTOINCREMENT, "@);
    assert(whole.subrange(81, 130) =~= "queue_id INTEGER NOT NULL, source TEXT NOT NULL, "@);
    assert(whole.subrange(130, 174) =~= "metadata TEXT NOT NULL, text TEXT NOT NULL, "@);
    assert(whole.subrange(174, 196) =~= "chunks TEXT NOT NULL, "@);
    assert(whole.subrange(196, 245) =~= "created_at INTEGER NOT NULL DEFAULT (unixepoch())"@);
    assert(whole.subrange(245, 246) =~= ")"@);
    lemma_six_parts(whole, 81, 130, 174, 196, 245);
}

#[verifier::rlimit(100)]
proof fn lemma_writes_table_text()
    ensures
        table_text("pending_writes"@, write_columns()) == queue_schema()[5].sql,
{
    reveal_strlit(" ");
    reveal_strlit("TEXT");
    reveal_strlit("BLOB");
    reveal_strlit("INTEGER");
    reveal_strlit(" NOT NULL");
    reveal_strlit(" DEFAULT (unixepoch())");
    reveal_strlit(", ");
    reveal_strlit("queue_id");
    reveal_strlit("source");
    reveal_strlit("metadata");
    reveal_strlit("compressed_text");
    reveal_strlit("embeddings");
    reveal_strlit("created_at");
    reveal_strlit("queue_id INTEGER NOT NULL");
    reveal_strlit("source TEXT NOT NULL");
    reveal_strlit("metadata TEXT NOT NULL");
    reveal_strlit("compressed_text BLOB NOT NULL");
    reveal_strlit("embeddings BLOB NOT NULL");
    reveal_strlit("created_at INTEGER NOT NULL DEFAULT (unixepoch())");
    let parts = column_texts(write_columns());
    assert(parts[0] =~= "queue_id INTEGER NOT NULL"@);
    assert(parts[1] =~= "source TEXT NOT NULL"@);
    assert(parts[2] =~= "metadata TEXT NOT NULL"@);
    assert(parts[3] =~= "compressed_text BLOB NOT NULL"@);
    assert(parts[4] =~= "embeddings BLOB NOT NULL"@);
    assert(parts[5] =~= "created_at INTEGER NOT NULL DEFAULT (unixepoch())"@);
    lemma_writes_list(parts);
    lemma_writes_whole();
}

#[verifier::rlimit(100)]
proof fn lemma_writes_list(parts: Seq<Seq<char>>)
    requires
        parts[0] == "queue_id INTEGER NOT NULL"@,
        parts[1] == "source TEXT NOT NULL"@,
        parts[2] == "metadata TEXT NOT NULL"@,
        parts[3] == "compressed_text BLOB NOT NULL"@,
        parts[4] == "embeddings BLOB NOT NULL"@,
        parts[5] == "created_at INTEGER NOT NULL DEFAULT (unixepoch())"@,
    ensures
        list(parts, 6) == "queue_id INTEGER NOT NULL, source TEXT NOT NULL, "@
            + "metadata TEXT NOT NULL, compressed_text BLOB NOT NULL, "@
            + "embeddings BLOB NOT NULL, "@ + "created_at INTEGER NOT NULL DEFAULT (unixepoch())"@,
{
    reveal_strlit(", ");
    reveal_strlit("queue_id INTEGER NOT NULL");
    reveal_strlit("source TEXT NOT NULL");
    reveal_strlit("metadata TEXT NOT NULL");
    reveal_strlit("compressed_text BLOB NOT NULL");
    reveal_strlit("embeddings BLOB NOT NULL");
    reveal_strlit("queue_id INTEGER NOT NULL, source TEXT NOT NULL, ");
    reveal_strlit("metadata TEXT NOT NULL, compressed_text BLOB NOT NULL, ");
    reveal_strlit("embeddings BLOB NOT NULL, ");
    reveal_with_fuel(list, 7);
    let a = "queue_id INTEGER NOT NULL, source TEXT NOT NULL, "@;
    let b = "metadata TEXT NOT NULL, compressed_text BLOB NOT NULL, "@;
    let c = "embeddings BLOB NOT NULL, "@;
    assert(list(parts, 2) + ", "@ =~= a);
    assert("metadata TEXT NOT NULL"@ + ", "@ + "compressed_text BLOB NOT NULL"@ + ", "@ =~= b);
    assert(parts[4] + ", "@ =~= c);
    assert(list(parts, 4) + ", "@ =~= a + b);
    assert(list(parts, 5) + ", "@ =~= a + b + c);
}

#[verifier::rlimit(100)]
proof fn lemma_writes_whole()
    ensures
        "CREATE TABLE IF NOT EXISTS "@ + "pending_writes"@
            + " (id INTEGER PRIMARY KEY AUTOINCREMENT, "@ + (
        "queue_id INTEGER NOT NULL, source TEXT NOT NULL, "@
            + "metadata TEXT NOT NULL, compressed_text BLOB NOT NULL, "@
            + "embeddings BLOB NOT NULL, "@
            + "created_at INTEGER NOT NULL DEFAULT (unixepoch())"@) + ")"@
            == queue_schema()[5].sql,
{
    reveal_strlit("CREATE TABLE IF NOT EXISTS ");
    reveal_strlit("pending_writes");
    reveal_strlit(" (id INTEGER PRIMARY KEY AUTOINCREMENT, ");
    reveal_strlit("queue_id INTEGER NOT NULL, source TEXT NOT NULL, ");
    reveal_strlit("metadata TEXT NOT NULL, compressed_text BLOB NOT NULL, ");
    reveal_strlit("embeddings BLOB NOT NULL, ");
    reveal_strlit("created_at INTEGER NOT NULL DEFAULT (unixepoch())");
    reveal_strlit(")");
    reveal_strlit("CREATE TABLE IF NOT EXISTS pending_writes (id INTEGER PRIMARY KEY AUTOINCREMENT, queue_id INTEGER NOT NULL, source TEXT NOT NULL, metadata TEXT NOT NULL, compressed_text BLOB NOT NULL, embeddings BLOB NOT NULL, created_at INTEGER NOT NULL DEFAULT (unixepoch()))");
    let whole = "CREATE TABLE IF NOT EXISTS pending_writes (id INTEGER PRIMARY KEY AUTOINCREMENT, queue_id INTEGER NOT NULL, source TEXT NOT NULL, metadata TEXT NOT NULL, compressed_text BLOB NOT NULL, embeddings BLOB NOT NULL, created_at INTEGER NOT NULL DEFAULT (unixepoch()))"@;
    assert(whole.subrange(0, 81) =~= "CREATE TABLE IF NOT EXISTS "@ + "pending_writes"@
        + " (id INTEGER PRIMARY KEY AUTOINCREMENT, "@);
    assert(whole.subrange(81, 130) =~= "queue_id INTEGER NOT NULL, source TEXT NOT NULL, "@);
    assert(whole.subrange(130, 185) =~= "metadata TEXT NOT NULL, compressed_text BLOB NOT NULL, "@);
    assert(whole.subrange(185, 211) =~= "embeddings BLOB NOT NULL, "@);
    assert(whole.subrange(211, 260) =~= "created_at INTEGER NOT NULL DEFAULT (unixepoch())"@);
    assert(whole.subrange(260, 261) =~= ")"@);
    lemma_six_parts(whole, 81, 130, 185, 211, 260);
}

/// Connecting declares the tables of the queue with the columns that the statements use: a document
/// is pending where nothing else is said of it, without an error and put there at the present time.
#[verifier::rlimit(60)]
pub proof fn law_tables_are_declared()
    ensures
        queue_schema().contains(stmt(table_text("capsa_queue"@, queue_columns()), Seq::empty())),
        queue_schema().contains(stmt(table_text("pending_embeds"@, embed_columns()), Seq::empty())),
        queue_schema().contains(stmt(table_text("pending_writes"@, write_columns()), Seq::empty())),
        are_columns(queue_columns()),
        are_columns(embed_columns()),
        are_columns(write_columns()),
{
    lemma_queue_table_text();
    lemma_embeds_table_text();
    lemma_writes_table_text();
    assert(queue_schema()[1] == stmt(table_text("capsa_queue"@, queue_columns()), Seq::empty()));
    assert(queue_schema()[3] == stmt(table_text("pending_embeds"@, embed_columns()), Seq::empty()));
    assert(queue_schema()[5] == stmt(table_text("pending_writes"@, write_columns()), Seq::empty()));
    lemma_names();
    reveal_strlit("TEXT");
    reveal_strlit("INTEGER");
    reveal_strlit("BLOB");
}

/// Whether a database has been given a table, which has no rows yet.
pub open spec fn is_new_table(table: Table, columns: Seq<Column>) -> bool {
    &&& table.columns == columns
    &&& table.rows == Map::<i64, Columns>::empty()
    &&& table.next == 1
}

/// A database with the tables as they are declared, and no rows in them, is that of a new queue.
pub proof fn law_new_database(db: Database)
    requires
        is_new_table(db["capsa_queue"@], queue_columns()),
        is_new_table(db["pending_embeds"@], embed_columns()),
        is_new_table(db["pending_writes"@], write_columns()),
    ensures
        stands_for(db, empty_tables()),
{
    assert(db["capsa_queue"@].rows.dom() =~= empty_tables().jobs.dom());
    assert(db["pending_embeds"@].rows.dom() =~= empty_tables().embeds.dom());
    assert(db["pending_writes"@].rows.dom() =~= empty_tables().writes.dom());
}

} // verus!
