//! The ingestion queue, kept in a database of its own.
//!
//! A document moves through `pending`, `processing`, and `done` or `failed`. While it is being
//! processed it stands in one of two further tables: among the items that wait to be embedded, or
//! among those that wait to be written. Each change here is one statement; the changes of one
//! operation belong into one transaction.

use vstd::prelude::*;
use crate::codec::{
    chunks_from_json, chunks_json, chunks_to_json, is_chunks_error, is_position_too_large,
    json_chunks, positions_fit, text_chunk_views, TextChunk,
};
use crate::error::Result;
use crate::metadata::{
    display_name, display_name_from_metadata, is_metadata_error, json_metadata, Metadata,
};
use crate::paths::{
    extension, extension_of, file_name, file_name_of, file_stem, law_bare_file_name, law_file_name,
    law_no_extension, law_parent, law_stem_and_extension, parent, parent_of, stem_of,
};
use crate::sql::{
    bound, counted, param_views, plain, statement_views, stmt, Param, ParamView, Statement,
    StatementView,
};
use crate::text::{chars_of, copy_of, same_text};

verus! {

/// A copy of some bytes.
fn copy_bytes(bytes: &Vec<u8>) -> (res: Vec<u8>)
    ensures
        res@ == bytes@,
{
    vstd::slice::slice_to_vec(bytes.as_slice())
}

/// The name of the queue database for a main database whose file name is `name`: the suffix
/// `-queue` goes between the stem and the extension.
pub open spec fn queue_file_name(name: Option<Seq<char>>) -> Seq<char> {
    match name {
        None => "-queue"@,
        Some(n) => match extension_of(n) {
            None => stem_of(n) + "-queue"@,
            Some(ext) => stem_of(n) + "-queue"@ + "."@ + ext,
        },
    }
}

/// `name` in the directory `dir`.
pub open spec fn joined(dir: Option<Seq<char>>, name: Seq<char>) -> Seq<char> {
    match dir {
        Some(d) if d.len() > 0 => if d.last() == '/' {
            d + name
        } else {
            d + "/"@ + name
        },
        _ => name,
    }
}

/// The path of the queue database that belongs to a main database.
pub open spec fn queue_path(db_path: Seq<char>) -> Seq<char> {
    joined(parent_of(db_path), queue_file_name(file_name_of(db_path)))
}

/// Derives the path of the queue database from that of the main database: it lies in the same
/// directory, under the same name with the suffix `-queue` before the extension.
pub fn queue_db_path(db_path: &str) -> (res: String)
    ensures
        res@ == queue_path(db_path@),
{
    let name = match file_name(db_path) {
        None => "-queue".to_owned(),
        Some(n) => {
            let mut s = file_stem(n.as_str());
            s.append("-queue");
            match extension(n.as_str()) {
                None => {},
                Some(ext) => {
                    s.append(".");
                    s.append(ext.as_str());
                },
            }
            s
        },
    };
    match parent(db_path) {
        Some(dir) => {
            let chars = chars_of(dir.as_str());
            let n: usize = chars.len();
            if n == 0 {
                name
            } else {
                let mut res = dir;
                if chars[n - 1] != '/' {
                    res.append("/");
                }
                res.append(name.as_str());
                res
            }
        },
        None => name,
    }
}

/// A change of the queue database.
#[derive(Debug, Clone)]
pub enum QueueStatement {
    /// Adds a document to the queue, as pending.
    Enqueue { source: String, metadata: String, text: String },
    /// Marks a document as being processed.
    SetProcessing { id: i64 },
    /// Marks a pending document as being processed.
    Claim { id: i64 },
    /// Marks a document as ingested.
    SetDone { id: i64 },
    /// Marks a document as failed, and says why.
    SetFailed { id: i64, error: String },
    /// Makes every failed document pending again.
    RetryFailed,
    /// Makes every document that is being processed pending again.
    ReleaseProcessing,
    /// Makes every document pending again that is being processed and that no later stage holds.
    ReleaseOrphans,
    /// Hands a document and its chunks to the embedding stage.
    AddEmbed { queue_id: i64, source: String, metadata: String, text: String, chunks: String },
    /// Takes an item from the embedding stage.
    DropEmbed { id: i64 },
    /// Hands a document and its embeddings to the writing stage.
    AddWrite {
        queue_id: i64,
        source: String,
        metadata: String,
        compressed_text: Vec<u8>,
        embeddings: Vec<u8>,
    },
    /// Takes an item from the writing stage.
    DropWrite { id: i64 },
}

/// A change of the queue database as a mathematical value.
pub enum QueueStatementView {
    /// Adds a document to the queue, as pending.
    Enqueue { source: Seq<char>, metadata: Seq<char>, text: Seq<char> },
    /// Marks a document as being processed.
    SetProcessing { id: i64 },
    /// Marks a pending document as being processed.
    Claim { id: i64 },
    /// Marks a document as ingested.
    SetDone { id: i64 },
    /// Marks a document as failed, and says why.
    SetFailed { id: i64, error: Seq<char> },
    /// Makes every failed document pending again.
    RetryFailed,
    /// Makes every document that is being processed pending again.
    ReleaseProcessing,
    /// Makes every document pending again that is being processed and that no later stage holds.
    ReleaseOrphans,
    /// Hands a document and its chunks to the embedding stage.
    AddEmbed {
        queue_id: i64,
        source: Seq<char>,
        metadata: Seq<char>,
        text: Seq<char>,
        chunks: Seq<char>,
    },
    /// Takes an item from the embedding stage.
    DropEmbed { id: i64 },
    /// Hands a document and its embeddings to the writing stage.
    AddWrite {
        queue_id: i64,
        source: Seq<char>,
        metadata: Seq<char>,
        compressed_text: Seq<u8>,
        embeddings: Seq<u8>,
    },
    /// Takes an item from the writing stage.
    DropWrite { id: i64 },
}

impl View for QueueStatement {
    type V = QueueStatementView;

    open spec fn view(&self) -> QueueStatementView {
        match self {
            QueueStatement::Enqueue { source, metadata, text } => QueueStatementView::Enqueue {
                source: source@,
                metadata: metadata@,
                text: text@,
            },
            QueueStatement::SetProcessing { id } => QueueStatementView::SetProcessing { id: *id },
            QueueStatement::Claim { id } => QueueStatementView::Claim { id: *id },
            QueueStatement::SetDone { id } => QueueStatementView::SetDone { id: *id },
            QueueStatement::SetFailed { id, error } => QueueStatementView::SetFailed {
                id: *id,
                error: error@,
            },
            QueueStatement::RetryFailed => QueueStatementView::RetryFailed,
            QueueStatement::ReleaseProcessing => QueueStatementView::ReleaseProcessing,
            QueueStatement::ReleaseOrphans => QueueStatementView::ReleaseOrphans,
            QueueStatement::AddEmbed { queue_id, source, metadata, text, chunks } =>
            QueueStatementView::AddEmbed {
                queue_id: *queue_id,
                source: source@,
                metadata: metadata@,
                text: text@,
                chunks: chunks@,
            },
            QueueStatement::DropEmbed { id } => QueueStatementView::DropEmbed { id: *id },
            QueueStatement::AddWrite {
                queue_id,
                source,
                metadata,
                compressed_text,
                embeddings,
            } => QueueStatementView::AddWrite {
                queue_id: *queue_id,
                source: source@,
                metadata: metadata@,
                compressed_text: compressed_text@,
                embeddings: embeddings@,
            },
            QueueStatement::DropWrite { id } => QueueStatementView::DropWrite { id: *id },
        }
    }
}

impl QueueStatementView {
    /// The statement that makes the change.
    pub open spec fn statement(self) -> StatementView {
        match self {
            QueueStatementView::Enqueue { source, metadata, text } => stmt(
                "INSERT INTO capsa_queue (source, metadata, text) VALUES (?1, ?2, ?3)"@,
                seq![ParamView::Text(source), ParamView::Text(metadata), ParamView::Text(text)],
            ),
            QueueStatementView::SetProcessing { id } => stmt(
                "UPDATE capsa_queue SET status = 'processing', updated_at = unixepoch() WHERE id = ?1"@,
                seq![ParamView::Integer(id)],
            ),
            QueueStatementView::Claim { id } => stmt(
                "UPDATE capsa_queue SET status = 'processing', updated_at = unixepoch() WHERE id = ?1 AND status = 'pending'"@,
                seq![ParamView::Integer(id)],
            ),
            QueueStatementView::SetDone { id } => stmt(
                "UPDATE capsa_queue SET status = 'done', updated_at = unixepoch() WHERE id = ?1"@,
                seq![ParamView::Integer(id)],
            ),
            QueueStatementView::SetFailed { id, error } => stmt(
                "UPDATE capsa_queue SET status = 'failed', error = ?1, updated_at = unixepoch() WHERE id = ?2"@,
                seq![ParamView::Text(error), ParamView::Integer(id)],
            ),
            QueueStatementView::RetryFailed => stmt(
                "UPDATE capsa_queue SET status = 'pending', error = NULL, updated_at = unixepoch() WHERE status = 'failed'"@,
                Seq::empty(),
            ),
            QueueStatementView::ReleaseProcessing => stmt(
                "UPDATE capsa_queue SET status = 'pending', updated_at = unixepoch() WHERE status = 'processing'"@,
                Seq::empty(),
            ),
            QueueStatementView::ReleaseOrphans => stmt(
                "UPDATE capsa_queue SET status = 'pending', updated_at = unixepoch() WHERE status = 'processing' AND NOT EXISTS (SELECT 1 FROM pending_embeds pe WHERE pe.queue_id = capsa_queue.id) AND NOT EXISTS (SELECT 1 FROM pending_writes pw WHERE pw.queue_id = capsa_queue.id)"@,
                Seq::empty(),
            ),
            QueueStatementView::AddEmbed { queue_id, source, metadata, text, chunks } => stmt(
                "INSERT INTO pending_embeds (queue_id, source, metadata, text, chunks) VALUES (?1, ?2, ?3, ?4, ?5)"@,
                seq![
                    ParamView::Integer(queue_id),
                    ParamView::Text(source),
                    ParamView::Text(metadata),
                    ParamView::Text(text),
                    ParamView::Text(chunks),
                ],
            ),
            QueueStatementView::DropEmbed { id } => stmt(
                "DELETE FROM pending_embeds WHERE id = ?1"@,
                seq![ParamView::Integer(id)],
            ),
            QueueStatementView::AddWrite {
                queue_id,
                source,
                metadata,
                compressed_text,
                embeddings,
            } => stmt(
                "INSERT INTO pending_writes (queue_id, source, metadata, compressed_text, embeddings) VALUES (?1, ?2, ?3, ?4, ?5)"@,
                seq![
                    ParamView::Integer(queue_id),
                    ParamView::Text(source),
                    ParamView::Text(metadata),
                    ParamView::Blob(compressed_text),
                    ParamView::Blob(embeddings),
                ],
            ),
            QueueStatementView::DropWrite { id } => stmt(
                "DELETE FROM pending_writes WHERE id = ?1"@,
                seq![ParamView::Integer(id)],
            ),
        }
    }
}

/// The changes that a list stands for.
pub open spec fn change_views(s: Seq<QueueStatement>) -> Seq<QueueStatementView> {
    s.map_values(|x: QueueStatement| x@)
}

impl QueueStatement {
    /// The statement that makes the change.
    pub fn to_statement(&self) -> (res: Statement)
        ensures
            res@ == self@.statement(),
    {
        match self {
            QueueStatement::Enqueue { source, metadata, text } => {
                let mut params: Vec<Param> = Vec::new();
                params.push(Param::Text(source.clone()));
                params.push(Param::Text(metadata.clone()));
                params.push(Param::Text(text.clone()));
                assert(param_views(params@) =~= self@.statement().params);
                bound(
                    "INSERT INTO capsa_queue (source, metadata, text) VALUES (?1, ?2, ?3)",
                    params,
                )
            },
            QueueStatement::SetProcessing { id } => {
                let mut params: Vec<Param> = Vec::new();
                params.push(Param::Integer(*id));
                assert(param_views(params@) =~= self@.statement().params);
                bound(
                    "UPDATE capsa_queue SET status = 'processing', updated_at = unixepoch() WHERE id = ?1",
                    params,
                )
            },
            QueueStatement::Claim { id } => {
                let mut params: Vec<Param> = Vec::new();
                params.push(Param::Integer(*id));
                assert(param_views(params@) =~= self@.statement().params);
                bound(
                    "UPDATE capsa_queue SET status = 'processing', updated_at = unixepoch() WHERE id = ?1 AND status = 'pending'",
                    params,
                )
            },
            QueueStatement::SetDone { id } => {
                let mut params: Vec<Param> = Vec::new();
                params.push(Param::Integer(*id));
                assert(param_views(params@) =~= self@.statement().params);
                bound(
                    "UPDATE capsa_queue SET status = 'done', updated_at = unixepoch() WHERE id = ?1",
                    params,
                )
            },
            QueueStatement::SetFailed { id, error } => {
                let mut params: Vec<Param> = Vec::new();
                params.push(Param::Text(error.clone()));
                params.push(Param::Integer(*id));
                assert(param_views(params@) =~= self@.statement().params);
                bound(
                    "UPDATE capsa_queue SET status = 'failed', error = ?1, updated_at = unixepoch() WHERE id = ?2",
                    params,
                )
            },
            QueueStatement::RetryFailed => plain(
                "UPDATE capsa_queue SET status = 'pending', error = NULL, updated_at = unixepoch() WHERE status = 'failed'",
            ),
            QueueStatement::ReleaseProcessing => plain(
                "UPDATE capsa_queue SET status = 'pending', updated_at = unixepoch() WHERE status = 'processing'",
            ),
            QueueStatement::ReleaseOrphans => plain(
                "UPDATE capsa_queue SET status = 'pending', updated_at = unixepoch() WHERE status = 'processing' AND NOT EXISTS (SELECT 1 FROM pending_embeds pe WHERE pe.queue_id = capsa_queue.id) AND NOT EXISTS (SELECT 1 FROM pending_writes pw WHERE pw.queue_id = capsa_queue.id)",
            ),
            QueueStatement::AddEmbed { queue_id, source, metadata, text, chunks } => {
                let mut params: Vec<Param> = Vec::new();
                params.push(Param::Integer(*queue_id));
                params.push(Param::Text(source.clone()));
                params.push(Param::Text(metadata.clone()));
                params.push(Param::Text(text.clone()));
                params.push(Param::Text(chunks.clone()));
                assert(param_views(params@) =~= self@.statement().params);
                bound(
                    "INSERT INTO pending_embeds (queue_id, source, metadata, text, chunks) VALUES (?1, ?2, ?3, ?4, ?5)",
                    params,
                )
            },
            QueueStatement::DropEmbed { id } => {
                let mut params: Vec<Param> = Vec::new();
                params.push(Param::Integer(*id));
                assert(param_views(params@) =~= self@.statement().params);
                bound(
                    "DELETE FROM pending_embeds WHERE id = ?1",
                    params,
                )
            },
            QueueStatement::AddWrite {
                queue_id,
                source,
                metadata,
                compressed_text,
                embeddings,
            } => {
                let mut params: Vec<Param> = Vec::new();
                params.push(Param::Integer(*queue_id));
                params.push(Param::Text(source.clone()));
                params.push(Param::Text(metadata.clone()));
                params.push(Param::Blob(copy_bytes(compressed_text)));
                params.push(Param::Blob(copy_bytes(embeddings)));
                assert(param_views(params@) =~= self@.statement().params);
                bound(
                    "INSERT INTO pending_writes (queue_id, source, metadata, compressed_text, embeddings) VALUES (?1, ?2, ?3, ?4, ?5)",
                    params,
                )
            },
            QueueStatement::DropWrite { id } => {
                let mut params: Vec<Param> = Vec::new();
                params.push(Param::Integer(*id));
                assert(param_views(params@) =~= self@.statement().params);
                bound(
                    "DELETE FROM pending_writes WHERE id = ?1",
                    params,
                )
            },
        }
    }
}

/// A question to the queue database.
#[derive(Debug, Clone)]
pub enum QueueQuery {
    /// The oldest pending documents, up to a limit.
    PendingBatch { limit: usize },
    /// The oldest pending document.
    FirstPending,
    /// The oldest item of the embedding stage.
    FirstEmbed,
    /// The oldest item of the writing stage.
    FirstWrite,
    /// The failed documents, the newest first.
    FailedItems,
    /// The items of the embedding stage, with the bytes of their texts and the numbers of their
    /// chunks.
    ChunkedItems,
    /// The items of the writing stage, with the bytes of their embeddings and compressed texts.
    EmbeddedItems,
    /// How many documents have failed.
    CountFailed,
    /// How many documents are being processed.
    CountProcessing,
    /// How many documents are being processed that no later stage holds.
    CountOrphans,
    /// How many documents have each status.
    CountByStatus,
    /// How many items the embedding stage holds.
    CountEmbeds,
    /// How many items the writing stage holds.
    CountWrites,
}

impl QueueQuery {
    /// The query that asks the question.
    pub open spec fn statement(self) -> StatementView {
        match self {
            QueueQuery::PendingBatch { limit } => stmt(
                "SELECT id, source, metadata, text FROM capsa_queue WHERE status = 'pending' ORDER BY id LIMIT ?1"@,
                seq![ParamView::Integer(limit as i64)],
            ),
            QueueQuery::FirstPending => stmt(
                "SELECT id, source, metadata, text FROM capsa_queue WHERE status = 'pending' ORDER BY id LIMIT 1"@,
                Seq::empty(),
            ),
            QueueQuery::FirstEmbed => stmt(
                "SELECT id, queue_id, source, metadata, text, chunks FROM pending_embeds ORDER BY id LIMIT 1"@,
                Seq::empty(),
            ),
            QueueQuery::FirstWrite => stmt(
                "SELECT id, queue_id, source, metadata, compressed_text, embeddings FROM pending_writes ORDER BY id LIMIT 1"@,
                Seq::empty(),
            ),
            QueueQuery::FailedItems => stmt(
                "SELECT id, source, metadata, COALESCE(error, ''), created_at FROM capsa_queue WHERE status = 'failed' ORDER BY created_at DESC, id DESC"@,
                Seq::empty(),
            ),
            QueueQuery::ChunkedItems => stmt(
                "SELECT source, metadata, LENGTH(CAST(text AS BLOB)), json_array_length(chunks) FROM pending_embeds ORDER BY id"@,
                Seq::empty(),
            ),
            QueueQuery::EmbeddedItems => stmt(
                "SELECT source, metadata, LENGTH(embeddings), LENGTH(compressed_text) FROM pending_writes ORDER BY id"@,
                Seq::empty(),
            ),
            QueueQuery::CountFailed => stmt(
                "SELECT COUNT(*) FROM capsa_queue WHERE status = 'failed'"@,
                Seq::empty(),
            ),
            QueueQuery::CountProcessing => stmt(
                "SELECT COUNT(*) FROM capsa_queue WHERE status = 'processing'"@,
                Seq::empty(),
            ),
            QueueQuery::CountOrphans => stmt(
                "SELECT COUNT(*) FROM capsa_queue cq WHERE cq.status = 'processing' AND NOT EXISTS (SELECT 1 FROM pending_embeds pe WHERE pe.queue_id = cq.id) AND NOT EXISTS (SELECT 1 FROM pending_writes pw WHERE pw.queue_id = cq.id)"@,
                Seq::empty(),
            ),
            QueueQuery::CountByStatus => stmt(
                "SELECT status, COUNT(*) FROM capsa_queue GROUP BY status"@,
                Seq::empty(),
            ),
            QueueQuery::CountEmbeds => stmt(
                "SELECT COUNT(*) FROM pending_embeds"@,
                Seq::empty(),
            ),
            QueueQuery::CountWrites => stmt(
                "SELECT COUNT(*) FROM pending_writes"@,
                Seq::empty(),
            ),
        }
    }

    /// The query that asks the question.
    pub fn to_statement(&self) -> (res: Statement)
        ensures
            res@ == self.statement(),
    {
        match self {
            QueueQuery::PendingBatch { limit } => {
                let mut params: Vec<Param> = Vec::new();
                params.push(Param::Integer(*limit as i64));
                assert(param_views(params@) =~= self.statement().params);
                bound(
                    "SELECT id, source, metadata, text FROM capsa_queue WHERE status = 'pending' ORDER BY id LIMIT ?1",
                    params,
                )
            },
            QueueQuery::FirstPending => plain(
                "SELECT id, source, metadata, text FROM capsa_queue WHERE status = 'pending' ORDER BY id LIMIT 1",
            ),
            QueueQuery::FirstEmbed => plain(
                "SELECT id, queue_id, source, metadata, text, chunks FROM pending_embeds ORDER BY id LIMIT 1",
            ),
            QueueQuery::FirstWrite => plain(
                "SELECT id, queue_id, source, metadata, compressed_text, embeddings FROM pending_writes ORDER BY id LIMIT 1",
            ),
            QueueQuery::FailedItems => plain(
                "SELECT id, source, metadata, COALESCE(error, ''), created_at FROM capsa_queue WHERE status = 'failed' ORDER BY created_at DESC, id DESC",
            ),
            QueueQuery::ChunkedItems => plain(
                "SELECT source, metadata, LENGTH(CAST(text AS BLOB)), json_array_length(chunks) FROM pending_embeds ORDER BY id",
            ),
            QueueQuery::EmbeddedItems => plain(
                "SELECT source, metadata, LENGTH(embeddings), LENGTH(compressed_text) FROM pending_writes ORDER BY id",
            ),
            QueueQuery::CountFailed => plain(
                "SELECT COUNT(*) FROM capsa_queue WHERE status = 'failed'",
            ),
            QueueQuery::CountProcessing => plain(
                "SELECT COUNT(*) FROM capsa_queue WHERE status = 'processing'",
            ),
            QueueQuery::CountOrphans => plain(
                "SELECT COUNT(*) FROM capsa_queue cq WHERE cq.status = 'processing' AND NOT EXISTS (SELECT 1 FROM pending_embeds pe WHERE pe.queue_id = cq.id) AND NOT EXISTS (SELECT 1 FROM pending_writes pw WHERE pw.queue_id = cq.id)",
            ),
            QueueQuery::CountByStatus => plain(
                "SELECT status, COUNT(*) FROM capsa_queue GROUP BY status",
            ),
            QueueQuery::CountEmbeds => plain(
                "SELECT COUNT(*) FROM pending_embeds",
            ),
            QueueQuery::CountWrites => plain(
                "SELECT COUNT(*) FROM pending_writes",
            ),
        }
    }
}

/// A document waiting to be ingested. Its metadata is JSON text.
#[derive(Debug)]
pub struct QueueItem {
    pub id: i64,
    pub source: String,
    pub metadata: String,
    pub text: String,
}

/// How many documents each stage of the pipeline holds.
#[derive(Debug, Clone, Default)]
pub struct PipelineStatus {
    /// Waiting to be chunked.
    pub pending: u64,
    /// Chunked, waiting to be embedded.
    pub chunked: u64,
    /// Embedded and compressed, waiting to be written to the vector database.
    pub embedded: u64,
    /// Written to the vector database.
    pub done: u64,
    /// Failed at some stage.
    pub failed: u64,
}

/// A document that could not be ingested, and why.
#[derive(Debug, Clone)]
pub struct FailedItem {
    pub job_id: i64,
    pub display_name: String,
    pub source: String,
    pub error: String,
    pub created_at: i64,
}

/// A summary of an item that stands between two stages.
#[derive(Debug, Clone)]
pub struct StageItem {
    /// The name under which the document is shown.
    pub display_name: String,
    /// The size in bytes of what the stage works on.
    pub size: usize,
    /// The size in bytes of what the stage carries along.
    pub aux_size: Option<usize>,
    /// How many chunks the item has, where that is known.
    pub chunk_count: Option<usize>,
}

/// An item of the embedding stage.
#[derive(Debug)]
pub struct PendingEmbed {
    pub id: i64,
    pub queue_id: i64,
    pub source: String,
    pub metadata: String,
    pub text: String,
    pub chunks: Vec<TextChunk>,
}

/// An item of the writing stage.
#[derive(Debug)]
pub struct PendingWrite {
    pub id: i64,
    pub queue_id: i64,
    pub source: String,
    pub metadata: String,
    pub compressed_text: Vec<u8>,
    pub embeddings_blob: Vec<u8>,
}

/// A row of pending documents: number, source, metadata and text.
pub type PendingRow = (i64, String, String, String);

/// A row of the embedding stage: number, number in the queue, source, metadata, text and chunks.
pub type EmbedRow = (i64, i64, String, String, String, String);

/// A row of the writing stage: number, number in the queue, source, metadata, compressed text and
/// embeddings.
pub type WriteRow = (i64, i64, String, String, Vec<u8>, Vec<u8>);

/// A row of failed documents: number, source, metadata, error and time of creation.
pub type FailedRow = (i64, String, String, String, i64);

/// A row of a stage's summary: source, metadata and two sizes.
pub type StageRow = (String, String, i64, i64);

/// Whether a text is JSON.
pub open spec fn is_json(text: Seq<char>) -> bool {
    json_metadata(text) is Some
}

/// Whether an item is what a row holds.
pub open spec fn is_item_of(item: QueueItem, row: PendingRow) -> bool {
    &&& item.id == row.0
    &&& item.source@ == row.1@
    &&& item.metadata@ == row.2@
    &&& item.text@ == row.3@
}

/// Whether an item of the embedding stage is what a row holds.
pub open spec fn is_embed_of(item: PendingEmbed, row: EmbedRow) -> bool {
    &&& item.id == row.0
    &&& item.queue_id == row.1
    &&& item.source@ == row.2@
    &&& item.metadata@ == row.3@
    &&& item.text@ == row.4@
    &&& json_chunks(row.5@) == Some(text_chunk_views(item.chunks@))
}

/// Whether an item of the writing stage is what a row holds.
pub open spec fn is_write_of(item: PendingWrite, row: WriteRow) -> bool {
    &&& item.id == row.0
    &&& item.queue_id == row.1
    &&& item.source@ == row.2@
    &&& item.metadata@ == row.3@
    &&& item.compressed_text@ == row.4@
    &&& item.embeddings_blob@ == row.5@
}

/// Whether a failed item is what a row holds.
pub open spec fn is_failed_of(item: FailedItem, row: FailedRow) -> bool {
    &&& item.job_id == row.0
    &&& item.display_name@ == display_name(json_metadata(row.2@)->0, row.1@)
    &&& item.source@ == row.1@
    &&& item.error@ == row.3@
    &&& item.created_at == row.4
}

/// Whether a summary is what a row of the embedding stage holds.
pub open spec fn is_chunked_of(item: StageItem, row: StageRow) -> bool {
    &&& item.display_name@ == display_name(json_metadata(row.1@)->0, row.0@)
    &&& item.size == row.2 as usize
    &&& item.aux_size is None
    &&& item.chunk_count == Some(row.3 as usize)
}

/// Whether a summary is what a row of the writing stage holds.
pub open spec fn is_embedded_of(item: StageItem, row: StageRow) -> bool {
    &&& item.display_name@ == display_name(json_metadata(row.1@)->0, row.0@)
    &&& item.size == row.2 as usize
    &&& item.aux_size == Some(row.3 as usize)
    &&& item.chunk_count is None
}

/// The number that the last row named `name` holds, or 0.
pub open spec fn status_count(rows: Seq<(String, i64)>, name: Seq<char>) -> u64
    decreases rows.len(),
{
    if rows.len() == 0 {
        0
    } else if rows.last().0@ == name {
        rows.last().1 as u64
    } else {
        status_count(rows.drop_last(), name)
    }
}

/// The queue database.
#[derive(Debug)]
pub struct Queue {
    pub path: String,
}

impl Queue {
    /// The queue database at a path.
    pub fn new(path: &str) -> (res: Queue)
        ensures
            res.path@ == path@,
    {
        Queue { path: copy_of(path) }
    }

    /// What every new connection executes: each statement leaves alone what is there already.
    pub fn connect(&self) -> (res: Vec<Statement>)
        ensures
            statement_views(res@) == queue_schema(),
    {
        let mut res: Vec<Statement> = Vec::new();
        res.push(
            plain(
                "PRAGMA journal_mode = WAL",
            ),
        );
        res.push(
            plain(
                "CREATE TABLE IF NOT EXISTS capsa_queue (id INTEGER PRIMARY KEY AUTOINCREMENT, source TEXT NOT NULL, metadata TEXT NOT NULL, text TEXT NOT NULL, status TEXT NOT NULL DEFAULT 'pending', error TEXT, created_at INTEGER NOT NULL DEFAULT (unixepoch()), updated_at INTEGER NOT NULL DEFAULT (unixepoch()))",
            ),
        );
        res.push(
            plain(
                "CREATE INDEX IF NOT EXISTS idx_capsa_queue_status ON capsa_queue (status)",
            ),
        );
        res.push(
            plain(
                "CREATE TABLE IF NOT EXISTS pending_embeds (id INTEGER PRIMARY KEY AUTOINCREMENT, queue_id INTEGER NOT NULL, source TEXT NOT NULL, metadata TEXT NOT NULL, text TEXT NOT NULL, chunks TEXT NOT NULL, created_at INTEGER NOT NULL DEFAULT (unixepoch()))",
            ),
        );
        res.push(
            plain(
                "CREATE INDEX IF NOT EXISTS idx_pending_embeds_id ON pending_embeds (id)",
            ),
        );
        res.push(
            plain(
                "CREATE TABLE IF NOT EXISTS pending_writes (id INTEGER PRIMARY KEY AUTOINCREMENT, queue_id INTEGER NOT NULL, source TEXT NOT NULL, metadata TEXT NOT NULL, compressed_text BLOB NOT NULL, embeddings BLOB NOT NULL, created_at INTEGER NOT NULL DEFAULT (unixepoch()))",
            ),
        );
        res.push(
            plain(
                "CREATE INDEX IF NOT EXISTS idx_pending_writes_id ON pending_writes (id)",
            ),
        );
        assert(statement_views(res@) =~= queue_schema());
        res
    }
}

/// The statements that set the queue database up.
pub open spec fn queue_schema() -> Seq<StatementView> {
    seq![
        stmt(
            "PRAGMA journal_mode = WAL"@,
            Seq::empty(),
        ),
        stmt(
            "CREATE TABLE IF NOT EXISTS capsa_queue (id INTEGER PRIMARY KEY AUTOINCREMENT, source TEXT NOT NULL, metadata TEXT NOT NULL, text TEXT NOT NULL, status TEXT NOT NULL DEFAULT 'pending', error TEXT, created_at INTEGER NOT NULL DEFAULT (unixepoch()), updated_at INTEGER NOT NULL DEFAULT (unixepoch()))"@,
            Seq::empty(),
        ),
        stmt(
            "CREATE INDEX IF NOT EXISTS idx_capsa_queue_status ON capsa_queue (status)"@,
            Seq::empty(),
        ),
        stmt(
            "CREATE TABLE IF NOT EXISTS pending_embeds (id INTEGER PRIMARY KEY AUTOINCREMENT, queue_id INTEGER NOT NULL, source TEXT NOT NULL, metadata TEXT NOT NULL, text TEXT NOT NULL, chunks TEXT NOT NULL, created_at INTEGER NOT NULL DEFAULT (unixepoch()))"@,
            Seq::empty(),
        ),
        stmt(
            "CREATE INDEX IF NOT EXISTS idx_pending_embeds_id ON pending_embeds (id)"@,
            Seq::empty(),
        ),
        stmt(
            "CREATE TABLE IF NOT EXISTS pending_writes (id INTEGER PRIMARY KEY AUTOINCREMENT, queue_id INTEGER NOT NULL, source TEXT NOT NULL, metadata TEXT NOT NULL, compressed_text BLOB NOT NULL, embeddings BLOB NOT NULL, created_at INTEGER NOT NULL DEFAULT (unixepoch()))"@,
            Seq::empty(),
        ),
        stmt(
            "CREATE INDEX IF NOT EXISTS idx_pending_writes_id ON pending_writes (id)"@,
            Seq::empty(),
        ),
    ]
}

/// A connection to the queue database: which statements each operation executes, and what it
/// makes of the rows that the database returns.
#[derive(Debug)]
pub struct QueueConnection {}

impl QueueConnection {
    /// Adds a document to the queue.
    pub fn enqueue(&self, source: &str, metadata: &str, text: &str) -> (res: QueueStatement)
        ensures
            res@ == (QueueStatementView::Enqueue {
                source: source@,
                metadata: metadata@,
                text: text@,
            }),
    {
        QueueStatement::Enqueue {
            source: copy_of(source),
            metadata: copy_of(metadata),
            text: copy_of(text),
        }
    }

    /// Takes pending documents from the queue, given the rows of the oldest of them: the documents
    /// that the rows hold, and the changes that mark them as being processed. Where the metadata
    /// of one is no JSON, there is nothing to change.
    pub fn dequeue_batch(&self, rows: Vec<PendingRow>) -> (res: Result<
        (Vec<QueueItem>, Vec<QueueStatement>),
    >)
        ensures
            match res {
                Ok((items, changes)) => {
                    &&& items@.len() == rows@.len()
                    &&& forall|i: int|
                        0 <= i < rows@.len() ==> is_json((#[trigger] rows@[i]).2@) && is_item_of(
                            items@[i],
                            rows@[i],
                        )
                    &&& change_views(changes@) == marks_of(items@)
                },
                Err(e) => exists|i: int|
                    {
                        &&& 0 <= i < rows@.len()
                        &&& !is_json((#[trigger] rows@[i]).2@)
                        &&& is_metadata_error(rows@[i].2@, e)
                        &&& forall|k: int| 0 <= k < i ==> is_json((#[trigger] rows@[k]).2@)
                    },
            },
    {
        let items = match self.peek_pending_batch(rows) {
            Err(e) => {
                return Err(e);
            },
            Ok(items) => items,
        };
        let mut changes: Vec<QueueStatement> = Vec::new();
        let n: usize = items.len();
        let mut i: usize = 0;
        while i < n
            invariant
                n == items@.len(),
                i <= n,
                changes@.len() == i,
                forall|k: int|
                    0 <= k < i ==> (#[trigger] changes@[k])@ == (QueueStatementView::SetProcessing {
                        id: items@[k].id,
                    }),
            decreases n - i,
        {
            changes.push(QueueStatement::SetProcessing { id: items[i].id });
            i = i + 1;
        }
        assert(change_views(changes@) =~= marks_of(items@));
        Ok((items, changes))
    }

    /// Marks a document as ingested.
    pub fn mark_done(&self, id: i64) -> (res: QueueStatement)
        ensures
            res@ == (QueueStatementView::SetDone { id }),
    {
        QueueStatement::SetDone { id }
    }

    /// Marks a document as failed, and says why.
    pub fn mark_failed(&self, id: i64, error: &str) -> (res: QueueStatement)
        ensures
            res@ == (QueueStatementView::SetFailed { id, error: error@ }),
    {
        QueueStatement::SetFailed { id, error: copy_of(error) }
    }

    /// Makes the failed documents pending again, given how many the database counted. Where there
    /// are none, nothing is executed.
    pub fn retry_failed(&self, failed: Option<i64>) -> (res: (u64, Vec<QueueStatement>))
        ensures
            res.0 == (match failed {
                Some(n) => n as u64,
                None => 0,
            }),
            change_views(res.1@) == (if res.0 > 0 {
                seq![QueueStatementView::RetryFailed]
            } else {
                Seq::empty()
            }),
    {
        let count: u64 = counted(failed);
        let mut changes: Vec<QueueStatement> = Vec::new();
        if count > 0 {
            changes.push(QueueStatement::RetryFailed);
            assert(change_views(changes@) =~= seq![QueueStatementView::RetryFailed]);
        } else {
            assert(change_views(changes@) =~= Seq::<QueueStatementView>::empty());
        }
        (count, changes)
    }

    /// Makes the documents that are being processed pending again, given how many the database
    /// counted.
    pub fn reset_processing(&self, processing: Option<i64>) -> (res: (u64, Vec<QueueStatement>))
        ensures
            res.0 == (match processing {
                Some(n) => n as u64,
                None => 0,
            }),
            change_views(res.1@) == (if res.0 > 0 {
                seq![QueueStatementView::ReleaseProcessing]
            } else {
                Seq::empty()
            }),
    {
        let count: u64 = counted(processing);
        let mut changes: Vec<QueueStatement> = Vec::new();
        if count > 0 {
            changes.push(QueueStatement::ReleaseProcessing);
            assert(change_views(changes@) =~= seq![QueueStatementView::ReleaseProcessing]);
        } else {
            assert(change_views(changes@) =~= Seq::<QueueStatementView>::empty());
        }
        (count, changes)
    }

    /// The documents of each stage, given the counts that the database reported.
    pub fn status_counts(
        &self,
        rows: &Vec<(String, i64)>,
        embeds: Option<i64>,
        writes: Option<i64>,
    ) -> (res: PipelineStatus)
        ensures
            res.pending == status_count(rows@, "pending"@),
            res.done == status_count(rows@, "done"@),
            res.failed == status_count(rows@, "failed"@),
            res.chunked == (match embeds {
                Some(n) => n as u64,
                None => 0,
            }),
            res.embedded == (match writes {
                Some(n) => n as u64,
                None => 0,
            }),
    {
        let mut status = PipelineStatus {
            pending: 0,
            chunked: counted(embeds),
            embedded: counted(writes),
            done: 0,
            failed: 0,
        };
        let n: usize = rows.len();
        let mut i: usize = 0;
        proof {
            reveal_strlit("pending");
            reveal_strlit("done");
            reveal_strlit("failed");
            assert("pending"@.len() != "done"@.len() && "pending"@.len() != "failed"@.len()
                && "done"@.len() != "failed"@.len());
        }
        while i < n
            invariant
                n == rows@.len(),
                i <= n,
                "pending"@ != "done"@,
                "pending"@ != "failed"@,
                "done"@ != "failed"@,
                status.pending == status_count(rows@.take(i as int), "pending"@),
                status.done == status_count(rows@.take(i as int), "done"@),
                status.failed == status_count(rows@.take(i as int), "failed"@),
                status.chunked == (match embeds {
                    Some(n) => n as u64,
                    None => 0,
                }),
                status.embedded == (match writes {
                    Some(n) => n as u64,
                    None => 0,
                }),
            decreases n - i,
        {
            proof {
                assert(rows@.take(i + 1).drop_last() == rows@.take(i as int));
            }
            let name = rows[i].0.as_str();
            let count: u64 = rows[i].1 as u64;
            if same_text(name, "pending") {
                status.pending = count;
            } else if same_text(name, "done") {
                status.done = count;
            } else if same_text(name, "failed") {
                status.failed = count;
            }
            i = i + 1;
        }
        assert(rows@.take(n as int) == rows@);
        status
    }

    /// The failed documents that the rows hold. It fails where the metadata of one is no JSON.
    pub fn failed_items(&self, rows: &Vec<FailedRow>) -> (res: Result<Vec<FailedItem>>)
        ensures
            match res {
                Ok(items) => items@.len() == rows@.len() && forall|i: int|
                    0 <= i < rows@.len() ==> is_json((#[trigger] rows@[i]).2@) && is_failed_of(
                        items@[i],
                        rows@[i],
                    ),
                Err(e) => exists|i: int|
                    {
                        &&& 0 <= i < rows@.len()
                        &&& !is_json((#[trigger] rows@[i]).2@)
                        &&& is_metadata_error(rows@[i].2@, e)
                        &&& forall|k: int| 0 <= k < i ==> is_json((#[trigger] rows@[k]).2@)
                    },
            },
    {
        let mut items: Vec<FailedItem> = Vec::new();
        let n: usize = rows.len();
        let mut i: usize = 0;
        while i < n
            invariant
                n == rows@.len(),
                i <= n,
                items@.len() == i,
                forall|k: int|
                    0 <= k < i ==> is_json((#[trigger] rows@[k]).2@) && is_failed_of(
                        items@[k],
                        rows@[k],
                    ),
            decreases n - i,
        {
            match Metadata::from_json(rows[i].2.as_str()) {
                Err(e) => {
                    return Err(e);
                },
                Ok(metadata) => {
                    let item = FailedItem {
                        job_id: rows[i].0,
                        display_name: display_name_from_metadata(&metadata, rows[i].1.as_str()),
                        source: rows[i].1.clone(),
                        error: rows[i].3.clone(),
                        created_at: rows[i].4,
                    };
                    assert(is_failed_of(item, rows@[i as int]));
                    items.push(item);
                },
            }
            i = i + 1;
        }
        Ok(items)
    }

    /// The items of the embedding stage that the rows hold.
    pub fn chunked_items(&self, rows: &Vec<StageRow>) -> (res: Result<Vec<StageItem>>)
        ensures
            match res {
                Ok(items) => items@.len() == rows@.len() && forall|i: int|
                    0 <= i < rows@.len() ==> is_json((#[trigger] rows@[i]).1@) && is_chunked_of(
                        items@[i],
                        rows@[i],
                    ),
                Err(e) => exists|i: int|
                    {
                        &&& 0 <= i < rows@.len()
                        &&& !is_json((#[trigger] rows@[i]).1@)
                        &&& is_metadata_error(rows@[i].1@, e)
                        &&& forall|k: int| 0 <= k < i ==> is_json((#[trigger] rows@[k]).1@)
                    },
            },
    {
        let mut items: Vec<StageItem> = Vec::new();
        let n: usize = rows.len();
        let mut i: usize = 0;
        while i < n
            invariant
                n == rows@.len(),
                i <= n,
                items@.len() == i,
                forall|k: int|
                    0 <= k < i ==> is_json((#[trigger] rows@[k]).1@) && is_chunked_of(
                        items@[k],
                        rows@[k],
                    ),
            decreases n - i,
        {
            match Metadata::from_json(rows[i].1.as_str()) {
                Err(e) => {
                    return Err(e);
                },
                Ok(metadata) => {
                    let item = StageItem {
                        display_name: display_name_from_metadata(&metadata, rows[i].0.as_str()),
                        size: rows[i].2 as usize,
                        aux_size: None,
                        chunk_count: Some(rows[i].3 as usize),
                    };
                    assert(is_chunked_of(item, rows@[i as int]));
                    items.push(item);
                },
            }
            i = i + 1;
        }
        Ok(items)
    }

    /// The items of the writing stage that the rows hold.
    pub fn embedded_items(&self, rows: &Vec<StageRow>) -> (res: Result<Vec<StageItem>>)
        ensures
            match res {
                Ok(items) => items@.len() == rows@.len() && forall|i: int|
                    0 <= i < rows@.len() ==> is_json((#[trigger] rows@[i]).1@) && is_embedded_of(
                        items@[i],
                        rows@[i],
                    ),
                Err(e) => exists|i: int|
                    {
                        &&& 0 <= i < rows@.len()
                        &&& !is_json((#[trigger] rows@[i]).1@)
                        &&& is_metadata_error(rows@[i].1@, e)
                        &&& forall|k: int| 0 <= k < i ==> is_json((#[trigger] rows@[k]).1@)
                    },
            },
    {
        let mut items: Vec<StageItem> = Vec::new();
        let n: usize = rows.len();
        let mut i: usize = 0;
        while i < n
            invariant
                n == rows@.len(),
                i <= n,
                items@.len() == i,
                forall|k: int|
                    0 <= k < i ==> is_json((#[trigger] rows@[k]).1@) && is_embedded_of(
                        items@[k],
                        rows@[k],
                    ),
            decreases n - i,
        {
            match Metadata::from_json(rows[i].1.as_str()) {
                Err(e) => {
                    return Err(e);
                },
                Ok(metadata) => {
                    let item = StageItem {
                        display_name: display_name_from_metadata(&metadata, rows[i].0.as_str()),
                        size: rows[i].2 as usize,
                        aux_size: Some(rows[i].3 as usize),
                        chunk_count: None,
                    };
                    assert(is_embedded_of(item, rows@[i as int]));
                    items.push(item);
                },
            }
            i = i + 1;
        }
        Ok(items)
    }

    /// The pending document that a row holds, if there is one.
    pub fn peek_pending(&self, row: Option<PendingRow>) -> (res: Result<Option<QueueItem>>)
        ensures
            match (row, res) {
                (None, Ok(item)) => item is None,
                (None, Err(_)) => false,
                (Some(r), Ok(item)) => is_json(r.2@) && item is Some && is_item_of(item->0, r),
                (Some(r), Err(e)) => !is_json(r.2@) && is_metadata_error(r.2@, e),
            },
    {
        match row {
            None => Ok(None),
            Some(r) => match Metadata::from_json(r.2.as_str()) {
                Err(e) => Err(e),
                Ok(_) => Ok(Some(QueueItem { id: r.0, source: r.1, metadata: r.2, text: r.3 })),
            },
        }
    }

    /// The pending documents that the rows hold.
    pub fn peek_pending_batch(&self, rows: Vec<PendingRow>) -> (res: Result<Vec<QueueItem>>)
        ensures
            match res {
                Ok(items) => items@.len() == rows@.len() && forall|i: int|
                    0 <= i < rows@.len() ==> is_json((#[trigger] rows@[i]).2@) && is_item_of(
                        items@[i],
                        rows@[i],
                    ),
                Err(e) => exists|i: int|
                    {
                        &&& 0 <= i < rows@.len()
                        &&& !is_json((#[trigger] rows@[i]).2@)
                        &&& is_metadata_error(rows@[i].2@, e)
                        &&& forall|k: int| 0 <= k < i ==> is_json((#[trigger] rows@[k]).2@)
                    },
            },
    {
        let mut items: Vec<QueueItem> = Vec::new();
        let n: usize = rows.len();
        let mut i: usize = 0;
        while i < n
            invariant
                n == rows@.len(),
                i <= n,
                items@.len() == i,
                forall|k: int|
                    0 <= k < i ==> is_json((#[trigger] rows@[k]).2@) && is_item_of(
                        items@[k],
                        rows@[k],
                    ),
            decreases n - i,
        {
            match Metadata::from_json(rows[i].2.as_str()) {
                Err(e) => {
                    return Err(e);
                },
                Ok(_) => {
                    let item = QueueItem {
                        id: rows[i].0,
                        source: rows[i].1.clone(),
                        metadata: rows[i].2.clone(),
                        text: rows[i].3.clone(),
                    };
                    assert(is_item_of(item, rows@[i as int]));
                    items.push(item);
                },
            }
            i = i + 1;
        }
        Ok(items)
    }

    /// Marks a pending document as being processed and hands it to the embedding stage.
    pub fn promote_to_embeds(
        &self,
        queue_id: i64,
        source: &str,
        metadata: &str,
        text: &str,
        chunks: &[TextChunk],
    ) -> (res: Result<Vec<QueueStatement>>)
        ensures
            res matches Ok(changes) && change_views(changes@) == promotion_to_embeds(
                queue_id,
                source@,
                metadata@,
                text@,
                chunks_json(text_chunk_views(chunks@)),
            ),
            json_chunks(chunks_json(text_chunk_views(chunks@))) == Some(
                text_chunk_views(chunks@),
            ),
    {
        match chunks_to_json(chunks) {
            Err(e) => Err(e),
            Ok(json) => {
                let ghost json_text = json@;
                let mut changes: Vec<QueueStatement> = Vec::new();
                changes.push(QueueStatement::Claim { id: queue_id });
                changes.push(
                    QueueStatement::AddEmbed {
                        queue_id,
                        source: copy_of(source),
                        metadata: copy_of(metadata),
                        text: copy_of(text),
                        chunks: json,
                    },
                );
                assert(change_views(changes@) =~= promotion_to_embeds(
                    queue_id,
                    source@,
                    metadata@,
                    text@,
                    json_text,
                ));
                Ok(changes)
            },
        }
    }

    /// The item of the embedding stage that a row holds, if there is one.
    pub fn peek_embed(&self, row: Option<EmbedRow>) -> (res: Result<Option<PendingEmbed>>)
        ensures
            match (row, res) {
                (None, Ok(item)) => item is None,
                (None, Err(_)) => false,
                (Some(r), Ok(item)) => is_json(r.3@) && item is Some && is_embed_of(item->0, r),
                (Some(r), Err(e)) => if !is_json(r.3@) {
                    is_metadata_error(r.3@, e)
                } else {
                    match json_chunks(r.5@) {
                        None => is_chunks_error(r.5@, e),
                        Some(chunks) => !positions_fit(chunks) && is_position_too_large(e),
                    }
                },
            },
    {
        match row {
            None => Ok(None),
            Some(r) => match Metadata::from_json(r.3.as_str()) {
                Err(e) => Err(e),
                Ok(_) => match chunks_from_json(r.5.as_str()) {
                    Err(e) => Err(e),
                    Ok(chunks) => Ok(
                        Some(
                            PendingEmbed {
                                id: r.0,
                                queue_id: r.1,
                                source: r.2,
                                metadata: r.3,
                                text: r.4,
                                chunks,
                            },
                        ),
                    ),
                },
            },
        }
    }

    /// Hands an item of the embedding stage to the writing stage.
    pub fn promote_to_writes(
        &self,
        embed_id: i64,
        queue_id: i64,
        source: &str,
        metadata: &str,
        compressed_text: Vec<u8>,
        embeddings_blob: Vec<u8>,
    ) -> (res: Vec<QueueStatement>)
        ensures
            change_views(res@) == promotion_to_writes(
                embed_id,
                queue_id,
                source@,
                metadata@,
                compressed_text@,
                embeddings_blob@,
            ),
    {
        let mut changes: Vec<QueueStatement> = Vec::new();
        changes.push(
            QueueStatement::AddWrite {
                queue_id,
                source: copy_of(source),
                metadata: copy_of(metadata),
                compressed_text,
                embeddings: embeddings_blob,
            },
        );
        changes.push(QueueStatement::DropEmbed { id: embed_id });
        assert(change_views(changes@) =~= promotion_to_writes(
            embed_id,
            queue_id,
            source@,
            metadata@,
            compressed_text@,
            embeddings_blob@,
        ));
        changes
    }

    /// Marks a document as failed and takes it from the embedding stage.
    pub fn fail_embed(&self, embed_id: i64, queue_id: i64, error: &str) -> (res: Vec<
        QueueStatement,
    >)
        ensures
            change_views(res@) == failure_of_embed(embed_id, queue_id, error@),
    {
        let mut changes: Vec<QueueStatement> = Vec::new();
        changes.push(QueueStatement::SetFailed { id: queue_id, error: copy_of(error) });
        changes.push(QueueStatement::DropEmbed { id: embed_id });
        assert(change_views(changes@) =~= failure_of_embed(embed_id, queue_id, error@));
        changes
    }

    /// The item of the writing stage that a row holds, if there is one.
    pub fn peek_write(&self, row: Option<WriteRow>) -> (res: Result<Option<PendingWrite>>)
        ensures
            match (row, res) {
                (None, Ok(item)) => item is None,
                (None, Err(_)) => false,
                (Some(r), Ok(item)) => is_json(r.3@) && item is Some && is_write_of(item->0, r),
                (Some(r), Err(e)) => !is_json(r.3@) && is_metadata_error(r.3@, e),
            },
    {
        match row {
            None => Ok(None),
            Some(r) => match Metadata::from_json(r.3.as_str()) {
                Err(e) => Err(e),
                Ok(_) => Ok(
                    Some(
                        PendingWrite {
                            id: r.0,
                            queue_id: r.1,
                            source: r.2,
                            metadata: r.3,
                            compressed_text: r.4,
                            embeddings_blob: r.5,
                        },
                    ),
                ),
            },
        }
    }

    /// Marks a document as ingested and takes it from the writing stage.
    pub fn complete_write(&self, write_id: i64, queue_id: i64) -> (res: Vec<QueueStatement>)
        ensures
            change_views(res@) == completion_of_write(write_id, queue_id),
    {
        let mut changes: Vec<QueueStatement> = Vec::new();
        changes.push(QueueStatement::SetDone { id: queue_id });
        changes.push(QueueStatement::DropWrite { id: write_id });
        assert(change_views(changes@) =~= completion_of_write(write_id, queue_id));
        changes
    }

    /// Marks a document as failed and takes it from the writing stage.
    pub fn fail_write(&self, write_id: i64, queue_id: i64, error: &str) -> (res: Vec<
        QueueStatement,
    >)
        ensures
            change_views(res@) == failure_of_write(write_id, queue_id, error@),
    {
        let mut changes: Vec<QueueStatement> = Vec::new();
        changes.push(QueueStatement::SetFailed { id: queue_id, error: copy_of(error) });
        changes.push(QueueStatement::DropWrite { id: write_id });
        assert(change_views(changes@) =~= failure_of_write(write_id, queue_id, error@));
        changes
    }

    /// Makes the documents pending again that were being processed and that no later stage holds,
    /// given how many the database counted. Items of the later stages stay where they are.
    pub fn reset_pipeline(&self, orphans: Option<i64>) -> (res: (u64, Vec<QueueStatement>))
        ensures
            res.0 == (match orphans {
                Some(n) => n as u64,
                None => 0,
            }),
            change_views(res.1@) == seq![QueueStatementView::ReleaseOrphans],
    {
        let count: u64 = counted(orphans);
        let mut changes: Vec<QueueStatement> = Vec::new();
        changes.push(QueueStatement::ReleaseOrphans);
        assert(change_views(changes@) =~= seq![QueueStatementView::ReleaseOrphans]);
        (count, changes)
    }
}

/// What taking documents from the queue changes: each is marked as being processed.
pub open spec fn marks_of(items: Seq<QueueItem>) -> Seq<QueueStatementView> {
    Seq::new(items.len(), |i: int| QueueStatementView::SetProcessing { id: items[i].id })
}

/// What handing a pending document to the embedding stage changes.
pub open spec fn promotion_to_embeds(
    queue_id: i64,
    source: Seq<char>,
    metadata: Seq<char>,
    text: Seq<char>,
    chunks: Seq<char>,
) -> Seq<QueueStatementView> {
    seq![
        QueueStatementView::Claim { id: queue_id },
        QueueStatementView::AddEmbed { queue_id, source, metadata, text, chunks },
    ]
}

/// What handing an item of the embedding stage to the writing stage changes.
pub open spec fn promotion_to_writes(
    embed_id: i64,
    queue_id: i64,
    source: Seq<char>,
    metadata: Seq<char>,
    compressed_text: Seq<u8>,
    embeddings: Seq<u8>,
) -> Seq<QueueStatementView> {
    seq![
        QueueStatementView::AddWrite { queue_id, source, metadata, compressed_text, embeddings },
        QueueStatementView::DropEmbed { id: embed_id },
    ]
}

/// What the failure of an item of the embedding stage changes.
pub open spec fn failure_of_embed(embed_id: i64, queue_id: i64, error: Seq<char>) -> Seq<
    QueueStatementView,
> {
    seq![
        QueueStatementView::SetFailed { id: queue_id, error },
        QueueStatementView::DropEmbed { id: embed_id },
    ]
}

/// What the completion of an item of the writing stage changes.
pub open spec fn completion_of_write(write_id: i64, queue_id: i64) -> Seq<QueueStatementView> {
    seq![
        QueueStatementView::SetDone { id: queue_id },
        QueueStatementView::DropWrite { id: write_id },
    ]
}

/// What the failure of an item of the writing stage changes.
pub open spec fn failure_of_write(write_id: i64, queue_id: i64, error: Seq<char>) -> Seq<
    QueueStatementView,
> {
    seq![
        QueueStatementView::SetFailed { id: queue_id, error },
        QueueStatementView::DropWrite { id: write_id },
    ]
}

/// The queue database lies beside the main database, under its name with `-queue` before the
/// extension.
pub proof fn law_queue_lies_beside(dir: Seq<char>, stem: Seq<char>, ext: Seq<char>)
    requires
        stem.len() > 0,
        !stem.contains('/'),
        !ext.contains('/'),
        !ext.contains('.'),
        stem + seq!['.'] + ext != seq!['.', '.'],
        dir.len() > 0,
        dir.last() != '/',
        dir.last() != '.',
    ensures
        queue_path(dir + seq!['/'] + (stem + seq!['.'] + ext)) == dir + seq!['/'] + (stem
            + "-queue"@ + seq!['.'] + ext),
        queue_path(stem + seq!['.'] + ext) == stem + "-queue"@ + seq!['.'] + ext,
{
    reveal_strlit(".");
    reveal_strlit("/");
    reveal_strlit("-queue");
    assert("."@ =~= seq!['.']);
    assert("/"@ =~= seq!['/']);
    let name = stem + seq!['.'] + ext;
    assert(!name.contains('/')) by {
        if name.contains('/') {
            let i = choose|i: int| 0 <= i < name.len() && name[i] == '/';
            if i < stem.len() {
                assert(stem.contains(stem[i]));
            } else if i > stem.len() {
                assert(ext.contains(ext[i - stem.len() - 1]));
            }
        }
    }
    assert(name != seq!['.']) by {
        assert(name.len() >= 2);
    }
    law_file_name(dir, name);
    law_parent(dir, name);
    law_bare_file_name(name);
    law_stem_and_extension(stem, ext);
}

/// The queue database of a main database whose name has no extension has its name with `-queue`
/// behind it.
pub proof fn law_queue_without_extension(dir: Seq<char>, name: Seq<char>)
    requires
        name.len() > 0,
        !name.contains('/'),
        !name.contains('.'),
        dir.len() > 0,
        dir.last() != '/',
        dir.last() != '.',
    ensures
        queue_path(dir + seq!['/'] + name) == dir + seq!['/'] + (name + "-queue"@),
        queue_path(name) == name + "-queue"@,
{
    reveal_strlit("/");
    assert("/"@ =~= seq!['/']);
    assert(name != seq!['.'] && name != seq!['.', '.']) by {
        if name == seq!['.'] || name == seq!['.', '.'] {
            assert(name[0] == '.');
            assert(name.contains('.'));
        }
    }
    law_file_name(dir, name);
    law_parent(dir, name);
    law_bare_file_name(name);
    law_no_extension(name);
}

} // verus!
