//! The stages of the ingestion pipeline.
//!
//! Three stages run side by side. Each takes the oldest items from its table, works on them and
//! hands them on; it waits only when its table is empty. The functions here say what a stage does
//! next and which changes its work makes; executing them is left to the caller.

use vstd::prelude::*;
use vstd::utf8::encode_utf8;
use crate::codec::{
    chunks_json, compress, json_chunks, lz4_decoded, text_chunk_views, TextChunk,
};
use crate::embeddings::{
    chunk_views, is_malformed_blob, law_pack_unpack, pack_embeddings, packed, unpack_embeddings,
    unpacked, ChunkView, EmbeddedChunk,
};
use crate::error::{CapsaError, Result};
use crate::queue::{
    change_views, completion_of_write, failure_of_embed, failure_of_write, promotion_to_embeds,
    promotion_to_writes, PendingEmbed, PendingWrite, QueueConnection, QueueItem, QueueStatement,
    QueueStatementView,
};

verus! {

/// How many documents are chunked at the same time.
pub const CHUNK_CONCURRENCY: usize = 4;

/// What a stage is doing.
#[derive(Debug, Clone, Copy, PartialEq, Eq, Structural)]
pub enum StagePhase {
    /// It looks for the next items.
    Peeking,
    /// It works on the items that it found.
    Working,
    /// It waits for new items.
    Waiting,
    /// It has ended.
    Stopped,
}

/// What a stage learns.
#[derive(Debug, Clone, Copy, PartialEq, Eq, Structural)]
pub enum StageEvent {
    /// There are items.
    Found,
    /// There are no items.
    NothingFound,
    /// Looking for items failed.
    PeekFailed,
    /// The work on the items has ended, well or not.
    Finished,
    /// The stage before has handed items on.
    Woken,
    /// The pipeline is shut down.
    ShutDown,
}

impl StagePhase {
    /// What follows on a phase when an event comes. Events that do not belong to the phase change
    /// nothing.
    pub open spec fn then_on(self, event: StageEvent) -> StagePhase {
        match (self, event) {
            (StagePhase::Peeking, StageEvent::Found) => StagePhase::Working,
            (StagePhase::Peeking, StageEvent::NothingFound) => StagePhase::Waiting,
            (StagePhase::Peeking, StageEvent::PeekFailed) => StagePhase::Waiting,
            (StagePhase::Working, StageEvent::Finished) => StagePhase::Peeking,
            (StagePhase::Waiting, StageEvent::Woken) => StagePhase::Peeking,
            (StagePhase::Waiting, StageEvent::ShutDown) => StagePhase::Stopped,
            _ => self,
        }
    }

    /// A stage begins by looking for items.
    pub fn start() -> (res: StagePhase)
        ensures
            res == StagePhase::Peeking,
    {
        StagePhase::Peeking
    }

    /// What follows on the phase when an event comes.
    pub fn next(self, event: StageEvent) -> (res: StagePhase)
        ensures
            res == self.then_on(event),
    {
        match (self, event) {
            (StagePhase::Peeking, StageEvent::Found) => StagePhase::Working,
            (StagePhase::Peeking, StageEvent::NothingFound) => StagePhase::Waiting,
            (StagePhase::Peeking, StageEvent::PeekFailed) => StagePhase::Waiting,
            (StagePhase::Working, StageEvent::Finished) => StagePhase::Peeking,
            (StagePhase::Waiting, StageEvent::Woken) => StagePhase::Peeking,
            (StagePhase::Waiting, StageEvent::ShutDown) => StagePhase::Stopped,
            _ => self,
        }
    }
}

/// The event that a look for items is.
pub open spec fn peek_event<T>(items: Result<Vec<T>>) -> StageEvent {
    match items {
        Ok(v) => if v@.len() == 0 {
            StageEvent::NothingFound
        } else {
            StageEvent::Found
        },
        Err(_) => StageEvent::PeekFailed,
    }
}

/// The event that a look for items is.
pub fn peeked<T>(items: &Result<Vec<T>>) -> (res: StageEvent)
    ensures
        res == peek_event(*items),
{
    match items {
        Ok(v) => if v.len() == 0 {
            StageEvent::NothingFound
        } else {
            StageEvent::Found
        },
        Err(_) => StageEvent::PeekFailed,
    }
}

/// The event that ends a wait. Where both have come, the shutdown goes first.
pub fn waited(shut_down: bool, woken: bool) -> (res: Option<StageEvent>)
    ensures
        res == (if shut_down {
            Some(StageEvent::ShutDown)
        } else if woken {
            Some(StageEvent::Woken)
        } else {
            None
        }),
{
    if shut_down {
        Some(StageEvent::ShutDown)
    } else if woken {
        Some(StageEvent::Woken)
    } else {
        None
    }
}

/// The phase after a series of events.
pub open spec fn phase_after(start: StagePhase, events: Seq<StageEvent>) -> StagePhase
    decreases events.len(),
{
    if events.len() == 0 {
        start
    } else {
        phase_after(start, events.drop_last()).then_on(events.last())
    }
}

/// A stage drains its table before it waits: it begins to wait only when a look for items has
/// found nothing or has failed.
pub proof fn law_drains_before_waiting(phase: StagePhase, event: StageEvent)
    requires
        phase != StagePhase::Waiting,
        phase.then_on(event) == StagePhase::Waiting,
    ensures
        phase == StagePhase::Peeking,
        event == StageEvent::NothingFound || event == StageEvent::PeekFailed,
{
}

/// A stage ends only while it waits, and stays ended whatever comes.
pub proof fn law_stops_while_waiting(phase: StagePhase, event: StageEvent, more: Seq<StageEvent>)
    requires
        phase != StagePhase::Stopped,
        phase.then_on(event) == StagePhase::Stopped,
    ensures
        phase == StagePhase::Waiting,
        event == StageEvent::ShutDown,
        phase_after(StagePhase::Stopped, more) == StagePhase::Stopped,
    decreases more.len(),
{
    if more.len() > 0 {
        law_stops_while_waiting(phase, event, more.drop_last());
    }
}

/// A stage that found items works on them to the end, and then looks again.
pub proof fn law_works_to_the_end(event: StageEvent)
    ensures
        StagePhase::Working.then_on(event) == (if event == StageEvent::Finished {
            StagePhase::Peeking
        } else {
            StagePhase::Working
        }),
{
}

/// What the work of a stage changes, in one transaction.
#[derive(Debug)]
pub struct StageChange {
    pub changes: Vec<QueueStatement>,
    /// Whether the next stage is to be woken once the changes are made.
    pub wakes_next: bool,
}

impl StageChange {
    /// The changes as mathematical values.
    pub open spec fn views(&self) -> Seq<QueueStatementView> {
        change_views(self.changes@)
    }
}

/// What a document without chunks is marked with.
pub open spec fn no_chunks_text() -> Seq<char> {
    "document produced no embeddable chunks"@
}

/// What the chunk stage does with a document: it fails one without chunks, and hands any other to
/// the embedding stage with its own source, metadata and text, and wakes that stage.
pub fn chunk_task(item: &QueueItem, chunks: &Vec<TextChunk>) -> (res: Result<StageChange>)
    ensures
        if chunks@.len() == 0 {
            res matches Ok(change) && !change.wakes_next && change.views() == seq![
                QueueStatementView::SetFailed { id: item.id, error: no_chunks_text() },
            ]
        } else {
            let json = chunks_json(text_chunk_views(chunks@));
            &&& res matches Ok(change)
            &&& change.wakes_next
            &&& change.views() == promotion_to_embeds(
                item.id,
                item.source@,
                item.metadata@,
                item.text@,
                json,
            )
            &&& json_chunks(json) == Some(text_chunk_views(chunks@))
        },
{
    let conn = QueueConnection {  };
    if chunks.len() == 0 {
        let mut changes: Vec<QueueStatement> = Vec::new();
        changes.push(conn.mark_failed(item.id, "document produced no embeddable chunks"));
        assert(change_views(changes@) =~= seq![
            QueueStatementView::SetFailed { id: item.id, error: no_chunks_text() },
        ]);
        return Ok(StageChange { changes, wakes_next: false });
    }
    match conn.promote_to_embeds(
        item.id,
        item.source.as_str(),
        item.metadata.as_str(),
        item.text.as_str(),
        chunks.as_slice(),
    ) {
        Err(e) => Err(e),
        Ok(changes) => Ok(StageChange { changes, wakes_next: true }),
    }
}

/// What the embedding stage does with an item, given its embeddings and its compressed text: where
/// one of them is an error, the embeddings looked at first, the item fails with its message;
/// otherwise it goes to the writing stage, which is woken.
pub fn embed_task(
    item: &PendingEmbed,
    embeddings: Result<Vec<EmbeddedChunk>>,
    compressed: Result<Vec<u8>>,
) -> (res: StageChange)
    ensures
        match (embeddings, compressed) {
            (Err(e), _) => !res.wakes_next && exists|text: String| #[trigger]
                call_ensures(CapsaError::message, (&e,), text) && res.views() == failure_of_embed(
                    item.id,
                    item.queue_id,
                    text@,
                ),
            (Ok(_), Err(e)) => !res.wakes_next && exists|text: String| #[trigger]
                call_ensures(CapsaError::message, (&e,), text) && res.views() == failure_of_embed(
                    item.id,
                    item.queue_id,
                    text@,
                ),
            (Ok(v), Ok(frame)) => res.wakes_next && res.views() == promotion_to_writes(
                item.id,
                item.queue_id,
                item.source@,
                item.metadata@,
                frame@,
                packed(chunk_views(v@)),
            ),
        },
{
    let conn = QueueConnection {  };
    match embeddings {
        Err(e) => {
            let text = e.message();
            let changes = conn.fail_embed(item.id, item.queue_id, text.as_str());
            assert(call_ensures(CapsaError::message, (&e,), text));
            StageChange { changes, wakes_next: false }
        },
        Ok(v) => match compressed {
            Err(e) => {
                let text = e.message();
                let changes = conn.fail_embed(item.id, item.queue_id, text.as_str());
                assert(call_ensures(CapsaError::message, (&e,), text));
                StageChange { changes, wakes_next: false }
            },
            Ok(frame) => {
                let blob = pack_embeddings(v.as_slice());
                let changes = conn.promote_to_writes(
                    item.id,
                    item.queue_id,
                    item.source.as_str(),
                    item.metadata.as_str(),
                    frame,
                    blob,
                );
                StageChange { changes, wakes_next: true }
            },
        },
    }
}

/// The compressed text of an item of the embedding stage.
pub fn compressed_text(item: &PendingEmbed) -> (res: Result<Vec<u8>>)
    ensures
        res matches Ok(frame) && lz4_decoded(frame@) == Some(encode_utf8(item.text@)),
{
    compress(item.text.as_str().as_bytes())
}

/// The embeddings of an item of the writing stage.
pub fn write_embeddings(item: &PendingWrite) -> (res: Result<Vec<EmbeddedChunk>>)
    ensures
        match res {
            Ok(v) => unpacked(item.embeddings_blob@) == Some(chunk_views(v@)),
            Err(e) => unpacked(item.embeddings_blob@) is None && is_malformed_blob(e),
        },
{
    unpack_embeddings(item.embeddings_blob.as_slice())
}

/// What the writing stage does with an item, given how its work ended: with the number of the
/// document that was stored, or with an error in reading the embeddings, writing them as JSON or
/// storing them. The document is done, or it fails with the message of the error.
pub fn write_task(item: &PendingWrite, stored: Result<i64>) -> (res: StageChange)
    ensures
        !res.wakes_next,
        match stored {
            Ok(_) => res.views() == completion_of_write(item.id, item.queue_id),
            Err(e) => exists|text: String| #[trigger]
                call_ensures(CapsaError::message, (&e,), text) && res.views() == failure_of_write(
                    item.id,
                    item.queue_id,
                    text@,
                ),
        },
{
    let conn = QueueConnection {  };
    match stored {
        Ok(_) => StageChange {
            changes: conn.complete_write(item.id, item.queue_id),
            wakes_next: false,
        },
        Err(e) => {
            let text = e.message();
            let changes = conn.fail_write(item.id, item.queue_id, text.as_str());
            assert(call_ensures(CapsaError::message, (&e,), text));
            StageChange { changes, wakes_next: false }
        },
    }
}

/// How the start of the pipeline ends, given how its stages were set up: with the first error, of
/// the chunk stage, the embedding stage and the writing stage in this order.
pub fn started(chunk: Result<()>, embed: Result<()>, write: Result<()>) -> (res: Result<()>)
    ensures
        res == (if chunk is Err {
            chunk
        } else if embed is Err {
            embed
        } else {
            write
        }),
{
    match chunk {
        Err(e) => Err(e),
        Ok(()) => match embed {
            Err(e) => Err(e),
            Ok(()) => write,
        },
    }
}

/// The writing stage reads the embeddings that the embedding stage handed on.
pub proof fn law_embeddings_arrive(embeddings: Seq<ChunkView>, item: PendingWrite)
    requires
        embeddings.len() <= u32::MAX,
        forall|i: int|
            0 <= i < embeddings.len() ==> (#[trigger] embeddings[i]).0.len() <= u32::MAX,
        item.embeddings_blob@ == packed(embeddings),
    ensures
        unpacked(item.embeddings_blob@) == Some(embeddings),
{
    law_pack_unpack(embeddings);
}

} // verus!
