//! Storing a document and the embeddings of its chunks, all or nothing.
//!
//! The statements run in one transaction, one at a time: the number of the document, which the
//! first returns, goes into the others. What is to be done next, and whether the transaction is
//! committed in the end, is decided here; executing it is left to the caller.

use vstd::prelude::*;
use crate::sql::{ParamView, Statement, StatementView};
use crate::vectordb::{
    chunk_statement, is_insert_of, law_fetch_returns_inserted, stored_text,
    VectorDatabaseConnection,
};

verus! {

/// How far the storing of a document has come.
#[derive(Debug, Clone, Copy, PartialEq, Eq, Structural)]
pub enum StoringPhase {
    /// The transaction is to be opened.
    Opening,
    /// The document is to be stored.
    Document,
    /// The document and this many of its chunks are stored.
    Chunks { doc_id: i64, done: usize },
    /// The transaction is committed.
    Stored { doc_id: i64 },
    /// The transaction is to be undone.
    Undoing,
    /// Nothing was stored.
    NotStored,
}

/// How a step ended.
#[derive(Debug, Clone, Copy)]
pub enum StoringEvent {
    /// It was done.
    Done,
    /// It was done, and returned this number.
    Returned(Option<i64>),
    /// It failed.
    Failed,
}

/// What is to be done next.
#[derive(Debug)]
pub enum StoringAction<'a> {
    /// Opens the transaction.
    Begin,
    /// Executes a statement that returns a number.
    Query(&'a Statement),
    /// Executes a statement.
    Execute(Statement),
    /// Commits the transaction.
    Commit,
    /// Undoes the transaction.
    RollBack,
    /// There is nothing left to do.
    Nothing,
}

/// What is to be done next, as a mathematical value.
pub enum StoringActionView {
    Begin,
    Query(StatementView),
    Execute(StatementView),
    Commit,
    RollBack,
    Nothing,
}

impl<'a> View for StoringAction<'a> {
    type V = StoringActionView;

    open spec fn view(&self) -> StoringActionView {
        match self {
            StoringAction::Begin => StoringActionView::Begin,
            StoringAction::Query(s) => StoringActionView::Query(s@),
            StoringAction::Execute(s) => StoringActionView::Execute(s@),
            StoringAction::Commit => StoringActionView::Commit,
            StoringAction::RollBack => StoringActionView::RollBack,
            StoringAction::Nothing => StoringActionView::Nothing,
        }
    }
}

/// A document that is being stored: the statement that stores it, the vectors of its chunks as
/// JSON text with the bounds of the chunks, and how far it has come.
#[derive(Debug)]
pub struct Storing {
    pub document: Statement,
    pub vectors: Vec<(String, usize, usize)>,
    pub phase: StoringPhase,
}

/// A document that is being stored, as a mathematical value.
pub struct StoringView {
    pub document: StatementView,
    pub vectors: Seq<(Seq<char>, usize, usize)>,
    pub phase: StoringPhase,
}

/// The vectors that a list stands for.
pub open spec fn vector_views(s: Seq<(String, usize, usize)>) -> Seq<(Seq<char>, usize, usize)> {
    s.map_values(|v: (String, usize, usize)| (v.0@, v.1, v.2))
}

impl View for Storing {
    type V = StoringView;

    open spec fn view(&self) -> StoringView {
        StoringView {
            document: self.document@,
            vectors: vector_views(self.vectors@),
            phase: self.phase,
        }
    }
}

impl StoringView {
    /// What is to be done next, for documents of a dimension: the chunks follow on the document in
    /// their order, and the transaction is committed when all are stored.
    pub open spec fn action(self, dim: nat) -> StoringActionView {
        match self.phase {
            StoringPhase::Opening => StoringActionView::Begin,
            StoringPhase::Document => StoringActionView::Query(self.document),
            StoringPhase::Chunks { doc_id, done } => if done < self.vectors.len() {
                StoringActionView::Execute(
                    chunk_statement(dim, doc_id, done as int, self.vectors[done as int]),
                )
            } else {
                StoringActionView::Commit
            },
            StoringPhase::Undoing => StoringActionView::RollBack,
            StoringPhase::Stored { .. } | StoringPhase::NotStored => StoringActionView::Nothing,
        }
    }

    /// The phase once a step has ended. A failure, and a document without a number, undoes the
    /// transaction. An event that does not belong to the phase changes nothing.
    pub open spec fn phase_after(self, event: StoringEvent) -> StoringPhase {
        match (self.phase, event) {
            (StoringPhase::Opening, StoringEvent::Done) => StoringPhase::Document,
            (StoringPhase::Opening, StoringEvent::Failed) => StoringPhase::NotStored,
            (StoringPhase::Document, StoringEvent::Returned(Some(id))) => StoringPhase::Chunks {
                doc_id: id,
                done: 0,
            },
            (StoringPhase::Document, StoringEvent::Returned(None)) => StoringPhase::Undoing,
            (StoringPhase::Document, StoringEvent::Failed) => StoringPhase::Undoing,
            (StoringPhase::Chunks { doc_id, done }, StoringEvent::Done) => if done
                < self.vectors.len() {
                StoringPhase::Chunks { doc_id, done: (done + 1) as usize }
            } else {
                StoringPhase::Stored { doc_id }
            },
            (StoringPhase::Chunks { .. }, StoringEvent::Failed) => StoringPhase::Undoing,
            (StoringPhase::Undoing, _) => StoringPhase::NotStored,
            _ => self.phase,
        }
    }

    /// The document that is being stored once a step has ended.
    pub open spec fn later(self, event: StoringEvent) -> StoringView {
        StoringView { phase: self.phase_after(event), ..self }
    }
}

impl Storing {
    /// A document of which nothing is stored yet.
    pub fn new(document: Statement, vectors: Vec<(String, usize, usize)>) -> (res: Storing)
        ensures
            res@ == (StoringView {
                document: document@,
                vectors: vector_views(vectors@),
                phase: StoringPhase::Opening,
            }),
    {
        Storing { document, vectors, phase: StoringPhase::Opening }
    }

    /// What is to be done next.
    pub fn action(&self, conn: &VectorDatabaseConnection) -> (res: StoringAction<'_>)
        requires
            conn.wf(),
        ensures
            res@ == self@.action(conn.dim()),
    {
        match self.phase {
            StoringPhase::Opening => StoringAction::Begin,
            StoringPhase::Document => StoringAction::Query(&self.document),
            StoringPhase::Chunks { doc_id, done } => {
                if done < self.vectors.len() {
                    StoringAction::Execute(conn.chunk_insert(doc_id, done, &self.vectors[done]))
                } else {
                    StoringAction::Commit
                }
            },
            StoringPhase::Undoing => StoringAction::RollBack,
            StoringPhase::Stored { .. } => StoringAction::Nothing,
            StoringPhase::NotStored => StoringAction::Nothing,
        }
    }

    /// Goes on, given how the step ended.
    pub fn next(&mut self, event: StoringEvent)
        ensures
            final(self)@ == old(self)@.later(event),
    {
        let n: usize = self.vectors.len();
        let phase = match (self.phase, event) {
            (StoringPhase::Opening, StoringEvent::Done) => StoringPhase::Document,
            (StoringPhase::Opening, StoringEvent::Failed) => StoringPhase::NotStored,
            (StoringPhase::Document, StoringEvent::Returned(Some(doc_id))) => {
                StoringPhase::Chunks { doc_id, done: 0 }
            },
            (StoringPhase::Document, StoringEvent::Returned(None)) => StoringPhase::Undoing,
            (StoringPhase::Document, StoringEvent::Failed) => StoringPhase::Undoing,
            (StoringPhase::Chunks { doc_id, done }, StoringEvent::Done) => {
                if done < n {
                    StoringPhase::Chunks { doc_id, done: done + 1 }
                } else {
                    StoringPhase::Stored { doc_id }
                }
            },
            (StoringPhase::Chunks { .. }, StoringEvent::Failed) => StoringPhase::Undoing,
            (StoringPhase::Undoing, _) => StoringPhase::NotStored,
            (phase, _) => phase,
        };
        self.phase = phase;
    }

    /// How many chunks are stored so far.
    pub fn progress(&self) -> (res: usize)
        ensures
            res == (match self.phase {
                StoringPhase::Chunks { done, .. } => done,
                StoringPhase::Stored { .. } => self.vectors@.len() as usize,
                _ => 0,
            }),
    {
        match self.phase {
            StoringPhase::Chunks { done, .. } => done,
            StoringPhase::Stored { .. } => self.vectors.len(),
            _ => 0,
        }
    }
}

/// A stored chunk: its document, its place among the chunks, its bounds and its vector.
pub struct ChunkRow {
    pub doc_id: i64,
    pub index: i64,
    pub start: i64,
    pub end: i64,
    pub vector: Seq<char>,
}

/// What a vector database holds: the content and the metadata of its documents, by their numbers,
/// and the chunks.
#[verifier::ext_equal]
pub struct Store {
    pub documents: Map<i64, (Seq<u8>, Seq<char>)>,
    pub chunks: Seq<ChunkRow>,
}

/// A database and the transaction that is open on it: what others see, and what the transaction
/// has made of it.
pub struct Session {
    pub visible: Store,
    pub working: Option<Store>,
}

/// The database once a statement has stored a document under a number.
pub open spec fn with_document(store: Store, id: i64, statement: StatementView) -> Store {
    Store {
        documents: store.documents.insert(
            id,
            (statement.params[0]->Blob_0, statement.params[1]->Text_0),
        ),
        ..store
    }
}

/// The database once a statement has stored the embedding of a chunk.
pub open spec fn with_chunk(store: Store, statement: StatementView) -> Store {
    Store {
        chunks: store.chunks.push(
            ChunkRow {
                doc_id: statement.params[0]->Integer_0,
                index: statement.params[1]->Integer_0,
                start: statement.params[2]->Integer_0,
                end: statement.params[3]->Integer_0,
                vector: statement.params[4]->Text_0,
            },
        ),
        ..store
    }
}

/// Whether a step with this end takes a session from one state to another. Others see nothing of a
/// transaction before it is committed, and a step that fails leaves nothing of itself to be seen;
/// what it leaves in the transaction is not told.
pub open spec fn happens(
    before: Session,
    action: StoringActionView,
    event: StoringEvent,
    after: Session,
) -> bool {
    match (action, event) {
        (StoringActionView::Begin, StoringEvent::Done) => {
            &&& after.visible == before.visible
            &&& after.working == Some(before.visible)
        },
        (StoringActionView::Query(s), StoringEvent::Returned(Some(id))) => {
            &&& after.visible == before.visible
            &&& before.working is Some ==> after.working == Some(
                with_document(before.working->0, id, s),
            )
        },
        (StoringActionView::Execute(s), StoringEvent::Done) => {
            &&& after.visible == before.visible
            &&& before.working is Some ==> after.working == Some(with_chunk(before.working->0, s))
        },
        (StoringActionView::Commit, StoringEvent::Done) => {
            &&& before.working is Some ==> after.visible == before.working->0
            &&& after.working is None
        },
        (_, StoringEvent::Failed) => after.visible == before.visible,
        (StoringActionView::Query(_), StoringEvent::Returned(None)) => after.visible
            == before.visible,
        (StoringActionView::RollBack, _) => after.visible == before.visible && after.working
            is None,
        _ => after == before,
    }
}

/// The row of a chunk of a document.
pub open spec fn chunk_row(doc_id: i64, index: int, chunk: (Seq<char>, usize, usize)) -> ChunkRow {
    ChunkRow {
        doc_id,
        index: index as i64,
        start: chunk.1 as i64,
        end: chunk.2 as i64,
        vector: chunk.0,
    }
}

/// The database with the document and its first `k` chunks.
pub open spec fn with_part(store: Store, plan: StoringView, id: i64, k: nat) -> Store {
    Store {
        documents: with_document(store, id, plan.document).documents,
        chunks: store.chunks + Seq::new(k, |i: int| chunk_row(id, i, plan.vectors[i])),
    }
}

/// The database with the document and all of its chunks.
pub open spec fn with_all(store: Store, plan: StoringView, id: i64) -> Store {
    with_part(store, plan, id, plan.vectors.len())
}

/// The phase after a series of events.
pub open spec fn plan_after(plan: StoringView, events: Seq<StoringEvent>) -> StoringView
    decreases events.len(),
{
    if events.len() == 0 {
        plan
    } else {
        plan_after(plan, events.drop_last()).later(events.last())
    }
}

/// Whether the sessions are those that a series of steps goes through.
pub open spec fn is_run(
    plan: StoringView,
    dim: nat,
    events: Seq<StoringEvent>,
    sessions: Seq<Session>,
) -> bool {
    &&& sessions.len() == events.len() + 1
    &&& forall|i: int|
        0 <= i < events.len() ==> happens(
            #[trigger] sessions[i],
            plan_after(plan, events.take(i)).action(dim),
            events[i],
            sessions[i + 1],
        )
}

/// What a session is like in each phase.
spec fn fits(start: Store, plan: StoringView, session: Session) -> bool {
    match plan.phase {
        StoringPhase::Opening => session.visible == start,
        StoringPhase::Document => session.visible == start && session.working == Some(start),
        StoringPhase::Chunks { doc_id, done } => {
            &&& done <= plan.vectors.len()
            &&& session.visible == start
            &&& session.working == Some(with_part(start, plan, doc_id, done as nat))
        },
        StoringPhase::Stored { doc_id } => session.visible == with_all(start, plan, doc_id),
        StoringPhase::Undoing | StoringPhase::NotStored => session.visible == start,
    }
}

proof fn lemma_fits_later(
    start: Store,
    plan: StoringView,
    dim: nat,
    event: StoringEvent,
    before: Session,
    after: Session,
)
    requires
        fits(start, plan, before),
        happens(before, plan.action(dim), event, after),
        plan.vectors.len() <= usize::MAX,
    ensures
        fits(start, plan.later(event), after),
{
    let later = plan.later(event);
    match plan.phase {
        StoringPhase::Document => {
            if let StoringEvent::Returned(Some(id)) = event {
                assert(with_part(start, later, id, 0) =~= with_document(start, id, plan.document));
            }
        },
        StoringPhase::Chunks { doc_id, done } => {
            if event is Done && done < plan.vectors.len() {
                let s = chunk_statement(dim, doc_id, done as int, plan.vectors[done as int]);
                assert(with_part(start, later, doc_id, (done + 1) as nat) =~= with_chunk(
                    with_part(start, plan, doc_id, done as nat),
                    s,
                ));
            } else if event is Done {
                assert(with_part(start, plan, doc_id, done as nat) == with_all(
                    start,
                    plan,
                    doc_id,
                ));
                assert(with_all(start, later, doc_id) =~= with_all(start, plan, doc_id));
            } else {
                assert(with_part(start, later, doc_id, done as nat) =~= with_part(
                    start,
                    plan,
                    doc_id,
                    done as nat,
                ));
            }
        },
        StoringPhase::Stored { doc_id } => {
            assert(with_all(start, later, doc_id) =~= with_all(start, plan, doc_id));
        },
        _ => {},
    }
}

proof fn lemma_fits_always(
    start: Store,
    plan: StoringView,
    dim: nat,
    events: Seq<StoringEvent>,
    sessions: Seq<Session>,
)
    requires
        plan.phase == StoringPhase::Opening,
        plan.vectors.len() <= usize::MAX,
        is_run(plan, dim, events, sessions),
        sessions[0].visible == start,
    ensures
        fits(start, plan_after(plan, events), sessions.last()),
        plan_after(plan, events).vectors == plan.vectors,
        plan_after(plan, events).document == plan.document,
    decreases events.len(),
{
    if events.len() > 0 {
        let front = events.drop_last();
        let seen = sessions.drop_last();
        assert forall|i: int| 0 <= i < front.len() implies happens(
            #[trigger] seen[i],
            plan_after(plan, front.take(i)).action(dim),
            front[i],
            seen[i + 1],
        ) by {
            assert(front.take(i) =~= events.take(i));
            assert(sessions[i] == seen[i]);
        }
        lemma_fits_always(start, plan, dim, front, seen);
        let last = events.len() - 1;
        assert(events.take(last) =~= front);
        assert(sessions[last] == seen.last());
        lemma_fits_later(
            start,
            plan_after(plan, front),
            dim,
            events.last(),
            seen.last(),
            sessions.last(),
        );
    }
}

/// A document and its chunks are stored together or not at all. Whatever happens, others see
/// either the database as it was, or the database with the document and all of its chunks, in
/// their order; the latter if and only if the storing has ended as done. So a storing that fails
/// at any step leaves every document and every chunk as it was.
pub proof fn law_all_or_nothing(
    start: Store,
    plan: StoringView,
    dim: nat,
    events: Seq<StoringEvent>,
    sessions: Seq<Session>,
)
    requires
        plan.phase == StoringPhase::Opening,
        plan.vectors.len() <= usize::MAX,
        is_run(plan, dim, events, sessions),
        sessions[0].visible == start,
    ensures
        match plan_after(plan, events).phase {
            StoringPhase::Stored { doc_id } => sessions.last().visible == with_all(
                start,
                plan,
                doc_id,
            ),
            _ => sessions.last().visible == start,
        },
{
    lemma_fits_always(start, plan, dim, events, sessions);
    let end = plan_after(plan, events);
    if let StoringPhase::Stored { doc_id } = end.phase {
        assert(with_all(start, end, doc_id) =~= with_all(start, plan, doc_id));
    }
}

/// A document that was stored is in the database with its content and its metadata.
pub proof fn law_stored_document_is_found(
    start: Store,
    plan: StoringView,
    dim: nat,
    content: Seq<char>,
    metadata: Seq<char>,
    doc_id: i64,
)
    requires
        is_insert_of(plan.document, dim, content, metadata),
    ensures
        with_all(start, plan, doc_id).documents.dom().contains(doc_id),
        stored_text(with_all(start, plan, doc_id).documents[doc_id].0) == Some(content),
        with_all(start, plan, doc_id).documents[doc_id].1 == metadata,
        forall|id: i64| #[trigger]
            start.documents.dom().contains(id) && id != doc_id ==> with_all(
                start,
                plan,
                doc_id,
            ).documents[id] == start.documents[id],
{
    let row = with_all(start, plan, doc_id).documents[doc_id];
    assert(plan.document.params =~= seq![ParamView::Blob(row.0), ParamView::Text(row.1)]);
    law_fetch_returns_inserted(plan.document, dim, content, metadata, row);
}

/// Every chunk of a stored document is there, in their order, with its document, its place, its
/// bounds and its vector, behind those that were there.
pub proof fn law_stored_chunks_are_found(start: Store, plan: StoringView, doc_id: i64, i: int)
    requires
        0 <= i < plan.vectors.len(),
        i <= i64::MAX,
        plan.vectors[i].1 <= i64::MAX,
        plan.vectors[i].2 <= i64::MAX,
    ensures
        ({
            let chunks = with_all(start, plan, doc_id).chunks;
            let row = chunks[start.chunks.len() + i];
            &&& chunks.len() == start.chunks.len() + plan.vectors.len()
            &&& chunks.take(start.chunks.len() as int) == start.chunks
            &&& row.doc_id == doc_id
            &&& row.index == i
            &&& row.start == plan.vectors[i].1
            &&& row.end == plan.vectors[i].2
            &&& row.vector == plan.vectors[i].0
        }),
{
    let chunks = with_all(start, plan, doc_id).chunks;
    assert(chunks.take(start.chunks.len() as int) =~= start.chunks);
}

/// The events of a run in which every step is done: the transaction is opened, the document gets a
/// number, each of `n` chunks is stored and the transaction is committed.
pub open spec fn all_done(doc_id: i64, n: nat) -> Seq<StoringEvent> {
    seq![StoringEvent::Done, StoringEvent::Returned(Some(doc_id))] + Seq::new(
        n + 1,
        |i: int| StoringEvent::Done,
    )
}

/// A document is stored once every step is done.
pub proof fn law_storing_succeeds(plan: StoringView, doc_id: i64)
    requires
        plan.phase == StoringPhase::Opening,
        plan.vectors.len() <= usize::MAX,
    ensures
        plan_after(plan, all_done(doc_id, plan.vectors.len())).phase == (StoringPhase::Stored {
            doc_id,
        }),
{
    let n = plan.vectors.len();
    let events = all_done(doc_id, n);
    lemma_chunks_done(plan, doc_id, n);
    assert(events.drop_last() =~= events.take(n as int + 2));
    assert(events.last() == StoringEvent::Done);
}

proof fn lemma_chunks_done(plan: StoringView, doc_id: i64, k: nat)
    requires
        plan.phase == StoringPhase::Opening,
        k <= plan.vectors.len() <= usize::MAX,
    ensures
        ({
            let events = all_done(doc_id, plan.vectors.len()).take(k as int + 2);
            plan_after(plan, events) == StoringView {
                phase: StoringPhase::Chunks { doc_id, done: k as usize },
                ..plan
            }
        }),
    decreases k,
{
    let all = all_done(doc_id, plan.vectors.len());
    let events = all.take(k as int + 2);
    if k > 0 {
        lemma_chunks_done(plan, doc_id, (k - 1) as nat);
        assert(events.drop_last() =~= all.take(k - 1 + 2));
        assert(events.last() == StoringEvent::Done);
    } else {
        let one = all.take(1);
        assert(events.drop_last() =~= one);
        assert(events.last() == StoringEvent::Returned(Some(doc_id)));
        assert(one.drop_last() =~= Seq::<StoringEvent>::empty());
        assert(one.last() == StoringEvent::Done);
        reveal_with_fuel(plan_after, 3);
    }
}

/// A step that fails undoes the transaction, and then nothing is left to do.
pub proof fn law_failure_is_undone(
    storing: &mut Storing,
    conn: &VectorDatabaseConnection,
    action: StoringAction,
)
    requires
        conn.wf(),
        old(storing).phase is Document || old(storing).phase is Chunks,
        call_ensures(Storing::next, (storing, StoringEvent::Failed), ()),
        call_ensures(Storing::action, (&*final(storing), conn), action),
    ensures
        action@ == StoringActionView::RollBack,
        final(storing)@.vectors == old(storing)@.vectors,
        final(storing)@.document == old(storing)@.document,
{
}

/// As many chunks are said to be stored as were.
pub proof fn law_progress(storing: &Storing, res: usize)
    requires
        call_ensures(Storing::progress, (storing,), res),
        storing.vectors@.len() <= usize::MAX,
    ensures
        storing.phase matches StoringPhase::Chunks { doc_id, done } ==> res == done,
        storing.phase is Stored ==> res == storing.vectors@.len(),
        storing.phase is Opening || storing.phase is NotStored ==> res == 0,
{
}

} // verus!
