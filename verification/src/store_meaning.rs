//! What the statements of the vector database mean: what they store, and what a search returns of it.

use vstd::prelude::*;
use crate::queue_meaning::lemma_digits;
use crate::relations::{
    answers, belong, changed, column_texts, filled, found_by, has_key, has_shape, index_text,
    is_found_row, is_name, is_selection, joined_rows, linked_table_text, list, named,
    search_answers, shown, table_text, term_texts, upsert_text, upserted, value, wanted, Cell,
    Change, Column, Columns, Condition, Database, Nearest, Query, Scope, Search, Table, Term,
};
use crate::codec::law_compressed_text_round_trip;
use crate::error::Result;
use crate::metadata::json_metadata;
use crate::sql::{ParamView, Statement};
use crate::text::{decimal, is_digit, lemma_decimal};
use crate::vectordb::{
    chunk_statement, create_documents_table_sql, create_index_table_sql, create_vectors_table_sql,
    documents_table, embeddings_index, embeddings_table, fetch_document_sql, insert_document_sql,
    insert_vectors_sql, is_distance_hit_of, is_hit_of, search_source, search_statement,
    search_topk_sql, search_topk_with_distance_sql, search_topk_with_vectors_sql, setting_change,
    setting_query, stored_text, tables_query, DistanceHit, DistanceRow, Hit, HitRow,
    VectorDatabaseConnection,
};

verus! {

/// The change that stores a document.
pub open spec fn document_change(n: nat) -> Change {
    Change::Insert(
        documents_table(n),
        seq!["content"@, "metadata"@],
        seq![Term::Param(1), Term::Param(2)],
    )
}

/// The change that stores the embedding of a chunk.
pub open spec fn chunk_change(n: nat) -> Change {
    Change::Insert(
        embeddings_table(n),
        seq!["doc_id"@, "chunk_index"@, "chunk_start"@, "chunk_end"@, "embedding"@],
        seq![
            Term::Param(1),
            Term::Param(2),
            Term::Param(3),
            Term::Param(4),
            Term::Vector(Box::new(Term::Param(5))),
        ],
    )
}

/// The query for a document.
pub open spec fn document_query(n: nat) -> Query {
    Query::Rows {
        values: seq![Term::Column("content"@), Term::Column("metadata"@)],
        table: documents_table(n),
        condition: Some(Condition::Same(Term::Column("id"@), Term::Param(1))),
        order: Seq::empty(),
        limit: None,
    }
}

/// A search for chunks, with the documents that they belong to.
pub open spec fn chunk_search(n: nat, values: Seq<Term>) -> Search {
    Search {
        values,
        index: embeddings_index(n),
        vector: Term::Vector(Box::new(Term::Param(1))),
        count: Term::Param(2),
        first: embeddings_table(n),
        on_first: Condition::Same(Term::Of("e"@, "rowid"@), Term::Of("v"@, "id"@)),
        second: documents_table(n),
        on_second: Condition::Same(Term::Of("e"@, "doc_id"@), Term::Of("d"@, "id"@)),
    }
}

/// What a search asks for: the document, its metadata, and where the chunk begins and ends.
pub open spec fn plain_values() -> Seq<Term> {
    seq![
        Term::Of("e"@, "doc_id"@),
        Term::Of("d"@, "metadata"@),
        Term::Of("e"@, "chunk_start"@),
        Term::Of("e"@, "chunk_end"@),
    ]
}

/// What a search with distances asks for.
pub open spec fn distance_values() -> Seq<Term> {
    seq![
        Term::Of("e"@, "doc_id"@),
        Term::Of("d"@, "metadata"@),
        Term::Named(
            Box::new(
                Term::Distance(
                    Box::new(Term::Of("e"@, "embedding"@)),
                    Box::new(Term::Vector(Box::new(Term::Param(1)))),
                ),
            ),
            "distance"@,
        ),
        Term::Of("e"@, "chunk_start"@),
        Term::Of("e"@, "chunk_end"@),
    ]
}

/// What a search with vectors asks for.
pub open spec fn vector_values() -> Seq<Term> {
    seq![
        Term::Of("e"@, "doc_id"@),
        Term::Of("d"@, "metadata"@),
        Term::Of("e"@, "embedding"@),
        Term::Of("e"@, "chunk_start"@),
        Term::Of("e"@, "chunk_end"@),
    ]
}

pub proof fn lemma_column_names()
    ensures
        is_name("content"@),
        is_name("metadata"@),
        is_name("doc_id"@),
        is_name("chunk_index"@),
        is_name("chunk_start"@),
        is_name("chunk_end"@),
        is_name("embedding"@),
        is_name("distance"@),
        is_name("id"@),
        is_name("rowid"@),
        is_name("v"@),
        is_name("e"@),
        is_name("d"@),
{
    reveal_strlit("content");
    reveal_strlit("metadata");
    reveal_strlit("doc_id");
    reveal_strlit("chunk_index");
    reveal_strlit("chunk_start");
    reveal_strlit("chunk_end");
    reveal_strlit("embedding");
    reveal_strlit("distance");
    reveal_strlit("id");
    reveal_strlit("rowid");
    reveal_strlit("v");
    reveal_strlit("e");
    reveal_strlit("d");
}

pub proof fn lemma_table_names(n: nat)
    ensures
        is_name(documents_table(n)),
        is_name(embeddings_table(n)),
        is_name(embeddings_index(n)),
        documents_table(n) != embeddings_table(n),
{
    reveal_strlit("documents_");
    reveal_strlit("document_embeddings_");
    reveal_strlit("idx_embeddings_");
    lemma_decimal(n, n);
    assert forall|i: int| 0 <= i < documents_table(n).len() implies {
        let c = #[trigger] documents_table(n)[i];
        ('a' <= c && c <= 'z') || ('0' <= c && c <= '9') || c == '_'
    } by {
        if i >= 10 {
            assert(is_digit(decimal(n)[i - 10]));
        }
    }
    assert forall|i: int| 0 <= i < embeddings_table(n).len() implies {
        let c = #[trigger] embeddings_table(n)[i];
        ('a' <= c && c <= 'z') || ('0' <= c && c <= '9') || c == '_'
    } by {
        if i >= 20 {
            assert(is_digit(decimal(n)[i - 20]));
        }
    }
    assert forall|i: int| 0 <= i < embeddings_index(n).len() implies {
        let c = #[trigger] embeddings_index(n)[i];
        ('a' <= c && c <= 'z') || ('0' <= c && c <= '9') || c == '_'
    } by {
        if i >= 15 {
            assert(is_digit(decimal(n)[i - 15]));
        }
    }
    assert(documents_table(n)[8] == 's');
    assert(embeddings_table(n)[8] == '_');
}

proof fn lemma_names_differ()
    ensures
        "content"@ != "metadata"@,
        "doc_id"@ != "chunk_index"@ && "doc_id"@ != "chunk_start"@ && "doc_id"@ != "chunk_end"@
            && "doc_id"@ != "embedding"@,
        "chunk_index"@ != "chunk_start"@ && "chunk_index"@ != "chunk_end"@ && "chunk_index"@
            != "embedding"@,
        "chunk_start"@ != "chunk_end"@ && "chunk_start"@ != "embedding"@,
        "chunk_end"@ != "embedding"@,
        "content"@ != "id"@ && "content"@ != "rowid"@,
        "metadata"@ != "id"@ && "metadata"@ != "rowid"@,
        "doc_id"@ != "id"@ && "doc_id"@ != "rowid"@,
        "chunk_start"@ != "id"@ && "chunk_start"@ != "rowid"@,
        "chunk_end"@ != "id"@ && "chunk_end"@ != "rowid"@,
        "embedding"@ != "id"@ && "embedding"@ != "rowid"@,
        "v"@ != "e"@ && "v"@ != "d"@ && "e"@ != "d"@,
{
    reveal_strlit("content");
    reveal_strlit("metadata");
    reveal_strlit("doc_id");
    reveal_strlit("chunk_index");
    reveal_strlit("chunk_start");
    reveal_strlit("chunk_end");
    reveal_strlit("embedding");
    reveal_strlit("id");
    reveal_strlit("rowid");
    reveal_strlit("v");
    reveal_strlit("e");
    reveal_strlit("d");
    assert("content"@.len() == 7 && "metadata"@.len() == 8 && "doc_id"@.len() == 6);
    assert("chunk_index"@.len() == 11 && "chunk_start"@.len() == 11);
    assert("chunk_index"@[6] == 'i' && "chunk_start"@[6] == 's');
    assert("chunk_end"@.len() == 9 && "embedding"@.len() == 9);
    assert("chunk_end"@[0] == 'c' && "embedding"@[0] == 'e');
    assert("id"@.len() == 2 && "rowid"@.len() == 5);
    assert("v"@[0] == 'v' && "e"@[0] == 'e' && "d"@[0] == 'd');
}

/// The statement that stores a document is the text of that change, and asks for its number.
#[verifier::rlimit(60)]
pub proof fn law_document_change_text(n: nat)
    ensures
        document_change(n).text() + " RETURNING id"@ == insert_document_sql(n),
        document_change(n).wf(),
{
    lemma_column_names();
    lemma_table_names(n);
    lemma_digits();
    reveal_strlit(" (");
    reveal_strlit(") VALUES (");
    reveal_strlit(")");
    reveal_strlit(", ");
    reveal_strlit("?");
    reveal_strlit("content");
    reveal_strlit("metadata");
    reveal_strlit(" RETURNING id");
    reveal_strlit(" (content, metadata) VALUES (?1, ?2) RETURNING id");
    reveal_with_fuel(list, 3);
    let columns = seq!["content"@, "metadata"@];
    let values = seq![Term::Param(1), Term::Param(2)];
    let tail = " ("@ + list(columns, 2) + ") VALUES ("@ + list(term_texts(values), 2) + ")"@
        + " RETURNING id"@;
    assert(tail =~= " (content, metadata) VALUES (?1, ?2) RETURNING id"@);
    assert(document_change(n).text() + " RETURNING id"@ =~= "INSERT INTO "@ + documents_table(n)
        + tail);
}

/// The statement that stores the embedding of a chunk is the text of that change.
#[verifier::rlimit(60)]
pub proof fn law_chunk_change_text(n: nat)
    ensures
        chunk_change(n).text() == insert_vectors_sql(n),
        chunk_change(n).wf(),
{
    lemma_column_names();
    lemma_table_names(n);
    lemma_digits();
    reveal_strlit(" (");
    reveal_strlit(") VALUES (");
    reveal_strlit(")");
    reveal_strlit(", ");
    reveal_strlit("?");
    reveal_strlit("vector(");
    reveal_strlit("doc_id");
    reveal_strlit("chunk_index");
    reveal_strlit("chunk_start");
    reveal_strlit("chunk_end");
    reveal_strlit("embedding");
    reveal_strlit(
        " (doc_id, chunk_index, chunk_start, chunk_end, embedding) VALUES (?1, ?2, ?3, ?4, vector(?5))",
    );
    reveal_with_fuel(list, 6);
    reveal_with_fuel(Term::text, 3);
    reveal_with_fuel(Term::wf, 3);
    let columns = chunk_change(n)->Insert_1;
    let values = chunk_change(n)->Insert_2;
    let tail = " ("@ + list(columns, 5) + ") VALUES ("@ + list(term_texts(values), 5) + ")"@;
    assert(tail
        =~= " (doc_id, chunk_index, chunk_start, chunk_end, embedding) VALUES (?1, ?2, ?3, ?4, vector(?5))"@);
    assert(chunk_change(n).text() =~= "INSERT INTO "@ + embeddings_table(n) + tail);
}

/// The statement that asks for a document is the text of that query.
#[verifier::rlimit(60)]
pub proof fn law_document_query_text(n: nat)
    ensures
        document_query(n).text() == fetch_document_sql(n),
        document_query(n).wf(),
{
    lemma_column_names();
    lemma_table_names(n);
    lemma_digits();
    reveal_strlit("SELECT ");
    reveal_strlit(" FROM ");
    reveal_strlit(", ");
    reveal_strlit("content");
    reveal_strlit("metadata");
    reveal_strlit("id");
    reveal_strlit("?");
    reveal_strlit(" = ");
    reveal_strlit(" WHERE ");
    reveal_strlit(" WHERE id = ?1");
    reveal_strlit("SELECT content, metadata FROM ");
    reveal_with_fuel(list, 3);
    let values = document_query(n)->Rows_values;
    assert("SELECT "@ + list(term_texts(values), 2) + " FROM "@
        =~= "SELECT content, metadata FROM "@);
    let c = Condition::Same(Term::Column("id"@), Term::Param(1));
    assert(" WHERE "@ + c.text() =~= " WHERE id = ?1"@);
    assert(document_query(n).text() =~= fetch_document_sql(n));
}

#[verifier::rlimit(60)]
proof fn lemma_source_text(n: nat, values: Seq<Term>)
    ensures
        chunk_search(n, values).text() == "SELECT "@ + list(
            term_texts(values),
            values.len() as int,
        ) + " "@ + search_source(n),
{
    lemma_digits();
    reveal_strlit(" ");
    reveal_strlit(" FROM vector_top_k('");
    reveal_strlit("FROM vector_top_k('");
    reveal_strlit("', ");
    reveal_strlit("vector(");
    reveal_strlit(")");
    reveal_strlit("?");
    reveal_strlit(", ");
    reveal_strlit(") v JOIN ");
    reveal_strlit("', vector(?1), ?2) v JOIN ");
    reveal_strlit(" e ON ");
    reveal_strlit("e");
    reveal_strlit("v");
    reveal_strlit("d");
    reveal_strlit(".");
    reveal_strlit("rowid");
    reveal_strlit("doc_id");
    reveal_strlit("id");
    reveal_strlit(" = ");
    reveal_strlit(" JOIN ");
    reveal_strlit(" d ON ");
    reveal_strlit(" e ON e.rowid = v.id JOIN ");
    reveal_strlit(" d ON e.doc_id = d.id");
    reveal_with_fuel(Term::text, 3);
    let s = chunk_search(n, values);
    assert("', "@ + s.vector.text() + ", "@ + s.count.text() + ") v JOIN "@
        =~= "', vector(?1), ?2) v JOIN "@);
    assert(" e ON "@ + s.on_first.text() + " JOIN "@ =~= " e ON e.rowid = v.id JOIN "@);
    assert(" d ON "@ + s.on_second.text() =~= " d ON e.doc_id = d.id"@);
    assert(" FROM vector_top_k('"@ =~= " "@ + "FROM vector_top_k('"@);
    let head = "SELECT "@ + list(term_texts(values), values.len() as int);
    let middle = "', "@ + s.vector.text() + ", "@ + s.count.text() + ") v JOIN "@;
    let one = " e ON "@ + s.on_first.text() + " JOIN "@;
    let two = " d ON "@ + s.on_second.text();
    assert(s.text() =~= head + " FROM vector_top_k('"@ + s.index + middle + s.first + one
        + s.second + two);
    assert(search_source(n) =~= "FROM vector_top_k('"@ + s.index + middle + s.first + one
        + s.second + two);
    assert(s.text() =~= head + " "@ + search_source(n));
}

/// The statements of the three searches are the texts of these searches.
#[verifier::rlimit(60)]
pub proof fn law_search_texts(n: nat)
    ensures
        chunk_search(n, plain_values()).text() == search_topk_sql(n),
        chunk_search(n, distance_values()).text() == search_topk_with_distance_sql(n),
        chunk_search(n, vector_values()).text() == search_topk_with_vectors_sql(n),
        chunk_search(n, plain_values()).wf(),
        chunk_search(n, distance_values()).wf(),
        chunk_search(n, vector_values()).wf(),
{
    lemma_column_names();
    lemma_table_names(n);
    reveal_with_fuel(Term::wf, 4);
    lemma_source_text(n, plain_values());
    lemma_source_text(n, distance_values());
    lemma_source_text(n, vector_values());
    lemma_plain_head();
    lemma_distance_head();
    lemma_vector_head();
}

#[verifier::rlimit(60)]
proof fn lemma_plain_head()
    ensures
        "SELECT "@ + list(term_texts(plain_values()), 4) + " "@
            == "SELECT e.doc_id, d.metadata, e.chunk_start, e.chunk_end "@,
{
    reveal_strlit("SELECT ");
    reveal_strlit(" ");
    reveal_strlit(", ");
    reveal_strlit(".");
    reveal_strlit("e");
    reveal_strlit("d");
    reveal_strlit("doc_id");
    reveal_strlit("metadata");
    reveal_strlit("chunk_start");
    reveal_strlit("chunk_end");
    reveal_strlit("SELECT e.doc_id, d.metadata, e.chunk_start, e.chunk_end ");
    reveal_with_fuel(list, 5);
    assert("SELECT "@ + list(term_texts(plain_values()), 4) + " "@
        =~= "SELECT e.doc_id, d.metadata, e.chunk_start, e.chunk_end "@);
}

#[verifier::rlimit(100)]
proof fn lemma_distance_head()
    ensures
        "SELECT "@ + list(term_texts(distance_values()), 5) + " "@
            == "SELECT e.doc_id, d.metadata, vector_distance_cos(e.embedding, vector(?1)) AS distance, e.chunk_start, e.chunk_end "@,
{
    lemma_digits();
    reveal_strlit("SELECT ");
    reveal_strlit(" ");
    reveal_strlit(", ");
    reveal_strlit(".");
    reveal_strlit("e");
    reveal_strlit("d");
    reveal_strlit("?");
    reveal_strlit(")");
    reveal_strlit(" AS ");
    reveal_strlit("vector(");
    reveal_strlit("vector_distance_cos(");
    reveal_strlit("doc_id");
    reveal_strlit("metadata");
    reveal_strlit("embedding");
    reveal_strlit("distance");
    reveal_strlit("chunk_start");
    reveal_strlit("chunk_end");
    reveal_strlit("vector_distance_cos(e.embedding, vector(?1)) AS distance");
    reveal_strlit(
        "SELECT e.doc_id, d.metadata, vector_distance_cos(e.embedding, vector(?1)) AS distance, e.chunk_start, e.chunk_end ",
    );
    reveal_with_fuel(Term::text, 4);
    reveal_with_fuel(list, 6);
    assert(distance_values()[2].text()
        =~= "vector_distance_cos(e.embedding, vector(?1)) AS distance"@);
    assert("SELECT "@ + list(term_texts(distance_values()), 5) + " "@
        =~= "SELECT e.doc_id, d.metadata, vector_distance_cos(e.embedding, vector(?1)) AS distance, e.chunk_start, e.chunk_end "@);
}

#[verifier::rlimit(60)]
proof fn lemma_vector_head()
    ensures
        "SELECT "@ + list(term_texts(vector_values()), 5) + " "@
            == "SELECT e.doc_id, d.metadata, e.embedding, e.chunk_start, e.chunk_end "@,
{
    reveal_strlit("SELECT ");
    reveal_strlit(" ");
    reveal_strlit(", ");
    reveal_strlit(".");
    reveal_strlit("e");
    reveal_strlit("d");
    reveal_strlit("doc_id");
    reveal_strlit("metadata");
    reveal_strlit("embedding");
    reveal_strlit("chunk_start");
    reveal_strlit("chunk_end");
    reveal_strlit("SELECT e.doc_id, d.metadata, e.embedding, e.chunk_start, e.chunk_end ");
    reveal_with_fuel(list, 6);
    assert("SELECT "@ + list(term_texts(vector_values()), 5) + " "@
        =~= "SELECT e.doc_id, d.metadata, e.embedding, e.chunk_start, e.chunk_end "@);
}

/// Whether a table has one row more than before, with the next number.
pub open spec fn has_new_row(before: Table, after: Table, row: Columns) -> bool {
    &&& after.rows == before.rows.insert(before.next as i64, row)
    &&& after.next == before.next + 1
    &&& after.columns == before.columns
}

/// The statement that stores a document adds a row with the content and the metadata, and changes
/// nothing else.
pub proof fn law_document_is_added(
    db: Database,
    n: nat,
    frame: Seq<u8>,
    metadata: Seq<char>,
    now: int,
)
    ensures
        ({
            let params = seq![ParamView::Blob(frame), ParamView::Text(metadata)];
            let later = changed(db, document_change(n), params, now);
            let before = db[documents_table(n)];
            exists|row: Columns|
                {
                    &&& #[trigger] has_new_row(before, later[documents_table(n)], row)
                    &&& row["content"@] == Cell::Blob(frame)
                    &&& row["metadata"@] == Cell::Text(metadata)
                    &&& later == db.insert(documents_table(n), later[documents_table(n)])
                }
        }),
{
    lemma_names_differ();
    reveal_with_fuel(filled, 3);
    let params = seq![ParamView::Blob(frame), ParamView::Text(metadata)];
    let later = changed(db, document_change(n), params, now);
    let before = db[documents_table(n)];
    let row = later[documents_table(n)].rows[before.next as i64];
    assert(has_new_row(before, later[documents_table(n)], row));
}

/// Whether a row is that of a stored chunk.
pub open spec fn is_chunk_row(
    row: Columns,
    doc_id: i64,
    index: int,
    chunk: (Seq<char>, usize, usize),
) -> bool {
    &&& row["doc_id"@] == Cell::Integer(doc_id as int)
    &&& row["chunk_index"@] == Cell::Integer(index)
    &&& row["chunk_start"@] == Cell::Integer(chunk.1 as int)
    &&& row["chunk_end"@] == Cell::Integer(chunk.2 as int)
    &&& row["embedding"@] == Cell::Vector(chunk.0)
}

/// The statement that stores the embedding of a chunk adds a row with the number of its document,
/// its place, its bounds and its vector, and changes nothing else.
pub proof fn law_chunk_is_added(
    db: Database,
    n: nat,
    doc_id: i64,
    index: int,
    chunk: (Seq<char>, usize, usize),
    now: int,
)
    requires
        0 <= index <= i64::MAX,
        chunk.1 <= i64::MAX,
        chunk.2 <= i64::MAX,
    ensures
        ({
            let params = chunk_statement(n, doc_id, index, chunk).params;
            let later = changed(db, chunk_change(n), params, now);
            let before = db[embeddings_table(n)];
            exists|row: Columns|
                {
                    &&& #[trigger] has_new_row(before, later[embeddings_table(n)], row)
                    &&& is_chunk_row(row, doc_id, index, chunk)
                    &&& later == db.insert(embeddings_table(n), later[embeddings_table(n)])
                }
        }),
{
    lemma_names_differ();
    reveal_with_fuel(filled, 6);
    reveal_with_fuel(value, 3);
    let params = chunk_statement(n, doc_id, index, chunk).params;
    let later = changed(db, chunk_change(n), params, now);
    let before = db[embeddings_table(n)];
    let row = later[embeddings_table(n)].rows[before.next as i64];
    assert(has_new_row(before, later[embeddings_table(n)], row));
}

proof fn lemma_named_rows(db: Database, s: Search, found: i64, e: i64, d: i64)
    ensures
        named(joined_rows(db, s, found, e, d), "v"@) == joined_rows(db, s, found, e, d)[0],
        named(joined_rows(db, s, found, e, d), "e"@) == joined_rows(db, s, found, e, d)[1],
        named(joined_rows(db, s, found, e, d), "d"@) == joined_rows(db, s, found, e, d)[2],
{
    lemma_names_differ();
    reveal_with_fuel(named, 4);
    let scopes = joined_rows(db, s, found, e, d);
    assert(scopes.drop_last()[1] == scopes[1]);
    assert(scopes.drop_last().drop_last()[0] == scopes[0]);
}

/// Which rows belong to a number that the index found: the chunk with that number, and the document
/// that the chunk belongs to.
proof fn lemma_belong(
    db: Database,
    n: nat,
    values: Seq<Term>,
    params: Seq<ParamView>,
    found: i64,
    e: i64,
    d: i64,
)
    requires
        belong(db, chunk_search(n, values), params, found, e, d),
    ensures
        e == found,
        db[embeddings_table(n)].rows[e]["doc_id"@] == Cell::Integer(d as int),
{
    lemma_names_differ();
    lemma_named_rows(db, chunk_search(n, values), found, e, d);
}

/// Whether a row that a search returns is about a chunk and its document: the number of the
/// document, its metadata, what else was asked for, and where the chunk begins and ends.
pub open spec fn is_hit_row(
    row: Seq<Cell>,
    doc_id: i64,
    document: Columns,
    asked: Option<Cell>,
    chunk: Columns,
) -> bool {
    match asked {
        None => row == seq![
            Cell::Integer(doc_id as int),
            document["metadata"@],
            chunk["chunk_start"@],
            chunk["chunk_end"@],
        ],
        Some(x) => row == seq![
            Cell::Integer(doc_id as int),
            document["metadata"@],
            x,
            chunk["chunk_start"@],
            chunk["chunk_end"@],
        ],
    }
}

/// Whether a row is what a search returns for the chunk with a number: the number of its document, the
/// metadata of that document, what else was asked for, and the positions at which the chunk was stored
/// to begin and to end.
pub open spec fn is_hit_for(
    db: Database,
    n: nat,
    found: i64,
    asked: Option<Cell>,
    row: Seq<Cell>,
) -> bool {
    let chunk = db[embeddings_table(n)].rows[found];
    &&& db[embeddings_table(n)].rows.dom().contains(found)
    &&& chunk["doc_id"@] matches Cell::Integer(d) && {
        &&& d == d as i64
        &&& db[documents_table(n)].rows.dom().contains(d as i64)
        &&& is_hit_row(row, d as i64, db[documents_table(n)].rows[d as i64], asked, chunk)
    }
}

/// The distance of a stored vector from another.
pub open spec fn distance_from(stored: Cell, vector: Seq<char>) -> Cell {
    match stored {
        Cell::Vector(x) => Cell::Distance(x, vector),
        _ => Cell::Null,
    }
}

proof fn lemma_found_row(
    db: Database,
    n: nat,
    values: Seq<Term>,
    params: Seq<ParamView>,
    found: i64,
    row: Seq<Cell>,
) -> (res: Seq<Scope>)
    requires
        is_found_row(db, chunk_search(n, values), params, found, row),
    ensures
        row.len() == values.len(),
        forall|k: int|
            0 <= k < values.len() ==> (#[trigger] row[k]) == value(values[k], res, params, 0),
        db[embeddings_table(n)].rows.dom().contains(found),
        db[documents_table(n)].rows.dom().contains(named(res, "d"@).id),
        named(res, "e"@).id == found,
        named(res, "e"@).row == db[embeddings_table(n)].rows[found],
        named(res, "e"@).row["doc_id"@] == Cell::Integer(named(res, "d"@).id as int),
        named(res, "d"@).row == db[documents_table(n)].rows[named(res, "d"@).id],
{
    let s = chunk_search(n, values);
    let (e, d) = choose|e: i64, d: i64| #[trigger]
        belong(db, s, params, found, e, d) && row == s.values.map_values(
            |t: Term| value(t, joined_rows(db, s, found, e, d), params, 0),
        );
    lemma_belong(db, n, values, params, found, e, d);
    lemma_named_rows(db, s, found, e, d);
    joined_rows(db, s, found, e, d)
}

proof fn lemma_found(n: nat, values: Seq<Term>, nearest: Nearest, sql: Seq<char>, vector: Seq<char>, limit: usize)
    requires
        limit <= i64::MAX,
    ensures
        found_by(
            chunk_search(n, values),
            nearest,
            search_statement(sql, vector, limit).params,
        ) == nearest((embeddings_index(n), Cell::Vector(vector), Cell::Integer(limit as int))),
{
    reveal_with_fuel(value, 3);
}

/// A search hands the vector and the limit to the index of its dimension. For each chunk that the
/// index finds, in the order of the index, it returns the number of its document, the metadata of
/// that document, and where the chunk begins and ends.
pub proof fn law_search_returns_chunks(
    db: Database,
    n: nat,
    nearest: Nearest,
    vector: Seq<char>,
    limit: usize,
    rows: Seq<Seq<Cell>>,
)
    requires
        limit <= i64::MAX,
        search_answers(
            db,
            chunk_search(n, plain_values()),
            nearest,
            search_statement(search_topk_sql(n), vector, limit).params,
            rows,
        ),
    ensures
        ({
            let found = nearest(
                (embeddings_index(n), Cell::Vector(vector), Cell::Integer(limit as int)),
            );
            &&& rows.len() == found.len()
            &&& forall|i: int|
                0 <= i < rows.len() ==> is_hit_for(db, n, found[i], None, #[trigger] rows[i])
        }),
{
    let params = search_statement(search_topk_sql(n), vector, limit).params;
    lemma_found(n, plain_values(), nearest, search_topk_sql(n), vector, limit);
    let found = found_by(chunk_search(n, plain_values()), nearest, params);
    assert forall|i: int| 0 <= i < rows.len() implies is_hit_for(
        db,
        n,
        found[i],
        None,
        #[trigger] rows[i],
    ) by {
        lemma_plain_row(db, n, params, found[i], rows[i]);
    }
}

proof fn lemma_plain_row(
    db: Database,
    n: nat,
    params: Seq<ParamView>,
    found: i64,
    row: Seq<Cell>,
)
    requires
        is_found_row(db, chunk_search(n, plain_values()), params, found, row),
    ensures
        is_hit_for(db, n, found, None, row),
{
    lemma_names_differ();
    let scopes = lemma_found_row(db, n, plain_values(), params, found, row);
    let e = named(scopes, "e"@);
    let d = named(scopes, "d"@);
    assert(row[0] == e.row["doc_id"@]);
    assert(row[1] == d.row["metadata"@]);
    assert(row[2] == e.row["chunk_start"@]);
    assert(row[3] == e.row["chunk_end"@]);
    assert(row =~= seq![
        Cell::Integer(d.id as int),
        d.row["metadata"@],
        e.row["chunk_start"@],
        e.row["chunk_end"@],
    ]);
}

/// A search with distances returns for each chunk what a plain search does, and in the third place
/// the distance of its vector from the one that was asked for.
pub proof fn law_search_returns_distances(
    db: Database,
    n: nat,
    nearest: Nearest,
    vector: Seq<char>,
    limit: usize,
    rows: Seq<Seq<Cell>>,
)
    requires
        limit <= i64::MAX,
        search_answers(
            db,
            chunk_search(n, distance_values()),
            nearest,
            search_statement(search_topk_with_distance_sql(n), vector, limit).params,
            rows,
        ),
    ensures
        ({
            let found = nearest(
                (embeddings_index(n), Cell::Vector(vector), Cell::Integer(limit as int)),
            );
            &&& rows.len() == found.len()
            &&& forall|i: int|
                0 <= i < rows.len() ==> is_hit_for(
                    db,
                    n,
                    found[i],
                    Some(
                        distance_from(
                            db[embeddings_table(n)].rows[found[i]]["embedding"@],
                            vector,
                        ),
                    ),
                    #[trigger] rows[i],
                )
        }),
{
    let sql = search_topk_with_distance_sql(n);
    let params = search_statement(sql, vector, limit).params;
    lemma_found(n, distance_values(), nearest, sql, vector, limit);
    let found = found_by(chunk_search(n, distance_values()), nearest, params);
    assert forall|i: int| 0 <= i < rows.len() implies is_hit_for(
        db,
        n,
        found[i],
        Some(distance_from(db[embeddings_table(n)].rows[found[i]]["embedding"@], vector)),
        #[trigger] rows[i],
    ) by {
        lemma_distance_row(db, n, params, vector, found[i], rows[i]);
    }
}

proof fn lemma_distance_row(
    db: Database,
    n: nat,
    params: Seq<ParamView>,
    vector: Seq<char>,
    found: i64,
    row: Seq<Cell>,
)
    requires
        params.len() > 0,
        params[0] == ParamView::Text(vector),
        is_found_row(db, chunk_search(n, distance_values()), params, found, row),
    ensures
        is_hit_for(
            db,
            n,
            found,
            Some(distance_from(db[embeddings_table(n)].rows[found]["embedding"@], vector)),
            row,
        ),
{
    lemma_names_differ();
    let scopes = lemma_found_row(db, n, distance_values(), params, found, row);
    let e = named(scopes, "e"@);
    let d = named(scopes, "d"@);
    assert(row[0] == e.row["doc_id"@]);
    assert(row[1] == d.row["metadata"@]);
    assert(row[2] == distance_from(e.row["embedding"@], vector)) by {
        reveal_with_fuel(value, 4);
    }
    assert(row[3] == e.row["chunk_start"@]);
    assert(row[4] == e.row["chunk_end"@]);
    assert(row =~= seq![
        Cell::Integer(d.id as int),
        d.row["metadata"@],
        distance_from(e.row["embedding"@], vector),
        e.row["chunk_start"@],
        e.row["chunk_end"@],
    ]);
}

/// A search with vectors returns for each chunk what a plain search does, and in the third place its
/// vector.
pub proof fn law_search_returns_vectors(
    db: Database,
    n: nat,
    nearest: Nearest,
    vector: Seq<char>,
    limit: usize,
    rows: Seq<Seq<Cell>>,
)
    requires
        limit <= i64::MAX,
        search_answers(
            db,
            chunk_search(n, vector_values()),
            nearest,
            search_statement(search_topk_with_vectors_sql(n), vector, limit).params,
            rows,
        ),
    ensures
        ({
            let found = nearest(
                (embeddings_index(n), Cell::Vector(vector), Cell::Integer(limit as int)),
            );
            &&& rows.len() == found.len()
            &&& forall|i: int|
                0 <= i < rows.len() ==> is_hit_for(
                    db,
                    n,
                    found[i],
                    Some(db[embeddings_table(n)].rows[found[i]]["embedding"@]),
                    #[trigger] rows[i],
                )
        }),
{
    let sql = search_topk_with_vectors_sql(n);
    let params = search_statement(sql, vector, limit).params;
    lemma_found(n, vector_values(), nearest, sql, vector, limit);
    let found = found_by(chunk_search(n, vector_values()), nearest, params);
    assert forall|i: int| 0 <= i < rows.len() implies is_hit_for(
        db,
        n,
        found[i],
        Some(db[embeddings_table(n)].rows[found[i]]["embedding"@]),
        #[trigger] rows[i],
    ) by {
        lemma_vector_row(db, n, params, found[i], rows[i]);
    }
}

proof fn lemma_vector_row(
    db: Database,
    n: nat,
    params: Seq<ParamView>,
    found: i64,
    row: Seq<Cell>,
)
    requires
        is_found_row(db, chunk_search(n, vector_values()), params, found, row),
    ensures
        is_hit_for(db, n, found, Some(db[embeddings_table(n)].rows[found]["embedding"@]), row),
{
    lemma_names_differ();
    let scopes = lemma_found_row(db, n, vector_values(), params, found, row);
    let e = named(scopes, "e"@);
    let d = named(scopes, "d"@);
    assert(row[0] == e.row["doc_id"@]);
    assert(row[1] == d.row["metadata"@]);
    assert(row[2] == e.row["embedding"@]);
    assert(row[3] == e.row["chunk_start"@]);
    assert(row[4] == e.row["chunk_end"@]);
    assert(row =~= seq![
        Cell::Integer(d.id as int),
        d.row["metadata"@],
        e.row["embedding"@],
        e.row["chunk_start"@],
        e.row["chunk_end"@],
    ]);
}

/// A document that was stored is found again by its number: its content and its metadata. Under
/// another number there is nothing.
#[verifier::rlimit(60)]
pub proof fn law_document_is_fetched(
    db: Database,
    n: nat,
    doc_id: i64,
    rows: Seq<Seq<Cell>>,
)
    requires
        answers(db, document_query(n), seq![ParamView::Integer(doc_id)], rows),
    ensures
        ({
            let table = db[documents_table(n)];
            if table.rows.dom().contains(doc_id) {
                rows == seq![
                    seq![table.rows[doc_id]["content"@], table.rows[doc_id]["metadata"@]],
                ]
            } else {
                rows.len() == 0
            }
        }),
{
    lemma_names_differ();
    let name = documents_table(n);
    let params = seq![ParamView::Integer(doc_id)];
    let values = document_query(n)->Rows_values;
    let condition = document_query(n)->Rows_condition;
    let ids = choose|ids: Seq<i64>|
        {
            &&& #[trigger] is_selection(db, name, condition, Seq::empty(), None, params, ids)
            &&& rows.len() == ids.len()
            &&& forall|i: int|
                0 <= i < ids.len() ==> (#[trigger] rows[i]) == shown(
                    db,
                    name,
                    values,
                    ids[i],
                    params,
                )
        };
    assert forall|id: i64| #[trigger]
        wanted(db, name, name, condition, id, params) == (db[name].rows.dom().contains(id) && id
            == doc_id) by {}
    assert forall|i: int| 0 <= i < ids.len() implies ids[i] == doc_id by {
        assert(wanted(db, name, name, condition, ids[i], params));
    }
    if ids.len() > 1 {
        assert(ids[0] != ids[1]);
    }
    if db[name].rows.dom().contains(doc_id) {
        assert(wanted(db, name, name, condition, doc_id, params));
        assert(ids.contains(doc_id));
        assert(ids.len() == 1);
        assert(rows[0] =~= seq![
            db[name].rows[doc_id]["content"@],
            db[name].rows[doc_id]["metadata"@],
        ]);
        assert(rows =~= seq![
            seq![db[name].rows[doc_id]["content"@], db[name].rows[doc_id]["metadata"@]],
        ]);
    } else if ids.len() > 0 {
        assert(wanted(db, name, name, condition, ids[0], params));
    }
}

/// A stored chunk is found as it was stored: a search with distances for which the index finds it
/// returns the number of its document, the metadata of that document, the distance of its vector and
/// the positions at which it begins and ends.
#[verifier::rlimit(60)]
pub proof fn law_stored_chunk_is_found(
    db: Database,
    n: nat,
    frame: Seq<u8>,
    metadata: Seq<char>,
    index: int,
    chunk: (Seq<char>, usize, usize),
    nearest: Nearest,
    vector: Seq<char>,
    limit: usize,
    rows: Seq<Seq<Cell>>,
    i: int,
    now: int,
)
    requires
        0 <= index <= i64::MAX,
        chunk.1 <= i64::MAX,
        chunk.2 <= i64::MAX,
        limit <= i64::MAX,
        0 <= i < rows.len(),
        ({
            let doc_id = db[documents_table(n)].next as i64;
            let stored = changed(
                db,
                document_change(n),
                seq![ParamView::Blob(frame), ParamView::Text(metadata)],
                now,
            );
            let later = changed(
                stored,
                chunk_change(n),
                chunk_statement(n, doc_id, index, chunk).params,
                now,
            );
            &&& search_answers(
                later,
                chunk_search(n, distance_values()),
                nearest,
                search_statement(search_topk_with_distance_sql(n), vector, limit).params,
                rows,
            )
            &&& nearest(
                (embeddings_index(n), Cell::Vector(vector), Cell::Integer(limit as int)),
            )[i] == db[embeddings_table(n)].next as i64
        }),
    ensures
        rows[i] == seq![
            Cell::Integer((db[documents_table(n)].next as i64) as int),
            Cell::Text(metadata),
            Cell::Distance(chunk.0, vector),
            Cell::Integer(chunk.1 as int),
            Cell::Integer(chunk.2 as int),
        ],
{
    lemma_table_names(n);
    let doc_id = db[documents_table(n)].next as i64;
    let params = seq![ParamView::Blob(frame), ParamView::Text(metadata)];
    let stored = changed(db, document_change(n), params, now);
    law_document_is_added(db, n, frame, metadata, now);
    law_chunk_is_added(stored, n, doc_id, index, chunk, now);
    let chunk_params = chunk_statement(n, doc_id, index, chunk).params;
    let later = changed(stored, chunk_change(n), chunk_params, now);
    law_search_returns_distances(later, n, nearest, vector, limit, rows);
    let found = nearest((embeddings_index(n), Cell::Vector(vector), Cell::Integer(limit as int)));
    let chunk_id = db[embeddings_table(n)].next as i64;
    assert(stored[embeddings_table(n)] == db[embeddings_table(n)]);
    let row = choose|row: Columns|
        {
            &&& #[trigger] has_new_row(
                stored[embeddings_table(n)],
                later[embeddings_table(n)],
                row,
            )
            &&& is_chunk_row(row, doc_id, index, chunk)
            &&& later == stored.insert(embeddings_table(n), later[embeddings_table(n)])
        };
    assert(later[embeddings_table(n)].rows[chunk_id] == row);
    assert(later[documents_table(n)] == stored[documents_table(n)]);
    let document = choose|document: Columns|
        {
            &&& #[trigger] has_new_row(
                db[documents_table(n)],
                stored[documents_table(n)],
                document,
            )
            &&& document["content"@] == Cell::Blob(frame)
            &&& document["metadata"@] == Cell::Text(metadata)
            &&& stored == db.insert(documents_table(n), stored[documents_table(n)])
        };
    assert(later[documents_table(n)].rows[doc_id] == document);
    assert(is_hit_for(
        later,
        n,
        found[i],
        Some(distance_from(row["embedding"@], vector)),
        rows[i],
    ));
}

/// A column that may be missing.
pub open spec fn free_column(name: Seq<char>, kind: Seq<char>) -> Column {
    Column { name, kind, required: false, default: None }
}

/// The columns of the table of embeddings.
pub open spec fn chunk_columns(n: nat) -> Seq<Column> {
    seq![
        free_column("doc_id"@, "INTEGER"@),
        free_column("chunk_index"@, "INTEGER"@),
        free_column("chunk_start"@, "INTEGER"@),
        free_column("chunk_end"@, "INTEGER"@),
        free_column("embedding"@, "F32_BLOB("@ + decimal(n) + ")"@),
    ]
}

/// Documents have a content and metadata.
#[verifier::rlimit(60)]
pub proof fn law_documents_are_declared(n: nat)
    ensures
        create_documents_table_sql(n) == table_text(
            documents_table(n),
            seq![free_column("content"@, "BLOB"@), free_column("metadata"@, "JSON"@)],
        ),
{
    reveal_strlit(" ");
    reveal_strlit(", ");
    reveal_strlit(")");
    reveal_strlit("content");
    reveal_strlit("metadata");
    reveal_strlit("BLOB");
    reveal_strlit("JSON");
    reveal_strlit("content BLOB");
    reveal_strlit("metadata JSON");
    reveal_strlit(" (id INTEGER PRIMARY KEY AUTOINCREMENT, ");
    reveal_strlit(" (id INTEGER PRIMARY KEY AUTOINCREMENT, content BLOB, metadata JSON)");
    reveal_with_fuel(list, 3);
    let columns = seq![free_column("content"@, "BLOB"@), free_column("metadata"@, "JSON"@)];
    let parts = column_texts(columns);
    assert(parts[0] =~= "content BLOB"@);
    assert(parts[1] =~= "metadata JSON"@);
    assert(" (id INTEGER PRIMARY KEY AUTOINCREMENT, "@ + list(parts, 2) + ")"@
        =~= " (id INTEGER PRIMARY KEY AUTOINCREMENT, content BLOB, metadata JSON)"@);
    assert(create_documents_table_sql(n) =~= table_text(documents_table(n), columns));
}

/// Chunks have the number of their document, their place in it, their bounds and a vector of the
/// dimension. They go when their document goes.
#[verifier::rlimit(100)]
pub proof fn law_chunks_are_declared(n: nat)
    ensures
        create_vectors_table_sql(n) == linked_table_text(
            embeddings_table(n),
            chunk_columns(n),
            "doc_id"@,
            documents_table(n),
        ),
{
    reveal_strlit(" ");
    reveal_strlit(", ");
    reveal_strlit(")");
    reveal_strlit("INTEGER");
    reveal_strlit("doc_id");
    reveal_strlit("chunk_index");
    reveal_strlit("chunk_start");
    reveal_strlit("chunk_end");
    reveal_strlit("embedding");
    reveal_strlit("F32_BLOB(");
    reveal_strlit("doc_id INTEGER");
    reveal_strlit("chunk_index INTEGER");
    reveal_strlit("chunk_start INTEGER");
    reveal_strlit("chunk_end INTEGER");
    reveal_strlit("embedding F32_BLOB(");
    reveal_strlit(" (id INTEGER PRIMARY KEY AUTOINCREMENT, ");
    reveal_strlit(", FOREIGN KEY(");
    reveal_strlit(") REFERENCES ");
    reveal_strlit("), FOREIGN KEY(doc_id) REFERENCES ");
    reveal_strlit(
        " (id INTEGER PRIMARY KEY AUTOINCREMENT, doc_id INTEGER, chunk_index INTEGER, chunk_start INTEGER, chunk_end INTEGER, embedding F32_BLOB(",
    );
    reveal_with_fuel(list, 6);
    let parts = column_texts(chunk_columns(n));
    assert(parts[0] =~= "doc_id INTEGER"@);
    assert(parts[1] =~= "chunk_index INTEGER"@);
    assert(parts[2] =~= "chunk_start INTEGER"@);
    assert(parts[3] =~= "chunk_end INTEGER"@);
    assert(parts[4] =~= "embedding F32_BLOB("@ + decimal(n) + ")"@);
    let a = " (id INTEGER PRIMARY KEY AUTOINCREMENT, "@;
    let whole =
        " (id INTEGER PRIMARY KEY AUTOINCREMENT, doc_id INTEGER, chunk_index INTEGER, chunk_start INTEGER, chunk_end INTEGER, embedding F32_BLOB("@;
    assert(a + list(parts, 4) + ", "@ + "embedding F32_BLOB("@ =~= whole);
    assert(a + list(parts, 5) =~= whole + decimal(n) + ")"@);
    assert(")"@ + ", FOREIGN KEY("@ + "doc_id"@ + ") REFERENCES "@
        =~= "), FOREIGN KEY(doc_id) REFERENCES "@);
    assert(create_vectors_table_sql(n) =~= linked_table_text(
        embeddings_table(n),
        chunk_columns(n),
        "doc_id"@,
        documents_table(n),
    ));
}

/// The index over the vectors sorts by the distance that a search reports: that of the cosine.
#[verifier::rlimit(60)]
pub proof fn law_index_is_declared(n: nat)
    ensures
        create_index_table_sql(n) == index_text(
            embeddings_index(n),
            embeddings_table(n),
            "embedding"@,
            "cosine"@,
        ),
{
    reveal_strlit("(libsql_vector_idx(");
    reveal_strlit("embedding");
    reveal_strlit(", 'metric=");
    reveal_strlit("cosine");
    reveal_strlit("'))");
    reveal_strlit("(libsql_vector_idx(embedding, 'metric=cosine'))");
    assert("(libsql_vector_idx("@ + "embedding"@ + ", 'metric="@ + "cosine"@ + "'))"@
        =~= "(libsql_vector_idx(embedding, 'metric=cosine'))"@);
    assert(create_index_table_sql(n) =~= index_text(
        embeddings_index(n),
        embeddings_table(n),
        "embedding"@,
        "cosine"@,
    ));
}

/// The query for a setting.
pub open spec fn setting_lookup() -> Query {
    Query::Rows {
        values: seq![Term::Column("value"@)],
        table: "capsa_metadata"@,
        condition: Some(Condition::Same(Term::Column("key"@), Term::Param(1))),
        order: Seq::empty(),
        limit: None,
    }
}

/// The statements for settings are the texts of writing and looking up a value under a key.
#[verifier::rlimit(60)]
pub proof fn law_setting_texts(key: Seq<char>, item: Seq<char>)
    ensures
        setting_lookup().text() == setting_query(key).sql,
        setting_lookup().wf(),
        upsert_text("capsa_metadata"@, "key"@, "value"@) == setting_change(key, item).sql,
{
    lemma_digits();
    reveal_strlit("capsa_metadata");
    reveal_strlit("key");
    reveal_strlit("value");
    reveal_strlit("SELECT ");
    reveal_strlit(" FROM ");
    reveal_strlit(" WHERE ");
    reveal_strlit(" = ");
    reveal_strlit("?");
    reveal_strlit("SELECT value FROM capsa_metadata WHERE key = ?1");
    reveal_with_fuel(list, 2);
    assert(setting_lookup().text() =~= "SELECT value FROM capsa_metadata WHERE key = ?1"@);
    reveal_strlit("INSERT INTO ");
    reveal_strlit(" (");
    reveal_strlit(", ");
    reveal_strlit(") VALUES (?1, ?2) ON CONFLICT(");
    reveal_strlit(") DO UPDATE SET ");
    reveal_strlit(" = excluded.");
    reveal_strlit(
        "INSERT INTO capsa_metadata (key, value) VALUES (?1, ?2) ON CONFLICT(key) DO UPDATE SET value = excluded.value",
    );
    assert(upsert_text("capsa_metadata"@, "key"@, "value"@)
        =~= "INSERT INTO capsa_metadata (key, value) VALUES (?1, ?2) ON CONFLICT(key) DO UPDATE SET value = excluded.value"@);
}

/// Whether no key occurs twice.
pub open spec fn keys_differ(table: Table) -> bool {
    forall|a: i64, b: i64|
        #![trigger table.rows.dom().contains(a), table.rows.dom().contains(b)]
        table.rows.dom().contains(a) && table.rows.dom().contains(b) && table.rows[a]["key"@]
            == table.rows[b]["key"@] ==> a == b
}

/// Looking up a setting gives its value, or nothing where it has none.
#[verifier::rlimit(60)]
pub proof fn law_setting_is_looked_up(db: Database, key: Seq<char>, rows: Seq<Seq<Cell>>)
    requires
        keys_differ(db["capsa_metadata"@]),
        answers(db, setting_lookup(), setting_query(key).params, rows),
    ensures
        ({
            let table = db["capsa_metadata"@];
            &&& forall|id: i64| #[trigger]
                table.rows.dom().contains(id) && table.rows[id]["key"@] == Cell::Text(key)
                    ==> rows == seq![seq![table.rows[id]["value"@]]]
            &&& !has_key(table, "key"@, Cell::Text(key)) ==> rows.len() == 0
        }),
{
    reveal_strlit("key");
    reveal_strlit("value");
    reveal_strlit("id");
    reveal_strlit("rowid");
    assert("key"@.len() == 3 && "value"@.len() == 5 && "id"@.len() == 2 && "rowid"@.len() == 5);
    assert("value"@[0] == 'v' && "rowid"@[0] == 'r');
    let name = "capsa_metadata"@;
    let table = db[name];
    let params = setting_query(key).params;
    let values = setting_lookup()->Rows_values;
    let condition = setting_lookup()->Rows_condition;
    let ids = choose|ids: Seq<i64>|
        {
            &&& #[trigger] is_selection(db, name, condition, Seq::empty(), None, params, ids)
            &&& rows.len() == ids.len()
            &&& forall|i: int|
                0 <= i < ids.len() ==> (#[trigger] rows[i]) == shown(
                    db,
                    name,
                    values,
                    ids[i],
                    params,
                )
        };
    assert forall|id: i64| #[trigger]
        wanted(db, name, name, condition, id, params) == (table.rows.dom().contains(id)
            && table.rows[id]["key"@] == Cell::Text(key)) by {}
    assert forall|i: int| 0 <= i < ids.len() implies table.rows.dom().contains(#[trigger] ids[i])
        && table.rows[ids[i]]["key"@] == Cell::Text(key) by {
        assert(wanted(db, name, name, condition, ids[i], params));
    }
    if ids.len() > 1 {
        assert(ids[0] != ids[1]);
    }
    assert forall|id: i64| #[trigger]
        table.rows.dom().contains(id) && table.rows[id]["key"@] == Cell::Text(
            key,
        ) implies rows == seq![seq![table.rows[id]["value"@]]] by {
        assert(wanted(db, name, name, condition, id, params));
        assert(ids.contains(id));
        assert(ids.len() == 1 && ids[0] == id);
        assert(rows[0] =~= seq![table.rows[id]["value"@]]);
        assert(rows =~= seq![seq![table.rows[id]["value"@]]]);
    }
    if !has_key(table, "key"@, Cell::Text(key)) && ids.len() > 0 {
        assert(table.rows.dom().contains(ids[0]));
    }
}

/// A setting that was written has the value that was written, every other setting the value that it
/// had, and no key occurs twice.
#[verifier::rlimit(60)]
pub proof fn law_setting_is_written(table: Table, key: Seq<char>, item: Seq<char>)
    requires
        keys_differ(table),
        forall|id: i64| #[trigger] table.rows.dom().contains(id) ==> id < table.next,
        table.next <= i64::MAX,
    ensures
        ({
            let later = upserted(table, "key"@, "value"@, setting_change(key, item).params);
            &&& keys_differ(later)
            &&& exists|id: i64| #[trigger]
                later.rows.dom().contains(id) && later.rows[id]["key"@] == Cell::Text(key)
                    && later.rows[id]["value"@] == Cell::Text(item)
            &&& forall|id: i64| #[trigger]
                table.rows.dom().contains(id) && table.rows[id]["key"@] != Cell::Text(key)
                    ==> later.rows.dom().contains(id) && later.rows[id] == table.rows[id]
            &&& forall|id: i64| #[trigger]
                later.rows.dom().contains(id) && later.rows[id]["key"@] != Cell::Text(key)
                    ==> table.rows.dom().contains(id)
        }),
{
    reveal_strlit("key");
    reveal_strlit("value");
    assert("key"@.len() == 3 && "value"@.len() == 5);
    let params = setting_change(key, item).params;
    let later = upserted(table, "key"@, "value"@, params);
    if has_key(table, "key"@, Cell::Text(key)) {
        let id = choose|id: i64| #[trigger]
            table.rows.dom().contains(id) && table.rows[id]["key"@] == Cell::Text(key);
        assert(later.rows.dom().contains(id));
    } else {
        let id = table.next as i64;
        assert(!table.rows.dom().contains(id));
        assert(later.rows.dom().contains(id));
    }
}

/// The query for the tables of documents.
pub open spec fn tables_lookup() -> Query {
    Query::Rows {
        values: seq![Term::Column("name"@)],
        table: "sqlite_master"@,
        condition: Some(
            Condition::Both(
                Box::new(Condition::Same(Term::Column("type"@), Term::Text("table"@))),
                Box::new(Condition::Shaped(Term::Column("name"@), "documents_[0-9]*"@)),
            ),
        ),
        order: Seq::empty(),
        limit: None,
    }
}

/// The statement that asks for the tables of documents is the text of that query.
#[verifier::rlimit(60)]
pub proof fn law_tables_lookup_text()
    ensures
        tables_lookup().text() == tables_query().sql,
        tables_lookup().wf(),
{
    reveal_strlit("SELECT ");
    reveal_strlit(" FROM ");
    reveal_strlit(" WHERE ");
    reveal_strlit(" = ");
    reveal_strlit("'");
    reveal_strlit(" AND ");
    reveal_strlit(" GLOB '");
    reveal_strlit("name");
    reveal_strlit("sqlite_master");
    reveal_strlit("type");
    reveal_strlit("table");
    reveal_strlit("documents_[0-9]*");
    reveal_strlit(
        "SELECT name FROM sqlite_master WHERE type = 'table' AND name GLOB 'documents_[0-9]*'",
    );
    reveal_with_fuel(list, 2);
    reveal_with_fuel(Condition::text, 3);
    reveal_with_fuel(Condition::wf, 3);
    assert(tables_lookup().text()
        =~= "SELECT name FROM sqlite_master WHERE type = 'table' AND name GLOB 'documents_[0-9]*'"@);
}

proof fn lemma_any_shape(s: Seq<char>)
    ensures
        has_shape(s, seq!['*']),
    decreases s.len(),
{
    reveal_with_fuel(has_shape, 2);
    assert(seq!['*'].skip(1) =~= Seq::<char>::empty());
    if s.len() > 0 {
        lemma_any_shape(s.skip(1));
    }
}

/// The names that the query asks for are those of tables of documents: `documents_`, a digit, and
/// whatever follows.
#[verifier::rlimit(60)]
pub proof fn law_document_table_shape(s: Seq<char>)
    ensures
        has_shape(s, "documents_[0-9]*"@) <==> s.len() > 10 && s.take(10) == "documents_"@ && is_digit(
            s[10],
        ),
{
    reveal_strlit("documents_[0-9]*");
    reveal_strlit("documents_");
    reveal_strlit("[0-9]");
    lemma_shape_behind(s, 0);
    assert(s.skip(0) =~= s);
    assert("documents_[0-9]*"@.skip(0) =~= "documents_[0-9]*"@);
    if s.len() > 10 && s.take(10) == "documents_"@ {
        assert forall|i: int| 0 <= i < 10 implies s[i] == "documents_"@[i] by {
            assert(s.take(10)[i] == s[i]);
        }
    }
    if s.len() > 10 && (forall|i: int| 0 <= i < 10 ==> s[i] == "documents_"@[i]) {
        assert(s.take(10) =~= "documents_"@);
    }
}

proof fn lemma_shape_behind(s: Seq<char>, k: int)
    requires
        0 <= k <= 10,
    ensures
        k <= s.len() ==> (has_shape(s.skip(k), "documents_[0-9]*"@.skip(k)) <==> s.len() > 10 && (
        forall|i: int| k <= i < 10 ==> s[i] == "documents_"@[i]) && is_digit(s[10])),
    decreases 10 - k,
{
    reveal_strlit("documents_[0-9]*");
    reveal_strlit("documents_");
    reveal_strlit("[0-9]");
    let shape = "documents_[0-9]*"@;
    if k <= s.len() {
        if k < 10 {
            assert(shape.skip(k)[0] == shape[k]);
            assert(shape[k] == "documents_"@[k]);
            assert(shape.skip(k).take(5)[0] != '[');
            assert(shape.skip(k).skip(1) =~= shape.skip(k + 1));
            if k < s.len() {
                assert(s.skip(k)[0] == s[k]);
                assert(s.skip(k).skip(1) =~= s.skip(k + 1));
                lemma_shape_behind(s, k + 1);
            }
        } else {
            assert(shape.skip(10).take(5) =~= "[0-9]"@);
            assert(shape.skip(10)[0] == '[');
            assert(shape.skip(10).skip(5) =~= seq!['*']);
            if s.len() > 10 {
                assert(s.skip(10)[0] == s[10]);
                lemma_any_shape(s.skip(10).skip(1));
            }
        }
    }
}

/// A search hands on what the rows hold: each row of a search with distances becomes a hit with its
/// document, the metadata of that document, its distance, and where the chunk begins and ends.
pub proof fn law_found_chunk_becomes_hit(
    conn: &VectorDatabaseConnection,
    rows: &Vec<DistanceRow>,
    hits: Vec<DistanceHit>,
    i: int,
    doc_id: i64,
    metadata: Seq<char>,
    distance: u32,
    start: i64,
    end: i64,
)
    requires
        call_ensures(VectorDatabaseConnection::distance_hits, (conn, rows), Ok(hits)),
        0 <= i < rows@.len(),
        rows@[i].0 == doc_id,
        rows@[i].1@ == metadata,
        rows@[i].2 == Some(distance),
        rows@[i].3 == start,
        rows@[i].4 == end,
    ensures
        hits@.len() == rows@.len(),
        hits@[i].0 == doc_id,
        json_metadata(metadata) == Some(hits@[i].1@),
        hits@[i].2 == distance,
        hits@[i].3 == start,
        hits@[i].4 == end,
{
    assert(is_distance_hit_of(hits@[i], rows@[i]));
}

/// A plain search hands on what the rows hold.
pub proof fn law_found_chunk_becomes_plain_hit(
    conn: &VectorDatabaseConnection,
    rows: &Vec<HitRow>,
    hits: Vec<Hit>,
    i: int,
)
    requires
        call_ensures(VectorDatabaseConnection::hits, (conn, rows), Ok(hits)),
        0 <= i < rows@.len(),
    ensures
        hits@.len() == rows@.len(),
        hits@[i].0 == rows@[i].0,
        json_metadata(rows@[i].1@) == Some(hits@[i].1@),
        hits@[i].2 == rows@[i].2,
        hits@[i].3 == rows@[i].3,
{
    assert(is_hit_of(hits@[i], rows@[i]));
}

/// The statements of a search have the text of that search, and bind the vector and the limit to its
/// parameters in this order.
pub proof fn law_search_calls(
    conn: &VectorDatabaseConnection,
    vector: &str,
    limit: usize,
    plain: Statement,
    with_distance: Statement,
    with_vectors: Statement,
)
    requires
        conn.wf(),
        limit <= i64::MAX,
        call_ensures(VectorDatabaseConnection::search_topk, (conn, vector, limit), plain),
        call_ensures(
            VectorDatabaseConnection::search_topk_with_distance,
            (conn, vector, limit),
            with_distance,
        ),
        call_ensures(
            VectorDatabaseConnection::search_topk_with_vectors,
            (conn, vector, limit),
            with_vectors,
        ),
    ensures
        plain@.sql == chunk_search(conn.dim(), plain_values()).text(),
        with_distance@.sql == chunk_search(conn.dim(), distance_values()).text(),
        with_vectors@.sql == chunk_search(conn.dim(), vector_values()).text(),
        plain@.params == seq![ParamView::Text(vector@), ParamView::Integer(limit as i64)],
        with_distance@.params == plain@.params,
        with_vectors@.params == plain@.params,
        conn.dim() == conn.schema.vec_size,
{
    law_search_texts(conn.dim());
}

/// Asking for a document and storing one have the texts of these statements, with the values bound
/// to their parameters.
pub proof fn law_document_calls(
    conn: &VectorDatabaseConnection,
    doc_id: i64,
    content: &str,
    metadata: &str,
    fetch: Statement,
    stored: Result<Statement>,
)
    requires
        conn.wf(),
        call_ensures(VectorDatabaseConnection::fetch_document, (conn, doc_id), fetch),
        call_ensures(VectorDatabaseConnection::insert_document, (conn, content, metadata), stored),
    ensures
        fetch@.sql == document_query(conn.dim()).text(),
        fetch@.params == seq![ParamView::Integer(doc_id)],
        stored matches Ok(statement) && {
            &&& statement@.sql == document_change(conn.dim()).text() + " RETURNING id"@
            &&& statement@.params.len() == 2
            &&& statement@.params[0] matches ParamView::Blob(frame) && stored_text(frame) == Some(
                content@,
            )
            &&& statement@.params[1] == ParamView::Text(metadata@)
        },
{
    law_document_query_text(conn.dim());
    law_document_change_text(conn.dim());
    let statement = stored->Ok_0@;
    let frame = statement.params[0]->Blob_0;
    law_compressed_text_round_trip(content@, frame);
}

} // verus!
