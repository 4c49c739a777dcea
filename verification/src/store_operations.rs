//! What each operation of the vector database and of the document database asks of the engine, and
//! what it makes of the reply.

use vstd::prelude::*;
use vstd::utf8::encode_utf8;
use crate::codec::lz4_decoded;
use crate::config::Config;
use crate::documentdb::{DocumentDatabase, DocumentDatabaseConnection};
use crate::embeddings::{le_value, number_at};
use crate::error::{CapsaError, DatabaseError, EmbeddingError, Result};
use crate::metadata::{json_metadata, Metadata};
use crate::queue::{law_queue_lies_beside, QueueConnection};
use crate::relations::{index_text, linked_table_text, table_text, upsert_text};
use crate::sql::{statement_views, ParamView, Statement};
use crate::store_meaning::{
    chunk_change, chunk_columns, chunk_search, distance_values, document_change, document_query,
    free_column, law_chunk_change_text, law_chunks_are_declared, law_document_change_text,
    law_document_query_text, law_documents_are_declared, law_index_is_declared, law_search_texts,
    law_setting_texts, law_tables_lookup_text, plain_values, setting_lookup, tables_lookup,
    vector_values,
};
use crate::text::{
    decimal, law_decimal_round_trip, optional_text, parsed_unsigned, texts, NumberError,
};
use crate::vectordb::{
    detect_legacy_dimensions, documents_table, embeddings_index, embeddings_table, first_bad_name,
    get_metadata, is_distance_hit_of, is_hit_of, is_named_dim, is_vector_hit_of,
    law_new_database_accepted, law_refusal_names_both, legacy_tables, named_dim, opening,
    opening_statements, parse_embedding_dim, set_metadata, setting_after, setting_views,
    setup_metadata_table, validate_metadata, DistanceHit, DistanceRow, Hit, HitRow, StoredSettings,
    VectorDatabase, VectorDatabaseConnection, VectorDatabaseSchema, VectorHit, VectorRow,
};

verus! {

/// A chunk is stored with its document, its index, where it begins, where it ends and its vector.
pub proof fn law_chunk_call(
    conn: &VectorDatabaseConnection,
    doc_id: i64,
    index: usize,
    chunk: &(String, usize, usize),
    res: Statement,
)
    requires
        conn.wf(),
        index <= i64::MAX,
        chunk.1 <= i64::MAX,
        chunk.2 <= i64::MAX,
        call_ensures(VectorDatabaseConnection::chunk_insert, (conn, doc_id, index, chunk), res),
    ensures
        res@.sql == chunk_change(conn.dim()).text(),
        res@.params == seq![
            ParamView::Integer(doc_id),
            ParamView::Integer(index as i64),
            ParamView::Integer(chunk.1 as i64),
            ParamView::Integer(chunk.2 as i64),
            ParamView::Text(chunk.0@),
        ],
{
    law_chunk_change_text(conn.dim());
}

/// The chunks of a document are stored in their order, each under its place in it, and after each
/// statement as many are stored as were executed.
pub proof fn law_chunks_call(
    conn: &VectorDatabaseConnection,
    doc_id: i64,
    vectors: &Vec<(String, usize, usize)>,
    res: Vec<(Statement, usize)>,
    i: int,
)
    requires
        conn.wf(),
        call_ensures(
            VectorDatabaseConnection::insert_document_with_progress,
            (conn, doc_id, vectors),
            res,
        ),
        0 <= i < vectors@.len(),
        i <= i64::MAX,
        vectors@[i].1 <= i64::MAX,
        vectors@[i].2 <= i64::MAX,
    ensures
        res@.len() == vectors@.len(),
        res@[i].1 == i + 1,
        res@[i].0@.sql == chunk_change(conn.dim()).text(),
        res@[i].0@.params == seq![
            ParamView::Integer(doc_id),
            ParamView::Integer(i as i64),
            ParamView::Integer(vectors@[i].1 as i64),
            ParamView::Integer(vectors@[i].2 as i64),
            ParamView::Text(vectors@[i].0@),
        ],
{
    law_chunk_change_text(conn.dim());
    assert(res@[i].1 == i + 1);
}

/// A document that comes compressed is stored as it comes.
pub proof fn law_compressed_document_call(
    conn: &VectorDatabaseConnection,
    frame: Vec<u8>,
    metadata: &str,
    res: Statement,
)
    requires
        conn.wf(),
        call_ensures(
            VectorDatabaseConnection::insert_document_pre_compressed,
            (conn, frame, metadata),
            res,
        ),
    ensures
        res@.sql == document_change(conn.dim()).text() + " RETURNING id"@,
        res@.params == seq![ParamView::Blob(frame@), ParamView::Text(metadata@)],
{
    law_document_change_text(conn.dim());
}

/// The number of a new document is the one that the engine returns, and nothing else is taken for
/// one.
pub proof fn law_inserted_id(
    conn: &VectorDatabaseConnection,
    row: Option<i64>,
    res: Result<i64>,
)
    requires
        call_ensures(VectorDatabaseConnection::inserted_id, (conn, row), res),
    ensures
        row matches Some(id) ==> res == Ok::<i64, CapsaError>(id),
        row is None ==> (res matches Err(e) && e matches CapsaError::Database(
            DatabaseError::InsertFailed(s),
        ) && s@ == "No ID returned"@),
{
}

/// The schema is made of three statements without parameters: the table of documents, then the table
/// of chunks that belong to them, then the index over the embeddings of the chunks.
pub proof fn law_schema_call(conn: &VectorDatabaseConnection, res: Vec<Statement>)
    requires
        conn.wf(),
        call_ensures(VectorDatabaseConnection::setup_schema, (conn,), res),
    ensures
        res@.len() == 3,
        res@[0]@.sql == table_text(
            documents_table(conn.dim()),
            seq![free_column("content"@, "BLOB"@), free_column("metadata"@, "JSON"@)],
        ),
        res@[1]@.sql == linked_table_text(
            embeddings_table(conn.dim()),
            chunk_columns(conn.dim()),
            "doc_id"@,
            documents_table(conn.dim()),
        ),
        res@[2]@.sql == index_text(
            embeddings_index(conn.dim()),
            embeddings_table(conn.dim()),
            "embedding"@,
            "cosine"@,
        ),
        forall|i: int| 0 <= i < 3 ==> (#[trigger] res@[i])@.params.len() == 0,
{
    law_documents_are_declared(conn.dim());
    law_chunks_are_declared(conn.dim());
    law_index_is_declared(conn.dim());
    let views = statement_views(res@);
    assert(views.len() == 3);
    assert(views[0] == res@[0]@ && views[1] == res@[1]@ && views[2] == res@[2]@);
}

/// A connection writes ahead and lets no chunk stand without its document.
pub proof fn law_opening(res: Vec<Statement>)
    requires
        call_ensures(opening, (), res),
    ensures
        exists|i: int|
            0 <= i < res@.len() && (#[trigger] res@[i])@.sql == "PRAGMA foreign_keys = ON"@,
        exists|i: int|
            0 <= i < res@.len() && (#[trigger] res@[i])@.sql == "PRAGMA journal_mode = WAL"@,
        forall|i: int| 0 <= i < res@.len() ==> (#[trigger] res@[i])@.params.len() == 0,
{
    let views = statement_views(res@);
    assert(views == opening_statements());
    assert forall|i: int| 0 <= i < res@.len() implies views[i] == (#[trigger] res@[i])@ by {}
    assert(res@.len() == 3);
    assert(res@[0]@.sql == "PRAGMA journal_mode = WAL"@);
    assert(res@[1]@.sql == "PRAGMA foreign_keys = ON"@);
}

/// A setting is looked up by its key, and written under its key in place of the value it had.
pub proof fn law_setting_calls(key: &str, item: &str, asked: Statement, written: Statement)
    requires
        call_ensures(get_metadata, (key,), asked),
        call_ensures(set_metadata, (key, item), written),
    ensures
        asked@.sql == setting_lookup().text(),
        asked@.params == seq![ParamView::Text(key@)],
        written@.sql == upsert_text("capsa_metadata"@, "key"@, "value"@),
        written@.params == seq![ParamView::Text(key@), ParamView::Text(item@)],
{
    law_setting_texts(key@, item@);
}

/// A document that was found is its text, uncompressed, and its metadata. Where nothing was found
/// there is none.
pub proof fn law_fetched_document(
    conn: &VectorDatabaseConnection,
    row: Option<(Vec<u8>, String)>,
    text: Seq<char>,
    res: Result<Option<(String, Metadata)>>,
)
    requires
        call_ensures(VectorDatabaseConnection::fetched_document, (conn, row), res),
        row matches Some(r) ==> lz4_decoded(r.0@) == Some(encode_utf8(text)) && json_metadata(
            r.1@,
        ) is Some,
    ensures
        row is None ==> res == Ok::<Option<(String, Metadata)>, CapsaError>(None),
        row matches Some(r) ==> (res matches Ok(found) && found matches Some((content, metadata))
            && content@ == text && json_metadata(r.1@) == Some(metadata@)),
{
    vstd::utf8::encode_utf8_valid_utf8(text);
    vstd::utf8::encode_utf8_decode_utf8(text);
}

/// A component of a found vector is the number in its four bytes, the lowest first. The rest of the
/// row is passed on.
pub proof fn law_found_vector(
    conn: &VectorDatabaseConnection,
    rows: &Vec<VectorRow>,
    hits: Vec<VectorHit>,
    i: int,
    k: int,
)
    requires
        call_ensures(VectorDatabaseConnection::vector_hits, (conn, rows), Ok(hits)),
        0 <= i < rows@.len(),
        0 <= k,
        4 * k + 4 <= rows@[i].2@.len(),
    ensures
        hits@.len() == rows@.len(),
        hits@[i].0 == rows@[i].0,
        json_metadata(rows@[i].1@) == Some(hits@[i].1@),
        hits@[i].2@.len() == rows@[i].2@.len() / 4,
        ({
            let bytes = rows@[i].2@;
            hits@[i].2@[k] == bytes[4 * k] + 256 * bytes[4 * k + 1] + 65536 * bytes[4 * k + 2]
                + 16777216 * bytes[4 * k + 3]
        }),
        hits@[i].3 == rows@[i].3,
        hits@[i].4 == rows@[i].4,
{
    assert(is_vector_hit_of(hits@[i], rows@[i]));
    let bytes = rows@[i].2@;
    let four = bytes.subrange(4 * k, 4 * k + 4);
    lemma_four_bytes(four);
    assert(number_at(bytes, 4 * k, 4) == le_value(four));
    assert(0 + 4 * k == 4 * k);
}

proof fn lemma_four_bytes(s: Seq<u8>)
    requires
        s.len() == 4,
    ensures
        le_value(s) == s[0] + 256 * s[1] + 65536 * s[2] + 16777216 * s[3],
        le_value(s) <= u32::MAX,
{
    reveal_with_fuel(le_value, 5);
    let a = s.drop_first();
    let b = a.drop_first();
    let c = b.drop_first();
    assert(a[0] == s[1] && b[0] == s[2] && c[0] == s[3]);
    assert(c.drop_first().len() == 0);
}

/// A chunk without a distance is taken for the one farthest away.
pub proof fn law_missing_distance(
    conn: &VectorDatabaseConnection,
    rows: &Vec<DistanceRow>,
    hits: Vec<DistanceHit>,
    i: int,
)
    requires
        call_ensures(VectorDatabaseConnection::distance_hits, (conn, rows), Ok(hits)),
        0 <= i < rows@.len(),
        rows@[i].2 is None,
    ensures
        hits@[i].2 == 0x7f7f_ffff,
{
    assert(is_distance_hit_of(hits@[i], rows@[i]));
}

/// A search yields something exactly where the metadata of every row is JSON.
pub proof fn law_hits_are_owed(
    conn: &VectorDatabaseConnection,
    rows: &Vec<HitRow>,
    res: Result<Vec<Hit>>,
)
    requires
        call_ensures(VectorDatabaseConnection::hits, (conn, rows), res),
    ensures
        res is Ok <==> forall|i: int|
            0 <= i < rows@.len() ==> json_metadata((#[trigger] rows@[i]).1@) is Some,
{
    if res is Ok {
        let hits = res->Ok_0;
        assert forall|i: int| 0 <= i < rows@.len() implies json_metadata(
            (#[trigger] rows@[i]).1@,
        ) is Some by {
            assert(is_hit_of(hits@[i], rows@[i]));
        }
    }
}

/// A number that was written as a dimension is read as that dimension.
pub proof fn law_dimension_is_read(raw: &str, n: usize, res: Result<usize>)
    requires
        call_ensures(parse_embedding_dim, (raw,), res),
        raw@ == decimal(n as nat),
    ensures
        res == Ok::<usize, CapsaError>(n),
{
    law_decimal_round_trip(n as nat, usize::MAX as nat);
}

/// A database that was made for a dimension and a model opens for them and for no others, and then
/// nothing is written.
pub proof fn law_connect(
    db: &VectorDatabase,
    model: &str,
    stored: StoredSettings,
    dim: usize,
    stored_model: Seq<char>,
    res: Result<(VectorDatabaseConnection, Vec<(String, String)>)>,
)
    requires
        call_ensures(VectorDatabase::connect_with_model, (db, Some(model), stored), res),
        optional_text(stored.dim) == Some(decimal(dim as nat)),
        optional_text(stored.model) == Some(stored_model),
    ensures
        res is Ok <==> dim == db.schema.vec_size && stored_model == model@,
        res matches Ok((conn, settings)) ==> {
            &&& conn.wf()
            &&& conn.dim() == dim
            &&& settings@.len() == 0
        },
        dim != db.schema.vec_size ==> (res matches Err(e) && e matches CapsaError::Database(
            DatabaseError::SchemaSetup(s),
        ) && s@ == "Embedding dimension mismatch: database uses "@ + decimal(dim as nat)
            + ", requested "@ + decimal(db.schema.vec_size as nat)),
        dim == db.schema.vec_size && stored_model != model@ ==> (res matches Err(e)
            && e matches CapsaError::Database(DatabaseError::SchemaSetup(s)) && s@
            == "Embedding model mismatch: database uses '"@ + stored_model + "', requested '"@
            + model@ + "'"@),
{
    law_decimal_round_trip(dim as nat, usize::MAX as nat);
    law_refusal_names_both(
        dim as nat,
        stored_model,
        db.schema.vec_size as nat,
        model@,
        texts(stored.table_names@),
    );
    if res is Ok {
        let settings = res->Ok_0.1;
        assert(setting_views(settings@).len() == settings@.len());
    }
}

/// A new database opens for any dimension and model, and both are written.
pub proof fn law_connect_new(
    db: &VectorDatabase,
    model: &str,
    stored: StoredSettings,
    res: Result<(VectorDatabaseConnection, Vec<(String, String)>)>,
)
    requires
        call_ensures(VectorDatabase::connect_with_model, (db, Some(model), stored), res),
        stored.dim is None,
        stored.model is None,
        stored.table_names@.len() == 0,
    ensures
        res matches Ok((conn, settings)) && {
            &&& conn.wf()
            &&& conn.dim() == db.schema.vec_size
            &&& setting_after(None, setting_views(settings@), "embedding_dim"@) == Some(
                decimal(db.schema.vec_size as nat),
            )
            &&& setting_after(None, setting_views(settings@), "embedding_model"@) == Some(model@)
        },
{
    law_new_database_accepted(db.schema.vec_size as nat, Some(model@));
    assert(texts(stored.table_names@) =~= Seq::empty());
}

/// A connection that is asked for no model opens a database of any.
pub proof fn law_connect_any_model(
    db: &VectorDatabase,
    stored: StoredSettings,
    res: Result<(VectorDatabaseConnection, Vec<(String, String)>)>,
)
    requires
        call_ensures(VectorDatabase::connect, (db, stored), res),
        optional_text(stored.dim) == Some(decimal(db.schema.vec_size as nat)),
    ensures
        res matches Ok((conn, settings)) && {
            &&& conn.wf()
            &&& conn.dim() == db.schema.vec_size
            &&& settings@.len() == 0
        },
{
    law_decimal_round_trip(db.schema.vec_size as nat, usize::MAX as nat);
    let settings = res->Ok_0.1;
    assert(setting_views(settings@).len() == settings@.len());
}

/// The document database searches and fetches in the tables of its own dimension.
pub proof fn law_document_database_asks(
    conn: &DocumentDatabaseConnection,
    vector: &str,
    limit: usize,
    doc_id: i64,
    plain: Statement,
    with_distance: Statement,
    fetch: Statement,
)
    requires
        conn.vconn.wf(),
        limit <= i64::MAX,
        call_ensures(DocumentDatabaseConnection::search_topk, (conn, vector, limit), plain),
        call_ensures(
            DocumentDatabaseConnection::search_topk_with_distance,
            (conn, vector, limit),
            with_distance,
        ),
        call_ensures(DocumentDatabaseConnection::fetch_document, (conn, doc_id), fetch),
    ensures
        plain@.sql == chunk_search(conn.vconn.dim(), plain_values()).text(),
        with_distance@.sql == chunk_search(conn.vconn.dim(), distance_values()).text(),
        fetch@.sql == document_query(conn.vconn.dim()).text(),
        plain@.params == seq![ParamView::Text(vector@), ParamView::Integer(limit as i64)],
        with_distance@.params == plain@.params,
        fetch@.params == seq![ParamView::Integer(doc_id)],
{
    law_search_texts(conn.vconn.dim());
    law_document_query_text(conn.vconn.dim());
}

/// A database that is open for writing has a queue, which lies beside it. One that is open for
/// reading has none. Both have the dimension of the probe, and there is none where the probe has no
/// components.
pub proof fn law_document_database<K>(
    config: &Config<K>,
    components: usize,
    dir: Seq<char>,
    stem: Seq<char>,
    ext: Seq<char>,
    writer: Result<DocumentDatabase>,
    reader: Result<DocumentDatabase>,
)
    requires
        call_ensures(DocumentDatabase::new::<K>, (config, components), writer),
        call_ensures(DocumentDatabase::new_reader::<K>, (config, components), reader),
        config.db_path@ == dir + seq!['/'] + (stem + seq!['.'] + ext),
        stem.len() > 0,
        !stem.contains('/'),
        !ext.contains('/'),
        !ext.contains('.'),
        stem + seq!['.'] + ext != seq!['.', '.'],
        dir.len() > 0,
        dir.last() != '/',
        dir.last() != '.',
    ensures
        components > 0 ==> (writer matches Ok(db) && {
            &&& db.vdb.db_path@ == config.db_path@
            &&& db.vdb.schema.vec_size == components
            &&& db.queue matches Some(queue) && queue.path@ == dir + seq!['/'] + (stem
                + "-queue"@ + seq!['.'] + ext)
            &&& optional_text(db.model) == Some(config.model@)
        }),
        components > 0 ==> (reader matches Ok(db) && {
            &&& db.vdb.db_path@ == config.db_path@
            &&& db.vdb.schema.vec_size == components
            &&& db.queue is None
            &&& optional_text(db.model) == Some(config.model@)
        }),
        components == 0 ==> writer == Err::<DocumentDatabase, CapsaError>(
            CapsaError::Embedding(EmbeddingError::NoEmbeddingReturned),
        ) && reader == Err::<DocumentDatabase, CapsaError>(
            CapsaError::Embedding(EmbeddingError::NoEmbeddingReturned),
        ),
{
    law_queue_lies_beside(dir, stem, ext);
}

/// A database that is open for reading takes nothing in and tells nothing of a queue.
pub proof fn law_reader_has_no_queue(
    conn: &DocumentDatabaseConnection,
    status: Result<&QueueConnection>,
    failed: Result<&QueueConnection>,
)
    requires
        call_ensures(DocumentDatabaseConnection::pipeline_status, (conn,), status),
        call_ensures(DocumentDatabaseConnection::failed_items, (conn,), failed),
    ensures
        status is Ok <==> conn.queue is Some,
        failed is Ok <==> conn.queue is Some,
        status matches Err(e) ==> (e matches CapsaError::Database(DatabaseError::QueryFailed(s))
            && s@ == "pipeline_status requires a writable connection"@),
        failed matches Err(e) ==> (e matches CapsaError::Database(DatabaseError::QueryFailed(s))
            && s@ == "failed_items requires a writable connection"@),
{
}

/// What a database stores is held against what is asked of it: the dimension, then the model.
pub proof fn law_validation_call(
    dim: usize,
    model: &str,
    stored_dim: Option<String>,
    names: &Vec<String>,
    stored_model: Option<String>,
    was: usize,
    other: Seq<char>,
    res: Result<Vec<(String, String)>>,
)
    requires
        call_ensures(
            validate_metadata,
            (dim, Some(model), stored_dim, names, stored_model),
            res,
        ),
        optional_text(stored_dim) == Some(decimal(was as nat)),
        optional_text(stored_model) == Some(other),
    ensures
        res is Ok <==> was == dim && other == model@,
        res matches Ok(settings) ==> settings@.len() == 0,
{
    law_decimal_round_trip(was as nat, usize::MAX as nat);
    if res is Ok {
        assert(setting_views(res->Ok_0@).len() == res->Ok_0@.len());
    }
}

/// The dimension that a database stores is read from the text that was written. There is none where
/// none was.
pub proof fn law_stored_dimension(
    raw: Option<String>,
    n: usize,
    res: Result<Option<usize>>,
)
    requires
        call_ensures(VectorDatabase::read_stored_embedding_dim, (raw,), res),
    ensures
        raw is None ==> res == Ok::<Option<usize>, CapsaError>(None),
        optional_text(raw) == Some(decimal(n as nat)) ==> res == Ok::<Option<usize>, CapsaError>(
            Some(n),
        ),
{
    law_decimal_round_trip(n as nat, usize::MAX as nat);
}

/// The dimensions of an older database are those in the names of its tables of documents, the lowest
/// first and each once.
pub proof fn law_older_dimensions(names: &Vec<String>, n: usize, res: Result<Vec<usize>>)
    requires
        call_ensures(detect_legacy_dimensions, (names,), res),
        exists|k: int|
            0 <= k < names@.len() && (#[trigger] names@[k])@ == "documents_"@ + decimal(n as nat),
    ensures
        res matches Ok(dims) ==> dims@.contains(n) && forall|i: int, j: int|
            0 <= i < j < dims@.len() ==> dims@[i] < dims@[j],
{
    if res is Ok {
        let dims = res->Ok_0;
        let k = choose|k: int|
            0 <= k < names@.len() && (#[trigger] names@[k])@ == "documents_"@ + decimal(n as nat);
        let all = texts(names@);
        assert(all[k] == names@[k]@);
        let name = all[k];
        let prefix = "documents_"@;
        assert(name.subrange(0, prefix.len() as int) =~= prefix);
        assert(name.subrange(prefix.len() as int, name.len() as int) =~= decimal(n as nat));
        law_decimal_round_trip(n as nat, usize::MAX as nat);
        assert(named_dim(name) == Some(Ok::<nat, NumberError>(n as nat)));
        assert(is_named_dim(all, n));
        assert(dims@.contains(n));
    }
}

/// The settings lie in a table of texts by key. Tables of documents are found by their name.
pub proof fn law_settings_and_tables(made: Statement, tables: Statement)
    requires
        call_ensures(setup_metadata_table, (), made),
        call_ensures(legacy_tables, (), tables),
    ensures
        made@.sql
            == "CREATE TABLE IF NOT EXISTS capsa_metadata (key TEXT PRIMARY KEY, value TEXT NOT NULL)"@,
        made@.params.len() == 0,
        tables@.sql == tables_lookup().text(),
        tables@.params.len() == 0,
{
    law_tables_lookup_text();
}

/// A dimension that is no number is refused, and the message says what it was and why.
pub proof fn law_unreadable_dimension(raw: &str, reason: NumberError, why: String, res: Result<usize>)
    requires
        call_ensures(parse_embedding_dim, (raw,), res),
        parsed_unsigned(raw@, usize::MAX as nat) == Err::<nat, NumberError>(reason),
        call_ensures(NumberError::message, (&reason,), why),
    ensures
        res matches Err(e) && e matches CapsaError::Database(DatabaseError::SchemaSetup(s)) && s@
            == "Invalid stored embedding dimension '"@ + raw@ + "': "@ + why@,
{
}

/// A table whose name begins like one of documents and goes on with no number is refused.
pub proof fn law_unreadable_table(
    names: &Vec<String>,
    raw: Seq<char>,
    reason: NumberError,
    why: String,
    res: Result<Vec<usize>>,
)
    requires
        call_ensures(detect_legacy_dimensions, (names,), res),
        names@.len() == 1,
        names@[0]@ == "documents_"@ + raw,
        parsed_unsigned(raw, usize::MAX as nat) == Err::<nat, NumberError>(reason),
        call_ensures(NumberError::message, (&reason,), why),
    ensures
        res matches Err(e) && e matches CapsaError::Database(DatabaseError::SchemaSetup(s)) && s@
            == "Invalid legacy table name '"@ + names@[0]@ + "': "@ + why@,
{
    let all = texts(names@);
    let name = names@[0]@;
    let prefix = "documents_"@;
    assert(all[0] == name);
    assert(name.subrange(0, prefix.len() as int) =~= prefix);
    assert(name.subrange(prefix.len() as int, name.len() as int) =~= raw);
    reveal_with_fuel(first_bad_name, 2);
    assert(all.drop_last().len() == 0);
    assert(all.last() == name);
}

/// The statements for a dimension are those of its own tables: the ones that store, the ones that
/// search, each for the values that it is named after, and the one that fetches.
pub proof fn law_statements_of_a_dimension(n: usize, res: VectorDatabaseSchema)
    requires
        call_ensures(VectorDatabaseSchema::new, (n,), res),
    ensures
        res.vec_size == n,
        res.insert_document@ == document_change(n as nat).text() + " RETURNING id"@,
        res.insert_vectors@ == chunk_change(n as nat).text(),
        res.search_topk@ == chunk_search(n as nat, plain_values()).text(),
        res.search_topk_with_distance@ == chunk_search(n as nat, distance_values()).text(),
        res.search_topk_with_vectors@ == chunk_search(n as nat, vector_values()).text(),
        res.fetch_document@ == document_query(n as nat).text(),
        res.create_documents_table@ == table_text(
            "documents_"@ + decimal(n as nat),
            seq![free_column("content"@, "BLOB"@), free_column("metadata"@, "JSON"@)],
        ),
        res.create_vectors_table@ == linked_table_text(
            "document_embeddings_"@ + decimal(n as nat),
            chunk_columns(n as nat),
            "doc_id"@,
            "documents_"@ + decimal(n as nat),
        ),
        res.create_index_table@ == index_text(
            "idx_embeddings_"@ + decimal(n as nat),
            "document_embeddings_"@ + decimal(n as nat),
            "embedding"@,
            "cosine"@,
        ),
{
    law_document_change_text(n as nat);
    law_chunk_change_text(n as nat);
    law_search_texts(n as nat);
    law_document_query_text(n as nat);
    law_documents_are_declared(n as nat);
    law_chunks_are_declared(n as nat);
    law_index_is_declared(n as nat);
}

} // verus!
