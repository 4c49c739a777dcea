//! Storage of documents and embeddings, and search by similarity.
//!
//! Documents of one embedding dimension stand in tables whose names end in the dimension. A table
//! of settings remembers the dimension and the model that a database was made for.

use vstd::prelude::*;
use vstd::utf8::{decode_utf8, encode_utf8, valid_utf8};
use crate::codec::{
    compress, decompress_text, is_frame_error, is_invalid_text, law_compressed_text_round_trip,
    lz4_decoded,
};
use crate::embeddings::{law_words_round_trip, number_at, packed_words, words_at};
use crate::error::{CapsaError, DatabaseError, Result};
use crate::executor::Executor;
use crate::metadata::{is_metadata_error, json_metadata, Metadata};
use crate::queue::is_json;
use crate::sql::{
    bound, param_views, plain, statement_views, stmt, Param, ParamView, Statement, StatementView,
};
use crate::text::{
    begins_with, chars_of, copy_of, decimal, decimal_string, law_decimal_round_trip, occurs_at,
    optional_text, parse_usize, parsed_unsigned, same_text, string_of, texts, NumberError,
};

verus! {

/// The statements for documents of one embedding dimension.
#[derive(Debug, Clone)]
pub struct VectorDatabaseSchema {
    pub vec_size: usize,
    /// The table of documents.
    pub create_documents_table: String,
    /// The table of embeddings.
    pub create_vectors_table: String,
    /// The index over the embeddings.
    pub create_index_table: String,
    /// Stores a document and returns its number.
    pub insert_document: String,
    /// Stores the embedding of a chunk.
    pub insert_vectors: String,
    /// The chunks nearest to a vector.
    pub search_topk: String,
    /// The chunks nearest to a vector, with their distances.
    pub search_topk_with_distance: String,
    /// The chunks nearest to a vector, with their embeddings.
    pub search_topk_with_vectors: String,
    /// A document by its number.
    pub fetch_document: String,
}

/// The name of the table of documents.
pub open spec fn documents_table(vec_size: nat) -> Seq<char> {
    "documents_"@ + decimal(vec_size)
}

/// The name of the table of embeddings.
pub open spec fn embeddings_table(vec_size: nat) -> Seq<char> {
    "document_embeddings_"@ + decimal(vec_size)
}

/// The name of the index over the embeddings.
pub open spec fn embeddings_index(vec_size: nat) -> Seq<char> {
    "idx_embeddings_"@ + decimal(vec_size)
}

/// The table of documents.
pub open spec fn create_documents_table_sql(vec_size: nat) -> Seq<char> {
    "CREATE TABLE IF NOT EXISTS "@ + documents_table(vec_size)
        + " (id INTEGER PRIMARY KEY AUTOINCREMENT, content BLOB, metadata JSON)"@
}

/// The table of embeddings.
pub open spec fn create_vectors_table_sql(vec_size: nat) -> Seq<char> {
    "CREATE TABLE IF NOT EXISTS "@ + embeddings_table(vec_size)
        + " (id INTEGER PRIMARY KEY AUTOINCREMENT, doc_id INTEGER, chunk_index INTEGER, chunk_start INTEGER, chunk_end INTEGER, embedding F32_BLOB("@
        + decimal(vec_size) + "), FOREIGN KEY(doc_id) REFERENCES "@ + documents_table(vec_size)
        + "(id) ON DELETE CASCADE)"@
}

/// The index over the embeddings.
pub open spec fn create_index_table_sql(vec_size: nat) -> Seq<char> {
    "CREATE INDEX IF NOT EXISTS "@ + embeddings_index(vec_size) + " ON "@ + embeddings_table(
        vec_size,
    ) + "(libsql_vector_idx(embedding, 'metric=cosine'))"@
}

/// Stores a document and returns its number.
pub open spec fn insert_document_sql(vec_size: nat) -> Seq<char> {
    "INSERT INTO "@ + documents_table(vec_size)
        + " (content, metadata) VALUES (?1, ?2) RETURNING id"@
}

/// Stores the embedding of a chunk.
pub open spec fn insert_vectors_sql(vec_size: nat) -> Seq<char> {
    "INSERT INTO "@ + embeddings_table(vec_size)
        + " (doc_id, chunk_index, chunk_start, chunk_end, embedding) VALUES (?1, ?2, ?3, ?4, vector(?5))"@
}

/// Where a search looks: the chunks nearest to a vector, with their documents.
pub open spec fn search_source(vec_size: nat) -> Seq<char> {
    "FROM vector_top_k('"@ + embeddings_index(vec_size) + "', vector(?1), ?2) v JOIN "@
        + embeddings_table(vec_size) + " e ON e.rowid = v.id JOIN "@ + documents_table(vec_size)
        + " d ON e.doc_id = d.id"@
}

/// The chunks nearest to a vector.
pub open spec fn search_topk_sql(vec_size: nat) -> Seq<char> {
    "SELECT e.doc_id, d.metadata, e.chunk_start, e.chunk_end "@ + search_source(vec_size)
}

/// The chunks nearest to a vector, with their distances.
pub open spec fn search_topk_with_distance_sql(vec_size: nat) -> Seq<char> {
    "SELECT e.doc_id, d.metadata, vector_distance_cos(e.embedding, vector(?1)) AS distance, e.chunk_start, e.chunk_end "@
        + search_source(vec_size)
}

/// The chunks nearest to a vector, with their embeddings.
pub open spec fn search_topk_with_vectors_sql(vec_size: nat) -> Seq<char> {
    "SELECT e.doc_id, d.metadata, e.embedding, e.chunk_start, e.chunk_end "@ + search_source(
        vec_size,
    )
}

/// A document by its number.
pub open spec fn fetch_document_sql(vec_size: nat) -> Seq<char> {
    "SELECT content, metadata FROM "@ + documents_table(vec_size) + " WHERE id = ?1"@
}

impl VectorDatabaseSchema {
    /// Whether the statements are those for the dimension.
    pub open spec fn wf(&self) -> bool {
        let n = self.vec_size as nat;
        &&& self.create_documents_table@ == create_documents_table_sql(n)
        &&& self.create_vectors_table@ == create_vectors_table_sql(n)
        &&& self.create_index_table@ == create_index_table_sql(n)
        &&& self.insert_document@ == insert_document_sql(n)
        &&& self.insert_vectors@ == insert_vectors_sql(n)
        &&& self.search_topk@ == search_topk_sql(n)
        &&& self.search_topk_with_distance@ == search_topk_with_distance_sql(n)
        &&& self.search_topk_with_vectors@ == search_topk_with_vectors_sql(n)
        &&& self.fetch_document@ == fetch_document_sql(n)
    }

    /// The statements for documents whose embeddings have `vec_size` components.
    pub fn new(vec_size: usize) -> (res: Self)
        ensures
            res.wf(),
            res.vec_size == vec_size,
    {
        let number = decimal_string(vec_size as u64);
        let mut documents = "documents_".to_owned();
        documents.append(number.as_str());
        let mut embeddings = "document_embeddings_".to_owned();
        embeddings.append(number.as_str());
        let mut index = "idx_embeddings_".to_owned();
        index.append(number.as_str());
        let mut source = "FROM vector_top_k('".to_owned();
        source.append(index.as_str());
        source.append("', vector(?1), ?2) v JOIN ");
        source.append(embeddings.as_str());
        source.append(" e ON e.rowid = v.id JOIN ");
        source.append(documents.as_str());
        source.append(" d ON e.doc_id = d.id");
        let mut create_documents_table = "CREATE TABLE IF NOT EXISTS ".to_owned();
        create_documents_table.append(documents.as_str());
        create_documents_table.append(
            " (id INTEGER PRIMARY KEY AUTOINCREMENT, content BLOB, metadata JSON)",
        );
        let mut create_vectors_table = "CREATE TABLE IF NOT EXISTS ".to_owned();
        create_vectors_table.append(embeddings.as_str());
        create_vectors_table.append(
            " (id INTEGER PRIMARY KEY AUTOINCREMENT, doc_id INTEGER, chunk_index INTEGER, chunk_start INTEGER, chunk_end INTEGER, embedding F32_BLOB(",
        );
        create_vectors_table.append(number.as_str());
        create_vectors_table.append("), FOREIGN KEY(doc_id) REFERENCES ");
        create_vectors_table.append(documents.as_str());
        create_vectors_table.append("(id) ON DELETE CASCADE)");
        let mut create_index_table = "CREATE INDEX IF NOT EXISTS ".to_owned();
        create_index_table.append(index.as_str());
        create_index_table.append(" ON ");
        create_index_table.append(embeddings.as_str());
        create_index_table.append("(libsql_vector_idx(embedding, 'metric=cosine'))");
        let mut insert_document = "INSERT INTO ".to_owned();
        insert_document.append(documents.as_str());
        insert_document.append(" (content, metadata) VALUES (?1, ?2) RETURNING id");
        let mut insert_vectors = "INSERT INTO ".to_owned();
        insert_vectors.append(embeddings.as_str());
        insert_vectors.append(
            " (doc_id, chunk_index, chunk_start, chunk_end, embedding) VALUES (?1, ?2, ?3, ?4, vector(?5))",
        );
        let mut search_topk =
            "SELECT e.doc_id, d.metadata, e.chunk_start, e.chunk_end ".to_owned();
        search_topk.append(source.as_str());
        let mut search_topk_with_distance =
            "SELECT e.doc_id, d.metadata, vector_distance_cos(e.embedding, vector(?1)) AS distance, e.chunk_start, e.chunk_end ".to_owned();
        search_topk_with_distance.append(source.as_str());
        let mut search_topk_with_vectors =
            "SELECT e.doc_id, d.metadata, e.embedding, e.chunk_start, e.chunk_end ".to_owned();
        search_topk_with_vectors.append(source.as_str());
        let mut fetch_document = "SELECT content, metadata FROM ".to_owned();
        fetch_document.append(documents.as_str());
        fetch_document.append(" WHERE id = ?1");
        VectorDatabaseSchema {
            vec_size,
            create_documents_table,
            create_vectors_table,
            create_index_table,
            insert_document,
            insert_vectors,
            search_topk,
            search_topk_with_distance,
            search_topk_with_vectors,
            fetch_document,
        }
    }
}

/// Whether an error reports a problem of the schema, in these words.
pub open spec fn is_schema_error(e: CapsaError, text: Seq<char>) -> bool {
    e matches CapsaError::Database(DatabaseError::SchemaSetup(s)) && s@ == text
}

fn schema_error(text: String) -> (res: CapsaError)
    ensures
        is_schema_error(res, text@),
{
    CapsaError::Database(DatabaseError::SchemaSetup(text))
}

/// What a stored dimension that is no number is answered.
pub open spec fn invalid_dim_text(raw: Seq<char>, e: NumberError) -> Seq<char> {
    "Invalid stored embedding dimension '"@ + raw + "': "@ + e.text()
}

/// What a table name that ends in no number is answered.
pub open spec fn invalid_table_text(name: Seq<char>, e: NumberError) -> Seq<char> {
    "Invalid legacy table name '"@ + name + "': "@ + e.text()
}

/// What another dimension than the stored one is answered.
pub open spec fn dim_mismatch_text(stored: nat, expected: nat) -> Seq<char> {
    "Embedding dimension mismatch: database uses "@ + decimal(stored) + ", requested "@ + decimal(
        expected,
    )
}

/// What another dimension than that of older tables is answered.
pub open spec fn legacy_mismatch_text(legacy: nat, expected: nat) -> Seq<char> {
    "Legacy database uses embedding dimension "@ + decimal(legacy) + ", requested "@ + decimal(
        expected,
    )
}

/// What older tables of several dimensions are answered.
pub open spec fn several_dims_text(dims: Seq<usize>) -> Seq<char> {
    "Legacy database contains multiple embedding dimensions: ["@ + listed(dims) + "]"@
}

/// What another model than the stored one is answered.
pub open spec fn model_mismatch_text(stored: Seq<char>, expected: Seq<char>) -> Seq<char> {
    "Embedding model mismatch: database uses '"@ + stored + "', requested '"@ + expected + "'"@
}

/// Numbers with commas between them.
pub open spec fn listed(dims: Seq<usize>) -> Seq<char>
    decreases dims.len(),
{
    if dims.len() == 0 {
        Seq::empty()
    } else if dims.len() == 1 {
        decimal(dims[0] as nat)
    } else {
        listed(dims.drop_last()) + ", "@ + decimal(dims.last() as nat)
    }
}

/// Numbers with commas between them.
fn listed_text(dims: &Vec<usize>) -> (res: String)
    ensures
        res@ == listed(dims@),
{
    let mut res = String::new();
    let n: usize = dims.len();
    let mut i: usize = 0;
    assert(res@ =~= listed(dims@.take(0)));
    while i < n
        invariant
            n == dims@.len(),
            i <= n,
            res@ == listed(dims@.take(i as int)),
        decreases n - i,
    {
        proof {
            assert(dims@.take(i + 1).drop_last() == dims@.take(i as int));
            assert(dims@.take(i + 1).last() == dims@[i as int]);
            if i == 0 {
                assert(Seq::<char>::empty() + decimal(dims@[0] as nat) =~= decimal(
                    dims@[0] as nat,
                ));
                assert(res@ =~= Seq::<char>::empty());
            }
        }
        if i > 0 {
            res.append(", ");
        }
        res.append(decimal_string(dims[i] as u64).as_str());
        i = i + 1;
    }
    assert(dims@.take(n as int) == dims@);
    res
}

/// The prefix of the names of tables of documents.
pub open spec fn table_prefix() -> Seq<char> {
    "documents_"@
}

/// The dimension that the name of a table of documents ends in: `None` where the name is that of
/// another table.
pub open spec fn named_dim(name: Seq<char>) -> Option<core::result::Result<nat, NumberError>> {
    if occurs_at(name, table_prefix(), 0) {
        Some(
            parsed_unsigned(
                name.subrange(table_prefix().len() as int, name.len() as int),
                usize::MAX as nat,
            ),
        )
    } else {
        None
    }
}

/// The first name that ends in no number, with what is wrong.
pub open spec fn first_bad_name(names: Seq<Seq<char>>) -> Option<(Seq<char>, NumberError)>
    decreases names.len(),
{
    if names.len() == 0 {
        None
    } else {
        let earlier = first_bad_name(names.drop_last());
        if earlier is Some {
            earlier
        } else {
            match named_dim(names.last()) {
                Some(Err(e)) => Some((names.last(), e)),
                _ => None,
            }
        }
    }
}

/// Whether a dimension is that of one of the tables.
pub open spec fn is_named_dim(names: Seq<Seq<char>>, dim: usize) -> bool {
    exists|i: int|
        0 <= i < names.len() && #[trigger] named_dim(names[i]) == Some(
            Ok::<nat, NumberError>(dim as nat),
        )
}

/// Whether the dimensions are those of the tables, each once, in ascending order.
pub open spec fn are_named_dims(names: Seq<Seq<char>>, dims: Seq<usize>) -> bool {
    &&& forall|i: int, j: int| 0 <= i < j < dims.len() ==> dims[i] < dims[j]
    &&& forall|d: usize| #[trigger] dims.contains(d) <==> is_named_dim(names, d)
}

/// Puts a number among ascending numbers, where it is not among them.
fn insert_dim(dims: &mut Vec<usize>, dim: usize)
    requires
        forall|i: int, j: int| 0 <= i < j < old(dims)@.len() ==> old(dims)@[i] < old(dims)@[j],
    ensures
        forall|i: int, j: int|
            0 <= i < j < final(dims)@.len() ==> final(dims)@[i] < final(dims)@[j],
        forall|d: usize| #[trigger]
            final(dims)@.contains(d) <==> d == dim || old(dims)@.contains(d),
{
    let ghost before = dims@;
    let mut p: usize = 0;
    while p < dims.len() && dims[p] < dim
        invariant
            dims@ == before,
            p <= before.len(),
            forall|i: int| 0 <= i < p ==> before[i] < dim,
        decreases before.len() - p,
    {
        p = p + 1;
    }
    if p < dims.len() && dims[p] == dim {
        proof {
            assert(before.contains(before[p as int]));
        }
    } else {
        dims.insert(p, dim);
        proof {
            let now = dims@;
            assert(now == before.insert(p as int, dim));
            assert forall|d: usize| #[trigger] now.contains(d) <==> d == dim || before.contains(
                d,
            ) by {
                if now.contains(d) {
                    let i = choose|i: int| 0 <= i < now.len() && now[i] == d;
                    if i < p {
                        assert(before[i] == d);
                    } else if i > p {
                        assert(before[i - 1] == d);
                    }
                }
                if d == dim {
                    assert(now[p as int] == d);
                }
                if before.contains(d) {
                    let i = choose|i: int| 0 <= i < before.len() && before[i] == d;
                    if i < p {
                        assert(now[i] == d);
                    } else {
                        assert(now[i + 1] == d);
                    }
                }
            }
        }
    }
}

/// A dimension that is stored as text.
pub fn parse_embedding_dim(raw: &str) -> (res: Result<usize>)
    ensures
        match (parsed_unsigned(raw@, usize::MAX as nat), res) {
            (Ok(n), Ok(dim)) => dim == n,
            (Err(e), Err(err)) => is_schema_error(err, invalid_dim_text(raw@, e)),
            _ => false,
        },
{
    match parse_usize(raw) {
        Ok(n) => Ok(n),
        Err(e) => {
            let mut text = "Invalid stored embedding dimension '".to_owned();
            text.append(raw);
            text.append("': ");
            text.append(e.message().as_str());
            Err(schema_error(text))
        },
    }
}

/// The dimensions of the tables of documents, given the names of tables: each once, in ascending
/// order.
pub fn detect_legacy_dimensions(names: &Vec<String>) -> (res: Result<Vec<usize>>)
    ensures
        match res {
            Ok(dims) => first_bad_name(texts(names@)) is None && are_named_dims(
                texts(names@),
                dims@,
            ),
            Err(e) => first_bad_name(texts(names@)) matches Some((name, problem))
                && is_schema_error(e, invalid_table_text(name, problem)),
        },
{
    let ghost all = texts(names@);
    let prefix = chars_of("documents_");
    let mut dims: Vec<usize> = Vec::new();
    let n: usize = names.len();
    let mut i: usize = 0;
    while i < n
        invariant
            n == names@.len(),
            all == texts(names@),
            prefix@ == table_prefix(),
            i <= n,
            first_bad_name(all.take(i as int)) is None,
            are_named_dims(all.take(i as int), dims@),
        decreases n - i,
    {
        let name = names[i].as_str();
        let ghost seen = all.take(i as int);
        let ghost more = all.take(i + 1);
        proof {
            assert(more.drop_last() == seen);
            assert(more.last() == name@);
            assert(more[i as int] == name@);
        }
        if begins_with(name, "documents_") {
            let chars = chars_of(name);
            let rest = string_of(&chars, prefix.len(), chars.len());
            match parse_usize(rest.as_str()) {
                Err(e) => {
                    let mut text = "Invalid legacy table name '".to_owned();
                    text.append(name);
                    text.append("': ");
                    text.append(e.message().as_str());
                    proof {
                        assert(first_bad_name(more) == Some((name@, e)));
                        lemma_first_bad_name(all, i + 1);
                    }
                    return Err(schema_error(text));
                },
                Ok(dim) => {
                    insert_dim(&mut dims, dim);
                    proof {
                        assert forall|d: usize| #[trigger] dims@.contains(d) <==> is_named_dim(
                            more,
                            d,
                        ) by {
                            lemma_one_more_name(seen, name@, d);
                        }
                    }
                },
            }
        } else {
            proof {
                assert forall|d: usize| #[trigger] dims@.contains(d) <==> is_named_dim(more, d) by {
                    lemma_one_more_name(seen, name@, d);
                }
            }
        }
        i = i + 1;
    }
    assert(all.take(n as int) == all);
    Ok(dims)
}

/// A name that is bad in a prefix is bad in the whole.
proof fn lemma_first_bad_name(names: Seq<Seq<char>>, n: int)
    requires
        0 <= n <= names.len(),
        first_bad_name(names.take(n)) is Some,
    ensures
        first_bad_name(names) == first_bad_name(names.take(n)),
    decreases names.len() - n,
{
    if n < names.len() {
        assert(names.take(n + 1).drop_last() == names.take(n));
        lemma_first_bad_name(names, n + 1);
    } else {
        assert(names.take(n) == names);
    }
}

proof fn lemma_one_more_name(names: Seq<Seq<char>>, name: Seq<char>, d: usize)
    ensures
        is_named_dim(names.push(name), d) <==> is_named_dim(names, d) || named_dim(name) == Some(
            Ok::<nat, NumberError>(d as nat),
        ),
{
    let more = names.push(name);
    if is_named_dim(more, d) {
        let i = choose|i: int|
            0 <= i < more.len() && #[trigger] named_dim(more[i]) == Some(
                Ok::<nat, NumberError>(d as nat),
            );
        if i < names.len() {
            assert(named_dim(names[i]) == Some(Ok::<nat, NumberError>(d as nat)));
        }
    }
    if is_named_dim(names, d) {
        let i = choose|i: int|
            0 <= i < names.len() && #[trigger] named_dim(names[i]) == Some(
                Ok::<nat, NumberError>(d as nat),
            );
        assert(named_dim(more[i]) == Some(Ok::<nat, NumberError>(d as nat)));
    }
    if named_dim(name) == Some(Ok::<nat, NumberError>(d as nat)) {
        assert(named_dim(more[names.len() as int]) == Some(Ok::<nat, NumberError>(d as nat)));
    }
}

/// Ascending numbers are determined by which they are.
proof fn lemma_ascending_unique(a: Seq<usize>, b: Seq<usize>)
    requires
        forall|i: int, j: int| 0 <= i < j < a.len() ==> a[i] < a[j],
        forall|i: int, j: int| 0 <= i < j < b.len() ==> b[i] < b[j],
        forall|d: usize| #[trigger] a.contains(d) <==> b.contains(d),
    ensures
        a == b,
    decreases a.len(),
{
    if a.len() == 0 {
        if b.len() > 0 {
            assert(b.contains(b[0]));
            assert(a.contains(b[0]));
        }
        assert(a =~= b);
    } else {
        assert(a.contains(a[0]));
        assert(b.contains(a[0]));
        let j = choose|j: int| 0 <= j < b.len() && b[j] == a[0];
        assert(b.contains(b[0]));
        assert(a.contains(b[0]));
        let i = choose|i: int| 0 <= i < a.len() && a[i] == b[0];
        assert(a[0] == b[0]);
        let ra = a.drop_first();
        let rb = b.drop_first();
        assert forall|d: usize| #[trigger] ra.contains(d) <==> rb.contains(d) by {
            if ra.contains(d) {
                let x = choose|x: int| 0 <= x < ra.len() && ra[x] == d;
                assert(a[x + 1] == d);
                assert(a.contains(d));
                let y = choose|y: int| 0 <= y < b.len() && b[y] == d;
                assert(rb[y - 1] == d);
            }
            if rb.contains(d) {
                let x = choose|x: int| 0 <= x < rb.len() && rb[x] == d;
                assert(b[x + 1] == d);
                assert(b.contains(d));
                assert(a.contains(d));
                let y = choose|y: int| 0 <= y < a.len() && a[y] == d;
                assert(ra[y - 1] == d);
            }
        }
        lemma_ascending_unique(ra, rb);
        assert(a == seq![a[0]] + ra);
        assert(b == seq![b[0]] + rb);
    }
}

/// The dimensions of the tables of documents, each once, in ascending order.
pub open spec fn legacy_dims(names: Seq<Seq<char>>) -> Seq<usize> {
    choose|dims: Seq<usize>| are_named_dims(names, dims)
}

/// A setting and its value.
pub type Setting = (Seq<char>, Seq<char>);

/// The settings that a list stands for.
pub open spec fn setting_views(s: Seq<(String, String)>) -> Seq<Setting> {
    s.map_values(|x: (String, String)| (x.0@, x.1@))
}

/// Whether a database accepts an embedding dimension, given the one that it stores and the names
/// of its tables: which settings to write then, or why it does not.
pub open spec fn dim_outcome(
    expected: nat,
    stored: Option<Seq<char>>,
    names: Seq<Seq<char>>,
) -> core::result::Result<Seq<Setting>, Seq<char>> {
    match stored {
        Some(raw) => match parsed_unsigned(raw, usize::MAX as nat) {
            Err(e) => Err(invalid_dim_text(raw, e)),
            Ok(n) => if n != expected {
                Err(dim_mismatch_text(n, expected))
            } else {
                Ok(Seq::empty())
            },
        },
        None => match first_bad_name(names) {
            Some((name, e)) => Err(invalid_table_text(name, e)),
            None => {
                let dims = legacy_dims(names);
                if dims.len() > 1 {
                    Err(several_dims_text(dims))
                } else if dims.len() == 1 && dims[0] != expected {
                    Err(legacy_mismatch_text(dims[0] as nat, expected))
                } else {
                    Ok(seq![("embedding_dim"@, decimal(expected))])
                }
            },
        },
    }
}

/// Whether a database accepts an embedding model, given the one that it stores.
pub open spec fn model_outcome(
    expected: Option<Seq<char>>,
    stored: Option<Seq<char>>,
) -> core::result::Result<Seq<Setting>, Seq<char>> {
    match expected {
        None => Ok(Seq::empty()),
        Some(model) => match stored {
            Some(s) => if s == model {
                Ok(Seq::empty())
            } else {
                Err(model_mismatch_text(s, model))
            },
            None => Ok(seq![("embedding_model"@, model)]),
        },
    }
}

/// Whether a database accepts an embedding dimension and a model: which settings to write then, or
/// why it does not. The dimension is looked at first.
pub open spec fn validation(
    expected_dim: nat,
    expected_model: Option<Seq<char>>,
    stored_dim: Option<Seq<char>>,
    names: Seq<Seq<char>>,
    stored_model: Option<Seq<char>>,
) -> core::result::Result<Seq<Setting>, Seq<char>> {
    match dim_outcome(expected_dim, stored_dim, names) {
        Err(text) => Err(text),
        Ok(dim_settings) => match model_outcome(expected_model, stored_model) {
            Err(text) => Err(text),
            Ok(model_settings) => Ok(dim_settings + model_settings),
        },
    }
}

/// The characters of a borrowed string that may be missing.
pub open spec fn optional_str(s: Option<&str>) -> Option<Seq<char>> {
    match s {
        Some(t) => Some(t@),
        None => None,
    }
}

/// Whether the database accepts the embedding dimension.
fn check_dim(expected: usize, stored: Option<String>, names: &Vec<String>) -> (res: Result<
    Vec<(String, String)>,
>)
    ensures
        match (dim_outcome(expected as nat, optional_text(stored), texts(names@)), res) {
            (Ok(settings), Ok(v)) => setting_views(v@) == settings,
            (Err(text), Err(e)) => is_schema_error(e, text),
            _ => false,
        },
{
    let mut settings: Vec<(String, String)> = Vec::new();
    assert(setting_views(settings@) =~= Seq::<Setting>::empty());
    match stored {
        Some(raw) => match parse_embedding_dim(raw.as_str()) {
            Err(e) => Err(e),
            Ok(n) => if n != expected {
                let mut text = "Embedding dimension mismatch: database uses ".to_owned();
                text.append(decimal_string(n as u64).as_str());
                text.append(", requested ");
                text.append(decimal_string(expected as u64).as_str());
                Err(schema_error(text))
            } else {
                Ok(settings)
            },
        },
        None => match detect_legacy_dimensions(names) {
            Err(e) => Err(e),
            Ok(dims) => {
                proof {
                    lemma_ascending_unique(dims@, legacy_dims(texts(names@)));
                }
                if dims.len() > 1 {
                    let mut text =
                        "Legacy database contains multiple embedding dimensions: [".to_owned();
                    text.append(listed_text(&dims).as_str());
                    text.append("]");
                    Err(schema_error(text))
                } else if dims.len() == 1 && dims[0] != expected {
                    let mut text = "Legacy database uses embedding dimension ".to_owned();
                    text.append(decimal_string(dims[0] as u64).as_str());
                    text.append(", requested ");
                    text.append(decimal_string(expected as u64).as_str());
                    Err(schema_error(text))
                } else {
                    settings.push(("embedding_dim".to_owned(), decimal_string(expected as u64)));
                    assert(setting_views(settings@) =~= seq![
                        ("embedding_dim"@, decimal(expected as nat)),
                    ]);
                    Ok(settings)
                }
            },
        },
    }
}

/// Whether a database can be used with an embedding dimension and a model, given what it stores
/// and the names of its tables. On success, these settings are to be written.
pub fn validate_metadata(
    expected_dim: usize,
    expected_model: Option<&str>,
    stored_dim: Option<String>,
    table_names: &Vec<String>,
    stored_model: Option<String>,
) -> (res: Result<Vec<(String, String)>>)
    ensures
        match (
            validation(
                expected_dim as nat,
                optional_str(expected_model),
                optional_text(stored_dim),
                texts(table_names@),
                optional_text(stored_model),
            ),
            res,
        ) {
            (Ok(settings), Ok(v)) => setting_views(v@) == settings,
            (Err(text), Err(e)) => is_schema_error(e, text),
            _ => false,
        },
{
    let mut settings = match check_dim(expected_dim, stored_dim, table_names) {
        Err(e) => {
            return Err(e);
        },
        Ok(v) => v,
    };
    let ghost before = settings@;
    if let Some(model) = expected_model {
        match stored_model {
            Some(stored) => {
                if !same_text(stored.as_str(), model) {
                    let mut text = "Embedding model mismatch: database uses '".to_owned();
                    text.append(stored.as_str());
                    text.append("', requested '");
                    text.append(model);
                    text.append("'");
                    return Err(schema_error(text));
                }
                proof {
                    assert(setting_views(before) + Seq::<Setting>::empty() =~= setting_views(
                        before,
                    ));
                }
            },
            None => {
                settings.push(("embedding_model".to_owned(), copy_of(model)));
                proof {
                    assert(setting_views(settings@) =~= setting_views(before) + seq![
                        ("embedding_model"@, model@),
                    ]);
                }
            },
        }
    } else {
        proof {
            assert(setting_views(before) + Seq::<Setting>::empty() =~= setting_views(before));
        }
    }
    Ok(settings)
}

/// What a database stores of how it was made: the settings for the dimension and the model, and
/// the names of its tables of documents.
#[derive(Debug)]
pub struct StoredSettings {
    pub dim: Option<String>,
    pub table_names: Vec<String>,
    pub model: Option<String>,
}

/// The value of a setting once the changes are written.
pub open spec fn setting_after(
    stored: Option<Seq<char>>,
    changes: Seq<Setting>,
    key: Seq<char>,
) -> Option<Seq<char>>
    decreases changes.len(),
{
    if changes.len() == 0 {
        stored
    } else if changes.last().0 == key {
        Some(changes.last().1)
    } else {
        setting_after(stored, changes.drop_last(), key)
    }
}

proof fn lemma_settings_after(
    expected_dim: nat,
    expected_model: Option<Seq<char>>,
    stored_dim: Option<Seq<char>>,
    names: Seq<Seq<char>>,
    stored_model: Option<Seq<char>>,
)
    requires
        expected_dim <= usize::MAX,
        validation(expected_dim, expected_model, stored_dim, names, stored_model) is Ok,
    ensures
        ({
            let changes = validation(
                expected_dim,
                expected_model,
                stored_dim,
                names,
                stored_model,
            )->Ok_0;
            let dim = setting_after(stored_dim, changes, "embedding_dim"@);
            let model = setting_after(stored_model, changes, "embedding_model"@);
            &&& dim is Some
            &&& parsed_unsigned(dim->0, usize::MAX as nat) == Ok::<nat, NumberError>(expected_dim)
            &&& expected_model is Some ==> model == expected_model
            &&& expected_model is None ==> model == stored_model
        }),
{
    reveal_strlit("embedding_dim");
    reveal_strlit("embedding_model");
    assert("embedding_dim"@.len() != "embedding_model"@.len());
    law_decimal_round_trip(expected_dim, usize::MAX as nat);
    let a = dim_outcome(expected_dim, stored_dim, names)->Ok_0;
    let b = model_outcome(expected_model, stored_model)->Ok_0;
    let changes = a + b;
    reveal_with_fuel(setting_after, 3);
    if b.len() > 0 {
        assert(changes.drop_last() =~= a);
        assert(changes.last() == b[0]);
    } else {
        assert(changes =~= a);
    }
    if a.len() > 0 {
        assert(a.drop_last() =~= Seq::<Setting>::empty());
        assert(a.last() == a[0]);
    }
}

/// A database that was accepted once is accepted again, with the same dimension and model and with
/// nothing left to write.
pub proof fn law_accepted_again(
    expected_dim: nat,
    expected_model: Option<Seq<char>>,
    stored_dim: Option<Seq<char>>,
    names: Seq<Seq<char>>,
    stored_model: Option<Seq<char>>,
    later_names: Seq<Seq<char>>,
)
    requires
        expected_dim <= usize::MAX,
        validation(expected_dim, expected_model, stored_dim, names, stored_model) is Ok,
    ensures
        ({
            let changes = validation(
                expected_dim,
                expected_model,
                stored_dim,
                names,
                stored_model,
            )->Ok_0;
            validation(
                expected_dim,
                expected_model,
                setting_after(stored_dim, changes, "embedding_dim"@),
                later_names,
                setting_after(stored_model, changes, "embedding_model"@),
            ) == Ok::<Seq<Setting>, Seq<char>>(Seq::empty())
        }),
{
    lemma_settings_after(expected_dim, expected_model, stored_dim, names, stored_model);
    assert(Seq::<Setting>::empty() + Seq::<Setting>::empty() =~= Seq::<Setting>::empty());
}

/// A database that was accepted for one dimension is refused for every other.
pub proof fn law_other_dimension_refused(
    dim: nat,
    model: Option<Seq<char>>,
    stored_dim: Option<Seq<char>>,
    names: Seq<Seq<char>>,
    stored_model: Option<Seq<char>>,
    other_dim: nat,
    other_model: Option<Seq<char>>,
    later_names: Seq<Seq<char>>,
)
    requires
        dim <= usize::MAX,
        validation(dim, model, stored_dim, names, stored_model) is Ok,
        other_dim != dim,
    ensures
        ({
            let changes = validation(dim, model, stored_dim, names, stored_model)->Ok_0;
            validation(
                other_dim,
                other_model,
                setting_after(stored_dim, changes, "embedding_dim"@),
                later_names,
                setting_after(stored_model, changes, "embedding_model"@),
            ) == Err::<Seq<Setting>, Seq<char>>(dim_mismatch_text(dim, other_dim))
        }),
{
    lemma_settings_after(dim, model, stored_dim, names, stored_model);
}

/// A database that was accepted for one model is refused for every other.
pub proof fn law_other_model_refused(
    dim: nat,
    model: Seq<char>,
    stored_dim: Option<Seq<char>>,
    names: Seq<Seq<char>>,
    stored_model: Option<Seq<char>>,
    other_model: Seq<char>,
    later_names: Seq<Seq<char>>,
)
    requires
        dim <= usize::MAX,
        validation(dim, Some(model), stored_dim, names, stored_model) is Ok,
        other_model != model,
    ensures
        ({
            let changes = validation(dim, Some(model), stored_dim, names, stored_model)->Ok_0;
            validation(
                dim,
                Some(other_model),
                setting_after(stored_dim, changes, "embedding_dim"@),
                later_names,
                setting_after(stored_model, changes, "embedding_model"@),
            ) == Err::<Seq<Setting>, Seq<char>>(model_mismatch_text(model, other_model))
        }),
{
    lemma_settings_after(dim, Some(model), stored_dim, names, stored_model);
}

/// What a new connection executes first. The journal mode is set again behind the foreign keys.
pub open spec fn opening_statements() -> Seq<StatementView> {
    seq![
        stmt("PRAGMA journal_mode = WAL"@, Seq::empty()),
        stmt("PRAGMA foreign_keys = ON"@, Seq::empty()),
        stmt("PRAGMA journal_mode = WAL"@, Seq::empty()),
    ]
}

/// The statement that makes the table of settings, where there is none.
pub open spec fn settings_table() -> StatementView {
    stmt(
        "CREATE TABLE IF NOT EXISTS capsa_metadata (key TEXT PRIMARY KEY, value TEXT NOT NULL)"@,
        Seq::empty(),
    )
}

/// The query for a setting.
pub open spec fn setting_query(key: Seq<char>) -> StatementView {
    stmt("SELECT value FROM capsa_metadata WHERE key = ?1"@, seq![ParamView::Text(key)])
}

/// The statement that writes a setting, in place of the value it has.
pub open spec fn setting_change(key: Seq<char>, value: Seq<char>) -> StatementView {
    stmt(
        "INSERT INTO capsa_metadata (key, value) VALUES (?1, ?2) ON CONFLICT(key) DO UPDATE SET value = excluded.value"@,
        seq![ParamView::Text(key), ParamView::Text(value)],
    )
}

/// The query for the names of the tables of documents.
pub open spec fn tables_query() -> StatementView {
    stmt(
        "SELECT name FROM sqlite_master WHERE type = 'table' AND name GLOB 'documents_[0-9]*'"@,
        Seq::empty(),
    )
}

/// What a new connection executes first.
pub fn opening() -> (res: Vec<Statement>)
    ensures
        statement_views(res@) == opening_statements(),
{
    let mut res: Vec<Statement> = Vec::new();
    res.push(plain("PRAGMA journal_mode = WAL"));
    res.push(plain("PRAGMA foreign_keys = ON"));
    res.push(plain("PRAGMA journal_mode = WAL"));
    assert(statement_views(res@) =~= opening_statements());
    res
}

/// Makes the table of settings, where there is none.
pub fn setup_metadata_table() -> (res: Statement)
    ensures
        res@ == settings_table(),
{
    plain("CREATE TABLE IF NOT EXISTS capsa_metadata (key TEXT PRIMARY KEY, value TEXT NOT NULL)")
}

/// Asks for a setting.
pub fn get_metadata(key: &str) -> (res: Statement)
    ensures
        res@ == setting_query(key@),
{
    let mut params: Vec<Param> = Vec::new();
    params.push(Param::Text(copy_of(key)));
    assert(param_views(params@) =~= seq![ParamView::Text(key@)]);
    bound("SELECT value FROM capsa_metadata WHERE key = ?1", params)
}

/// Writes a setting.
pub fn set_metadata(key: &str, value: &str) -> (res: Statement)
    ensures
        res@ == setting_change(key@, value@),
{
    let mut params: Vec<Param> = Vec::new();
    params.push(Param::Text(copy_of(key)));
    params.push(Param::Text(copy_of(value)));
    assert(param_views(params@) =~= seq![ParamView::Text(key@), ParamView::Text(value@)]);
    bound(
        "INSERT INTO capsa_metadata (key, value) VALUES (?1, ?2) ON CONFLICT(key) DO UPDATE SET value = excluded.value",
        params,
    )
}

/// Asks for the names of the tables of documents.
pub fn legacy_tables() -> (res: Statement)
    ensures
        res@ == tables_query(),
{
    plain("SELECT name FROM sqlite_master WHERE type = 'table' AND name GLOB 'documents_[0-9]*'")
}

/// A row that a search returns: document, metadata, and where the chunk begins and ends.
pub type HitRow = (i64, String, i64, i64);

/// A row that a search with distances returns. The distance is the bit pattern of a
/// single-precision number, and missing where there is none.
pub type DistanceRow = (i64, String, Option<u32>, i64, i64);

/// A row that a search with vectors returns.
pub type VectorRow = (i64, String, Vec<u8>, i64, i64);

/// A chunk that a search found.
pub type Hit = (i64, Metadata, i64, i64);

/// A chunk that a search found, with the bit pattern of its distance.
pub type DistanceHit = (i64, Metadata, u32, i64, i64);

/// A chunk that a search found, with the bit patterns of its vector.
pub type VectorHit = (i64, Metadata, Vec<u32>, i64, i64);

/// The bit pattern of the largest finite single-precision number.
pub const LARGEST_DISTANCE: u32 = 0x7f7f_ffff;

/// Whether a result is what a row holds.
pub open spec fn is_hit_of(hit: Hit, row: HitRow) -> bool {
    &&& hit.0 == row.0
    &&& hit.1.wf()
    &&& json_metadata(row.1@) == Some(hit.1@)
    &&& hit.2 == row.2
    &&& hit.3 == row.3
}

/// The bit pattern of the distance that a row stands for. A missing distance is the largest.
pub open spec fn row_distance(row: DistanceRow) -> u32 {
    match row.2 {
        Some(bits) => bits,
        None => LARGEST_DISTANCE,
    }
}

/// Whether a result with a distance is what a row holds.
pub open spec fn is_distance_hit_of(hit: DistanceHit, row: DistanceRow) -> bool {
    &&& hit.0 == row.0
    &&& hit.1.wf()
    &&& json_metadata(row.1@) == Some(hit.1@)
    &&& hit.2 == row_distance(row)
    &&& hit.3 == row.3
    &&& hit.4 == row.4
}

/// Whether a result with a vector is what a row holds. Bytes that make no whole component are left
/// out.
pub open spec fn is_vector_hit_of(hit: VectorHit, row: VectorRow) -> bool {
    &&& hit.0 == row.0
    &&& hit.1.wf()
    &&& json_metadata(row.1@) == Some(hit.1@)
    &&& hit.2@ == words_at(row.2@, 0, row.2@.len() / 4)
    &&& hit.3 == row.3
    &&& hit.4 == row.4
}

/// Whether this is made of the rows of a search: a result for each, in their order, or the error of
/// the first row of which the metadata is no JSON.
pub open spec fn are_hits_of(res: Result<Vec<Hit>>, rows: Seq<HitRow>) -> bool {
    match res {
        Ok(hits) => hits@.len() == rows.len() && forall|i: int|
            0 <= i < rows.len() ==> is_hit_of(#[trigger] hits@[i], rows[i]),
        Err(e) => exists|i: int|
            {
                &&& 0 <= i < rows.len()
                &&& !is_json((#[trigger] rows[i]).1@)
                &&& is_metadata_error(rows[i].1@, e)
                &&& forall|k: int| 0 <= k < i ==> is_json((#[trigger] rows[k]).1@)
            },
    }
}

/// Whether this is made of the rows of a search with distances.
pub open spec fn are_distance_hits_of(res: Result<Vec<DistanceHit>>, rows: Seq<DistanceRow>) -> bool {
    match res {
        Ok(hits) => hits@.len() == rows.len() && forall|i: int|
            0 <= i < rows.len() ==> is_distance_hit_of(#[trigger] hits@[i], rows[i]),
        Err(e) => exists|i: int|
            {
                &&& 0 <= i < rows.len()
                &&& !is_json((#[trigger] rows[i]).1@)
                &&& is_metadata_error(rows[i].1@, e)
                &&& forall|k: int| 0 <= k < i ==> is_json((#[trigger] rows[k]).1@)
            },
    }
}

/// Whether this is made of the rows of a search with vectors.
pub open spec fn are_vector_hits_of(res: Result<Vec<VectorHit>>, rows: Seq<VectorRow>) -> bool {
    match res {
        Ok(hits) => hits@.len() == rows.len() && forall|i: int|
            0 <= i < rows.len() ==> is_vector_hit_of(#[trigger] hits@[i], rows[i]),
        Err(e) => exists|i: int|
            {
                &&& 0 <= i < rows.len()
                &&& !is_json((#[trigger] rows[i]).1@)
                &&& is_metadata_error(rows[i].1@, e)
                &&& forall|k: int| 0 <= k < i ==> is_json((#[trigger] rows[k]).1@)
            },
    }
}

/// The components of a stored vector.
pub fn vector_words(blob: &Vec<u8>) -> (res: Vec<u32>)
    ensures
        res@ == words_at(blob@, 0, blob@.len() / 4),
{
    let len: usize = blob.len();
    let count: usize = len / 4;
    let mut words: Vec<u32> = Vec::new();
    let mut i: usize = 0;
    while i < count
        invariant
            len == blob@.len(),
            count == len / 4,
            i <= count,
            words@.len() == i,
            forall|k: int|
                0 <= k < i ==> #[trigger] words@[k] == number_at(blob@, 4 * k, 4) as u32,
        decreases count - i,
    {
        words.push(crate::embeddings::read_number(blob.as_slice(), 4 * i, 4) as u32);
        i = i + 1;
    }
    assert(words@ =~= words_at(blob@, 0, blob@.len() / 4));
    words
}

/// The query that a search executes.
pub open spec fn search_statement(
    sql: Seq<char>,
    vector: Seq<char>,
    limit: usize,
) -> StatementView {
    stmt(sql, seq![ParamView::Text(vector), ParamView::Integer(limit as i64)])
}

fn search_with(sql: &String, vector: &str, limit: usize) -> (res: Statement)
    ensures
        res@ == search_statement(sql@, vector@, limit),
{
    let mut params: Vec<Param> = Vec::new();
    params.push(Param::Text(copy_of(vector)));
    params.push(Param::Integer(limit as i64));
    assert(param_views(params@) =~= seq![
        ParamView::Text(vector@),
        ParamView::Integer(limit as i64),
    ]);
    bound(sql.as_str(), params)
}

/// Whether a statement stores a document of a dimension: the content compressed, so that reading
/// it back gives the content, and the metadata as it is.
pub open spec fn is_insert_of(
    statement: StatementView,
    dim: nat,
    content: Seq<char>,
    metadata: Seq<char>,
) -> bool {
    &&& statement.sql == insert_document_sql(dim)
    &&& statement.params.len() == 2
    &&& statement.params[0] matches ParamView::Blob(frame) && lz4_decoded(frame) == Some(
        encode_utf8(content),
    )
    &&& statement.params[1] == ParamView::Text(metadata)
}

/// The statement that stores the embedding of a chunk.
pub open spec fn chunk_statement(
    dim: nat,
    doc_id: i64,
    index: int,
    chunk: (Seq<char>, usize, usize),
) -> StatementView {
    stmt(
        insert_vectors_sql(dim),
        seq![
            ParamView::Integer(doc_id),
            ParamView::Integer(index as i64),
            ParamView::Integer(chunk.1 as i64),
            ParamView::Integer(chunk.2 as i64),
            ParamView::Text(chunk.0),
        ],
    )
}

/// The text that a stored document holds, where it can be read.
pub open spec fn stored_text(frame: Seq<u8>) -> Option<Seq<char>> {
    match lz4_decoded(frame) {
        Some(data) => if valid_utf8(data) {
            Some(decode_utf8(data))
        } else {
            None
        },
        None => None,
    }
}

/// A connection to the vector database: which statements each operation executes, and what it
/// makes of the rows that the database returns.
#[derive(Debug)]
pub struct VectorDatabaseConnection {
    pub schema: VectorDatabaseSchema,
    pub executor: Executor,
}

impl VectorDatabaseConnection {
    /// The statements are those of the schema's dimension.
    pub open spec fn wf(&self) -> bool {
        self.schema.wf()
    }

    /// The dimension of the embeddings.
    pub open spec fn dim(&self) -> nat {
        self.schema.vec_size as nat
    }

    /// What makes the tables and the index, where there are none.
    pub fn setup_schema(&self) -> (res: Vec<Statement>)
        requires
            self.wf(),
        ensures
            statement_views(res@) == seq![
                stmt(create_documents_table_sql(self.dim()), Seq::empty()),
                stmt(create_vectors_table_sql(self.dim()), Seq::empty()),
                stmt(create_index_table_sql(self.dim()), Seq::empty()),
            ],
    {
        let mut res: Vec<Statement> = Vec::new();
        res.push(plain(self.schema.create_documents_table.as_str()));
        res.push(plain(self.schema.create_vectors_table.as_str()));
        res.push(plain(self.schema.create_index_table.as_str()));
        assert(statement_views(res@) =~= seq![
            stmt(create_documents_table_sql(self.dim()), Seq::empty()),
            stmt(create_vectors_table_sql(self.dim()), Seq::empty()),
            stmt(create_index_table_sql(self.dim()), Seq::empty()),
        ]);
        res
    }

    /// Stores a document. Its metadata is JSON text.
    pub fn insert_document(&self, content: &str, metadata: &str) -> (res: Result<Statement>)
        requires
            self.wf(),
        ensures
            res matches Ok(s) && is_insert_of(s@, self.dim(), content@, metadata@),
    {
        match compress(content.as_bytes()) {
            Err(e) => Err(e),
            Ok(frame) => Ok(self.insert_document_pre_compressed(frame, metadata)),
        }
    }

    /// Stores a document whose content is compressed already.
    pub fn insert_document_pre_compressed(&self, compressed: Vec<u8>, metadata: &str) -> (res:
        Statement)
        requires
            self.wf(),
        ensures
            res@ == stmt(
                insert_document_sql(self.dim()),
                seq![ParamView::Blob(compressed@), ParamView::Text(metadata@)],
            ),
    {
        let ghost frame = compressed@;
        let mut params: Vec<Param> = Vec::new();
        params.push(Param::Blob(compressed));
        params.push(Param::Text(copy_of(metadata)));
        assert(param_views(params@) =~= seq![ParamView::Blob(frame), ParamView::Text(metadata@)]);
        bound(self.schema.insert_document.as_str(), params)
    }

    /// The number of the document that was stored, given what the database returned.
    pub fn inserted_id(&self, row: Option<i64>) -> (res: Result<i64>)
        ensures
            match (row, res) {
                (Some(id), Ok(n)) => n == id,
                (None, Err(e)) => e matches CapsaError::Database(DatabaseError::InsertFailed(s))
                    && s@ == "No ID returned"@,
                _ => false,
            },
    {
        match row {
            Some(id) => Ok(id),
            None => Err(
                CapsaError::Database(DatabaseError::InsertFailed("No ID returned".to_owned())),
            ),
        }
    }

    /// Stores the embedding of the chunk of a document with an index. The vector comes as JSON
    /// text.
    pub fn chunk_insert(&self, doc_id: i64, index: usize, chunk: &(String, usize, usize)) -> (res:
        Statement)
        requires
            self.wf(),
        ensures
            res@ == chunk_statement(
                self.dim(),
                doc_id,
                index as int,
                (chunk.0@, chunk.1, chunk.2),
            ),
    {
        let mut params: Vec<Param> = Vec::new();
        params.push(Param::Integer(doc_id));
        params.push(Param::Integer(index as i64));
        params.push(Param::Integer(chunk.1 as i64));
        params.push(Param::Integer(chunk.2 as i64));
        params.push(Param::Text(chunk.0.clone()));
        proof {
            assert(param_views(params@) =~= chunk_statement(
                self.dim(),
                doc_id,
                index as int,
                (chunk.0@, chunk.1, chunk.2),
            ).params);
        }
        bound(self.schema.insert_vectors.as_str(), params)
    }

    /// Stores the embeddings of the chunks of a document, in their order. Behind each statement
    /// stands how many chunks are stored once it was executed. A vector comes as JSON text.
    pub fn insert_document_with_progress(
        &self,
        doc_id: i64,
        vectors: &Vec<(String, usize, usize)>,
    ) -> (res: Vec<(Statement, usize)>)
        requires
            self.wf(),
        ensures
            res@.len() == vectors@.len(),
            forall|i: int|
                0 <= i < vectors@.len() ==> (#[trigger] res@[i]).0@ == chunk_statement(
                    self.dim(),
                    doc_id,
                    i,
                    (vectors@[i].0@, vectors@[i].1, vectors@[i].2),
                ) && res@[i].1 == i + 1,
    {
        let n: usize = vectors.len();
        let mut res: Vec<(Statement, usize)> = Vec::new();
        let mut i: usize = 0;
        while i < n
            invariant
                self.wf(),
                n == vectors@.len(),
                i <= n,
                res@.len() == i,
                forall|k: int|
                    0 <= k < i ==> (#[trigger] res@[k]).0@ == chunk_statement(
                        self.dim(),
                        doc_id,
                        k,
                        (vectors@[k].0@, vectors@[k].1, vectors@[k].2),
                    ) && res@[k].1 == k + 1,
            decreases n - i,
        {
            res.push((self.chunk_insert(doc_id, i, &vectors[i]), i + 1));
            i = i + 1;
        }
        res
    }

    /// Searches for the chunks nearest to a vector, which comes as JSON text.
    pub fn search_topk(&self, query_vector: &str, limit: usize) -> (res: Statement)
        requires
            self.wf(),
        ensures
            res@ == search_statement(search_topk_sql(self.dim()), query_vector@, limit),
    {
        search_with(&self.schema.search_topk, query_vector, limit)
    }

    /// Searches for the chunks nearest to a vector, and for their distances.
    pub fn search_topk_with_distance(&self, query_vector: &str, limit: usize) -> (res: Statement)
        requires
            self.wf(),
        ensures
            res@ == search_statement(
                search_topk_with_distance_sql(self.dim()),
                query_vector@,
                limit,
            ),
    {
        search_with(&self.schema.search_topk_with_distance, query_vector, limit)
    }

    /// Searches for the chunks nearest to a vector, and for their embeddings.
    pub fn search_topk_with_vectors(&self, query_vector: &str, limit: usize) -> (res: Statement)
        requires
            self.wf(),
        ensures
            res@ == search_statement(
                search_topk_with_vectors_sql(self.dim()),
                query_vector@,
                limit,
            ),
    {
        search_with(&self.schema.search_topk_with_vectors, query_vector, limit)
    }

    /// The chunks that the rows of a search hold, in their order. It fails where the metadata of
    /// one is no JSON.
    pub fn hits(&self, rows: &Vec<HitRow>) -> (res: Result<Vec<Hit>>)
        ensures
            are_hits_of(res, rows@),
    {
        let n: usize = rows.len();
        let mut hits: Vec<Hit> = Vec::new();
        let mut i: usize = 0;
        while i < n
            invariant
                n == rows@.len(),
                i <= n,
                hits@.len() == i,
                forall|k: int| 0 <= k < i ==> is_hit_of(#[trigger] hits@[k], rows@[k]),
            decreases n - i,
        {
            match Metadata::from_json(rows[i].1.as_str()) {
                Err(e) => {
                    proof {
                        assert forall|k: int| 0 <= k < i implies is_json(
                            (#[trigger] rows@[k]).1@,
                        ) by {
                            assert(is_hit_of(hits@[k], rows@[k]));
                        }
                    }
                    return Err(e);
                },
                Ok(metadata) => {
                    hits.push((rows[i].0, metadata, rows[i].2, rows[i].3));
                },
            }
            i = i + 1;
        }
        Ok(hits)
    }

    /// The chunks that the rows of a search with distances hold, in their order.
    pub fn distance_hits(&self, rows: &Vec<DistanceRow>) -> (res: Result<Vec<DistanceHit>>)
        ensures
            are_distance_hits_of(res, rows@),
    {
        let n: usize = rows.len();
        let mut hits: Vec<DistanceHit> = Vec::new();
        let mut i: usize = 0;
        while i < n
            invariant
                n == rows@.len(),
                i <= n,
                hits@.len() == i,
                forall|k: int| 0 <= k < i ==> is_distance_hit_of(#[trigger] hits@[k], rows@[k]),
            decreases n - i,
        {
            match Metadata::from_json(rows[i].1.as_str()) {
                Err(e) => {
                    proof {
                        assert forall|k: int| 0 <= k < i implies is_json(
                            (#[trigger] rows@[k]).1@,
                        ) by {
                            assert(is_distance_hit_of(hits@[k], rows@[k]));
                        }
                    }
                    return Err(e);
                },
                Ok(metadata) => {
                    let distance: u32 = match rows[i].2 {
                        Some(bits) => bits,
                        None => LARGEST_DISTANCE,
                    };
                    hits.push((rows[i].0, metadata, distance, rows[i].3, rows[i].4));
                },
            }
            i = i + 1;
        }
        Ok(hits)
    }

    /// The chunks that the rows of a search with vectors hold, in their order.
    pub fn vector_hits(&self, rows: &Vec<VectorRow>) -> (res: Result<Vec<VectorHit>>)
        ensures
            are_vector_hits_of(res, rows@),
    {
        let n: usize = rows.len();
        let mut hits: Vec<VectorHit> = Vec::new();
        let mut i: usize = 0;
        while i < n
            invariant
                n == rows@.len(),
                i <= n,
                hits@.len() == i,
                forall|k: int| 0 <= k < i ==> is_vector_hit_of(#[trigger] hits@[k], rows@[k]),
            decreases n - i,
        {
            match Metadata::from_json(rows[i].1.as_str()) {
                Err(e) => {
                    proof {
                        assert forall|k: int| 0 <= k < i implies is_json(
                            (#[trigger] rows@[k]).1@,
                        ) by {
                            assert(is_vector_hit_of(hits@[k], rows@[k]));
                        }
                    }
                    return Err(e);
                },
                Ok(metadata) => {
                    let words = vector_words(&rows[i].2);
                    hits.push((rows[i].0, metadata, words, rows[i].3, rows[i].4));
                },
            }
            i = i + 1;
        }
        Ok(hits)
    }

    /// Asks for a document by its number.
    pub fn fetch_document(&self, doc_id: i64) -> (res: Statement)
        requires
            self.wf(),
        ensures
            res@ == stmt(fetch_document_sql(self.dim()), seq![ParamView::Integer(doc_id)]),
    {
        let mut params: Vec<Param> = Vec::new();
        params.push(Param::Integer(doc_id));
        assert(param_views(params@) =~= seq![ParamView::Integer(doc_id)]);
        bound(self.schema.fetch_document.as_str(), params)
    }

    /// The content and the metadata of a document, given its row: nothing where there is none. It
    /// fails where the content cannot be read, and then where the metadata is no JSON.
    pub fn fetched_document(&self, row: Option<(Vec<u8>, String)>) -> (res: Result<
        Option<(String, Metadata)>,
    >)
        ensures
            match (row, res) {
                (None, Ok(found)) => found is None,
                (None, Err(_)) => false,
                (Some(r), Ok(found)) => {
                    &&& found matches Some((content, metadata))
                    &&& stored_text(r.0@) == Some(content@)
                    &&& metadata.wf()
                    &&& json_metadata(r.1@) == Some(metadata@)
                },
                (Some(r), Err(e)) => match lz4_decoded(r.0@) {
                    None => is_frame_error(r.0@, e),
                    Some(data) => if !valid_utf8(data) {
                        is_invalid_text(e)
                    } else {
                        !is_json(r.1@) && is_metadata_error(r.1@, e)
                    },
                },
            },
    {
        match row {
            None => Ok(None),
            Some(r) => match decompress_text(r.0.as_slice()) {
                Err(e) => Err(e),
                Ok(content) => match Metadata::from_json(r.1.as_str()) {
                    Err(e) => Err(e),
                    Ok(metadata) => Ok(Some((content, metadata))),
                },
            },
        }
    }
}

/// The three searches ask for the same chunks: they look in the same place, with the same vector
/// and limit, and differ in the columns alone.
pub proof fn law_searches_ask_alike(n: nat, vector: Seq<char>, limit: usize)
    ensures
        search_source(n).is_suffix_of(search_topk_sql(n)),
        search_source(n).is_suffix_of(search_topk_with_distance_sql(n)),
        search_source(n).is_suffix_of(search_topk_with_vectors_sql(n)),
        search_statement(search_topk_sql(n), vector, limit).params == search_statement(
            search_topk_with_distance_sql(n),
            vector,
            limit,
        ).params,
        search_statement(search_topk_sql(n), vector, limit).params == search_statement(
            search_topk_with_vectors_sql(n),
            vector,
            limit,
        ).params,
{
    let source = search_source(n);
    lemma_suffix("SELECT e.doc_id, d.metadata, e.chunk_start, e.chunk_end "@, source);
    lemma_suffix(
        "SELECT e.doc_id, d.metadata, vector_distance_cos(e.embedding, vector(?1)) AS distance, e.chunk_start, e.chunk_end "@,
        source,
    );
    lemma_suffix(
        "SELECT e.doc_id, d.metadata, e.embedding, e.chunk_start, e.chunk_end "@,
        source,
    );
}

proof fn lemma_suffix(head: Seq<char>, tail: Seq<char>)
    ensures
        tail.is_suffix_of(head + tail),
{
    assert((head + tail).subrange(head.len() as int, (head + tail).len() as int) =~= tail);
}

/// Whether the rows of the three searches are about the same chunk: the same document, metadata and
/// bounds.
pub open spec fn same_row(row: HitRow, d: DistanceRow, v: VectorRow) -> bool {
    &&& row.0 == d.0 && row.0 == v.0
    &&& row.1@ == d.1@ && row.1@ == v.1@
    &&& row.2 == d.3 && row.2 == v.3
    &&& row.3 == d.4 && row.3 == v.4
}

/// Whether the results of the three searches are about the same chunk: the same document, metadata
/// and bounds.
pub open spec fn same_hit(hit: Hit, d: DistanceHit, v: VectorHit) -> bool {
    &&& hit.0 == d.0 && hit.0 == v.0
    &&& hit.1@ == d.1@ && hit.1@ == v.1@
    &&& hit.2 == d.3 && hit.2 == v.3
    &&& hit.3 == d.4 && hit.3 == v.4
}

/// The three searches agree where the database finds the same chunks for them.
///
/// They all succeed or all fail, and fail with the error of the same metadata. Where they succeed,
/// they give equally many results, one for each row and so no more than were asked for; at every
/// place these have the same document, metadata and bounds. A search with distances gives the
/// distances of the rows, so that these never decrease where those of the rows do not. A search
/// with vectors gives the vector that is stored for the chunk: a blob with four bytes for each
/// component of the dimension gives as many components.
pub proof fn law_searches_agree(
    conn: VectorDatabaseConnection,
    limit: nat,
    rows: Seq<HitRow>,
    distance_rows: Seq<DistanceRow>,
    vector_rows: Seq<VectorRow>,
    hits: Result<Vec<Hit>>,
    distance_hits: Result<Vec<DistanceHit>>,
    vector_hits: Result<Vec<VectorHit>>,
)
    requires
        rows.len() <= limit,
        rows.len() == distance_rows.len(),
        rows.len() == vector_rows.len(),
        forall|i: int|
            0 <= i < rows.len() ==> same_row(#[trigger] rows[i], distance_rows[i], vector_rows[i]),
        are_hits_of(hits, rows),
        are_distance_hits_of(distance_hits, distance_rows),
        are_vector_hits_of(vector_hits, vector_rows),
    ensures
        match (hits, distance_hits, vector_hits) {
            (Ok(a), Ok(d), Ok(v)) => {
                &&& a@.len() == rows.len() && d@.len() == rows.len() && v@.len() == rows.len()
                &&& a@.len() <= limit
                &&& forall|i: int|
                    0 <= i < rows.len() ==> same_hit(#[trigger] a@[i], d@[i], v@[i])
                &&& forall|i: int|
                    0 <= i < rows.len() ==> (#[trigger] d@[i]).2 == row_distance(distance_rows[i])
                &&& (forall|i: int, j: int|
                    0 <= i < j < rows.len() ==> row_distance(#[trigger] distance_rows[i])
                        <= row_distance(#[trigger] distance_rows[j])) ==> forall|i: int, j: int|
                    0 <= i < j < rows.len() ==> (#[trigger] d@[i]).2 <= (#[trigger] d@[j]).2
                &&& forall|i: int|
                    0 <= i < rows.len() && (#[trigger] vector_rows[i]).2@.len() == 4 * conn.dim()
                        ==> v@[i].2@.len() == conn.dim()
                &&& forall|i: int, words: Seq<u32>|
                    0 <= i < rows.len() && (#[trigger] vector_rows[i]).2@
                        == #[trigger] packed_words(words) ==> v@[i].2@ == words
            },
            (Err(a), Err(d), Err(v)) => exists|i: int|
                {
                    &&& 0 <= i < rows.len()
                    &&& !is_json((#[trigger] rows[i]).1@)
                    &&& is_metadata_error(rows[i].1@, a)
                    &&& is_metadata_error(rows[i].1@, d)
                    &&& is_metadata_error(rows[i].1@, v)
                    &&& forall|k: int| 0 <= k < i ==> is_json((#[trigger] rows[k]).1@)
                },
            _ => false,
        },
{
    assert forall|i: int| 0 <= i < rows.len() implies (#[trigger] rows[i]).1@
        == distance_rows[i].1@ && rows[i].1@ == vector_rows[i].1@ by {
        assert(same_row(rows[i], distance_rows[i], vector_rows[i]));
    }
    if forall|i: int| 0 <= i < rows.len() ==> is_json((#[trigger] rows[i]).1@) {
        lemma_all_found(rows, distance_rows, vector_rows, hits, distance_hits, vector_hits);
        let a = hits->Ok_0@;
        let d = distance_hits->Ok_0@;
        let v = vector_hits->Ok_0@;
        assert forall|i: int| 0 <= i < rows.len() implies same_hit(#[trigger] a[i], d[i], v[i]) by {
            assert(same_row(rows[i], distance_rows[i], vector_rows[i]));
            assert(is_hit_of(a[i], rows[i]));
            assert(is_distance_hit_of(d[i], distance_rows[i]));
            assert(is_vector_hit_of(v[i], vector_rows[i]));
        }
        assert forall|i: int| 0 <= i < rows.len() implies (#[trigger] d[i]).2 == row_distance(
            distance_rows[i],
        ) by {
            assert(is_distance_hit_of(d[i], distance_rows[i]));
        }
        assert forall|i: int|
            0 <= i < rows.len() && (#[trigger] vector_rows[i]).2@.len() == 4
                * conn.dim() implies v[i].2@.len() == conn.dim() by {
            assert(is_vector_hit_of(v[i], vector_rows[i]));
        }
        assert forall|i: int, words: Seq<u32>|
            0 <= i < rows.len() && (#[trigger] vector_rows[i]).2@ == #[trigger] packed_words(
                words,
            ) implies v[i].2@ == words by {
            assert(is_vector_hit_of(v[i], vector_rows[i]));
            law_words_round_trip(words);
        }
        if forall|i: int, j: int|
            0 <= i < j < rows.len() ==> row_distance(#[trigger] distance_rows[i]) <= row_distance(
                #[trigger] distance_rows[j],
            ) {
            assert forall|i: int, j: int| 0 <= i < j < rows.len() implies (#[trigger] d[i]).2 <= (
            #[trigger] d[j]).2 by {
                assert(row_distance(distance_rows[i]) <= row_distance(distance_rows[j]));
            }
        }
    } else {
        let bad = choose|i: int| 0 <= i < rows.len() && !is_json((#[trigger] rows[i]).1@);
        lemma_one_refused(
            rows,
            distance_rows,
            vector_rows,
            hits,
            distance_hits,
            vector_hits,
            bad,
        );
    }
}

/// Where all metadata is JSON, every search succeeds.
proof fn lemma_all_found(
    rows: Seq<HitRow>,
    distance_rows: Seq<DistanceRow>,
    vector_rows: Seq<VectorRow>,
    hits: Result<Vec<Hit>>,
    distance_hits: Result<Vec<DistanceHit>>,
    vector_hits: Result<Vec<VectorHit>>,
)
    requires
        rows.len() == distance_rows.len(),
        rows.len() == vector_rows.len(),
        forall|i: int|
            0 <= i < rows.len() ==> (#[trigger] rows[i]).1@ == distance_rows[i].1@ && rows[i].1@
                == vector_rows[i].1@,
        are_hits_of(hits, rows),
        are_distance_hits_of(distance_hits, distance_rows),
        are_vector_hits_of(vector_hits, vector_rows),
        forall|i: int| 0 <= i < rows.len() ==> is_json((#[trigger] rows[i]).1@),
    ensures
        hits is Ok,
        distance_hits is Ok,
        vector_hits is Ok,
{
    if distance_hits is Err {
        let i = choose|i: int| 0 <= i < rows.len() && !is_json((#[trigger] distance_rows[i]).1@);
        assert(is_json(rows[i].1@));
    }
    if vector_hits is Err {
        let i = choose|i: int| 0 <= i < rows.len() && !is_json((#[trigger] vector_rows[i]).1@);
        assert(is_json(rows[i].1@));
    }
}

/// Where some metadata is no JSON, every search fails, and with the error of the same metadata.
proof fn lemma_one_refused(
    rows: Seq<HitRow>,
    distance_rows: Seq<DistanceRow>,
    vector_rows: Seq<VectorRow>,
    hits: Result<Vec<Hit>>,
    distance_hits: Result<Vec<DistanceHit>>,
    vector_hits: Result<Vec<VectorHit>>,
    bad: int,
)
    requires
        rows.len() == distance_rows.len(),
        rows.len() == vector_rows.len(),
        forall|i: int|
            0 <= i < rows.len() ==> (#[trigger] rows[i]).1@ == distance_rows[i].1@ && rows[i].1@
                == vector_rows[i].1@,
        are_hits_of(hits, rows),
        are_distance_hits_of(distance_hits, distance_rows),
        are_vector_hits_of(vector_hits, vector_rows),
        0 <= bad < rows.len(),
        !is_json(rows[bad].1@),
    ensures
        hits matches Err(a) && distance_hits matches Err(d) && vector_hits matches Err(v)
            && exists|i: int|
            {
                &&& 0 <= i < rows.len()
                &&& !is_json((#[trigger] rows[i]).1@)
                &&& is_metadata_error(rows[i].1@, a)
                &&& is_metadata_error(rows[i].1@, d)
                &&& is_metadata_error(rows[i].1@, v)
                &&& forall|k: int| 0 <= k < i ==> is_json((#[trigger] rows[k]).1@)
            },
{
    if hits is Ok {
        assert(is_hit_of(hits->Ok_0@[bad], rows[bad]));
    }
    if distance_hits is Ok {
        assert(is_distance_hit_of(distance_hits->Ok_0@[bad], distance_rows[bad]));
    }
    if vector_hits is Ok {
        assert(is_vector_hit_of(vector_hits->Ok_0@[bad], vector_rows[bad]));
    }
    let a = hits->Err_0;
    let d = distance_hits->Err_0;
    let v = vector_hits->Err_0;
    let i = choose|i: int|
        {
            &&& 0 <= i < rows.len()
            &&& !is_json((#[trigger] rows[i]).1@)
            &&& is_metadata_error(rows[i].1@, a)
            &&& forall|k: int| 0 <= k < i ==> is_json((#[trigger] rows[k]).1@)
        };
    let j = choose|j: int|
        {
            &&& 0 <= j < rows.len()
            &&& !is_json((#[trigger] distance_rows[j]).1@)
            &&& is_metadata_error(distance_rows[j].1@, d)
            &&& forall|k: int| 0 <= k < j ==> is_json((#[trigger] distance_rows[k]).1@)
        };
    let l = choose|l: int|
        {
            &&& 0 <= l < rows.len()
            &&& !is_json((#[trigger] vector_rows[l]).1@)
            &&& is_metadata_error(vector_rows[l].1@, v)
            &&& forall|k: int| 0 <= k < l ==> is_json((#[trigger] vector_rows[k]).1@)
        };
    assert(rows[i].1@ == distance_rows[i].1@ && rows[i].1@ == vector_rows[i].1@);
    assert(rows[j].1@ == distance_rows[j].1@);
    assert(rows[l].1@ == vector_rows[l].1@);
    assert(i == j);
    assert(i == l);
}

/// The vector database: where it is, and which statements it uses.
#[derive(Debug)]
pub struct VectorDatabase {
    pub db_path: String,
    pub schema: VectorDatabaseSchema,
    pub executor: Executor,
}

impl VectorDatabase {
    /// The vector database at a path, for embeddings of `vec_size` components.
    pub fn new(db_path: &str, vec_size: usize, executor: Executor) -> (res: Self)
        ensures
            res.db_path@ == db_path@,
            res.schema.wf(),
            res.schema.vec_size == vec_size,
            res.executor == executor,
    {
        VectorDatabase {
            db_path: copy_of(db_path),
            schema: VectorDatabaseSchema::new(vec_size),
            executor,
        }
    }

    /// The dimension that a database stores, if it does.
    pub fn read_stored_embedding_dim(raw: Option<String>) -> (res: Result<Option<usize>>)
        ensures
            match raw {
                None => res matches Ok(dim) && dim is None,
                Some(text) => match (parsed_unsigned(text@, usize::MAX as nat), res) {
                    (Ok(n), Ok(dim)) => dim is Some && dim->0 == n,
                    (Err(e), Err(err)) => is_schema_error(err, invalid_dim_text(text@, e)),
                    _ => false,
                },
            },
    {
        match raw {
            None => Ok(None),
            Some(text) => match parse_embedding_dim(text.as_str()) {
                Ok(dim) => Ok(Some(dim)),
                Err(e) => Err(e),
            },
        }
    }

    /// A connection to the database, whatever its model, with the settings to write.
    pub fn connect(&self, stored: StoredSettings) -> (res: Result<
        (VectorDatabaseConnection, Vec<(String, String)>),
    >)
        ensures
            match (
                validation(
                    self.schema.vec_size as nat,
                    None,
                    optional_text(stored.dim),
                    texts(stored.table_names@),
                    optional_text(stored.model),
                ),
                res,
            ) {
                (Ok(settings), Ok((conn, v))) => conn.wf() && conn.schema.vec_size
                    == self.schema.vec_size && conn.executor == self.executor && setting_views(v@)
                    == settings,
                (Err(text), Err(e)) => is_schema_error(e, text),
                _ => false,
            },
    {
        self.connect_with_model(None, stored)
    }

    /// A connection to the database, with the settings to write. It fails where what is stored
    /// does not go with the dimension and the model.
    pub fn connect_with_model(&self, expected_model: Option<&str>, stored: StoredSettings) -> (res:
        Result<(VectorDatabaseConnection, Vec<(String, String)>)>)
        ensures
            match (
                validation(
                    self.schema.vec_size as nat,
                    optional_str(expected_model),
                    optional_text(stored.dim),
                    texts(stored.table_names@),
                    optional_text(stored.model),
                ),
                res,
            ) {
                (Ok(settings), Ok((conn, v))) => conn.wf() && conn.schema.vec_size
                    == self.schema.vec_size && conn.executor == self.executor && setting_views(v@)
                    == settings,
                (Err(text), Err(e)) => is_schema_error(e, text),
                _ => false,
            },
    {
        let conn = VectorDatabaseConnection {
            schema: VectorDatabaseSchema::new(self.schema.vec_size),
            executor: self.executor,
        };
        match validate_metadata(
            self.schema.vec_size,
            expected_model,
            stored.dim,
            &stored.table_names,
            stored.model,
        ) {
            Err(e) => Err(e),
            Ok(settings) => Ok((conn, settings)),
        }
    }
}

/// Fetching a document gives back the content and the metadata with which it was stored.
pub proof fn law_fetch_returns_inserted(
    statement: StatementView,
    dim: nat,
    content: Seq<char>,
    metadata: Seq<char>,
    row: (Seq<u8>, Seq<char>),
)
    requires
        is_insert_of(statement, dim, content, metadata),
        statement.params == seq![ParamView::Blob(row.0), ParamView::Text(row.1)],
    ensures
        stored_text(row.0) == Some(content),
        row.1 == metadata,
{
    assert(statement.params[0] == ParamView::Blob(row.0));
    assert(statement.params[1] == ParamView::Text(row.1));
    law_compressed_text_round_trip(content, row.0);
}

proof fn lemma_legacy_dims(names: Seq<Seq<char>>, dims: Seq<usize>)
    requires
        are_named_dims(names, dims),
    ensures
        legacy_dims(names) == dims,
{
    lemma_ascending_unique(legacy_dims(names), dims);
}

proof fn lemma_document_table(k: usize)
    ensures
        named_dim("documents_"@ + decimal(k as nat)) == Some(Ok::<nat, NumberError>(k as nat)),
{
    let name = "documents_"@ + decimal(k as nat);
    assert(name.subrange(0, "documents_"@.len() as int) =~= "documents_"@);
    assert(name.subrange("documents_"@.len() as int, name.len() as int) =~= decimal(k as nat));
    law_decimal_round_trip(k as nat, usize::MAX as nat);
}

/// A new database is accepted for every dimension and model, and remembers both.
pub proof fn law_new_database_accepted(dim: nat, model: Option<Seq<char>>)
    requires
        dim <= usize::MAX,
    ensures
        ({
            let outcome = validation(dim, model, None, Seq::empty(), None);
            &&& outcome matches Ok(changes) && {
                &&& setting_after(None, changes, "embedding_dim"@) == Some(decimal(dim))
                &&& setting_after(None, changes, "embedding_model"@) == model
            }
        }),
{
    let names = Seq::<Seq<char>>::empty();
    assert(are_named_dims(names, Seq::empty()));
    lemma_legacy_dims(names, Seq::empty());
    lemma_settings_after(dim, model, None, names, None);
    reveal_strlit("embedding_dim");
    reveal_strlit("embedding_model");
    assert("embedding_dim"@.len() != "embedding_model"@.len());
    reveal_with_fuel(setting_after, 3);
    let a = seq![("embedding_dim"@, decimal(dim))];
    let b = model_outcome(model, None)->Ok_0;
    let changes = a + b;
    if b.len() > 0 {
        assert(changes.drop_last() =~= a);
    } else {
        assert(changes =~= a);
    }
    assert(a.drop_last() =~= Seq::<Setting>::empty());
}

/// A database that remembers no dimension but has a table of documents is accepted for the dimension
/// of that table, and refused for every other, with a text that names both.
pub proof fn law_older_database(dim: usize, table_dim: usize, model: Option<Seq<char>>)
    ensures
        ({
            let names = seq!["documents_"@ + decimal(table_dim as nat)];
            let outcome = validation(dim as nat, model, None, names, None);
            if table_dim == dim {
                outcome is Ok
            } else {
                outcome == Err::<Seq<Setting>, Seq<char>>(
                    "Legacy database uses embedding dimension "@ + decimal(table_dim as nat)
                        + ", requested "@ + decimal(dim as nat),
                )
            }
        }),
{
    let name = "documents_"@ + decimal(table_dim as nat);
    let names = seq![name];
    lemma_document_table(table_dim);
    let dims = seq![table_dim];
    assert forall|d: usize| #[trigger] dims.contains(d) <==> is_named_dim(names, d) by {
        if dims.contains(d) {
            assert(named_dim(names[0]) == Some(Ok::<nat, NumberError>(d as nat)));
        }
        if is_named_dim(names, d) {
            assert(dims[0] == d);
        }
    }
    lemma_legacy_dims(names, dims);
    assert(names.drop_last() =~= Seq::<Seq<char>>::empty());
    reveal_with_fuel(first_bad_name, 2);
}

/// A database that remembers no dimension and has tables of two dimensions is refused.
pub proof fn law_mixed_database(dim: usize, a: usize, b: usize, model: Option<Seq<char>>)
    requires
        a < b,
    ensures
        validation(
            dim as nat,
            model,
            None,
            seq!["documents_"@ + decimal(a as nat), "documents_"@ + decimal(b as nat)],
            None,
        ) == Err::<Seq<Setting>, Seq<char>>(
            "Legacy database contains multiple embedding dimensions: ["@ + (decimal(a as nat)
                + ", "@ + decimal(b as nat)) + "]"@,
        ),
{
    let names = seq!["documents_"@ + decimal(a as nat), "documents_"@ + decimal(b as nat)];
    lemma_document_table(a);
    lemma_document_table(b);
    let dims = seq![a, b];
    assert forall|d: usize| #[trigger] dims.contains(d) <==> is_named_dim(names, d) by {
        if dims.contains(d) {
            if d == a {
                assert(named_dim(names[0]) == Some(Ok::<nat, NumberError>(d as nat)));
            } else {
                assert(named_dim(names[1]) == Some(Ok::<nat, NumberError>(d as nat)));
            }
        }
        if is_named_dim(names, d) {
            assert(dims[0] == a && dims[1] == b);
        }
    }
    lemma_legacy_dims(names, dims);
    assert(names.drop_last() =~= seq![names[0]]);
    assert(names.drop_last().drop_last() =~= Seq::<Seq<char>>::empty());
    reveal_with_fuel(first_bad_name, 3);
    reveal_with_fuel(listed, 3);
    assert(dims.drop_last() =~= seq![a]);
}

/// A database that remembers another dimension or another model is refused with a text that names
/// what it remembers and what was asked for; the dimension is looked at first.
pub proof fn law_refusal_names_both(
    dim: nat,
    model: Seq<char>,
    other_dim: nat,
    other_model: Seq<char>,
    names: Seq<Seq<char>>,
)
    requires
        dim <= usize::MAX,
    ensures
        other_dim != dim ==> validation(
            other_dim,
            Some(other_model),
            Some(decimal(dim)),
            names,
            Some(model),
        ) == Err::<Seq<Setting>, Seq<char>>(
            "Embedding dimension mismatch: database uses "@ + decimal(dim) + ", requested "@
                + decimal(other_dim),
        ),
        other_model != model ==> validation(
            dim,
            Some(other_model),
            Some(decimal(dim)),
            names,
            Some(model),
        ) == Err::<Seq<Setting>, Seq<char>>(
            "Embedding model mismatch: database uses '"@ + model + "', requested '"@ + other_model
                + "'"@,
        ),
{
    law_decimal_round_trip(dim, usize::MAX as nat);
}

} // verus!
