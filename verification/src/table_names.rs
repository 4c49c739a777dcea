//! Which tables the statements of a dimension name.

use vstd::prelude::*;
use crate::text::{decimal, is_digit, lemma_decimal, occurs_at};
use crate::vectordb::{
    create_documents_table_sql, create_index_table_sql, create_vectors_table_sql, documents_table,
    embeddings_index, embeddings_table, fetch_document_sql, insert_document_sql,
    insert_vectors_sql, search_source, search_topk_sql, search_topk_with_distance_sql,
    search_topk_with_vectors_sql,
};

verus! {

/// Whether a character can stand in a name.
pub open spec fn is_name_char(c: char) -> bool {
    ||| is_digit(c)
    ||| 'a' <= c && c <= 'z'
    ||| 'A' <= c && c <= 'Z'
    ||| c == '_'
}

/// Whether a name stands in a statement as a whole: no character that can stand in a name comes
/// right before it or right behind it.
pub open spec fn names(sql: Seq<char>, name: Seq<char>) -> bool {
    exists|i: int|
        {
            &&& #[trigger] occurs_at(sql, name, i)
            &&& i == 0 || !is_name_char(sql[i - 1])
            &&& i + name.len() == sql.len() || !is_name_char(sql[i + name.len()])
        }
}

/// The statements for documents of one dimension.
pub open spec fn schema_texts(n: nat) -> Seq<Seq<char>> {
    seq![
        create_documents_table_sql(n),
        create_vectors_table_sql(n),
        create_index_table_sql(n),
        insert_document_sql(n),
        insert_vectors_sql(n),
        search_topk_sql(n),
        search_topk_with_distance_sql(n),
        search_topk_with_vectors_sql(n),
        fetch_document_sql(n),
    ]
}

/// The names of the tables and the index of one dimension.
pub open spec fn schema_names(n: nat) -> Seq<Seq<char>> {
    seq![documents_table(n), embeddings_table(n), embeddings_index(n)]
}

/// How many digits stand in `s` from `i` on.
spec fn digit_run(s: Seq<char>, i: int) -> nat
    decreases s.len() - i,
{
    if 0 <= i < s.len() && is_digit(s[i]) {
        1 + digit_run(s, i + 1)
    } else {
        0
    }
}

/// Whether the digits of `s` from `i` on are those of `n`.
spec fn is_number_at(s: Seq<char>, i: int, n: nat) -> bool {
    s.subrange(i, i + digit_run(s, i)) == decimal(n)
}

/// Whether every number right behind a `_` is `n`, and one at the beginning too.
spec fn numbered(s: Seq<char>, n: nat) -> bool {
    &&& s.len() > 0 && is_digit(s[0]) ==> is_number_at(s, 0, n)
    &&& forall|i: int|
        0 <= i < s.len() - 1 && #[trigger] s[i] == '_' && is_digit(s[i + 1]) ==> is_number_at(
            s,
            i + 1,
            n,
        )
}

/// Whether no digit stands right behind a `_`.
spec fn unnumbered(s: Seq<char>) -> bool {
    forall|i: int| 0 <= i < s.len() - 1 && #[trigger] s[i] == '_' ==> !is_digit(s[i + 1])
}

/// The same from `i` on, step by step.
spec fn unnumbered_from(s: Seq<char>, i: int) -> bool
    decreases s.len() - i,
{
    i + 1 >= s.len() || (!(s[i] == '_' && is_digit(s[i + 1])) && unnumbered_from(s, i + 1))
}

proof fn lemma_unnumbered(s: Seq<char>, from: int)
    requires
        0 <= from,
        unnumbered_from(s, from),
    ensures
        forall|i: int| from <= i < s.len() - 1 && #[trigger] s[i] == '_' ==> !is_digit(s[i + 1]),
    decreases s.len() - from,
{
    if from + 1 < s.len() {
        lemma_unnumbered(s, from + 1);
    }
}

proof fn lemma_run_of_digits(s: Seq<char>, i: int, k: nat)
    requires
        0 <= i,
        i + k <= s.len(),
        forall|j: int| i <= j < i + k ==> is_digit(#[trigger] s[j]),
        i + k == s.len() || !is_digit(s[i + k]),
    ensures
        digit_run(s, i) == k,
    decreases k,
{
    if k > 0 {
        assert(is_digit(s[i]));
        lemma_run_of_digits(s, i + 1, (k - 1) as nat);
    }
}

proof fn lemma_run_behind(l: Seq<char>, rest: Seq<char>, i: int)
    requires
        0 <= i <= rest.len(),
    ensures
        digit_run(l + rest, l.len() + i) == digit_run(rest, i),
        i + digit_run(rest, i) <= rest.len(),
    decreases rest.len() - i,
{
    if i < rest.len() && is_digit(rest[i]) {
        lemma_run_behind(l, rest, i + 1);
    }
}

proof fn lemma_number_behind(l: Seq<char>, rest: Seq<char>, i: int, n: nat)
    requires
        0 <= i <= rest.len(),
        is_number_at(rest, i, n),
    ensures
        is_number_at(l + rest, l.len() + i, n),
{
    lemma_run_behind(l, rest, i);
    let k = digit_run(rest, i);
    assert((l + rest).subrange(l.len() + i, l.len() + i + k) =~= rest.subrange(i, i + k));
}

/// A text without numbers may stand before a numbered one.
proof fn lemma_text_before(l: Seq<char>, rest: Seq<char>, n: nat)
    requires
        l.len() > 0,
        !is_digit(l[0]),
        unnumbered(l),
        numbered(rest, n),
    ensures
        numbered(l + rest, n),
        !is_digit((l + rest)[0]),
{
    let s = l + rest;
    assert forall|i: int|
        0 <= i < s.len() - 1 && #[trigger] s[i] == '_' && is_digit(s[i + 1]) implies is_number_at(
        s,
        i + 1,
        n,
    ) by {
        let m = l.len() as int;
        if i < m - 1 {
            assert(l[i] == '_');
        } else if i == m - 1 {
            assert(rest[0] == s[i + 1]);
            lemma_number_behind(l, rest, 0, n);
        } else {
            assert(rest[i - m] == '_');
            assert(rest[i - m + 1] == s[i + 1]);
            lemma_number_behind(l, rest, i - m + 1, n);
        }
    }
}

/// The number may stand before a numbered text that begins with no digit.
proof fn lemma_number_before(rest: Seq<char>, n: nat)
    requires
        numbered(rest, n),
        rest.len() == 0 || !is_digit(rest[0]),
    ensures
        numbered(decimal(n) + rest, n),
{
    lemma_decimal(n, n);
    let d = decimal(n);
    let s = d + rest;
    let m = d.len();
    assert forall|j: int| 0 <= j < m implies is_digit(#[trigger] s[j]) by {
        assert(s[j] == d[j]);
    }
    lemma_run_of_digits(s, 0, m);
    assert(s.subrange(0, m as int) =~= d);
    assert forall|i: int|
        0 <= i < s.len() - 1 && #[trigger] s[i] == '_' && is_digit(s[i + 1]) implies is_number_at(
        s,
        i + 1,
        n,
    ) by {
        if i < m {
            assert(is_digit(s[i]));
        }
        assert(rest[i - m] == '_');
        assert(rest[i - m + 1] == s[i + 1]);
        lemma_number_behind(d, rest, i - m + 1, n);
    }
}

/// A text that begins with no digit and holds no number behind a `_` is numbered.
proof fn lemma_text_alone(s: Seq<char>, n: nat)
    requires
        unnumbered(s),
        s.len() > 0 ==> !is_digit(s[0]),
    ensures
        numbered(s, n),
{
}

/// A numbered statement names nothing that ends in `_` and another number.
proof fn lemma_names_no_other(s: Seq<char>, n: nat, prefix: Seq<char>, m: nat)
    requires
        numbered(s, n),
        m != n,
        prefix.len() > 0,
        prefix.last() == '_',
    ensures
        !names(s, prefix + decimal(m)),
{
    let name = prefix + decimal(m);
    if names(s, name) {
        let i = choose|i: int|
            {
                &&& #[trigger] occurs_at(s, name, i)
                &&& i == 0 || !is_name_char(s[i - 1])
                &&& i + name.len() == s.len() || !is_name_char(s[i + name.len()])
            };
        let max = if n < m {
            m
        } else {
            n
        };
        lemma_decimal(m, max);
        lemma_decimal(n, max);
        let part = s.subrange(i, i + name.len());
        let at = i + prefix.len();
        let k = decimal(m).len();
        assert(part[prefix.len() - 1] == '_');
        assert(s[at - 1] == '_');
        assert forall|j: int| at <= j < at + k implies is_digit(#[trigger] s[j]) by {
            assert(s[j] == part[j - i]);
            assert(part[j - i] == decimal(m)[j - at]);
        }
        lemma_run_of_digits(s, at, k);
        assert(is_number_at(s, at, n));
        assert(s.subrange(at, at + k) =~= decimal(m)) by {
            assert forall|j: int| 0 <= j < k implies s.subrange(at, at + k)[j]
                == #[trigger] decimal(m)[j] by {
                assert(part[prefix.len() + j] == decimal(m)[j]);
            }
        }
        assert(decimal(m) == decimal(n));
    }
}

/// Whether a part of a statement begins with no digit and holds no number behind a `_`.
spec fn is_plain(s: Seq<char>) -> bool {
    &&& s.len() > 0
    &&& !is_digit(s[0])
    &&& unnumbered(s)
}

/// Whether a part of a statement may stand right behind a name.
spec fn ends_a_name(s: Seq<char>) -> bool {
    is_plain(s) && !is_name_char(s[0])
}

/// Whether a part of a statement may stand right before a name.
spec fn begins_a_name(s: Seq<char>) -> bool {
    is_plain(s) && !is_name_char(s.last())
}

/// The parts of the statements between the numbers.
proof fn lemma_parts()
    ensures
        is_plain("documents_"@),
        "documents_"@.last() == '_',
        is_plain("document_embeddings_"@),
        "document_embeddings_"@.last() == '_',
        is_plain("idx_embeddings_"@),
        "idx_embeddings_"@.last() == '_',
        begins_a_name("CREATE TABLE IF NOT EXISTS "@),
        ends_a_name(" (id INTEGER PRIMARY KEY AUTOINCREMENT, content BLOB, metadata JSON)"@),
        begins_a_name(" (id INTEGER PRIMARY KEY AUTOINCREMENT, content BLOB, metadata JSON)"@),
        ends_a_name(" (id INTEGER PRIMARY KEY AUTOINCREMENT, doc_id INTEGER, chunk_index INTEGER, chunk_start INTEGER, chunk_end INTEGER, embedding F32_BLOB("@),
        begins_a_name(" (id INTEGER PRIMARY KEY AUTOINCREMENT, doc_id INTEGER, chunk_index INTEGER, chunk_start INTEGER, chunk_end INTEGER, embedding F32_BLOB("@),
        ends_a_name("), FOREIGN KEY(doc_id) REFERENCES "@),
        begins_a_name("), FOREIGN KEY(doc_id) REFERENCES "@),
        ends_a_name("(id) ON DELETE CASCADE)"@),
        begins_a_name("(id) ON DELETE CASCADE)"@),
        begins_a_name("CREATE INDEX IF NOT EXISTS "@),
        ends_a_name(" ON "@),
        begins_a_name(" ON "@),
        ends_a_name("(libsql_vector_idx(embedding, 'metric=cosine'))"@),
        begins_a_name("(libsql_vector_idx(embedding, 'metric=cosine'))"@),
        begins_a_name("INSERT INTO "@),
        ends_a_name(" (content, metadata) VALUES (?1, ?2) RETURNING id"@),
        ends_a_name(" (doc_id, chunk_index, chunk_start, chunk_end, embedding) VALUES (?1, ?2, ?3, ?4, vector(?5))"@),
        begins_a_name(" (doc_id, chunk_index, chunk_start, chunk_end, embedding) VALUES (?1, ?2, ?3, ?4, vector(?5))"@),
        begins_a_name("FROM vector_top_k('"@),
        ends_a_name("', vector(?1), ?2) v JOIN "@),
        begins_a_name("', vector(?1), ?2) v JOIN "@),
        ends_a_name(" e ON e.rowid = v.id JOIN "@),
        begins_a_name(" e ON e.rowid = v.id JOIN "@),
        ends_a_name(" d ON e.doc_id = d.id"@),
        begins_a_name("SELECT e.doc_id, d.metadata, e.chunk_start, e.chunk_end "@),
        begins_a_name("SELECT e.doc_id, d.metadata, vector_distance_cos(e.embedding, vector(?1)) AS distance, e.chunk_start, e.chunk_end "@),
        begins_a_name("SELECT e.doc_id, d.metadata, e.embedding, e.chunk_start, e.chunk_end "@),
        begins_a_name("SELECT content, metadata FROM "@),
        ends_a_name(" WHERE id = ?1"@),
{
    assert(is_plain("documents_"@) && "documents_"@.last() == '_') by {
        let part = "documents_"@;
        reveal_strlit("documents_");
        reveal_with_fuel(unnumbered_from, 11);
        lemma_unnumbered(part, 0);
    }
    assert(is_plain("document_embeddings_"@) && "document_embeddings_"@.last() == '_') by {
        let part = "document_embeddings_"@;
        reveal_strlit("document_embeddings_");
        reveal_with_fuel(unnumbered_from, 21);
        lemma_unnumbered(part, 0);
    }
    assert(is_plain("idx_embeddings_"@) && "idx_embeddings_"@.last() == '_') by {
        let part = "idx_embeddings_"@;
        reveal_strlit("idx_embeddings_");
        reveal_with_fuel(unnumbered_from, 16);
        lemma_unnumbered(part, 0);
    }
    assert(begins_a_name("CREATE TABLE IF NOT EXISTS "@)) by {
        let part = "CREATE TABLE IF NOT EXISTS "@;
        reveal_strlit("CREATE TABLE IF NOT EXISTS ");
        reveal_with_fuel(unnumbered_from, 28);
        lemma_unnumbered(part, 0);
    }
    assert(ends_a_name(" (id INTEGER PRIMARY KEY AUTOINCREMENT, content BLOB, metadata JSON)"@) && begins_a_name(" (id INTEGER PRIMARY KEY AUTOINCREMENT, content BLOB, metadata JSON)"@)) by {
        let part = " (id INTEGER PRIMARY KEY AUTOINCREMENT, content BLOB, metadata JSON)"@;
        reveal_strlit(" (id INTEGER PRIMARY KEY AUTOINCREMENT, content BLOB, metadata JSON)");
        reveal_with_fuel(unnumbered_from, 69);
        lemma_unnumbered(part, 0);
    }
    assert(ends_a_name(" (id INTEGER PRIMARY KEY AUTOINCREMENT, doc_id INTEGER, chunk_index INTEGER, chunk_start INTEGER, chunk_end INTEGER, embedding F32_BLOB("@) && begins_a_name(" (id INTEGER PRIMARY KEY AUTOINCREMENT, doc_id INTEGER, chunk_index INTEGER, chunk_start INTEGER, chunk_end INTEGER, embedding F32_BLOB("@)) by {
        let part = " (id INTEGER PRIMARY KEY AUTOINCREMENT, doc_id INTEGER, chunk_index INTEGER, chunk_start INTEGER, chunk_end INTEGER, embedding F32_BLOB("@;
        reveal_strlit(" (id INTEGER PRIMARY KEY AUTOINCREMENT, doc_id INTEGER, chunk_index INTEGER, chunk_start INTEGER, chunk_end INTEGER, embedding F32_BLOB(");
        reveal_with_fuel(unnumbered_from, 32);
        assert(unnumbered_from(part, 120));
        assert(unnumbered_from(part, 90));
        assert(unnumbered_from(part, 60));
        assert(unnumbered_from(part, 30));
        lemma_unnumbered(part, 0);
    }
    assert(ends_a_name("), FOREIGN KEY(doc_id) REFERENCES "@) && begins_a_name("), FOREIGN KEY(doc_id) REFERENCES "@)) by {
        let part = "), FOREIGN KEY(doc_id) REFERENCES "@;
        reveal_strlit("), FOREIGN KEY(doc_id) REFERENCES ");
        reveal_with_fuel(unnumbered_from, 35);
        lemma_unnumbered(part, 0);
    }
    assert(ends_a_name("(id) ON DELETE CASCADE)"@) && begins_a_name("(id) ON DELETE CASCADE)"@)) by {
        let part = "(id) ON DELETE CASCADE)"@;
        reveal_strlit("(id) ON DELETE CASCADE)");
        reveal_with_fuel(unnumbered_from, 24);
        lemma_unnumbered(part, 0);
    }
    assert(begins_a_name("CREATE INDEX IF NOT EXISTS "@)) by {
        let part = "CREATE INDEX IF NOT EXISTS "@;
        reveal_strlit("CREATE INDEX IF NOT EXISTS ");
        reveal_with_fuel(unnumbered_from, 28);
        lemma_unnumbered(part, 0);
    }
    assert(ends_a_name(" ON "@) && begins_a_name(" ON "@)) by {
        let part = " ON "@;
        reveal_strlit(" ON ");
        reveal_with_fuel(unnumbered_from, 5);
        lemma_unnumbered(part, 0);
    }
    assert(ends_a_name("(libsql_vector_idx(embedding, 'metric=cosine'))"@) && begins_a_name("(libsql_vector_idx(embedding, 'metric=cosine'))"@)) by {
        let part = "(libsql_vector_idx(embedding, 'metric=cosine'))"@;
        reveal_strlit("(libsql_vector_idx(embedding, 'metric=cosine'))");
        reveal_with_fuel(unnumbered_from, 48);
        lemma_unnumbered(part, 0);
    }
    assert(begins_a_name("INSERT INTO "@)) by {
        let part = "INSERT INTO "@;
        reveal_strlit("INSERT INTO ");
        reveal_with_fuel(unnumbered_from, 13);
        lemma_unnumbered(part, 0);
    }
    assert(ends_a_name(" (content, metadata) VALUES (?1, ?2) RETURNING id"@)) by {
        let part = " (content, metadata) VALUES (?1, ?2) RETURNING id"@;
        reveal_strlit(" (content, metadata) VALUES (?1, ?2) RETURNING id");
        reveal_with_fuel(unnumbered_from, 50);
        lemma_unnumbered(part, 0);
    }
    assert(ends_a_name(" (doc_id, chunk_index, chunk_start, chunk_end, embedding) VALUES (?1, ?2, ?3, ?4, vector(?5))"@) && begins_a_name(" (doc_id, chunk_index, chunk_start, chunk_end, embedding) VALUES (?1, ?2, ?3, ?4, vector(?5))"@)) by {
        let part = " (doc_id, chunk_index, chunk_start, chunk_end, embedding) VALUES (?1, ?2, ?3, ?4, vector(?5))"@;
        reveal_strlit(" (doc_id, chunk_index, chunk_start, chunk_end, embedding) VALUES (?1, ?2, ?3, ?4, vector(?5))");
        reveal_with_fuel(unnumbered_from, 32);
        assert(unnumbered_from(part, 90));
        assert(unnumbered_from(part, 60));
        assert(unnumbered_from(part, 30));
        lemma_unnumbered(part, 0);
    }
    assert(begins_a_name("FROM vector_top_k('"@)) by {
        let part = "FROM vector_top_k('"@;
        reveal_strlit("FROM vector_top_k('");
        reveal_with_fuel(unnumbered_from, 20);
        lemma_unnumbered(part, 0);
    }
    assert(ends_a_name("', vector(?1), ?2) v JOIN "@) && begins_a_name("', vector(?1), ?2) v JOIN "@)) by {
        let part = "', vector(?1), ?2) v JOIN "@;
        reveal_strlit("', vector(?1), ?2) v JOIN ");
        reveal_with_fuel(unnumbered_from, 27);
        lemma_unnumbered(part, 0);
    }
    assert(ends_a_name(" e ON e.rowid = v.id JOIN "@) && begins_a_name(" e ON e.rowid = v.id JOIN "@)) by {
        let part = " e ON e.rowid = v.id JOIN "@;
        reveal_strlit(" e ON e.rowid = v.id JOIN ");
        reveal_with_fuel(unnumbered_from, 27);
        lemma_unnumbered(part, 0);
    }
    assert(ends_a_name(" d ON e.doc_id = d.id"@)) by {
        let part = " d ON e.doc_id = d.id"@;
        reveal_strlit(" d ON e.doc_id = d.id");
        reveal_with_fuel(unnumbered_from, 22);
        lemma_unnumbered(part, 0);
    }
    assert(begins_a_name("SELECT e.doc_id, d.metadata, e.chunk_start, e.chunk_end "@)) by {
        let part = "SELECT e.doc_id, d.metadata, e.chunk_start, e.chunk_end "@;
        reveal_strlit("SELECT e.doc_id, d.metadata, e.chunk_start, e.chunk_end ");
        reveal_with_fuel(unnumbered_from, 57);
        lemma_unnumbered(part, 0);
    }
    assert(begins_a_name("SELECT e.doc_id, d.metadata, vector_distance_cos(e.embedding, vector(?1)) AS distance, e.chunk_start, e.chunk_end "@)) by {
        let part = "SELECT e.doc_id, d.metadata, vector_distance_cos(e.embedding, vector(?1)) AS distance, e.chunk_start, e.chunk_end "@;
        reveal_strlit("SELECT e.doc_id, d.metadata, vector_distance_cos(e.embedding, vector(?1)) AS distance, e.chunk_start, e.chunk_end ");
        reveal_with_fuel(unnumbered_from, 32);
        assert(unnumbered_from(part, 90));
        assert(unnumbered_from(part, 60));
        assert(unnumbered_from(part, 30));
        lemma_unnumbered(part, 0);
    }
    assert(begins_a_name("SELECT e.doc_id, d.metadata, e.embedding, e.chunk_start, e.chunk_end "@)) by {
        let part = "SELECT e.doc_id, d.metadata, e.embedding, e.chunk_start, e.chunk_end "@;
        reveal_strlit("SELECT e.doc_id, d.metadata, e.embedding, e.chunk_start, e.chunk_end ");
        reveal_with_fuel(unnumbered_from, 70);
        lemma_unnumbered(part, 0);
    }
    assert(begins_a_name("SELECT content, metadata FROM "@)) by {
        let part = "SELECT content, metadata FROM "@;
        reveal_strlit("SELECT content, metadata FROM ");
        reveal_with_fuel(unnumbered_from, 31);
        lemma_unnumbered(part, 0);
    }
    assert(ends_a_name(" WHERE id = ?1"@)) by {
        let part = " WHERE id = ?1"@;
        reveal_strlit(" WHERE id = ?1");
        reveal_with_fuel(unnumbered_from, 15);
        lemma_unnumbered(part, 0);
    }
}

/// A statement with one name in it.
proof fn lemma_one_name(l: Seq<char>, prefix: Seq<char>, n: nat, rest: Seq<char>)
    requires
        begins_a_name(l),
        is_plain(prefix),
        numbered(rest, n),
        rest.len() > 0,
        !is_name_char(rest[0]),
    ensures
        numbered(l + (prefix + decimal(n)) + rest, n),
        !is_digit((l + (prefix + decimal(n)) + rest)[0]),
        (l + (prefix + decimal(n)) + rest)[0] == l[0],
        names(l + (prefix + decimal(n)) + rest, prefix + decimal(n)),
{
    let name = prefix + decimal(n);
    let s = l + name + rest;
    lemma_number_before(rest, n);
    lemma_text_before(prefix, decimal(n) + rest, n);
    lemma_text_before(l, prefix + (decimal(n) + rest), n);
    assert(s =~= l + (prefix + (decimal(n) + rest)));
    let i = l.len() as int;
    assert(s.subrange(i, i + name.len()) =~= name);
    assert(occurs_at(s, name, i));
    assert(s[i - 1] == l.last());
    assert(s[i + name.len()] == rest[0]);
}

/// What stands in the rest of a statement stands in the statement.
proof fn lemma_named_behind(l: Seq<char>, rest: Seq<char>, name: Seq<char>)
    requires
        names(rest, name),
        l.len() == 0 || !is_name_char(l.last()) || (rest.len() > 0 && !is_name_char(rest[0])),
        name.len() > 0,
        is_name_char(name[0]),
    ensures
        names(l + rest, name),
{
    let i = choose|i: int|
        {
            &&& #[trigger] occurs_at(rest, name, i)
            &&& i == 0 || !is_name_char(rest[i - 1])
            &&& i + name.len() == rest.len() || !is_name_char(rest[i + name.len()])
        };
    let s = l + rest;
    let m = l.len() as int;
    assert(s.subrange(m + i, m + i + name.len()) =~= rest.subrange(i, i + name.len()));
    assert(occurs_at(s, name, m + i));
    if i == 0 {
        assert(rest.subrange(0, name.len() as int)[0] == rest[0]);
    } else {
        assert(s[m + i - 1] == rest[i - 1]);
    }
    if i + name.len() < rest.len() {
        assert(s[m + i + name.len()] == rest[i + name.len()]);
    }
}

/// What the searches have in common is numbered and names the tables and the index.
proof fn lemma_search_source(n: nat)
    ensures
        numbered(search_source(n), n),
        names(search_source(n), documents_table(n)),
        names(search_source(n), embeddings_table(n)),
        names(search_source(n), embeddings_index(n)),
{
    lemma_parts();
    lemma_name_starts(n);
    let tail = " d ON e.doc_id = d.id"@;
    lemma_text_alone(tail, n);
    let to_documents = " e ON e.rowid = v.id JOIN "@;
    lemma_one_name(to_documents, "documents_"@, n, tail);
    let third = to_documents + documents_table(n) + tail;
    let to_embeddings = "', vector(?1), ?2) v JOIN "@;
    lemma_one_name(to_embeddings, "document_embeddings_"@, n, third);
    let second = to_embeddings + embeddings_table(n) + third;
    let to_index = "FROM vector_top_k('"@;
    lemma_one_name(to_index, "idx_embeddings_"@, n, second);
    let front = to_index + embeddings_index(n);
    let middle = to_embeddings + embeddings_table(n);
    assert(search_source(n) =~= front + second);
    lemma_named_behind(front, second, embeddings_table(n));
    lemma_named_behind(middle, third, documents_table(n));
    lemma_named_behind(front, second, documents_table(n));
}

/// The names begin with characters that can stand in a name.
proof fn lemma_name_starts(n: nat)
    ensures
        documents_table(n).len() > 0 && is_name_char(documents_table(n)[0]),
        embeddings_table(n).len() > 0 && is_name_char(embeddings_table(n)[0]),
        embeddings_index(n).len() > 0 && is_name_char(embeddings_index(n)[0]),
{
    reveal_strlit("documents_");
    reveal_strlit("document_embeddings_");
    reveal_strlit("idx_embeddings_");
}

/// The statements that make the tables and the index are numbered and name them.
proof fn lemma_create_statements(n: nat)
    ensures
        numbered(create_documents_table_sql(n), n),
        names(create_documents_table_sql(n), documents_table(n)),
        numbered(create_vectors_table_sql(n), n),
        names(create_vectors_table_sql(n), embeddings_table(n)),
        names(create_vectors_table_sql(n), documents_table(n)),
        numbered(create_index_table_sql(n), n),
        names(create_index_table_sql(n), embeddings_index(n)),
        names(create_index_table_sql(n), embeddings_table(n)),
{
    lemma_parts();
    lemma_name_starts(n);
    let create = "CREATE TABLE IF NOT EXISTS "@;
    let fields = " (id INTEGER PRIMARY KEY AUTOINCREMENT, content BLOB, metadata JSON)"@;
    lemma_text_alone(fields, n);
    lemma_one_name(create, "documents_"@, n, fields);

    let cascade = "(id) ON DELETE CASCADE)"@;
    lemma_text_alone(cascade, n);
    let reference = "), FOREIGN KEY(doc_id) REFERENCES "@;
    lemma_one_name(reference, "documents_"@, n, cascade);
    let third = reference + documents_table(n) + cascade;
    let columns =
        " (id INTEGER PRIMARY KEY AUTOINCREMENT, doc_id INTEGER, chunk_index INTEGER, chunk_start INTEGER, chunk_end INTEGER, embedding F32_BLOB("@;
    lemma_number_before(third, n);
    lemma_text_before(columns, decimal(n) + third, n);
    let second = columns + (decimal(n) + third);
    lemma_one_name(create, "document_embeddings_"@, n, second);
    let front = create + embeddings_table(n) + columns + decimal(n);
    assert(create_vectors_table_sql(n) =~= create + embeddings_table(n) + second);
    assert(create_vectors_table_sql(n) =~= front + third);
    lemma_named_behind(front, third, documents_table(n));

    let metric = "(libsql_vector_idx(embedding, 'metric=cosine'))"@;
    lemma_text_alone(metric, n);
    let on = " ON "@;
    lemma_one_name(on, "document_embeddings_"@, n, metric);
    let behind = on + embeddings_table(n) + metric;
    let create_index = "CREATE INDEX IF NOT EXISTS "@;
    lemma_one_name(create_index, "idx_embeddings_"@, n, behind);
    let head = create_index + embeddings_index(n);
    assert(create_index_table_sql(n) =~= head + behind);
    lemma_named_behind(head, behind, embeddings_table(n));
}

/// The other statements are numbered and name the tables that they use.
proof fn lemma_other_statements(n: nat)
    ensures
        numbered(insert_document_sql(n), n),
        names(insert_document_sql(n), documents_table(n)),
        numbered(insert_vectors_sql(n), n),
        names(insert_vectors_sql(n), embeddings_table(n)),
        numbered(fetch_document_sql(n), n),
        names(fetch_document_sql(n), documents_table(n)),
{
    lemma_parts();
    let insert = "INSERT INTO "@;
    let values = " (content, metadata) VALUES (?1, ?2) RETURNING id"@;
    lemma_text_alone(values, n);
    lemma_one_name(insert, "documents_"@, n, values);
    let chunk_values =
        " (doc_id, chunk_index, chunk_start, chunk_end, embedding) VALUES (?1, ?2, ?3, ?4, vector(?5))"@;
    lemma_text_alone(chunk_values, n);
    lemma_one_name(insert, "document_embeddings_"@, n, chunk_values);
    let by_number = " WHERE id = ?1"@;
    lemma_text_alone(by_number, n);
    lemma_one_name("SELECT content, metadata FROM "@, "documents_"@, n, by_number);
}

/// The searches are numbered and name the tables and the index.
proof fn lemma_searches(n: nat)
    ensures
        forall|i: int| 5 <= i <= 7 ==> numbered(#[trigger] schema_texts(n)[i], n),
        forall|i: int, k: int|
            5 <= i <= 7 && 0 <= k < 3 ==> names(
                #[trigger] schema_texts(n)[i],
                #[trigger] schema_names(n)[k],
            ),
{
    lemma_parts();
    lemma_name_starts(n);
    lemma_search_source(n);
    let source = search_source(n);
    let hits = "SELECT e.doc_id, d.metadata, e.chunk_start, e.chunk_end "@;
    let distances =
        "SELECT e.doc_id, d.metadata, vector_distance_cos(e.embedding, vector(?1)) AS distance, e.chunk_start, e.chunk_end "@;
    let vectors = "SELECT e.doc_id, d.metadata, e.embedding, e.chunk_start, e.chunk_end "@;
    lemma_text_before(hits, source, n);
    lemma_text_before(distances, source, n);
    lemma_text_before(vectors, source, n);
    assert forall|k: int| 0 <= k < 3 implies names(hits + source, schema_names(n)[k]) && names(
        distances + source,
        schema_names(n)[k],
    ) && names(vectors + source, #[trigger] schema_names(n)[k]) by {
        lemma_named_behind(hits, source, schema_names(n)[k]);
        lemma_named_behind(distances, source, schema_names(n)[k]);
        lemma_named_behind(vectors, source, schema_names(n)[k]);
    }
}

/// The statements of a dimension name its own tables: those that make the tables and the index
/// name what they make, a stored document goes to the table of documents and the embedding of a
/// chunk to that of embeddings, each search uses both tables and the index, and a document is
/// fetched from the table of documents.
pub proof fn law_statements_name_their_tables(n: nat)
    ensures
        names(create_documents_table_sql(n), documents_table(n)),
        names(create_vectors_table_sql(n), embeddings_table(n)),
        names(create_vectors_table_sql(n), documents_table(n)),
        names(create_index_table_sql(n), embeddings_index(n)),
        names(create_index_table_sql(n), embeddings_table(n)),
        names(insert_document_sql(n), documents_table(n)),
        names(insert_vectors_sql(n), embeddings_table(n)),
        names(fetch_document_sql(n), documents_table(n)),
        forall|i: int, k: int|
            5 <= i <= 7 && 0 <= k < 3 ==> names(
                #[trigger] schema_texts(n)[i],
                #[trigger] schema_names(n)[k],
            ),
{
    lemma_create_statements(n);
    lemma_other_statements(n);
    lemma_searches(n);
}

/// No statement of one dimension names a table or the index of another.
pub proof fn law_dimensions_share_no_table(n: nat, m: nat)
    requires
        n != m,
    ensures
        forall|i: int, k: int|
            0 <= i < schema_texts(n).len() && 0 <= k < schema_names(m).len() ==> !names(
                #[trigger] schema_texts(n)[i],
                #[trigger] schema_names(m)[k],
            ),
{
    lemma_parts();
    lemma_create_statements(n);
    lemma_other_statements(n);
    lemma_searches(n);
    assert forall|i: int, k: int|
        0 <= i < schema_texts(n).len() && 0 <= k < schema_names(m).len() implies !names(
        #[trigger] schema_texts(n)[i],
        #[trigger] schema_names(m)[k],
    ) by {
        let s = schema_texts(n)[i];
        assert(numbered(s, n));
        lemma_names_no_other(s, n, "documents_"@, m);
        lemma_names_no_other(s, n, "document_embeddings_"@, m);
        lemma_names_no_other(s, n, "idx_embeddings_"@, m);
    }
}

} // verus!
