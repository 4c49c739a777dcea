//! The lines that the commands print.

use std::collections::HashMap;
use std::num::NonZeroUsize;
use vstd::prelude::*;
use crate::metadata::{entries_map, Fields, MetaValue, MetaView, Metadata, MetadataView};
use crate::queue::{FailedItem, PipelineStatus};
use crate::text::{
    byte_len, byte_length, byte_slice, copy_of, decimal, decimal_string, in_order, insert_in_order,
    is_boundary, is_byte_slice, lemma_order_unique, optional_text, parse_unsigned, parsed_unsigned,
    signed_decimal, signed_decimal_string, texts, zero_padded, zero_padded_string,
};

verus! {

/// The upper-case form of a text, by the rules of Unicode.
pub uninterp spec fn uppercased(s: Seq<char>) -> Seq<char>;

/// `str::to_uppercase` of std: the claim is that the result depends on the text alone.
pub assume_specification[ str::to_uppercase ](s: &str) -> (res: String)
    ensures
        res@ == uppercased(s@),
;

/// A line of `=`.
pub open spec fn double_rule() -> Seq<char> {
    "================================================================================"@
}

/// A line of `-`.
pub open spec fn single_rule() -> Seq<char> {
    "--------------------------------------------------------------------------------"@
}

/// A line of `=`.
pub fn double_line() -> (res: String)
    ensures
        res@ == double_rule(),
{
    "================================================================================".to_owned()
}

/// A line of `-`.
pub fn single_line() -> (res: String)
    ensures
        res@ == single_rule(),
{
    "--------------------------------------------------------------------------------".to_owned()
}

/// `n` in decimal, with zeros behind its sign up to a width of `width` characters.
pub open spec fn signed_zero_padded(n: int, width: nat) -> Seq<char> {
    if n < 0 {
        seq!['-'] + zero_padded(decimal((-n) as nat), (width - 1) as nat)
    } else {
        zero_padded(decimal(n as nat), width)
    }
}

/// `n` in decimal, with zeros behind its sign.
fn signed_zero_padded_string(n: i64, width: usize) -> (res: String)
    requires
        width > 0,
    ensures
        res@ == signed_zero_padded(n as int, width as nat),
{
    if n < 0 {
        let magnitude: u64 = (-(n + 1)) as u64 + 1;
        let mut res = String::new();
        res.push('-');
        res.append(zero_padded_string(magnitude, width - 1).as_str());
        res
    } else {
        zero_padded_string(n as u64, width)
    }
}

/// Whether `keys` are the names of the fields of `m`, in order.
pub open spec fn is_key_order(keys: Seq<Seq<char>>, m: Map<Seq<char>, MetaView>) -> bool {
    &&& in_order(keys)
    &&& forall|k: Seq<char>| #[trigger] keys.contains(k) <==> m.dom().contains(k)
}

/// The names of the fields of `m`, in order.
pub open spec fn key_order(m: Map<Seq<char>, MetaView>) -> Seq<Seq<char>> {
    choose|keys: Seq<Seq<char>>| is_key_order(keys, m)
}

/// The line that shows a field: none for `null` and for an empty value.
pub open spec fn field_line(key: Seq<char>, value: MetaView) -> Option<Seq<char>> {
    let shown = match value {
        MetaView::Null => Seq::empty(),
        MetaView::Text(s) => s,
        MetaView::Json(s) => s,
    };
    if shown.len() == 0 {
        None
    } else {
        Some(uppercased(key) + ": "@ + shown)
    }
}

/// The lines that show the fields named by `keys`.
pub open spec fn field_lines(keys: Seq<Seq<char>>, m: Map<Seq<char>, MetaView>) -> Seq<Seq<char>>
    decreases keys.len(),
{
    if keys.len() == 0 {
        Seq::empty()
    } else {
        let front = field_lines(keys.drop_last(), m);
        match field_line(keys.last(), m[keys.last()]) {
            Some(line) => front.push(line),
            None => front,
        }
    }
}

/// The lines that show metadata: one for each field that has something to show, in the order of
/// the names. What is no object shows nothing.
pub open spec fn metadata_lines(m: MetadataView) -> Seq<Seq<char>> {
    match m {
        MetadataView::Object(fields) => field_lines(key_order(fields), fields),
        MetadataView::Value(_) => Seq::empty(),
    }
}

/// The names of the fields, in order.
fn sorted_keys(fields: &Fields) -> (res: Vec<String>)
    requires
        fields.wf(),
    ensures
        texts(res@) == key_order(fields@),
        is_key_order(texts(res@), fields@),
{
    let mut keys: Vec<String> = Vec::new();
    let n: usize = fields.entries.len();
    let mut i: usize = 0;
    proof {
        assert(fields.entries@.take(0) == Seq::<(String, MetaValue)>::empty());
        assert(texts(keys@) =~= Seq::<Seq<char>>::empty());
    }
    while i < n
        invariant
            fields.wf(),
            n == fields.entries@.len(),
            i <= n,
            is_key_order(texts(keys@), entries_map(fields.entries@.take(i as int))),
        decreases n - i,
    {
        let ghost seen = fields.entries@.take(i as int);
        let key = fields.entries[i].0.clone();
        proof {
            if texts(keys@).contains(key@) {
                crate::metadata::lemma_entries_map(seen);
                assert(entries_map(seen).dom().contains(key@));
                let j = choose|j: int| 0 <= j < seen.len() && #[trigger] seen[j].0@ == key@;
                assert(fields.entries@[j].0@ == fields.entries@[i as int].0@);
            }
        }
        insert_in_order(&mut keys, key);
        proof {
            assert(fields.entries@.take(i + 1).drop_last() == seen);
        }
        i = i + 1;
    }
    proof {
        assert(fields.entries@.take(n as int) == fields.entries@);
        lemma_order_unique(texts(keys@), key_order(fields@));
    }
    keys
}

/// The lines that show metadata.
pub fn print_metadata(metadata: &Metadata) -> (res: Vec<String>)
    requires
        metadata.wf(),
    ensures
        texts(res@) == metadata_lines(metadata@),
{
    let mut lines: Vec<String> = Vec::new();
    match metadata {
        Metadata::Value(_) => {
            assert(texts(lines@) =~= Seq::<Seq<char>>::empty());
        },
        Metadata::Object(fields) => {
            let keys = sorted_keys(fields);
            let n: usize = keys.len();
            let ghost names = texts(keys@);
            let mut i: usize = 0;
            proof {
                assert(names.take(0) == Seq::<Seq<char>>::empty());
                assert(texts(lines@) =~= Seq::<Seq<char>>::empty());
            }
            while i < n
                invariant
                    fields.wf(),
                    names == texts(keys@),
                    is_key_order(names, fields@),
                    n == keys@.len(),
                    i <= n,
                    texts(lines@) == field_lines(names.take(i as int), fields@),
                decreases n - i,
            {
                let ghost before = lines@;
                proof {
                    assert(names[i as int] == keys@[i as int]@);
                    assert(names.contains(names[i as int]));
                    assert(names.take(i + 1).drop_last() == names.take(i as int));
                    assert(names.take(i + 1).last() == names[i as int]);
                }
                let value = fields.get(keys[i].as_str());
                let shown = match value {
                    Some(MetaValue::Text(s)) => s,
                    Some(MetaValue::Json(s)) => s,
                    _ => String::new(),
                };
                if !shown.as_str().is_empty() {
                    let mut line = keys[i].as_str().to_uppercase();
                    line.append(": ");
                    line.append(shown.as_str());
                    lines.push(line);
                    proof {
                        assert(texts(lines@) =~= texts(before).push(line@));
                    }
                }
                i = i + 1;
            }
            assert(names.take(n as int) == names);
        },
    }
    lines
}

/// A cache of `lru` that keeps the contents of documents.
#[verifier::external_type_specification]
#[verifier::external_body]
#[verifier::reject_recursive_types(K)]
#[verifier::reject_recursive_types(V)]
#[verifier::reject_recursive_types(S)]
pub struct ExLruCache<K, V, S>(lru::LruCache<K, V, S>);

/// The hasher that `lru` uses unless told otherwise.
#[verifier::external_type_specification]
#[verifier::external_body]
pub struct ExDefaultHasher(lru::DefaultHasher);

/// What a cache holds: document numbers with their contents, the one used last first.
pub uninterp spec fn cached(cache: lru::LruCache<i64, String>) -> Seq<(i64, Seq<char>)>;

/// How many documents a cache keeps.
pub uninterp spec fn cache_limit(cache: lru::LruCache<i64, String>) -> nat;

/// Whether an entry is about another document than `id`.
pub open spec fn about_other(id: i64) -> spec_fn((i64, Seq<char>)) -> bool {
    |e: (i64, Seq<char>)| e.0 != id
}

/// The entries that are not about the document `id`.
pub open spec fn entries_without(s: Seq<(i64, Seq<char>)>, id: i64) -> Seq<(i64, Seq<char>)> {
    s.filter(about_other(id))
}

/// Whether there is an entry about the document `id`.
pub open spec fn has_entry(s: Seq<(i64, Seq<char>)>, id: i64) -> bool {
    exists|i: int| 0 <= i < s.len() && (#[trigger] s[i]).0 == id
}

/// Whether the document `id` had an entry, with the content `content`, which has become the
/// first one.
pub open spec fn was_used(
    before: Seq<(i64, Seq<char>)>,
    after: Seq<(i64, Seq<char>)>,
    id: i64,
    content: Seq<char>,
) -> bool {
    exists|i: int|
        0 <= i < before.len() && #[trigger] before[i] == (id, content) && after == seq![
            (id, content),
        ] + before.remove(i)
}

/// Whether no document has two entries.
pub open spec fn are_distinct(s: Seq<(i64, Seq<char>)>) -> bool {
    forall|i: int, j: int| 0 <= i < j < s.len() ==> (#[trigger] s[i]).0 != (#[trigger] s[j]).0
}

/// The entries once the document `id` has been put into a cache that keeps `limit`: it stands
/// first; an entry that it had is gone; where it had none and the cache was full, the last entry
/// is gone.
pub open spec fn entries_after_put(
    s: Seq<(i64, Seq<char>)>,
    limit: nat,
    id: i64,
    content: Seq<char>,
) -> Seq<(i64, Seq<char>)> {
    if has_entry(s, id) {
        seq![(id, content)] + entries_without(s, id)
    } else if s.len() >= limit {
        seq![(id, content)] + s.drop_last()
    } else {
        seq![(id, content)] + s
    }
}

/// `lru::LruCache::new`: an empty cache that keeps `limit` entries. The cache sets memory aside
/// for all of them, so `limit` is to be small.
#[verifier::external_body]
fn new_cache(limit: usize) -> (res: lru::LruCache<i64, String>)
    requires
        0 < limit <= 1024,
    ensures
        cached(res) == Seq::<(i64, Seq<char>)>::empty(),
        cache_limit(res) == limit,
{
    lru::LruCache::new(NonZeroUsize::new(limit).unwrap())
}

/// `lru::LruCache::contains`: whether there is an entry with the key.
#[verifier::external_body]
fn cache_contains(cache: &lru::LruCache<i64, String>, id: i64) -> (res: bool)
    ensures
        res == has_entry(cached(*cache), id),
{
    cache.contains(&id)
}

/// `lru::LruCache::put`: the entry goes to the front, in place of one with the same key, and the
/// last entry leaves a full cache.
#[verifier::external_body]
fn cache_put(cache: &mut lru::LruCache<i64, String>, id: i64, content: String)
    ensures
        cached(*final(cache)) == entries_after_put(
            cached(*old(cache)),
            cache_limit(*old(cache)),
            id,
            content@,
        ),
        cache_limit(*final(cache)) == cache_limit(*old(cache)),
{
    cache.put(id, content);
}

/// `lru::LruCache::get`: the value of the entry with the key, which goes to the front.
#[verifier::external_body]
fn cache_get(cache: &mut lru::LruCache<i64, String>, id: i64) -> (res: Option<String>)
    ensures
        match res {
            Some(content) => was_used(cached(*old(cache)), cached(*final(cache)), id, content@),
            None => !has_entry(cached(*old(cache)), id) && cached(*final(cache)) == cached(
                *old(cache),
            ),
        },
        cache_limit(*final(cache)) == cache_limit(*old(cache)),
{
    cache.get(&id).cloned()
}

/// Whether a chunk lies within a document of `len` bytes.
pub open spec fn chunk_ends_within(len: nat, end: i64) -> bool {
    0 <= end <= len
}

/// Whether `start` and `end` are positions of characters in `content`, in this order.
pub open spec fn is_char_range(content: Seq<char>, start: int, end: int) -> bool {
    &&& 0 <= start <= end <= byte_len(content)
    &&& is_boundary(content, start)
    &&& is_boundary(content, end)
}

/// The chunk of a document from the byte `start` up to the byte `end`, where the document is that
/// long.
pub fn shown_chunk(content: &str, start: i64, end: i64) -> (res: Option<String>)
    requires
        chunk_ends_within(byte_len(content@), end) ==> is_char_range(
            content@,
            start as int,
            end as int,
        ),
    ensures
        match res {
            Some(chunk) => chunk_ends_within(byte_len(content@), end) && is_byte_slice(
                content@,
                start as int,
                end as int,
                chunk@,
            ),
            None => !chunk_ends_within(byte_len(content@), end),
        },
{
    let len: usize = byte_length(content);
    if end < 0 || end as u64 > len as u64 {
        return None;
    }
    Some(byte_slice(content, start as usize, end as usize))
}

/// Where a chunk that is said to end at `end` ends in a document of `len` bytes.
pub open spec fn clipped_end(len: nat, end: i64) -> int {
    if 0 <= end <= len {
        end as int
    } else {
        len as int
    }
}

/// The chunk of a document from the byte `start` up to the byte `end`, or up to the end of the
/// document where it is shorter. A negative `end` stands for the end of the document.
pub fn clipped_chunk(content: &str, start: i64, end: i64) -> (res: String)
    requires
        is_char_range(content@, start as int, clipped_end(byte_len(content@), end)),
    ensures
        is_byte_slice(
            content@,
            start as int,
            clipped_end(byte_len(content@), end),
            res@,
        ),
{
    let len: usize = byte_length(content);
    let to: usize = if end < 0 || end as u64 > len as u64 {
        len
    } else {
        end as usize
    };
    byte_slice(content, start as usize, to)
}

/// The line that names a record.
pub open spec fn record_title(
    number: nat,
    doc_id: int,
    similarity: Option<Seq<char>>,
) -> Seq<char> {
    let title = "RECORD "@ + zero_padded(decimal(number), 3) + "  DOCID="@ + signed_zero_padded(
        doc_id,
        6,
    );
    match similarity {
        None => title,
        Some(s) => title + "  SIMILARITY="@ + s + "%"@,
    }
}

/// The line that says where a chunk stands.
pub open spec fn offset_line(start: int, end: int) -> Seq<char> {
    "OFFSET.: "@ + signed_decimal(start) + "-"@ + signed_decimal(end) + " ("@ + signed_decimal(
        end - start,
    ) + " BYTES)"@
}

/// The lines that show the text of a chunk.
pub open spec fn chunk_lines(chunk: Option<Seq<char>>) -> Seq<Seq<char>> {
    match chunk {
        None => Seq::empty(),
        Some(text) => seq![single_rule(), "CONTENT:"@, single_rule(), text, single_rule()],
    }
}

/// The lines of one record: its title between two rules, its metadata, its offsets, its text and
/// an empty line.
pub open spec fn record_lines(
    title: Seq<char>,
    metadata: Seq<Seq<char>>,
    offsets: Seq<char>,
    chunk: Option<Seq<char>>,
) -> Seq<Seq<char>> {
    seq![double_rule(), title, double_rule()] + metadata + seq![offsets] + chunk_lines(chunk)
        + seq![Seq::empty()]
}

/// The line that names a record. The similarity comes formatted.
pub fn record_title_line(number: usize, doc_id: i64, similarity: Option<&str>) -> (res: String)
    ensures
        res@ == record_title(
            number as nat,
            doc_id as int,
            match similarity {
                Some(s) => Some(s@),
                None => None,
            },
        ),
{
    let mut res = "RECORD ".to_owned();
    res.append(zero_padded_string(number as u64, 3).as_str());
    res.append("  DOCID=");
    res.append(signed_zero_padded_string(doc_id, 6).as_str());
    if let Some(s) = similarity {
        res.append("  SIMILARITY=");
        res.append(s);
        res.append("%");
    }
    res
}

/// The line that says where a chunk stands.
pub fn offset_text(start: i64, end: i64) -> (res: String)
    requires
        i64::MIN <= end - start <= i64::MAX,
    ensures
        res@ == offset_line(start as int, end as int),
{
    let mut res = "OFFSET.: ".to_owned();
    res.append(signed_decimal_string(start).as_str());
    res.append("-");
    res.append(signed_decimal_string(end).as_str());
    res.append(" (");
    res.append(signed_decimal_string(end - start).as_str());
    res.append(" BYTES)");
    res
}

/// Appends the lines of `more`.
fn push_all(lines: &mut Vec<String>, more: Vec<String>)
    ensures
        texts(final(lines)@) == texts(old(lines)@) + texts(more@),
{
    let mut more = more;
    let ghost a = lines@;
    let ghost b = more@;
    lines.append(&mut more);
    proof {
        assert(texts(lines@) =~= texts(a) + texts(b));
    }
}

/// The lines of one record.
pub fn record_report(
    title: String,
    metadata: &Metadata,
    offsets: String,
    chunk: Option<String>,
) -> (res: Vec<String>)
    requires
        metadata.wf(),
    ensures
        texts(res@) == record_lines(
            title@,
            metadata_lines(metadata@),
            offsets@,
            optional_text(chunk),
        ),
{
    let ghost title_text = title@;
    let ghost offsets_text = offsets@;
    let ghost chunk_text = optional_text(chunk);
    let mut lines: Vec<String> = Vec::new();
    lines.push(double_line());
    lines.push(title);
    lines.push(double_line());
    proof {
        assert(texts(lines@) =~= seq![double_rule(), title_text, double_rule()]);
    }
    push_all(&mut lines, print_metadata(metadata));
    let mut tail: Vec<String> = Vec::new();
    tail.push(offsets);
    if let Some(text) = chunk {
        tail.push(single_line());
        tail.push("CONTENT:".to_owned());
        tail.push(single_line());
        tail.push(text);
        tail.push(single_line());
    }
    let blank = String::new();
    tail.push(blank);
    proof {
        assert(blank@ =~= Seq::<char>::empty());
        assert(texts(tail@) =~= seq![offsets_text] + chunk_lines(chunk_text) + seq![
            Seq::<char>::empty(),
        ]);
        assert(seq![double_rule(), title_text, double_rule()] + metadata_lines(metadata@) + texts(
            tail@,
        ) =~= record_lines(
            title_text,
            metadata_lines(metadata@),
            offsets_text,
            chunk_text,
        ));
    }
    push_all(&mut lines, tail);
    lines
}

/// The documents whose chunks a query shows. The contents of those shown last are kept.
pub struct DocumentCache {
    pub cache: lru::LruCache<i64, String>,
}

impl DocumentCache {
    /// The documents that are kept, the one used last first.
    pub open spec fn entries(&self) -> Seq<(i64, Seq<char>)> {
        cached(self.cache)
    }

    /// At most 64 documents are kept, each once.
    pub open spec fn wf(&self) -> bool {
        &&& cache_limit(self.cache) == 64
        &&& self.entries().len() <= 64
        &&& are_distinct(self.entries())
    }

    /// A cache without documents, which keeps 64 of them.
    pub fn new() -> (res: DocumentCache)
        ensures
            res.wf(),
            res.entries() == Seq::<(i64, Seq<char>)>::empty(),
    {
        DocumentCache { cache: new_cache(64) }
    }

    /// Whether the document has to be fetched before it can be shown.
    pub fn is_missing(&self, doc_id: i64) -> (res: bool)
        ensures
            res == !has_entry(self.entries(), doc_id),
    {
        !cache_contains(&self.cache, doc_id)
    }

    /// Keeps the content of a document.
    pub fn keep(&mut self, doc_id: i64, content: String)
        requires
            old(self).wf(),
        ensures
            final(self).wf(),
            final(self).entries() == entries_after_put(
                old(self).entries(),
                64,
                doc_id,
                content@,
            ),
    {
        proof {
            law_kept_document_is_found(self.entries(), 64, doc_id, content@);
            lemma_put_distinct(self.entries(), 64, doc_id, content@);
        }
        cache_put(&mut self.cache, doc_id, content);
    }

    /// The content of a document that is kept, which becomes the one used last.
    pub fn recall(&mut self, doc_id: i64) -> (res: Option<String>)
        requires
            old(self).wf(),
        ensures
            final(self).wf(),
            match res {
                Some(content) => was_used(
                    old(self).entries(),
                    final(self).entries(),
                    doc_id,
                    content@,
                ),
                None => !has_entry(old(self).entries(), doc_id) && final(self).entries()
                    == old(self).entries(),
            },
    {
        let ghost before = self.entries();
        let res = cache_get(&mut self.cache, doc_id);
        proof {
            if res is Some {
                let content = res->0@;
                let i = choose|i: int|
                    0 <= i < before.len() && #[trigger] before[i] == (doc_id, content)
                        && self.entries() == seq![(doc_id, content)] + before.remove(i);
                assert(before[i] == (doc_id, content));
                lemma_front_distinct(before, i);
            }
        }
        res
    }

    /// The content of a document, given what fetching it returned, where it was not kept: it is
    /// kept from then on, as the one used last. A document that is neither kept nor fetched has
    /// none.
    pub fn content(&mut self, doc_id: i64, fetched: Option<String>) -> (res: Option<String>)
        requires
            old(self).wf(),
        ensures
            final(self).wf(),
            if has_entry(old(self).entries(), doc_id) {
                res is Some && was_used(
                    old(self).entries(),
                    final(self).entries(),
                    doc_id,
                    res->0@,
                )
            } else {
                match fetched {
                    Some(content) => res is Some && res->0@ == content@ && final(self).entries()
                        == entries_after_put(old(self).entries(), 64, doc_id, content@),
                    None => res is None && final(self).entries() == old(self).entries(),
                }
            },
    {
        let ghost before = self.entries();
        if self.is_missing(doc_id) {
            match fetched {
                None => {
                    return None;
                },
                Some(content) => {
                    proof {
                        law_kept_document_is_found(before, 64, doc_id, content@);
                    }
                    let ghost text = content@;
                    self.keep(doc_id, content);
                    let ghost kept = self.entries();
                    let res = self.recall(doc_id);
                    proof {
                        assert(kept[0] == (doc_id, text));
                        let i = choose|i: int|
                            0 <= i < kept.len() && #[trigger] kept[i] == (doc_id, res->0@)
                                && self.entries() == seq![(doc_id, res->0@)] + kept.remove(i);
                        assert(i == 0);
                        assert(seq![(doc_id, text)] + kept.remove(0) =~= kept);
                    }
                    return res;
                },
            }
        }
        self.recall(doc_id)
    }
}

/// The documents whose chunks one search of the server shows.
pub struct SearchCache {
    pub docs: HashMap<i64, String>,
}

impl SearchCache {
    /// The contents that are kept, by document.
    pub open spec fn contents(&self) -> Map<i64, Seq<char>> {
        self.docs@.map_values(|s: String| s@)
    }

    /// A cache without documents.
    pub fn new() -> (res: SearchCache)
        ensures
            res.contents() == Map::<i64, Seq<char>>::empty(),
    {
        let res = SearchCache { docs: HashMap::new() };
        assert(res.contents() =~= Map::<i64, Seq<char>>::empty());
        res
    }

    /// Whether the document has to be fetched before it can be shown.
    pub fn is_missing(&self, doc_id: i64) -> (res: bool)
        ensures
            res == !self.contents().dom().contains(doc_id),
    {
        broadcast use vstd::std_specs::hash::group_hash_axioms;

        !self.docs.contains_key(&doc_id)
    }

    /// The content of a document, given what fetching it returned, where it was not kept: it is
    /// kept from then on.
    pub fn content(&mut self, doc_id: i64, fetched: Option<String>) -> (res: Option<String>)
        ensures
            if old(self).contents().dom().contains(doc_id) {
                optional_text(res) == Some(old(self).contents()[doc_id]) && final(self).contents()
                    == old(self).contents()
            } else {
                match fetched {
                    Some(content) => optional_text(res) == Some(content@)
                        && final(self).contents() == old(self).contents().insert(
                        doc_id,
                        content@,
                    ),
                    None => res is None && final(self).contents() == old(self).contents(),
                }
            },
    {
        broadcast use vstd::std_specs::hash::group_hash_axioms;

        let ghost before = self.contents();
        if self.is_missing(doc_id) {
            if let Some(content) = fetched {
                let ghost text = content@;
                self.docs.insert(doc_id, content);
                proof {
                    assert(self.contents() =~= before.insert(doc_id, text));
                }
            }
        }
        match self.docs.get(&doc_id) {
            Some(content) => Some(content.clone()),
            None => None,
        }
    }
}

/// A document that has just been put into the cache is in it, with the content given, and the
/// cache keeps no more than its limit.
pub proof fn law_kept_document_is_found(
    entries: Seq<(i64, Seq<char>)>,
    limit: nat,
    doc_id: i64,
    content: Seq<char>,
)
    requires
        0 < limit,
        entries.len() <= limit,
    ensures
        entries_after_put(entries, limit, doc_id, content)[0] == (doc_id, content),
        has_entry(entries_after_put(entries, limit, doc_id, content), doc_id),
        entries_after_put(entries, limit, doc_id, content).len() <= limit,
        forall|i: int|
            0 < i < entries_after_put(entries, limit, doc_id, content).len() ==> (
            #[trigger] entries_after_put(entries, limit, doc_id, content)[i]).0 != doc_id,
{
    let after = entries_after_put(entries, limit, doc_id, content);
    assert(after[0] == (doc_id, content));
    let other = about_other(doc_id);
    if has_entry(entries, doc_id) {
        entries.lemma_filter_len(other);
        let i = choose|i: int| 0 <= i < entries.len() && (#[trigger] entries[i]).0 == doc_id;
        lemma_filter_drops(entries, other, i);
        assert forall|k: int| 0 < k < after.len() implies (#[trigger] after[k]).0 != doc_id by {
            assert(after[k] == entries_without(entries, doc_id)[k - 1]);
        }
    } else {
        assert forall|k: int| 0 < k < after.len() implies (#[trigger] after[k]).0 != doc_id by {
            assert(after[k] == entries[k - 1]);
        }
    }
}

/// Putting a document into a cache gives none a second entry.
proof fn lemma_put_distinct(
    entries: Seq<(i64, Seq<char>)>,
    limit: nat,
    doc_id: i64,
    content: Seq<char>,
)
    requires
        0 < limit,
        are_distinct(entries),
    ensures
        are_distinct(entries_after_put(entries, limit, doc_id, content)),
{
    let after = entries_after_put(entries, limit, doc_id, content);
    if has_entry(entries, doc_id) {
        let rest = entries_without(entries, doc_id);
        lemma_filter_distinct(entries, about_other(doc_id));
        assert forall|i: int, j: int| 0 <= i < j < after.len() implies (#[trigger] after[i]).0 != (
        #[trigger] after[j]).0 by {
            assert(after[j] == rest[j - 1]);
            if i > 0 {
                assert(after[i] == rest[i - 1]);
            }
        }
    } else {
        assert forall|i: int, j: int| 0 <= i < j < after.len() implies (#[trigger] after[i]).0 != (
        #[trigger] after[j]).0 by {
            assert(after[j] == entries[j - 1]);
            if i > 0 {
                assert(after[i] == entries[i - 1]);
            }
        }
    }
}

/// A filter keeps entries distinct.
proof fn lemma_filter_distinct(
    s: Seq<(i64, Seq<char>)>,
    keep: spec_fn((i64, Seq<char>)) -> bool,
)
    requires
        are_distinct(s),
    ensures
        are_distinct(s.filter(keep)),
    decreases s.len(),
{
    reveal(Seq::filter);
    if s.len() > 0 {
        let front = s.drop_last();
        lemma_filter_distinct(front, keep);
        let kept = front.filter(keep);
        assert forall|i: int| 0 <= i < kept.len() implies (#[trigger] kept[i]).0 != s.last().0 by {
            assert(kept.contains(kept[i]));
            front.lemma_filter_contains_rev(keep, kept[i]);
            let k = choose|k: int| 0 <= k < front.len() && front[k] == kept[i];
            assert(s[k].0 != s[s.len() - 1].0);
        }
    }
}

/// Moving an entry to the front keeps entries distinct.
proof fn lemma_front_distinct(s: Seq<(i64, Seq<char>)>, i: int)
    requires
        are_distinct(s),
        0 <= i < s.len(),
    ensures
        are_distinct(seq![s[i]] + s.remove(i)),
        (seq![s[i]] + s.remove(i)).len() == s.len(),
{
    let moved = seq![s[i]] + s.remove(i);
    assert forall|a: int, b: int| 0 <= a < b < moved.len() implies (#[trigger] moved[a]).0 != (
    #[trigger] moved[b]).0 by {
        let y = if b - 1 < i {
            b - 1
        } else {
            b
        };
        assert(moved[b] == s[y]);
        if a > 0 {
            let x = if a - 1 < i {
                a - 1
            } else {
                a
            };
            assert(moved[a] == s[x]);
        } else if y < i {
            assert(s[y].0 != s[i].0);
        } else {
            assert(s[i].0 != s[y].0);
        }
    }
}

/// A filter that drops an element shortens the sequence.
proof fn lemma_filter_drops<A>(s: Seq<A>, keep: spec_fn(A) -> bool, i: int)
    requires
        0 <= i < s.len(),
        !keep(s[i]),
    ensures
        s.filter(keep).len() < s.len(),
    decreases s.len(),
{
    reveal(Seq::filter);
    let front = s.drop_last();
    if i == s.len() - 1 {
        front.lemma_filter_len(keep);
    } else {
        assert(front[i] == s[i]);
        lemma_filter_drops(front, keep, i);
    }
}

/// A line that names a value.
pub fn labelled(label: &str, value: &str) -> (res: String)
    ensures
        res@ == label@ + value@,
{
    let mut res = copy_of(label);
    res.append(value);
    res
}

/// A heading between two rules.
pub open spec fn banner(heading: Seq<char>) -> Seq<Seq<char>> {
    seq![double_rule(), heading, double_rule()]
}

/// A heading between two rules.
pub fn banner_lines(heading: &str) -> (res: Vec<String>)
    ensures
        texts(res@) == banner(heading@),
{
    let mut lines: Vec<String> = Vec::new();
    lines.push(double_line());
    lines.push(copy_of(heading));
    lines.push(double_line());
    assert(texts(lines@) =~= banner(heading@));
    lines
}

/// The lines with which a query begins.
pub fn ask_header(query: &str, top_k: usize) -> (res: Vec<String>)
    ensures
        texts(res@) == banner("DOCUMENT RETRIEVAL SYSTEM"@) + seq![
            "QUERY.....: "@ + query@,
            "TOP-K.....: "@ + decimal(top_k as nat),
            Seq::empty(),
        ],
{
    let mut lines = banner_lines("DOCUMENT RETRIEVAL SYSTEM");
    let ghost heading = texts(lines@);
    lines.push(labelled("QUERY.....: ", query));
    lines.push(labelled("TOP-K.....: ", decimal_string(top_k as u64).as_str()));
    let blank = String::new();
    lines.push(blank);
    proof {
        assert(blank@ =~= Seq::<char>::empty());
        assert(texts(lines@) =~= heading + seq![
            "QUERY.....: "@ + query@,
            "TOP-K.....: "@ + decimal(top_k as nat),
            Seq::empty(),
        ]);
    }
    lines
}

/// The line of a query that found nothing.
pub fn no_records() -> (res: String)
    ensures
        res@ == "*** NO RECORDS FOUND ***"@,
{
    "*** NO RECORDS FOUND ***".to_owned()
}

/// The lines with which the ingestion of a file begins.
pub fn file_header(heading: &str, path: &str) -> (res: Vec<String>)
    ensures
        texts(res@) == banner(heading@) + seq![
            "FILE......: "@ + path@,
            Seq::empty(),
            "EXTRACTING TEXT..."@,
        ],
{
    let mut lines = banner_lines(heading);
    let ghost before = texts(lines@);
    lines.push(labelled("FILE......: ", path));
    let blank = String::new();
    lines.push(blank);
    lines.push("EXTRACTING TEXT...".to_owned());
    proof {
        assert(blank@ =~= Seq::<char>::empty());
        assert(texts(lines@) =~= before + seq![
            "FILE......: "@ + path@,
            Seq::empty(),
            "EXTRACTING TEXT..."@,
        ]);
    }
    lines
}

/// The lines with which the ingestion of a transcript begins.
pub fn transcript_header(input: &str, language: &str) -> (res: Vec<String>)
    ensures
        texts(res@) == banner("YOUTUBE TRANSCRIPT INGESTION SYSTEM"@) + seq![
            "INPUT.....: "@ + input@,
            "LANGUAGE..: "@ + language@,
            Seq::empty(),
            "EXTRACTING VIDEO ID..."@,
        ],
{
    let mut lines = banner_lines("YOUTUBE TRANSCRIPT INGESTION SYSTEM");
    let ghost before = texts(lines@);
    lines.push(labelled("INPUT.....: ", input));
    lines.push(labelled("LANGUAGE..: ", language));
    let blank = String::new();
    lines.push(blank);
    lines.push("EXTRACTING VIDEO ID...".to_owned());
    proof {
        assert(blank@ =~= Seq::<char>::empty());
        assert(texts(lines@) =~= before + seq![
            "INPUT.....: "@ + input@,
            "LANGUAGE..: "@ + language@,
            Seq::empty(),
            "EXTRACTING VIDEO ID..."@,
        ]);
    }
    lines
}

/// A string field of metadata as it is shown: `N/A` where it is missing.
pub open spec fn shown_field(metadata: MetadataView, key: Seq<char>) -> Seq<char> {
    match metadata.text(key) {
        Some(s) => s,
        None => "N/A"@,
    }
}

fn field_text(metadata: &Metadata, key: &str) -> (res: String)
    requires
        metadata.wf(),
    ensures
        res@ == shown_field(metadata@, key@),
{
    match metadata.get_text(key) {
        Some(s) => s,
        None => "N/A".to_owned(),
    }
}

/// The line that says how long a text is.
pub open spec fn size_line(text: Seq<char>) -> Seq<char> {
    "TEXT SIZE.: "@ + decimal(byte_len(text)) + " CHARACTERS"@
}

/// The line that says how long a text is.
pub fn size_text(text: &str) -> (res: String)
    ensures
        res@ == size_line(text@),
{
    let mut res = "TEXT SIZE.: ".to_owned();
    res.append(decimal_string(byte_length(text) as u64).as_str());
    res.append(" CHARACTERS");
    res
}

/// The lines that sum up what was extracted from a PDF file.
pub fn pdf_summary(metadata: &Metadata, text: &str) -> (res: Vec<String>)
    requires
        metadata.wf(),
    ensures
        texts(res@) == seq![
            "EXTRACTION COMPLETE"@,
            size_line(text@),
            "TITLE.....: "@ + shown_field(metadata@, "title"@),
            "AUTHOR....: "@ + shown_field(metadata@, "author"@),
            Seq::empty(),
        ],
{
    let mut lines: Vec<String> = Vec::new();
    lines.push("EXTRACTION COMPLETE".to_owned());
    lines.push(size_text(text));
    lines.push(labelled("TITLE.....: ", field_text(metadata, "title").as_str()));
    lines.push(labelled("AUTHOR....: ", field_text(metadata, "author").as_str()));
    let blank = String::new();
    lines.push(blank);
    proof {
        assert(blank@ =~= Seq::<char>::empty());
        assert(texts(lines@) =~= seq![
            "EXTRACTION COMPLETE"@,
            size_line(text@),
            "TITLE.....: "@ + shown_field(metadata@, "title"@),
            "AUTHOR....: "@ + shown_field(metadata@, "author"@),
            Seq::empty(),
        ]);
    }
    lines
}

/// A field that holds a number, as it is shown: 0 where it is missing or holds something else.
pub open spec fn number_field(metadata: MetadataView, key: Seq<char>) -> nat {
    match metadata {
        MetadataView::Object(m) => if m.dom().contains(key) {
            match m[key] {
                MetaView::Json(s) => match parsed_unsigned(s, u64::MAX as nat) {
                    Ok(n) => n,
                    Err(_) => 0,
                },
                _ => 0,
            }
        } else {
            0
        },
        MetadataView::Value(_) => 0,
    }
}

fn field_number(metadata: &Metadata, key: &str) -> (res: u64)
    requires
        metadata.wf(),
    ensures
        res == number_field(metadata@, key@),
{
    match metadata {
        Metadata::Object(fields) => match fields.get(key) {
            Some(MetaValue::Json(s)) => match parse_unsigned(s.as_str(), u64::MAX) {
                Ok(n) => n,
                Err(_) => 0,
            },
            _ => 0,
        },
        Metadata::Value(_) => 0,
    }
}

/// The lines that sum up what was extracted from a PPTX file.
pub fn pptx_summary(metadata: &Metadata, text: &str) -> (res: Vec<String>)
    requires
        metadata.wf(),
    ensures
        texts(res@) == seq![
            "EXTRACTION COMPLETE"@,
            size_line(text@),
            "TITLE.....: "@ + shown_field(metadata@, "title"@),
            "CREATOR...: "@ + shown_field(metadata@, "creator"@),
            "SLIDES....: "@ + decimal(number_field(metadata@, "slide_count"@)),
            Seq::empty(),
        ],
{
    let mut lines: Vec<String> = Vec::new();
    lines.push("EXTRACTION COMPLETE".to_owned());
    lines.push(size_text(text));
    lines.push(labelled("TITLE.....: ", field_text(metadata, "title").as_str()));
    lines.push(labelled("CREATOR...: ", field_text(metadata, "creator").as_str()));
    let slides: u64 = field_number(metadata, "slide_count");
    lines.push(labelled("SLIDES....: ", decimal_string(slides).as_str()));
    let blank = String::new();
    lines.push(blank);
    proof {
        assert(blank@ =~= Seq::<char>::empty());
        assert(texts(lines@) =~= seq![
            "EXTRACTION COMPLETE"@,
            size_line(text@),
            "TITLE.....: "@ + shown_field(metadata@, "title"@),
            "CREATOR...: "@ + shown_field(metadata@, "creator"@),
            "SLIDES....: "@ + decimal(number_field(metadata@, "slide_count"@)),
            Seq::empty(),
        ]);
    }
    lines
}

/// The lines with which an ingestion ends.
pub fn queued_footer() -> (res: Vec<String>)
    ensures
        texts(res@) == seq![Seq::empty()] + banner("QUEUED FOR INGESTION"@),
{
    let mut lines: Vec<String> = Vec::new();
    let blank = String::new();
    lines.push(blank);
    proof {
        assert(blank@ =~= Seq::<char>::empty());
        assert(texts(lines@) =~= seq![Seq::<char>::empty()]);
    }
    push_all(&mut lines, banner_lines("QUEUED FOR INGESTION"));
    lines
}

/// The lines that show how many documents each stage holds.
pub open spec fn count_lines(status: PipelineStatus) -> Seq<Seq<char>> {
    banner("PIPELINE STATUS"@) + seq![
        "  PENDING.....: "@ + decimal(status.pending as nat),
        "  CHUNKED.....: "@ + decimal(status.chunked as nat),
        "  EMBEDDED....: "@ + decimal(status.embedded as nat),
        "  DONE........: "@ + decimal(status.done as nat),
        "  FAILED......: "@ + decimal(status.failed as nat),
    ]
}

/// The lines that show the documents that have failed.
pub open spec fn failure_lines(failed: Seq<FailedItem>) -> Seq<Seq<char>>
    decreases failed.len(),
{
    if failed.len() == 0 {
        seq![Seq::empty(), "FAILED ITEMS"@, single_rule()]
    } else {
        let item = failed.last();
        failure_lines(failed.drop_last()) + seq![
            "  job_id="@ + signed_decimal(item.job_id as int) + " source="@ + item.source@,
            "  error: "@ + item.error@,
            Seq::empty(),
        ]
    }
}

/// The lines that show the status of the pipeline: the counts, and the documents that have failed,
/// if any.
pub fn status_lines(status: &PipelineStatus, failed: &Vec<FailedItem>) -> (res: Vec<String>)
    ensures
        texts(res@) == count_lines(*status) + (if failed@.len() == 0 {
            Seq::empty()
        } else {
            failure_lines(failed@)
        }),
{
    let mut lines = banner_lines("PIPELINE STATUS");
    let ghost heading = texts(lines@);
    lines.push(labelled("  PENDING.....: ", decimal_string(status.pending).as_str()));
    lines.push(labelled("  CHUNKED.....: ", decimal_string(status.chunked).as_str()));
    lines.push(labelled("  EMBEDDED....: ", decimal_string(status.embedded).as_str()));
    lines.push(labelled("  DONE........: ", decimal_string(status.done).as_str()));
    lines.push(labelled("  FAILED......: ", decimal_string(status.failed).as_str()));
    proof {
        assert(texts(lines@) =~= count_lines(*status));
    }
    let n: usize = failed.len();
    if n == 0 {
        proof {
            assert(count_lines(*status) + Seq::<Seq<char>>::empty() =~= count_lines(*status));
        }
        return lines;
    }
    let blank = String::new();
    let ghost counts = texts(lines@);
    lines.push(blank);
    lines.push("FAILED ITEMS".to_owned());
    lines.push(single_line());
    proof {
        assert(blank@ =~= Seq::<char>::empty());
        assert(texts(lines@) =~= counts + failure_lines(failed@.take(0)));
    }
    let mut i: usize = 0;
    while i < n
        invariant
            n == failed@.len(),
            i <= n,
            texts(lines@) == counts + failure_lines(failed@.take(i as int)),
        decreases n - i,
    {
        let ghost before = texts(lines@);
        let mut job = labelled(
            "  job_id=",
            signed_decimal_string(failed[i].job_id).as_str(),
        );
        job.append(" source=");
        job.append(failed[i].source.as_str());
        lines.push(job);
        lines.push(labelled("  error: ", failed[i].error.as_str()));
        let gap = String::new();
        lines.push(gap);
        proof {
            let seen = failed@.take(i + 1);
            let item = failed@[i as int];
            assert(seen.drop_last() == failed@.take(i as int));
            assert(seen.last() == item);
            assert(gap@ =~= Seq::<char>::empty());
            assert(texts(lines@) =~= before + seq![
                "  job_id="@ + signed_decimal(item.job_id as int) + " source="@ + item.source@,
                "  error: "@ + item.error@,
                Seq::empty(),
            ]);
            assert(texts(lines@) =~= counts + failure_lines(seen));
        }
        i = i + 1;
    }
    assert(failed@.take(n as int) == failed@);
    lines
}

/// The line that says how many documents are tried again.
pub fn retry_line(count: u64) -> (res: String)
    ensures
        res@ == (if count == 0 {
            "No failed jobs to retry."@
        } else {
            "Re-queued "@ + decimal(count as nat) + " failed job(s)."@
        }),
{
    if count == 0 {
        "No failed jobs to retry.".to_owned()
    } else {
        let mut res = labelled("Re-queued ", decimal_string(count).as_str());
        res.append(" failed job(s).");
        res
    }
}

/// The lines with which the server begins.
pub fn serve_header(bind: &str, writable: bool) -> (res: Vec<String>)
    ensures
        texts(res@) == banner("CAPSA MCP SERVER"@) + seq![
            "BIND......: "@ + bind@,
            "MODE......: "@ + (if writable {
                "READ-WRITE"@
            } else {
                "READ-ONLY"@
            }),
            Seq::empty(),
        ],
{
    let mut lines = banner_lines("CAPSA MCP SERVER");
    let ghost before = texts(lines@);
    lines.push(labelled("BIND......: ", bind));
    let mode = if writable {
        labelled("MODE......: ", "READ-WRITE")
    } else {
        labelled("MODE......: ", "READ-ONLY")
    };
    lines.push(mode);
    let blank = String::new();
    lines.push(blank);
    proof {
        assert(blank@ =~= Seq::<char>::empty());
        assert(texts(lines@) =~= before + seq![
            "BIND......: "@ + bind@,
            "MODE......: "@ + (if writable {
                "READ-WRITE"@
            } else {
                "READ-ONLY"@
            }),
            Seq::empty(),
        ]);
    }
    lines
}

/// The lines that say where the server listens.
pub fn listening_lines(bind: &str) -> (res: Vec<String>)
    ensures
        texts(res@) == seq!["LISTENING ON http://"@ + bind@ + "/"@, double_rule()],
{
    let mut first = labelled("LISTENING ON http://", bind);
    first.append("/");
    let mut lines: Vec<String> = Vec::new();
    lines.push(first);
    lines.push(double_line());
    assert(texts(lines@) =~= seq!["LISTENING ON http://"@ + bind@ + "/"@, double_rule()]);
    lines
}

/// How many results a search of the server returns: 5 unless the request says otherwise.
pub fn requested_results(top_k: Option<usize>) -> (res: usize)
    ensures
        res == (match top_k {
            Some(k) => k,
            None => 5,
        }),
{
    match top_k {
        Some(k) => k,
        None => 5,
    }
}

/// What the server answers for a document that does not exist.
pub fn not_found(doc_id: i64) -> (res: String)
    ensures
        res@ == "document "@ + signed_decimal(doc_id as int) + " not found"@,
{
    let mut res = labelled("document ", signed_decimal_string(doc_id).as_str());
    res.append(" not found");
    res
}

} // verus!
