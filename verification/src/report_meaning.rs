//! What the lines of the reports show of the values that they are made of.

use vstd::prelude::*;
use crate::metadata::{MetaView, Metadata, MetadataView};
use crate::queue::{FailedItem, PipelineStatus};
use crate::report::{
    are_distinct, ask_header, banner_lines, clipped_chunk, count_lines, double_line, failure_lines,
    field_line, field_lines, file_header, has_entry, is_key_order, key_order,
    law_kept_document_is_found, listening_lines, metadata_lines, no_records, not_found,
    number_field, offset_text, pdf_summary, pptx_summary, print_metadata, queued_footer,
    record_report, record_title_line, requested_results, retry_line, serve_header, shown_chunk,
    single_line, size_text, status_lines, transcript_header, uppercased, DocumentCache,
    SearchCache,
};
use crate::text::{
    byte_len, decimal, law_bytes_of_both, law_decimal_round_trip, law_part_of_text,
    law_zero_padded, lemma_order_unique, optional_text, signed_decimal, texts, zero_padded,
};

verus! {

/// The chunk that is shown of a document is the part of it between the two positions.
pub proof fn law_shown_chunk(
    content: &str,
    a: Seq<char>,
    part: Seq<char>,
    b: Seq<char>,
    start: i64,
    end: i64,
    res: Option<String>,
)
    requires
        call_ensures(shown_chunk, (content, start, end), res),
        content@ == a + part + b,
        start == byte_len(a),
        end == byte_len(a) + byte_len(part),
    ensures
        res matches Some(chunk) && chunk@ == part,
{
    law_bytes_of_both(a + part, b);
    law_bytes_of_both(a, part);
    if let Some(chunk) = res {
        law_part_of_text(a, part, b, chunk@);
    }
}

/// Nothing is shown of a chunk that ends behind its document.
pub proof fn law_chunk_outside(content: &str, start: i64, end: i64, res: Option<String>)
    requires
        call_ensures(shown_chunk, (content, start, end), res),
        end < 0 || end > byte_len(content@),
    ensures
        res is None,
{
}

/// A chunk that ends behind its document, or whose end is negative, is clipped to what there is.
pub proof fn law_clipped_chunk(
    content: &str,
    a: Seq<char>,
    part: Seq<char>,
    b: Seq<char>,
    start: i64,
    end: i64,
    res: String,
)
    requires
        call_ensures(clipped_chunk, (content, start, end), res),
        content@ == a + part + b,
        start == byte_len(a),
        if end < 0 || end > byte_len(content@) {
            b.len() == 0
        } else {
            end == byte_len(a) + byte_len(part)
        },
    ensures
        res@ == part,
{
    law_bytes_of_both(a + part, b);
    law_bytes_of_both(a, part);
    law_part_of_text(a, part, b, res@);
}

/// Whether this is a number, filled up to a width by zeros in front.
pub open spec fn is_padded(text: Seq<char>, digits: Seq<char>, width: nat) -> bool {
    &&& text.len() == if digits.len() < width {
        width
    } else {
        digits.len()
    }
    &&& text.skip(text.len() - digits.len()) == digits
    &&& forall|i: int| 0 <= i < text.len() - digits.len() ==> #[trigger] text[i] == '0'
}

/// The title of a record gives its number, in three digits or more, its document, in six, and its
/// similarity where there is one.
pub proof fn law_record_title(number: usize, doc_id: i64, similarity: Option<&str>, res: String)
    requires
        call_ensures(record_title_line, (number, doc_id, similarity), res),
        doc_id >= 0,
    ensures
        exists|n: Seq<char>, d: Seq<char>|
            {
                &&& #[trigger] is_padded(n, decimal(number as nat), 3)
                &&& #[trigger] is_padded(d, decimal(doc_id as nat), 6)
                &&& match similarity {
                    None => res@ == "RECORD "@ + n + "  DOCID="@ + d,
                    Some(s) => res@ == "RECORD "@ + n + "  DOCID="@ + d + "  SIMILARITY="@ + s@
                        + "%"@,
                }
            },
{
    let n = zero_padded(decimal(number as nat), 3);
    let d = zero_padded(decimal(doc_id as nat), 6);
    law_zero_padded(decimal(number as nat), 3);
    law_zero_padded(decimal(doc_id as nat), 6);
    assert(is_padded(n, decimal(number as nat), 3));
    assert(is_padded(d, decimal(doc_id as nat), 6));
}

/// The offsets of a chunk are where it begins, where it ends and how long it is.
pub proof fn law_offsets(start: i64, end: i64, res: String)
    requires
        call_ensures(offset_text, (start, end), res),
        0 <= start <= end,
    ensures
        res@ == "OFFSET.: "@ + decimal(start as nat) + "-"@ + decimal(end as nat) + " ("@ + decimal(
            (end - start) as nat,
        ) + " BYTES)"@,
{
}

/// A record shows its title, every line of its metadata, its offsets and its chunk, in this order.
pub proof fn law_record(
    title: String,
    metadata: &Metadata,
    offsets: String,
    chunk: Option<String>,
    shown: Vec<String>,
    res: Vec<String>,
)
    requires
        metadata.wf(),
        call_ensures(print_metadata, (metadata,), shown),
        call_ensures(record_report, (title, metadata, offsets, chunk), res),
    ensures
        res@.len() == shown@.len() + if chunk is Some {
            10nat
        } else {
            5nat
        },
        res@[1]@ == title@,
        forall|i: int| 0 <= i < shown@.len() ==> (#[trigger] res@[3 + i])@ == shown@[i]@,
        res@[3 + shown@.len() as int]@ == offsets@,
        chunk matches Some(text) ==> {
            &&& res@[5 + shown@.len() as int]@ == "CONTENT:"@
            &&& res@[7 + shown@.len() as int]@ == text@
        },
        res@.last()@.len() == 0,
{
    let lines = texts(res@);
    let m = texts(shown@);
    assert(m == metadata_lines(metadata@));
    assert(lines.len() == res@.len());
    assert(m.len() == shown@.len());
    assert(lines[1] == res@[1]@);
    assert forall|i: int| 0 <= i < shown@.len() implies (#[trigger] res@[3 + i])@ == shown@[i]@ by {
        assert(lines[3 + i] == res@[3 + i]@);
        assert(m[i] == shown@[i]@);
    }
    let at = 3 + m.len() as int;
    assert(lines[at] == res@[at]@);
    if chunk is Some {
        assert(lines[at + 2] == res@[at + 2]@);
        assert(lines[at + 4] == res@[at + 4]@);
    }
    assert(lines.last() == res@.last()@);
}

/// Whether a field of metadata has nothing to show.
pub open spec fn is_blank(item: MetaView) -> bool {
    match item {
        MetaView::Null => true,
        MetaView::Text(s) => s.len() == 0,
        MetaView::Json(s) => s.len() == 0,
    }
}

/// How many of the first `n` keys have something to show.
pub open spec fn shown_before(keys: Seq<Seq<char>>, m: Map<Seq<char>, MetaView>, n: nat) -> nat
    decreases n,
{
    if n == 0 {
        0
    } else if is_blank(m[keys[n - 1]]) {
        shown_before(keys, m, (n - 1) as nat)
    } else {
        shown_before(keys, m, (n - 1) as nat) + 1
    }
}

proof fn lemma_field_lines(keys: Seq<Seq<char>>, m: Map<Seq<char>, MetaView>, i: int)
    requires
        0 <= i < keys.len(),
    ensures
        field_lines(keys, m).len() == shown_before(keys, m, keys.len()),
        !is_blank(m[keys[i]]) ==> {
            let at = shown_before(keys, m, i as nat) as int;
            &&& at < field_lines(keys, m).len()
            &&& Some(field_lines(keys, m)[at]) == field_line(keys[i], m[keys[i]])
        },
    decreases keys.len(),
{
    let front = keys.drop_last();
    lemma_same_before(front, keys, m, front.len());
    if i < front.len() {
        lemma_same_before(front, keys, m, i as nat);
        lemma_field_lines(front, m, i);
    } else if front.len() > 0 {
        lemma_field_lines(front, m, 0);
    }
}

proof fn lemma_same_before(
    front: Seq<Seq<char>>,
    keys: Seq<Seq<char>>,
    m: Map<Seq<char>, MetaView>,
    n: nat,
)
    requires
        n <= front.len() <= keys.len(),
        forall|i: int| 0 <= i < front.len() ==> front[i] == keys[i],
    ensures
        shown_before(front, m, n) == shown_before(keys, m, n),
    decreases n,
{
    if n > 0 {
        lemma_same_before(front, keys, m, (n - 1) as nat);
    }
}

/// Each field of the metadata that has something to show is shown, in the order of the keys, under
/// its key in capitals. Nothing else is.
pub proof fn law_metadata_is_shown(
    metadata: &Metadata,
    m: Map<Seq<char>, MetaView>,
    keys: Seq<Seq<char>>,
    i: int,
    res: Vec<String>,
)
    requires
        metadata.wf(),
        call_ensures(print_metadata, (metadata,), res),
        metadata@ == MetadataView::Object(m),
        is_key_order(keys, m),
        0 <= i < keys.len(),
    ensures
        res@.len() == shown_before(keys, m, keys.len()),
        ({
            let line = res@[shown_before(keys, m, i as nat) as int]@;
            match m[keys[i]] {
                MetaView::Null => true,
                MetaView::Text(s) => s.len() > 0 ==> line == uppercased(keys[i]) + ": "@ + s,
                MetaView::Json(s) => s.len() > 0 ==> line == uppercased(keys[i]) + ": "@ + s,
            }
        }),
{
    let chosen = key_order(m);
    assert(is_key_order(chosen, m));
    assert forall|k: Seq<char>| #[trigger] chosen.contains(k) <==> keys.contains(k) by {
        assert(chosen.contains(k) <==> m.dom().contains(k));
        assert(keys.contains(k) <==> m.dom().contains(k));
    }
    lemma_order_unique(chosen, keys);
    lemma_field_lines(keys, m, i);
    assert(texts(res@) == field_lines(keys, m));
    assert(texts(res@).len() == res@.len());
    let at = shown_before(keys, m, i as nat) as int;
    if !is_blank(m[keys[i]]) {
        assert(texts(res@)[at] == res@[at]@);
    }
}

/// The status shows each count in a line of its own.
pub proof fn law_counts_are_shown(
    status: &PipelineStatus,
    failed: &Vec<FailedItem>,
    res: Vec<String>,
)
    requires
        call_ensures(status_lines, (status, failed), res),
    ensures
        failed@.len() == 0 ==> res@.len() == 8,
        res@.len() >= 8,
        res@[1]@ == "PIPELINE STATUS"@,
        res@[3]@ == "  PENDING.....: "@ + decimal(status.pending as nat),
        res@[4]@ == "  CHUNKED.....: "@ + decimal(status.chunked as nat),
        res@[5]@ == "  EMBEDDED....: "@ + decimal(status.embedded as nat),
        res@[6]@ == "  DONE........: "@ + decimal(status.done as nat),
        res@[7]@ == "  FAILED......: "@ + decimal(status.failed as nat),
{
    let lines = texts(res@);
    assert(lines.len() == res@.len());
    assert forall|i: int| 0 <= i < res@.len() implies lines[i] == (#[trigger] res@[i])@ by {}
}

/// The status shows each document that has failed, in their order, with its source and its error.
pub proof fn law_failures_are_shown(
    status: &PipelineStatus,
    failed: &Vec<FailedItem>,
    i: int,
    res: Vec<String>,
)
    requires
        call_ensures(status_lines, (status, failed), res),
        0 <= i < failed@.len(),
    ensures
        res@.len() == 11 + 3 * failed@.len(),
        res@[9]@ == "FAILED ITEMS"@,
        res@[11 + 3 * i]@ == "  job_id="@ + signed_decimal(failed@[i].job_id as int) + " source="@
            + failed@[i].source@,
        res@[12 + 3 * i]@ == "  error: "@ + failed@[i].error@,
{
    lemma_failure_lines(failed@, i);
    let lines = texts(res@);
    let counts = count_lines(*status);
    let failures = failure_lines(failed@);
    assert(lines == counts + failures);
    assert(counts.len() == 8);
    assert(lines.len() == res@.len());
    assert(lines[9] == failures[1]);
    assert(lines[11 + 3 * i] == failures[3 + 3 * i]);
    assert(lines[12 + 3 * i] == failures[4 + 3 * i]);
    assert(lines[9] == res@[9]@);
    assert(lines[11 + 3 * i] == res@[11 + 3 * i]@);
    assert(lines[12 + 3 * i] == res@[12 + 3 * i]@);
}

proof fn lemma_failure_lines(failed: Seq<FailedItem>, i: int)
    requires
        0 <= i < failed.len(),
    ensures
        failure_lines(failed).len() == 3 + 3 * failed.len(),
        failure_lines(failed)[1] == "FAILED ITEMS"@,
        failure_lines(failed)[3 + 3 * i] == "  job_id="@ + signed_decimal(failed[i].job_id as int)
            + " source="@ + failed[i].source@,
        failure_lines(failed)[4 + 3 * i] == "  error: "@ + failed[i].error@,
    decreases failed.len(),
{
    let front = failed.drop_last();
    if i < front.len() {
        lemma_failure_lines(front, i);
        assert(front[i] == failed[i]);
    } else if front.len() > 0 {
        lemma_failure_lines(front, 0);
    } else {
        assert(failure_lines(front).len() == 3);
    }
}

/// The answer to a retry says how many documents are tried again, where there are any.
pub proof fn law_retry_line(count: u64, res: String)
    requires
        call_ensures(retry_line, (count,), res),
    ensures
        count > 0 ==> res@ == "Re-queued "@ + decimal(count as nat) + " failed job(s)."@,
        count == 0 ==> res@ == "No failed jobs to retry."@,
{
}

/// A search of the server returns as many results as it is asked for, and five unless it is.
pub proof fn law_requested_results(k: usize, asked: usize, unasked: usize)
    requires
        call_ensures(requested_results, (Some(k),), asked),
        call_ensures(requested_results, (None,), unasked),
    ensures
        asked == k,
        unasked == 5,
{
}

/// A document that does not exist is named in the answer.
pub proof fn law_not_found(doc_id: i64, res: String)
    requires
        call_ensures(not_found, (doc_id,), res),
        doc_id >= 0,
    ensures
        res@ == "document "@ + decimal(doc_id as nat) + " not found"@,
{
}

/// A query begins with what is asked and how many answers are wanted.
pub proof fn law_ask_header(query: &str, top_k: usize, res: Vec<String>)
    requires
        call_ensures(ask_header, (query, top_k), res),
    ensures
        res@.len() == 6,
        res@[1]@ == "DOCUMENT RETRIEVAL SYSTEM"@,
        res@[3]@ == "QUERY.....: "@ + query@,
        res@[4]@ == "TOP-K.....: "@ + decimal(top_k as nat),
        res@[5]@.len() == 0,
{
    let lines = texts(res@);
    assert(lines.len() == res@.len());
    assert forall|i: int| 0 <= i < res@.len() implies lines[i] == (#[trigger] res@[i])@ by {}
}

/// The server begins with where it listens and whether it can be written to.
pub proof fn law_serve_header(
    bind: &str,
    writable: bool,
    res: Vec<String>,
    listening: Vec<String>,
)
    requires
        call_ensures(serve_header, (bind, writable), res),
        call_ensures(listening_lines, (bind,), listening),
    ensures
        res@.len() == 6,
        res@[1]@ == "CAPSA MCP SERVER"@,
        res@[3]@ == "BIND......: "@ + bind@,
        writable ==> res@[4]@ == "MODE......: "@ + "READ-WRITE"@,
        !writable ==> res@[4]@ == "MODE......: "@ + "READ-ONLY"@,
        res@[5]@.len() == 0,
        listening@.len() == 2,
        listening@[0]@ == "LISTENING ON http://"@ + bind@ + "/"@,
{
    let lines = texts(res@);
    assert(lines.len() == res@.len());
    assert forall|i: int| 0 <= i < res@.len() implies lines[i] == (#[trigger] res@[i])@ by {}
    let more = texts(listening@);
    assert(more.len() == listening@.len());
    assert(more[0] == listening@[0]@);
}

/// An ingestion begins with what is taken in.
pub proof fn law_ingestion_headers(
    heading: &str,
    path: &str,
    input: &str,
    language: &str,
    file: Vec<String>,
    transcript: Vec<String>,
)
    requires
        call_ensures(file_header, (heading, path), file),
        call_ensures(transcript_header, (input, language), transcript),
    ensures
        file@.len() == 6,
        file@[1]@ == heading@,
        file@[3]@ == "FILE......: "@ + path@,
        file@[5]@ == "EXTRACTING TEXT..."@,
        transcript@.len() == 7,
        transcript@[1]@ == "YOUTUBE TRANSCRIPT INGESTION SYSTEM"@,
        transcript@[3]@ == "INPUT.....: "@ + input@,
        transcript@[4]@ == "LANGUAGE..: "@ + language@,
        transcript@[6]@ == "EXTRACTING VIDEO ID..."@,
{
    let lines = texts(file@);
    assert(lines.len() == file@.len());
    assert forall|i: int| 0 <= i < file@.len() implies lines[i] == (#[trigger] file@[i])@ by {}
    let more = texts(transcript@);
    assert(more.len() == transcript@.len());
    assert forall|i: int| 0 <= i < transcript@.len() implies more[i] == (
    #[trigger] transcript@[i])@ by {}
}

/// What was extracted is summed up by its length in bytes and by its title and its author, or its
/// creator and how many slides there are. What is missing is said to be.
pub proof fn law_summaries(
    metadata: &Metadata,
    text: &str,
    slides: u64,
    m: Map<Seq<char>, MetaView>,
    size: String,
    pdf: Vec<String>,
    pptx: Vec<String>,
)
    requires
        metadata.wf(),
        metadata@ == MetadataView::Object(m),
        m.dom().contains("slide_count"@),
        m["slide_count"@] == MetaView::Json(decimal(slides as nat)),
        call_ensures(size_text, (text,), size),
        call_ensures(pdf_summary, (metadata, text), pdf),
        call_ensures(pptx_summary, (metadata, text), pptx),
    ensures
        size@ == "TEXT SIZE.: "@ + decimal(byte_len(text@)) + " CHARACTERS"@,
        pdf@.len() == 5,
        pptx@.len() == 6,
        pdf@[1]@ == size@,
        pptx@[1]@ == size@,
        match metadata@.text("title"@) {
            Some(t) => pdf@[2]@ == "TITLE.....: "@ + t && pptx@[2]@ == "TITLE.....: "@ + t,
            None => pdf@[2]@ == "TITLE.....: "@ + "N/A"@ && pptx@[2]@ == "TITLE.....: "@ + "N/A"@,
        },
        match metadata@.text("author"@) {
            Some(t) => pdf@[3]@ == "AUTHOR....: "@ + t,
            None => pdf@[3]@ == "AUTHOR....: "@ + "N/A"@,
        },
        match metadata@.text("creator"@) {
            Some(t) => pptx@[3]@ == "CREATOR...: "@ + t,
            None => pptx@[3]@ == "CREATOR...: "@ + "N/A"@,
        },
        pptx@[4]@ == "SLIDES....: "@ + decimal(slides as nat),
{
    law_decimal_round_trip(slides as nat, u64::MAX as nat);
    assert(number_field(metadata@, "slide_count"@) == slides);
    let lines = texts(pdf@);
    assert(lines.len() == pdf@.len());
    assert forall|i: int| 0 <= i < pdf@.len() implies lines[i] == (#[trigger] pdf@[i])@ by {}
    let more = texts(pptx@);
    assert(more.len() == pptx@.len());
    assert forall|i: int| 0 <= i < pptx@.len() implies more[i] == (#[trigger] pptx@[i])@ by {}
}

/// A document that is kept is found again, and what is found is what was kept.
pub proof fn law_kept_document_is_recalled(
    cache: &mut DocumentCache,
    doc_id: i64,
    content: String,
    again: &mut DocumentCache,
    found: Option<String>,
)
    requires
        old(cache).wf(),
        call_ensures(DocumentCache::keep, (cache, doc_id, content), ()),
        *again == *final(cache),
        call_ensures(DocumentCache::recall, (again, doc_id), found),
    ensures
        found matches Some(s) && s@ == content@,
{
    let limit: nat = 64;
    law_kept_document_is_found(cache.entries(), limit, doc_id, content@);
    let entries = again.entries();
    assert(entries[0] == (doc_id, content@));
    assert(has_entry(entries, doc_id));
}

/// What a search has fetched it does not fetch again, and what is fetched is kept under its number.
pub proof fn law_search_keeps_what_it_fetches(
    cache: &mut SearchCache,
    doc_id: i64,
    fetched: Option<String>,
    res: Option<String>,
    missing: bool,
)
    requires
        call_ensures(SearchCache::content, (cache, doc_id, fetched), res),
        call_ensures(SearchCache::is_missing, (&*final(cache), doc_id), missing),
    ensures
        missing <==> res is None,
        old(cache).contents().dom().contains(doc_id) ==> optional_text(res) == Some(
            old(cache).contents()[doc_id],
        ),
        !old(cache).contents().dom().contains(doc_id) ==> optional_text(res) == optional_text(
            fetched,
        ),
        res matches Some(s) ==> final(cache).contents()[doc_id] == s@,
        forall|id: i64| #[trigger]
            old(cache).contents().dom().contains(id) ==> final(cache).contents().dom().contains(id)
                && final(cache).contents()[id] == old(cache).contents()[id],
{
}

/// A cache holds up to 64 documents: until then none is lost. Then the one that was not used for
/// the longest time makes room.
pub proof fn law_cache_makes_room(
    cache: &mut DocumentCache,
    doc_id: i64,
    content: String,
    i: int,
)
    requires
        old(cache).wf(),
        call_ensures(DocumentCache::keep, (cache, doc_id, content), ()),
        !has_entry(old(cache).entries(), doc_id),
        0 <= i < old(cache).entries().len(),
    ensures
        final(cache).entries()[0] == (doc_id, content@),
        old(cache).entries().len() < 64 ==> final(cache).entries().len()
            == old(cache).entries().len() + 1 && final(cache).entries()[i + 1]
            == old(cache).entries()[i],
        old(cache).entries().len() == 64 ==> final(cache).entries().len() == 64 && (i < 63
            ==> final(cache).entries()[i + 1] == old(cache).entries()[i]),
{
}

/// A document that the cache holds is answered from it. Another one is answered with what was
/// fetched, which is kept.
pub proof fn law_cache_answers(
    cache: &mut DocumentCache,
    doc_id: i64,
    fetched: Option<String>,
    res: Option<String>,
    i: int,
)
    requires
        old(cache).wf(),
        call_ensures(DocumentCache::content, (cache, doc_id, fetched), res),
    ensures
        0 <= i < old(cache).entries().len() && old(cache).entries()[i].0 == doc_id
            && are_distinct(old(cache).entries()) ==> optional_text(res) == Some(
            old(cache).entries()[i].1,
        ),
        !has_entry(old(cache).entries(), doc_id) ==> optional_text(res) == optional_text(fetched),
        !has_entry(old(cache).entries(), doc_id) && fetched is Some
            ==> final(cache).entries()[0] == (doc_id, fetched->0@),
        !has_entry(old(cache).entries(), doc_id) && fetched is None ==> final(cache).entries()
            == old(cache).entries(),
{
    let entries = old(cache).entries();
    if 0 <= i < entries.len() && entries[i].0 == doc_id && are_distinct(entries) {
        assert(has_entry(entries, doc_id));
        let j = choose|j: int|
            0 <= j < entries.len() && #[trigger] entries[j] == (doc_id, res->0@)
                && final(cache).entries() == seq![(doc_id, res->0@)] + entries.remove(j);
        assert(entries[j].0 == entries[i].0);
        if i < j {
            assert(entries[i].0 != entries[j].0);
        } else if j < i {
            assert(entries[j].0 != entries[i].0);
        }
    }
}

/// A rule is eighty characters wide.
pub proof fn law_rules(double: String, single: String, i: int)
    requires
        call_ensures(double_line, (), double),
        call_ensures(single_line, (), single),
        0 <= i < 80,
    ensures
        double@.len() == 80,
        single@.len() == 80,
        double@[i] == '=',
        single@[i] == '-',
{
    reveal_strlit("================================================================================");
    reveal_strlit("--------------------------------------------------------------------------------");
}

/// A heading stands between two rules, and an ingestion ends with one.
pub proof fn law_headings(
    heading: &str,
    double: String,
    res: Vec<String>,
    footer: Vec<String>,
    none: String,
)
    requires
        call_ensures(double_line, (), double),
        call_ensures(banner_lines, (heading,), res),
        call_ensures(queued_footer, (), footer),
        call_ensures(no_records, (), none),
    ensures
        res@.len() == 3,
        res@[0]@ == double@,
        res@[1]@ == heading@,
        res@[2]@ == double@,
        footer@.len() == 4,
        footer@[0]@.len() == 0,
        footer@[2]@ == "QUEUED FOR INGESTION"@,
        none@ == "*** NO RECORDS FOUND ***"@,
{
    let lines = texts(res@);
    assert(lines.len() == res@.len());
    assert forall|i: int| 0 <= i < res@.len() implies lines[i] == (#[trigger] res@[i])@ by {}
    let more = texts(footer@);
    assert(more.len() == footer@.len());
    assert forall|i: int| 0 <= i < footer@.len() implies more[i] == (#[trigger] footer@[i])@ by {}
}

/// A document that is kept is not missing, and one that was never kept is.
pub proof fn law_kept_document_is_not_missing(
    cache: &mut DocumentCache,
    doc_id: i64,
    content: String,
    missing: bool,
    fresh: DocumentCache,
    missing_at_first: bool,
)
    requires
        old(cache).wf(),
        call_ensures(DocumentCache::keep, (cache, doc_id, content), ()),
        call_ensures(DocumentCache::is_missing, (&*final(cache), doc_id), missing),
        call_ensures(DocumentCache::new, (), fresh),
        call_ensures(DocumentCache::is_missing, (&fresh, doc_id), missing_at_first),
    ensures
        !missing,
        missing_at_first,
{
    let limit: nat = 64;
    law_kept_document_is_found(old(cache).entries(), limit, doc_id, content@);
}

} // verus!
