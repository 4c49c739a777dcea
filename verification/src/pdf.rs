//! Documents made of PDF files.

use vstd::prelude::*;
use vstd::utf8::{
    decode_utf8, encode_utf8, encode_utf8_decode_utf8, encode_utf8_valid_utf8, valid_utf8,
};
use crate::codec::utf8_text;
use crate::metadata::{Fields, MetaValue, MetaView, Metadata, MetadataView};
use crate::text::{copy_of, trim, trimmed};

verus! {

/// The entries of a PDF file's information dictionary, as the bytes that stand there.
#[derive(Debug)]
pub struct PdfInfo {
    pub title: Option<Vec<u8>>,
    pub author: Option<Vec<u8>>,
    pub subject: Option<Vec<u8>>,
    pub keywords: Option<Vec<u8>>,
    pub creator: Option<Vec<u8>>,
    pub producer: Option<Vec<u8>>,
}

/// The text of an entry: nothing where there is none, or where it is no UTF-8.
pub open spec fn entry_text(bytes: Option<Vec<u8>>) -> Option<Seq<char>> {
    match bytes {
        Some(b) => if valid_utf8(b@) {
            Some(decode_utf8(b@))
        } else {
            None
        },
        None => None,
    }
}

/// A field that is `Unknown` where it is missing.
pub open spec fn named_field(text: Option<Seq<char>>) -> MetaView {
    match text {
        Some(s) => MetaView::Text(s),
        None => MetaView::Text("Unknown"@),
    }
}

/// A field that is `null` where it is missing.
pub open spec fn optional_field(text: Option<Seq<char>>) -> MetaView {
    match text {
        Some(s) => MetaView::Text(s),
        None => MetaView::Null,
    }
}

/// The metadata of a PDF file: what its information dictionary holds, and its path.
pub open spec fn pdf_fields(info: PdfInfo, path: Seq<char>) -> Map<Seq<char>, MetaView> {
    Map::empty().insert("title"@, named_field(entry_text(info.title))).insert(
        "author"@,
        named_field(entry_text(info.author)),
    ).insert("subject"@, optional_field(entry_text(info.subject))).insert(
        "keywords"@,
        optional_field(entry_text(info.keywords)),
    ).insert("creator"@, optional_field(entry_text(info.creator))).insert(
        "producer"@,
        optional_field(entry_text(info.producer)),
    ).insert("path"@, MetaView::Text(path))
}

/// The text of an entry.
fn info_text(bytes: Option<Vec<u8>>) -> (res: Option<String>)
    ensures
        match res {
            Some(s) => entry_text(bytes) == Some(s@),
            None => entry_text(bytes) is None,
        },
{
    match bytes {
        Some(b) => utf8_text(b),
        None => None,
    }
}

fn named_value(bytes: Option<Vec<u8>>) -> (res: MetaValue)
    ensures
        res@ == named_field(entry_text(bytes)),
{
    match info_text(bytes) {
        Some(s) => MetaValue::Text(s),
        None => MetaValue::Text("Unknown".to_owned()),
    }
}

fn optional_value(bytes: Option<Vec<u8>>) -> (res: MetaValue)
    ensures
        res@ == optional_field(entry_text(bytes)),
{
    match info_text(bytes) {
        Some(s) => MetaValue::Text(s),
        None => MetaValue::Null,
    }
}

/// The entries of a file without an information dictionary.
pub fn no_info() -> (res: PdfInfo)
    ensures
        res.title is None && res.author is None && res.subject is None && res.keywords is None
            && res.creator is None && res.producer is None,
{
    PdfInfo {
        title: None,
        author: None,
        subject: None,
        keywords: None,
        creator: None,
        producer: None,
    }
}

/// The metadata of a PDF file.
pub fn pdf_metadata(info: PdfInfo, path: &str) -> (res: Metadata)
    ensures
        res.wf(),
        res@ == MetadataView::Object(pdf_fields(info, path@)),
        res@ matches MetadataView::Object(fields) && {
            &&& is_text_of(fields["title"@], info.title, MetaView::Text("Unknown"@))
            &&& is_text_of(fields["author"@], info.author, MetaView::Text("Unknown"@))
            &&& is_text_of(fields["subject"@], info.subject, MetaView::Null)
            &&& is_text_of(fields["keywords"@], info.keywords, MetaView::Null)
            &&& is_text_of(fields["creator"@], info.creator, MetaView::Null)
            &&& is_text_of(fields["producer"@], info.producer, MetaView::Null)
            &&& fields["path"@] == MetaView::Text(path@)
        },
{
    proof {
        law_pdf_fields(info, path@);
    }
    let mut fields = Fields::new();
    fields.set("title", named_value(info.title));
    fields.set("author", named_value(info.author));
    fields.set("subject", optional_value(info.subject));
    fields.set("keywords", optional_value(info.keywords));
    fields.set("creator", optional_value(info.creator));
    fields.set("producer", optional_value(info.producer));
    fields.set("path", MetaValue::Text(copy_of(path)));
    Metadata::Object(fields)
}

/// The source under which a PDF file is put into the queue.
pub fn pdf_source(path: &str) -> (res: String)
    ensures
        res@ == "pdf:"@ + path@,
{
    let mut res = "pdf:".to_owned();
    res.append(path);
    res
}

/// Whether each page occurs once.
pub open spec fn pages_distinct(pages: Seq<(u32, Option<String>)>) -> bool {
    forall|i: int, j: int|
        0 <= i < j < pages.len() ==> (#[trigger] pages[i]).0 != (#[trigger] pages[j]).0
}

/// Whether `i` is where a page with the number `n` stands whose text could be extracted.
pub open spec fn is_page_at(pages: Seq<(u32, Option<String>)>, i: int, n: int) -> bool {
    0 <= i < pages.len() && pages[i].0 == n && pages[i].1 is Some
}

/// The text of the page with the number `n` and a line feed, or nothing where the text of that
/// page could not be extracted.
pub open spec fn page_text(pages: Seq<(u32, Option<String>)>, n: int) -> Seq<char> {
    if exists|i: int| is_page_at(pages, i, n) {
        let i = choose|i: int| is_page_at(pages, i, n);
        pages[i].1->0@ + "\n"@
    } else {
        Seq::empty()
    }
}

/// The texts of the pages with numbers below `n`, in the order of the numbers.
pub open spec fn text_below(pages: Seq<(u32, Option<String>)>, n: nat) -> Seq<char>
    decreases n,
{
    if n == 0 {
        Seq::empty()
    } else {
        text_below(pages, (n - 1) as nat) + page_text(pages, n - 1)
    }
}

/// The text of a PDF file: the texts of its pages in the order of their numbers, a line feed
/// behind each.
pub open spec fn document_text(pages: Seq<(u32, Option<String>)>) -> Seq<char> {
    text_below(pages, 0x1_0000_0000)
}

/// Where no page has a number from `a` up to `b`, nothing is added.
proof fn lemma_no_pages_between(pages: Seq<(u32, Option<String>)>, a: nat, b: nat)
    requires
        a <= b,
        forall|i: int|
            0 <= i < pages.len() && (#[trigger] pages[i]).1 is Some ==> pages[i].0 < a
                || pages[i].0 >= b,
    ensures
        text_below(pages, b) == text_below(pages, a),
    decreases b - a,
{
    if a < b {
        lemma_no_pages_between(pages, a, (b - 1) as nat);
        let last: int = b - 1;
        assert(!(exists|i: int| is_page_at(pages, i, last)));
        assert(text_below(pages, b) =~= text_below(pages, (b - 1) as nat));
    }
}

/// Where the page with the lowest number from `from` on stands.
fn next_page(pages: &Vec<(u32, Option<String>)>, from: u64) -> (res: Option<usize>)
    ensures
        match res {
            Some(k) => {
                &&& k < pages@.len()
                &&& pages@[k as int].1 is Some
                &&& pages@[k as int].0 >= from
                &&& forall|i: int|
                    0 <= i < pages@.len() && (#[trigger] pages@[i]).1 is Some ==> pages@[i].0 < from
                        || pages@[i].0 >= pages@[k as int].0
            },
            None => forall|i: int|
                0 <= i < pages@.len() && (#[trigger] pages@[i]).1 is Some ==> pages@[i].0 < from,
        },
{
    let mut best: Option<usize> = None;
    let n: usize = pages.len();
    let mut i: usize = 0;
    while i < n
        invariant
            n == pages@.len(),
            i <= n,
            match best {
                Some(k) => {
                    &&& k < i
                    &&& pages@[k as int].1 is Some
                    &&& pages@[k as int].0 >= from
                    &&& forall|j: int|
                        0 <= j < i && (#[trigger] pages@[j]).1 is Some ==> pages@[j].0 < from
                            || pages@[j].0 >= pages@[k as int].0
                },
                None => forall|j: int|
                    0 <= j < i && (#[trigger] pages@[j]).1 is Some ==> pages@[j].0 < from,
            },
        decreases n - i,
    {
        if pages[i].1.is_some() && pages[i].0 as u64 >= from {
            match best {
                Some(k) => {
                    if pages[i].0 < pages[k].0 {
                        best = Some(i);
                    }
                },
                None => {
                    best = Some(i);
                },
            }
        }
        i = i + 1;
    }
    best
}

/// The text of a PDF file, given the texts of its pages in any order. The error is the text that
/// reports a file without text.
pub fn pdf_text(pages: &Vec<(u32, Option<String>)>) -> (res: Result<String, String>)
    requires
        pages_distinct(pages@),
    ensures
        match res {
            Ok(text) => text@ == document_text(pages@) && trimmed(text@).len() > 0,
            Err(text) => trimmed(document_text(pages@)).len() == 0 && text@
                == "No text could be extracted from the PDF"@,
        },
{
    let mut text = String::new();
    let mut from: u64 = 0;
    let mut done = false;
    assert(text@ =~= text_below(pages@, 0));
    while !done
        invariant
            pages_distinct(pages@),
            from <= 0x1_0000_0000,
            if done {
                text@ == document_text(pages@)
            } else {
                text@ == text_below(pages@, from as nat)
            },
        decreases 0x1_0000_0000 - from, !done as int,
    {
        match next_page(pages, from) {
            None => {
                proof {
                    lemma_no_pages_between(pages@, from as nat, 0x1_0000_0000);
                }
                done = true;
            },
            Some(k) => {
                let number: u32 = pages[k].0;
                if let Some(page) = &pages[k].1 {
                    proof {
                        lemma_no_pages_between(pages@, from as nat, number as nat);
                        assert(is_page_at(pages@, k as int, number as int));
                        let i = choose|i: int| is_page_at(pages@, i, number as int);
                        assert(i == k);
                        assert(page_text(pages@, number as int) == page@ + "\n"@);
                    }
                    let ghost before = text@;
                    text.append(page.as_str());
                    text.append("\n");
                    proof {
                        assert(text@ =~= before + (page@ + "\n"@));
                    }
                }
                from = number as u64 + 1;
            },
        }
    }
    if trim(text.as_str()).as_str().is_empty() {
        Err("No text could be extracted from the PDF".to_owned())
    } else {
        Ok(text)
    }
}

/// The metadata of a PDF file: each field holds the text of the entry with its name, where the file
/// has that entry and it is UTF-8. The title and the author are `Unknown` where they are missing,
/// the other fields `null`. The path is that of the file, and there are no other fields.
pub proof fn law_pdf_fields(info: PdfInfo, path: Seq<char>)
    ensures
        ({
            let fields = pdf_fields(info, path);
            &&& fields.dom() == set![
                "title"@,
                "author"@,
                "subject"@,
                "keywords"@,
                "creator"@,
                "producer"@,
                "path"@,
            ]
            &&& is_text_of(fields["title"@], info.title, MetaView::Text("Unknown"@))
            &&& is_text_of(fields["author"@], info.author, MetaView::Text("Unknown"@))
            &&& is_text_of(fields["subject"@], info.subject, MetaView::Null)
            &&& is_text_of(fields["keywords"@], info.keywords, MetaView::Null)
            &&& is_text_of(fields["creator"@], info.creator, MetaView::Null)
            &&& is_text_of(fields["producer"@], info.producer, MetaView::Null)
            &&& fields["path"@] == MetaView::Text(path)
        }),
{
    reveal_strlit("title");
    reveal_strlit("author");
    reveal_strlit("subject");
    reveal_strlit("keywords");
    reveal_strlit("creator");
    reveal_strlit("producer");
    reveal_strlit("path");
    assert("title"@.len() == 5 && "author"@.len() == 6 && "path"@.len() == 4);
    assert("subject"@.len() == 7 && "creator"@.len() == 7);
    assert("subject"@[0] == 's' && "creator"@[0] == 'c');
    assert("keywords"@.len() == 8 && "producer"@.len() == 8);
    assert("keywords"@[0] == 'k' && "producer"@[0] == 'p');
    let fields = pdf_fields(info, path);
    assert(fields.dom() =~= set![
        "title"@,
        "author"@,
        "subject"@,
        "keywords"@,
        "creator"@,
        "producer"@,
        "path"@,
    ]);
}

/// Whether a field is the text that the bytes of an entry encode, or `missing` where there are none
/// or they encode no text.
pub open spec fn is_text_of(field: MetaView, entry: Option<Vec<u8>>, missing: MetaView) -> bool {
    if entry is Some && valid_utf8(entry->0@) {
        field == MetaView::Text(decode_utf8(entry->0@))
    } else {
        field == missing
    }
}

proof fn lemma_text_of_page(pages: Seq<(u32, Option<String>)>, i: int)
    requires
        pages_distinct(pages),
        0 <= i < pages.len(),
    ensures
        page_text(pages, pages[i].0 as int) == (match pages[i].1 {
            Some(s) => s@ + "\n"@,
            None => Seq::empty(),
        }),
{
    let n = pages[i].0 as int;
    if exists|k: int| is_page_at(pages, k, n) {
        let k = choose|k: int| is_page_at(pages, k, n);
        if k < i {
            assert(pages[k].0 != pages[i].0);
        } else if i < k {
            assert(pages[i].0 != pages[k].0);
        }
    } else {
        assert(!is_page_at(pages, i, n));
    }
}

proof fn lemma_same_below(
    a: Seq<(u32, Option<String>)>,
    b: Seq<(u32, Option<String>)>,
    n: nat,
)
    requires
        forall|k: int| 0 <= k < n ==> #[trigger] page_text(a, k) == page_text(b, k),
    ensures
        text_below(a, n) == text_below(b, n),
    decreases n,
{
    if n > 0 {
        lemma_same_below(a, b, (n - 1) as nat);
        assert(page_text(a, n - 1) == page_text(b, n - 1));
    }
}

/// A page with a number above all others comes last: its text and a line feed are put behind the
/// text of the other pages. A page whose text could not be extracted adds nothing.
pub proof fn law_last_page(pages: Seq<(u32, Option<String>)>, page: (u32, Option<String>))
    requires
        pages_distinct(pages),
        forall|i: int| 0 <= i < pages.len() ==> (#[trigger] pages[i]).0 < page.0,
    ensures
        document_text(pages.push(page)) == document_text(pages) + (match page.1 {
            Some(s) => s@ + "\n"@,
            None => Seq::empty(),
        }),
{
    let all = pages.push(page);
    let n = page.0 as nat;
    assert forall|k: int| 0 <= k < n implies #[trigger] page_text(all, k) == page_text(
        pages,
        k,
    ) by {
        assert forall|i: int| is_page_at(all, i, k) == is_page_at(pages, i, k) by {
            if 0 <= i < pages.len() {
                assert(all[i] == pages[i]);
            }
        }
        if exists|i: int| is_page_at(pages, i, k) {
            let i = choose|i: int| is_page_at(pages, i, k);
            assert(is_page_at(all, i, k));
            let j = choose|j: int| is_page_at(all, j, k);
            assert(is_page_at(pages, j, k));
            assert(pages[i].0 == pages[j].0);
            if i < j {
                assert(pages[i].0 != pages[j].0);
            } else if j < i {
                assert(pages[j].0 != pages[i].0);
            }
            assert(i == j);
        } else {
            assert(!(exists|i: int| is_page_at(all, i, k)));
        }
    }
    lemma_same_below(all, pages, n);
    assert(pages_distinct(all)) by {
        assert forall|i: int, j: int| 0 <= i < j < all.len() implies (#[trigger] all[i]).0 != (
        #[trigger] all[j]).0 by {
            assert(all[i] == pages[i]);
            if j < pages.len() {
                assert(all[j] == pages[j]);
            }
        }
    }
    lemma_text_of_page(all, pages.len() as int);
    assert(all[pages.len() as int] == page);
    lemma_no_pages_between(all, (n + 1) as nat, 0x1_0000_0000);
    lemma_no_pages_between(pages, n, 0x1_0000_0000);
    assert(text_below(all, n + 1) == text_below(all, n) + page_text(all, n as int));
}

/// The order in which the pages are handed in does not matter.
pub proof fn law_page_order_is_free(
    pages: Seq<(u32, Option<String>)>,
    other: Seq<(u32, Option<String>)>,
)
    requires
        pages_distinct(pages),
        pages_distinct(other),
        forall|page: (u32, Option<String>)| #[trigger] pages.contains(page) <==> other.contains(page),
    ensures
        document_text(pages) == document_text(other),
{
    assert forall|k: int| 0 <= k < 0x1_0000_0000 implies #[trigger] page_text(pages, k)
        == page_text(other, k) by {
        if exists|i: int| is_page_at(pages, i, k) {
            let i = choose|i: int| is_page_at(pages, i, k);
            assert(pages.contains(pages[i]));
            let j = choose|j: int| 0 <= j < other.len() && other[j] == pages[i];
            lemma_text_of_page(pages, i);
            lemma_text_of_page(other, j);
        } else if exists|j: int| is_page_at(other, j, k) {
            let j = choose|j: int| is_page_at(other, j, k);
            assert(other.contains(other[j]));
            assert(pages.contains(other[j]));
            let i = choose|i: int| 0 <= i < pages.len() && pages[i] == other[j];
            assert(is_page_at(pages, i, k));
        }
    }
    lemma_same_below(pages, other, 0x1_0000_0000);
}

/// Whether an entry is this text.
pub open spec fn is_entry(entry: Option<Vec<u8>>, text: Seq<char>) -> bool {
    entry matches Some(bytes) && bytes@ == encode_utf8(text)
}

/// Each entry of the information of a PDF file becomes the field of its own name.
pub proof fn law_pdf_entries(
    info: PdfInfo,
    path: &str,
    title: Seq<char>,
    author: Seq<char>,
    subject: Seq<char>,
    keywords: Seq<char>,
    creator: Seq<char>,
    producer: Seq<char>,
    res: Metadata,
)
    requires
        call_ensures(pdf_metadata, (info, path), res),
        is_entry(info.title, title),
        is_entry(info.author, author),
        is_entry(info.subject, subject),
        is_entry(info.keywords, keywords),
        is_entry(info.creator, creator),
        is_entry(info.producer, producer),
    ensures
        res@ matches MetadataView::Object(fields) && {
            &&& fields["title"@] == MetaView::Text(title)
            &&& fields["author"@] == MetaView::Text(author)
            &&& fields["subject"@] == MetaView::Text(subject)
            &&& fields["keywords"@] == MetaView::Text(keywords)
            &&& fields["creator"@] == MetaView::Text(creator)
            &&& fields["producer"@] == MetaView::Text(producer)
            &&& fields["path"@] == MetaView::Text(path@)
        },
{
    lemma_entry(title);
    lemma_entry(author);
    lemma_entry(subject);
    lemma_entry(keywords);
    lemma_entry(creator);
    lemma_entry(producer);
}

proof fn lemma_entry(text: Seq<char>)
    ensures
        valid_utf8(encode_utf8(text)),
        decode_utf8(encode_utf8(text)) == text,
{
    encode_utf8_valid_utf8(text);
    encode_utf8_decode_utf8(text);
}

/// A PDF file without information has no known title and author, and nothing in the other fields.
pub proof fn law_no_pdf_entries(info: PdfInfo, path: &str, res: Metadata)
    requires
        call_ensures(no_info, (), info),
        call_ensures(pdf_metadata, (info, path), res),
    ensures
        res@ matches MetadataView::Object(fields) && {
            &&& fields["title"@] == MetaView::Text("Unknown"@)
            &&& fields["author"@] == MetaView::Text("Unknown"@)
            &&& fields["subject"@] == MetaView::Null
            &&& fields["keywords"@] == MetaView::Null
            &&& fields["creator"@] == MetaView::Null
            &&& fields["producer"@] == MetaView::Null
            &&& fields["path"@] == MetaView::Text(path@)
        },
{
}

/// The text of a PDF file is that of its pages, each with a line break behind it, in the order of
/// their numbers.
pub proof fn law_next_page(
    pages: &Vec<(u32, Option<String>)>,
    longer: &Vec<(u32, Option<String>)>,
    text: Result<String, String>,
    longer_text: Result<String, String>,
)
    requires
        pages_distinct(pages@),
        pages_distinct(longer@),
        call_ensures(pdf_text, (pages,), text),
        call_ensures(pdf_text, (longer,), longer_text),
        longer@.len() == pages@.len() + 1,
        longer@.drop_last() == pages@,
        forall|i: int| 0 <= i < pages@.len() ==> (#[trigger] pages@[i]).0 < longer@.last().0,
        text is Ok,
        longer_text is Ok,
    ensures
        longer_text->Ok_0@ == text->Ok_0@ + (match longer@.last().1 {
            Some(s) => s@ + seq!['\n'],
            None => Seq::empty(),
        }),
{
    law_last_page(pages@, longer@.last());
    assert(longer@ =~= pages@.push(longer@.last()));
    reveal_strlit("\n");
    assert("\n"@ =~= seq!['\n']);
}

/// A PDF file without pages has no text, which is an error.
pub proof fn law_no_pages(
    pages: &Vec<(u32, Option<String>)>,
    path: &str,
    text: Result<String, String>,
    source: String,
)
    requires
        pages@.len() == 0,
        call_ensures(pdf_text, (pages,), text),
        call_ensures(pdf_source, (path,), source),
    ensures
        text matches Err(s) && s@ == "No text could be extracted from the PDF"@,
        source@ == "pdf:"@ + path@,
{
    lemma_no_pages_between(pages@, 0, 0x1_0000_0000);
    assert(document_text(pages@) =~= Seq::<char>::empty());
}

} // verus!
