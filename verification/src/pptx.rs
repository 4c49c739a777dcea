//! Documents made of PPTX files.

use quick_xml::events::Event;
use vstd::prelude::*;
use crate::executor::Executor;
use crate::metadata::{Fields, MetaValue, MetaView, Metadata, MetadataView};
use crate::text::{
    before_char, begins_with, chars_of, contains_text, copy_of, decimal, decimal_string,
    digits_value, find_char, find_text, finishes_with, first_occurrence, is_digit, join_texts,
    joined_with, law_before_char, law_decimal_round_trip, lemma_decimal, matches_at, occurs,
    occurs_at, optional_text, parse_usize, parsed_unsigned, string_of, take_before_char, texts,
    trim, trimmed,
};

verus! {

/// Whether an entry of the archive is a slide, and no sidecar with its relationships.
pub open spec fn is_slide(name: Seq<char>) -> bool {
    &&& occurs_at(name, "ppt/slides/slide"@, 0)
    &&& occurs_at(name, ".xml"@, name.len() - ".xml"@.len())
    &&& !occurs(name, "/_rels/"@)
}

/// `s` without the repetitions of `pattern` at its beginning.
pub open spec fn without_prefixes(s: Seq<char>, pattern: Seq<char>) -> Seq<char>
    decreases s.len(),
{
    if pattern.len() > 0 && occurs_at(s, pattern, 0) {
        without_prefixes(s.subrange(pattern.len() as int, s.len() as int), pattern)
    } else {
        s
    }
}

/// `s` without the repetitions of `pattern` at its end.
pub open spec fn without_suffixes(s: Seq<char>, pattern: Seq<char>) -> Seq<char>
    decreases s.len(),
{
    if pattern.len() > 0 && occurs_at(s, pattern, s.len() - pattern.len()) {
        without_suffixes(s.subrange(0, s.len() - pattern.len()), pattern)
    } else {
        s
    }
}

/// The number by which a slide is sorted: the one in its name, or 0 where there is none.
pub open spec fn slide_number(name: Seq<char>) -> nat {
    match parsed_unsigned(
        without_suffixes(without_prefixes(name, "ppt/slides/slide"@), ".xml"@),
        usize::MAX as nat,
    ) {
        Ok(n) => n,
        Err(_) => 0,
    }
}

/// Whether an entry of the archive is a slide.
pub fn pptx_is_slide(name: &str) -> (res: bool)
    ensures
        res == is_slide(name@),
{
    begins_with(name, "ppt/slides/slide") && finishes_with(name, ".xml") && !contains_text(
        name,
        "/_rels/",
    )
}

fn strip_prefixes(s: &str, pattern: &str) -> (res: String)
    requires
        pattern@.len() > 0,
    ensures
        res@ == without_prefixes(s@, pattern@),
{
    let chars = chars_of(s);
    let wanted = chars_of(pattern);
    let n: usize = chars.len();
    let m: usize = wanted.len();
    let mut from: usize = 0;
    proof {
        assert(chars@.subrange(0, n as int) == chars@);
    }
    while matches_at(&chars, &wanted, from)
        invariant
            n == chars@.len(),
            m == wanted@.len(),
            m > 0,
            wanted@ == pattern@,
            from <= n,
            without_prefixes(s@, pattern@) == without_prefixes(
                chars@.subrange(from as int, n as int),
                pattern@,
            ),
        decreases n - from,
    {
        proof {
            let rest = chars@.subrange(from as int, n as int);
            assert(rest.subrange(0, m as int) == chars@.subrange(from as int, from + m));
            assert(rest.subrange(m as int, rest.len() as int) == chars@.subrange(
                from + m,
                n as int,
            ));
        }
        from = from + m;
    }
    proof {
        let rest = chars@.subrange(from as int, n as int);
        if occurs_at(rest, pattern@, 0) {
            assert(chars@.subrange(from as int, from + m) == rest.subrange(0, m as int));
        }
    }
    string_of(&chars, from, n)
}

fn strip_suffixes(s: &str, pattern: &str) -> (res: String)
    requires
        pattern@.len() > 0,
    ensures
        res@ == without_suffixes(s@, pattern@),
{
    let chars = chars_of(s);
    let wanted = chars_of(pattern);
    let m: usize = wanted.len();
    let mut to: usize = chars.len();
    let mut going = true;
    proof {
        assert(chars@.subrange(0, to as int) == chars@);
    }
    while going
        invariant
            m == wanted@.len(),
            m > 0,
            wanted@ == pattern@,
            to <= chars@.len(),
            without_suffixes(s@, pattern@) == without_suffixes(
                chars@.subrange(0, to as int),
                pattern@,
            ),
            !going ==> !occurs_at(chars@.subrange(0, to as int), pattern@, to - m),
        decreases to, going as int,
    {
        let ghost rest = chars@.subrange(0, to as int);
        if to >= m && matches_at(&chars, &wanted, to - m) {
            proof {
                assert(rest.subrange(to - m, to as int) == chars@.subrange(to - m, to as int));
                assert(rest.subrange(0, to - m) == chars@.subrange(0, to - m));
            }
            to = to - m;
        } else {
            proof {
                if occurs_at(rest, pattern@, to - m) {
                    assert(chars@.subrange(to - m, to as int) == rest.subrange(to - m, to as int));
                }
            }
            going = false;
        }
    }
    string_of(&chars, 0, to)
}

/// The number by which a slide is sorted.
pub fn pptx_slide_number(name: &str) -> (res: usize)
    ensures
        res == slide_number(name@),
{
    proof {
        reveal_strlit("ppt/slides/slide");
        reveal_strlit(".xml");
    }
    let bare = strip_prefixes(name, "ppt/slides/slide");
    let digits = strip_suffixes(bare.as_str(), ".xml");
    match parse_usize(digits.as_str()) {
        Ok(n) => n,
        Err(_) => 0,
    }
}

/// Whether `a` comes before `b` among the slides: by number, and by position in the archive where
/// the numbers are the same.
pub open spec fn slide_before(names: Seq<Seq<char>>, a: int, b: int) -> bool {
    slide_number(names[a]) < slide_number(names[b]) || (slide_number(names[a]) == slide_number(
        names[b],
    ) && a < b)
}

/// Whether `order` are the positions of the slides among the entries of the archive, in their
/// order.
pub open spec fn is_slide_order(names: Seq<Seq<char>>, order: Seq<int>) -> bool {
    &&& forall|i: int, j: int|
        0 <= i < j < order.len() ==> slide_before(names, #[trigger] order[i], #[trigger] order[j])
    &&& forall|k: int| #[trigger]
        order.contains(k) <==> 0 <= k < names.len() && is_slide(names[k])
}

/// The positions that a list holds, as integers.
pub open spec fn positions(s: Seq<usize>) -> Seq<int> {
    s.map_values(|i: usize| i as int)
}

/// The names of the slides among the entries of an archive, in their order.
pub fn slide_names(names: &Vec<String>) -> (res: Vec<String>)
    ensures
        exists|order: Seq<int>| #[trigger]
            is_slide_order(texts(names@), order) && res@.len() == order.len() && forall|i: int|
                0 <= i < order.len() ==> (#[trigger] res@[i])@ == texts(names@)[order[i]],
{
    let ghost all = texts(names@);
    let mut order: Vec<usize> = Vec::new();
    let n: usize = names.len();
    let mut i: usize = 0;
    while i < n
        invariant
            n == names@.len(),
            all == texts(names@),
            i <= n,
            forall|a: int, b: int|
                0 <= a < b < order@.len() ==> slide_before(
                    all,
                    #[trigger] positions(order@)[a],
                    #[trigger] positions(order@)[b],
                ),
            forall|k: int| #[trigger]
                positions(order@).contains(k) <==> 0 <= k < i && is_slide(all[k]),
        decreases n - i,
    {
        if pptx_is_slide(names[i].as_str()) {
            place_slide(names, &mut order, i);
        }
        i = i + 1;
    }
    let mut res: Vec<String> = Vec::new();
    let mut j: usize = 0;
    let ghost found = positions(order@);
    while j < order.len()
        invariant
            n == names@.len(),
            all == texts(names@),
            found == positions(order@),
            is_slide_order(all, found),
            j <= order@.len(),
            res@.len() == j,
            forall|k: int| 0 <= k < j ==> (#[trigger] res@[k])@ == all[found[k]],
        decreases order@.len() - j,
    {
        proof {
            assert(found[j as int] == order@[j as int]);
            assert(found.contains(found[j as int]));
        }
        res.push(names[order[j]].clone());
        j = j + 1;
    }
    assert(is_slide_order(all, found));
    res
}

/// Puts the slide at position `i` among those before it.
fn place_slide(names: &Vec<String>, order: &mut Vec<usize>, i: usize)
    requires
        i < names@.len(),
        is_slide(texts(names@)[i as int]),
        forall|a: int, b: int|
            0 <= a < b < old(order)@.len() ==> slide_before(
                texts(names@),
                #[trigger] positions(old(order)@)[a],
                #[trigger] positions(old(order)@)[b],
            ),
        forall|k: int| #[trigger]
            positions(old(order)@).contains(k) <==> 0 <= k < i && is_slide(texts(names@)[k]),
    ensures
        forall|a: int, b: int|
            0 <= a < b < final(order)@.len() ==> slide_before(
                texts(names@),
                #[trigger] positions(final(order)@)[a],
                #[trigger] positions(final(order)@)[b],
            ),
        forall|k: int| #[trigger]
            positions(final(order)@).contains(k) <==> 0 <= k < i + 1 && is_slide(
                texts(names@)[k],
            ),
{
    let ghost all = texts(names@);
    let ghost before = positions(order@);
    let key: usize = pptx_slide_number(names[i].as_str());
    let mut p: usize = order.len();
    let mut going = true;
    proof {
        assert(all[i as int] == names@[i as int]@);
    }
    while going && p > 0
        invariant
            i < names@.len(),
            all == texts(names@),
            before == positions(order@),
            key == slide_number(all[i as int]),
            forall|a: int, b: int|
                0 <= a < b < before.len() ==> slide_before(
                    all,
                    #[trigger] before[a],
                    #[trigger] before[b],
                ),
            forall|k: int| #[trigger]
                before.contains(k) <==> 0 <= k < i && is_slide(all[k]),
            p <= order@.len(),
            forall|b: int|
                p <= b < before.len() ==> key < slide_number(all[#[trigger] before[b]]),
            !going ==> p > 0 && slide_number(all[before[p - 1]]) <= key,
        decreases p, going as int,
    {
        let at: usize = order[p - 1];
        proof {
            assert(before[p - 1] == at as int);
            assert(before.contains(before[p - 1]));
            assert(all[at as int] == names@[at as int]@);
        }
        if pptx_slide_number(names[at].as_str()) > key {
            p = p - 1;
        } else {
            going = false;
        }
    }
    order.insert(p, i);
    proof {
        let after = positions(order@);
        assert(after =~= before.insert(p as int, i as int));
        assert forall|a: int| 0 <= a < before.len() implies 0 <= #[trigger] before[a] < i by {
            assert(before.contains(before[a]));
        }
        assert forall|a: int| 0 <= a < p implies slide_number(all[#[trigger] before[a]]) <= key by {
            if a < p - 1 {
                assert(slide_before(all, before[a], before[p - 1]));
            }
        }
        assert forall|a: int, b: int| 0 <= a < b < after.len() implies slide_before(
            all,
            #[trigger] after[a],
            #[trigger] after[b],
        ) by {
            if b < p {
                assert(after[a] == before[a] && after[b] == before[b]);
            } else if b == p {
                assert(after[a] == before[a]);
                assert(before[a] < i);
            } else if a < p {
                assert(after[a] == before[a] && after[b] == before[b - 1]);
            } else if a == p {
                assert(after[b] == before[b - 1]);
            } else {
                assert(after[a] == before[a - 1] && after[b] == before[b - 1]);
            }
        }
        assert forall|k: int| #[trigger] after.contains(k) <==> 0 <= k < i + 1 && is_slide(
            all[k],
        ) by {
            if after.contains(k) {
                let x = choose|x: int| 0 <= x < after.len() && after[x] == k;
                if x < p {
                    assert(before[x] == k);
                    assert(before.contains(k));
                } else if x > p {
                    assert(before[x - 1] == k);
                    assert(before.contains(k));
                }
            }
            if k == i {
                assert(after[p as int] == k);
            } else if 0 <= k < i && is_slide(all[k]) {
                assert(before.contains(k));
                let x = choose|x: int| 0 <= x < before.len() && before[x] == k;
                if x < p {
                    assert(after[x] == k);
                } else {
                    assert(after[x + 1] == k);
                }
            }
        }
    }
}

/// What stands behind the first `:tag>` of a text, up to the next `<`, without white space around
/// it. There is none where either is missing or nothing is left.
pub open spec fn is_core_prop(xml: Seq<char>, tag: Seq<char>, value: Option<Seq<char>>) -> bool {
    let open = ":"@ + tag + ">"@;
    if exists|i: int| first_occurrence(xml, open, 0, i) {
        exists|i: int|
            {
                let rest = xml.subrange(i + open.len(), xml.len() as int);
                &&& #[trigger] first_occurrence(xml, open, 0, i)
                &&& value == (if rest.contains('<') && trimmed(before_char(rest, '<')).len() > 0 {
                    Some(trimmed(before_char(rest, '<')))
                } else {
                    None
                })
            }
    } else {
        value is None
    }
}

/// The value of a property of the presentation, by the local name of its tag.
pub fn pptx_core_prop(xml: &str, tag: &str) -> (res: Option<String>)
    ensures
        is_core_prop(xml@, tag@, optional_text(res)),
{
    let mut open = ":".to_owned();
    open.append(tag);
    open.append(">");
    let chars = chars_of(xml);
    let pattern = chars_of(open.as_str());
    let n: usize = chars.len();
    match find_text(&chars, &pattern, 0) {
        None => {
            proof {
                assert forall|i: int| !first_occurrence(xml@, open@, 0, i) by {
                    if i >= 0 {
                        assert(!occurs_at(chars@, pattern@, i));
                    }
                }
            }
            None
        },
        Some(i) => {
            let start: usize = i + pattern.len();
            let rest = string_of(&chars, start, n);
            let rest_chars = chars_of(rest.as_str());
            proof {
                assert(first_occurrence(xml@, open@, 0, i as int));
                lemma_first_occurrence_unique(xml@, open@, i as int);
            }
            match find_char(&rest_chars, '<', 0) {
                None => {
                    assert(!rest@.contains('<'));
                    None
                },
                Some(k) => {
                    assert(rest@[k as int] == '<');
                    let value = trim(take_before_char(rest.as_str(), '<').as_str());
                    if value.as_str().is_empty() {
                        None
                    } else {
                        Some(value)
                    }
                },
            }
        },
    }
}

proof fn lemma_first_occurrence_unique(s: Seq<char>, pattern: Seq<char>, i: int)
    requires
        first_occurrence(s, pattern, 0, i),
    ensures
        forall|j: int| #[trigger] first_occurrence(s, pattern, 0, j) ==> j == i,
{
    assert forall|j: int| #[trigger] first_occurrence(s, pattern, 0, j) implies j == i by {
        if j < i {
            assert(!occurs_at(s, pattern, j));
        } else if i < j {
            assert(!occurs_at(s, pattern, i));
        }
    }
}

/// A step of an XML text that matters to the text of a slide.
#[derive(Debug)]
pub enum XmlEvent {
    /// An element begins. It holds the local name of its tag.
    Start(Vec<u8>),
    /// Text, unless what it escapes is invalid.
    Text(Option<String>),
    /// An element ends.
    End(Vec<u8>),
    /// Anything else.
    Other,
    /// The text ends, or is no XML from here on.
    Stop,
}

/// A step as a mathematical value.
pub enum XmlEventView {
    Start(Seq<u8>),
    Text(Option<Seq<char>>),
    End(Seq<u8>),
    Other,
    Stop,
}

impl View for XmlEvent {
    type V = XmlEventView;

    open spec fn view(&self) -> XmlEventView {
        match self {
            XmlEvent::Start(name) => XmlEventView::Start(name@),
            XmlEvent::Text(text) => XmlEventView::Text(optional_text(*text)),
            XmlEvent::End(name) => XmlEventView::End(name@),
            XmlEvent::Other => XmlEventView::Other,
            XmlEvent::Stop => XmlEventView::Stop,
        }
    }
}

/// A reader of `quick_xml`.
#[verifier::external_type_specification]
#[verifier::external_body]
#[verifier::reject_recursive_types(R)]
pub struct ExXmlReader<R>(quick_xml::Reader<R>);

/// The steps that `quick_xml` reads from an XML text, up to the end or to the first error.
pub uninterp spec fn xml_events(xml: Seq<char>) -> Seq<XmlEventView>;

/// The steps that a reader has still to give.
pub uninterp spec fn pending_events(reader: quick_xml::Reader<&[u8]>) -> Seq<XmlEventView>;

/// Whether the steps end in a stop, and have no other.
pub open spec fn ends_in_stop(events: Seq<XmlEventView>) -> bool {
    &&& events.len() > 0
    &&& forall|i: int|
        0 <= i < events.len() ==> (#[trigger] events[i] is Stop <==> i == events.len() - 1)
}

/// `quick_xml::Reader::from_str`: a reader that has all steps of the text still to give. There are
/// finitely many, and the last is a stop.
#[verifier::external_body]
fn xml_reader<'a>(xml: &'a str) -> (res: quick_xml::Reader<&'a [u8]>)
    ensures
        pending_events(res) == xml_events(xml@),
        ends_in_stop(pending_events(res)),
{
    quick_xml::Reader::from_str(xml)
}

/// `quick_xml::Reader::read_event`: the next of the steps that the reader has still to give. The
/// names are local names, and the text is what `unescape` gives.
#[verifier::external_body]
fn next_event(reader: &mut quick_xml::Reader<&[u8]>) -> (res: XmlEvent)
    requires
        pending_events(*old(reader)).len() > 0,
    ensures
        res@ == pending_events(*old(reader))[0],
        !(res is Stop) ==> pending_events(*final(reader)) == pending_events(
            *old(reader),
        ).drop_first(),
{
    match reader.read_event() {
        Ok(Event::Start(e)) => XmlEvent::Start(e.local_name().as_ref().to_vec()),
        Ok(Event::Text(e)) => XmlEvent::Text(e.unescape().ok().map(|t| t.into_owned())),
        Ok(Event::End(e)) => XmlEvent::End(e.local_name().as_ref().to_vec()),
        Ok(Event::Eof) | Err(_) => XmlEvent::Stop,
        Ok(_) => XmlEvent::Other,
    }
}

/// What has been gathered of a slide: the paragraphs so far, each with a line feed, the text of
/// the current paragraph, and whether the reader is inside a text run.
pub struct SlideText {
    pub result: Seq<char>,
    pub paragraph: Seq<char>,
    pub in_run: bool,
}

/// The local name of a text run.
pub open spec fn run_tag() -> Seq<u8> {
    seq![116u8]
}

/// The local name of a paragraph.
pub open spec fn paragraph_tag() -> Seq<u8> {
    seq![112u8]
}

/// What has been gathered once a step is taken: text inside runs belongs to the paragraph, and a
/// paragraph that has ended is added without white space around it, unless it is blank.
pub open spec fn gathered(s: SlideText, event: XmlEventView) -> SlideText {
    match event {
        XmlEventView::Start(name) => if name == run_tag() {
            SlideText { in_run: true, ..s }
        } else {
            s
        },
        XmlEventView::Text(Some(text)) => if s.in_run {
            SlideText { paragraph: s.paragraph + text, ..s }
        } else {
            s
        },
        XmlEventView::End(name) => if name == run_tag() {
            SlideText { in_run: false, ..s }
        } else if name == paragraph_tag() {
            SlideText {
                result: if trimmed(s.paragraph).len() > 0 {
                    s.result + trimmed(s.paragraph) + "\n"@
                } else {
                    s.result
                },
                paragraph: Seq::empty(),
                ..s
            }
        } else {
            s
        },
        _ => s,
    }
}

/// What has been gathered from a series of steps.
pub open spec fn gathered_from(events: Seq<XmlEventView>) -> SlideText
    decreases events.len(),
{
    if events.len() == 0 {
        SlideText { result: Seq::empty(), paragraph: Seq::empty(), in_run: false }
    } else {
        gathered(gathered_from(events.drop_last()), events.last())
    }
}

/// The text of a slide: its paragraphs, a line feed behind each.
pub open spec fn slide_text(events: Seq<XmlEventView>) -> Seq<char> {
    gathered_from(events).result
}

fn is_tag(name: &Vec<u8>, byte: u8) -> (res: bool)
    ensures
        res == (name@ == seq![byte]),
{
    if name.len() == 1 && name[0] == byte {
        assert(name@ =~= seq![byte]);
        true
    } else {
        proof {
            if name@ == seq![byte] {
                assert(name@.len() == 1 && name@[0] == byte);
            }
        }
        false
    }
}

/// Takes one step in gathering the text of a slide.
pub fn gather(result: &mut String, paragraph: &mut String, in_run: bool, event: &XmlEvent) -> (res:
    bool)
    ensures
        ({
            let before = SlideText { result: old(result)@, paragraph: old(paragraph)@, in_run };
            let after = gathered(before, event@);
            final(result)@ == after.result && final(paragraph)@ == after.paragraph && res
                == after.in_run
        }),
{
    match event {
        XmlEvent::Start(name) => in_run || is_tag(name, 116),
        XmlEvent::Text(Some(text)) => {
            if in_run {
                paragraph.append(text.as_str());
            }
            in_run
        },
        XmlEvent::End(name) => {
            proof {
                assert(run_tag()[0] != paragraph_tag()[0]);
            }
            if is_tag(name, 116) {
                false
            } else {
                if is_tag(name, 112) {
                    let short = trim(paragraph.as_str());
                    if !short.as_str().is_empty() {
                        result.append(short.as_str());
                        result.append("\n");
                    }
                    *paragraph = String::new();
                    assert(paragraph@ =~= Seq::<char>::empty());
                }
                in_run
            }
        },
        _ => in_run,
    }
}

/// The text of a slide, given its XML.
pub fn pptx_extract_drawingml_text(xml: &str) -> (res: String)
    ensures
        res@ == slide_text(xml_events(xml@)),
{
    let ghost events = xml_events(xml@);
    let mut reader = xml_reader(xml);
    let mut result = String::new();
    let mut paragraph = String::new();
    let mut in_run = false;
    let mut done = false;
    let ghost mut taken: int = 0;
    proof {
        assert(events.take(0) =~= Seq::<XmlEventView>::empty());
        assert(events.skip(0) =~= events);
        assert(result@ =~= Seq::<char>::empty());
        assert(paragraph@ =~= Seq::<char>::empty());
    }
    while !done
        invariant
            ends_in_stop(events),
            0 <= taken <= events.len(),
            !done ==> taken < events.len() && pending_events(reader) == events.skip(taken),
            done ==> taken == events.len(),
            gathered_from(events.take(taken)).result == result@,
            gathered_from(events.take(taken)).paragraph == paragraph@,
            gathered_from(events.take(taken)).in_run == in_run,
        decreases events.len() - taken,
    {
        let event = next_event(&mut reader);
        proof {
            assert(events.skip(taken)[0] == events[taken]);
            assert(events.take(taken + 1).drop_last() =~= events.take(taken));
            assert(events.take(taken + 1).last() == events[taken]);
        }
        in_run = gather(&mut result, &mut paragraph, in_run, &event);
        if let XmlEvent::Stop = event {
            done = true;
        }
        proof {
            assert(events.skip(taken).drop_first() =~= events.skip(taken + 1));
            taken = taken + 1;
        }
    }
    proof {
        assert(events.take(taken) =~= events);
    }
    result
}

/// The texts that are not blank.
pub open spec fn not_blank(parts: Seq<Seq<char>>) -> Seq<Seq<char>>
    decreases parts.len(),
{
    if parts.len() == 0 {
        Seq::empty()
    } else if trimmed(parts.last()).len() > 0 {
        not_blank(parts.drop_last()).push(parts.last())
    } else {
        not_blank(parts.drop_last())
    }
}

/// The text of a presentation: the texts of its slides that are not blank, a line feed between
/// them. The error is the text that reports a presentation without text.
pub fn pptx_text(slides: &Vec<String>) -> (res: Result<String, String>)
    ensures
        ({
            let text = joined_with(not_blank(texts(slides@)), "\n"@);
            match res {
                Ok(s) => s@ == text && trimmed(text).len() > 0,
                Err(s) => trimmed(text).len() == 0 && s@
                    == "No text could be extracted from the PPTX"@,
            }
        }),
{
    let ghost all = texts(slides@);
    let mut parts: Vec<String> = Vec::new();
    let n: usize = slides.len();
    let mut i: usize = 0;
    assert(texts(parts@) =~= not_blank(all.take(0)));
    while i < n
        invariant
            n == slides@.len(),
            all == texts(slides@),
            i <= n,
            texts(parts@) == not_blank(all.take(i as int)),
        decreases n - i,
    {
        let ghost before = parts@;
        proof {
            assert(all.take(i + 1).drop_last() == all.take(i as int));
            assert(all.take(i + 1).last() == slides@[i as int]@);
        }
        if !trim(slides[i].as_str()).as_str().is_empty() {
            let part = slides[i].clone();
            parts.push(part);
            proof {
                assert(texts(parts@) =~= texts(before).push(slides@[i as int]@));
            }
        }
        i = i + 1;
    }
    assert(all.take(n as int) == all);
    let text = join_texts(&parts, "\n");
    if trim(text.as_str()).as_str().is_empty() {
        Err("No text could be extracted from the PPTX".to_owned())
    } else {
        Ok(text)
    }
}

/// A property, or `Unknown`.
pub open spec fn prop_or_unknown(value: Option<Seq<char>>) -> Seq<char> {
    match value {
        Some(s) => s,
        None => "Unknown"@,
    }
}

/// The metadata of a presentation.
pub open spec fn pptx_fields(
    title: Option<Seq<char>>,
    creator: Option<Seq<char>>,
    slide_count: nat,
    path: Seq<char>,
) -> Map<Seq<char>, MetaView> {
    Map::empty().insert("title"@, MetaView::Text(prop_or_unknown(title))).insert(
        "creator"@,
        MetaView::Text(prop_or_unknown(creator)),
    ).insert("slide_count"@, MetaView::Json(decimal(slide_count))).insert(
        "path"@,
        MetaView::Text(path),
    )
}

/// Whether metadata is that of a presentation with this XML of its core properties, where it has
/// them, this number of slides and this path.
pub open spec fn is_pptx_metadata(
    metadata: MetadataView,
    core_xml: Option<&str>,
    slide_count: nat,
    path: Seq<char>,
) -> bool {
    match core_xml {
        None => metadata == MetadataView::Object(pptx_fields(None, None, slide_count, path)),
        Some(xml) => exists|title: Option<Seq<char>>, creator: Option<Seq<char>>|
            #![trigger is_core_prop(xml@, "title"@, title), is_core_prop(xml@, "creator"@, creator)]
            is_core_prop(xml@, "title"@, title) && is_core_prop(xml@, "creator"@, creator)
                && metadata == MetadataView::Object(
                pptx_fields(title, creator, slide_count, path),
            ),
    }
}

/// The metadata of a presentation, given the XML of its core properties, where it has them.
pub fn pptx_metadata(core_xml: Option<&str>, slide_count: usize, path: &str) -> (res: Metadata)
    ensures
        res.wf(),
        is_pptx_metadata(res@, core_xml, slide_count as nat, path@),
{
    let mut title: Option<String> = None;
    let mut creator: Option<String> = None;
    if let Some(xml) = core_xml {
        title = pptx_core_prop(xml, "title");
        creator = pptx_core_prop(xml, "creator");
    }
    let ghost t = optional_text(title);
    let ghost c = optional_text(creator);
    let mut fields = Fields::new();
    fields.set("title", MetaValue::Text(or_unknown(title)));
    fields.set("creator", MetaValue::Text(or_unknown(creator)));
    fields.set("slide_count", MetaValue::Json(decimal_string(slide_count as u64)));
    fields.set("path", MetaValue::Text(copy_of(path)));
    proof {
        if let Some(xml) = core_xml {
            assert(is_core_prop(xml@, "title"@, t) && is_core_prop(xml@, "creator"@, c));
        }
    }
    Metadata::Object(fields)
}

fn or_unknown(value: Option<String>) -> (res: String)
    ensures
        res@ == prop_or_unknown(optional_text(value)),
{
    match value {
        Some(s) => s,
        None => "Unknown".to_owned(),
    }
}

/// The source under which a presentation is put into the queue.
pub fn pptx_source(path: &str) -> (res: String)
    ensures
        res@ == "pptx:"@ + path@,
{
    let mut res = "pptx:".to_owned();
    res.append(path);
    res
}

/// The texts of slides, given their steps.
pub open spec fn slide_texts(slides: Seq<Seq<char>>) -> Seq<Seq<char>> {
    slides.map_values(|xml: Seq<char>| slide_text(xml_events(xml)))
}

fn text_of_slide(xml: String) -> (res: String)
    ensures
        res@ == slide_text(xml_events(xml@)),
{
    pptx_extract_drawingml_text(xml.as_str())
}

/// The metadata and the text of a presentation, given the XML of its core properties, where it has
/// them, and that of its slides in their order. The error is the text that reports a presentation
/// without text.
pub fn pptx_document(
    core_xml: Option<&str>,
    slides: Vec<String>,
    path: &str,
    executor: Executor,
) -> (res: Result<(Metadata, String), String>)
    ensures
        ({
            let text = joined_with(not_blank(slide_texts(texts(slides@))), "\n"@);
            match res {
                Ok((metadata, s)) => {
                    &&& s@ == text
                    &&& trimmed(text).len() > 0
                    &&& metadata.wf()
                    &&& is_pptx_metadata(metadata@, core_xml, slides@.len(), path@)
                },
                Err(s) => trimmed(text).len() == 0 && s@
                    == "No text could be extracted from the PPTX"@,
            }
        }),
{
    let count: usize = slides.len();
    let ghost xmls = slides@;
    let found = executor.par_map(slides, text_of_slide);
    assert(texts(found@) =~= slide_texts(texts(xmls)));
    match pptx_text(&found) {
        Err(e) => Err(e),
        Ok(text) => Ok((pptx_metadata(core_xml, count, path), text)),
    }
}

/// Whether the step at position `i` stands inside a text run: an element `t` has begun before it,
/// and none has ended since.
pub open spec fn inside_run(events: Seq<XmlEventView>, i: int) -> bool {
    exists|j: int|
        0 <= j < i && (#[trigger] events[j]) == XmlEventView::Start(seq!['t' as u8]) && forall|k: int|
            j < k < i ==> (#[trigger] events[k]) != XmlEventView::End(seq!['t' as u8])
}

/// The texts inside text runs from position `from` up to position `to`, one behind the other.
pub open spec fn run_text(events: Seq<XmlEventView>, from: int, to: int) -> Seq<char>
    decreases to - from,
{
    if to <= from {
        Seq::empty()
    } else {
        run_text(events, from, to - 1) + match events[to - 1] {
            XmlEventView::Text(Some(text)) if inside_run(events, to - 1) => text,
            _ => Seq::empty(),
        }
    }
}

/// Whether a paragraph ends at position `i`.
pub open spec fn paragraph_ends_at(events: Seq<XmlEventView>, i: int) -> bool {
    0 <= i < events.len() && events[i] == XmlEventView::End(seq!['p' as u8])
}

/// Whether a paragraph begins to be gathered at position `i`: at the beginning, or behind the end
/// of another.
pub open spec fn paragraph_starts_at(events: Seq<XmlEventView>, i: int) -> bool {
    i == 0 || paragraph_ends_at(events, i - 1)
}

proof fn lemma_tags()
    ensures
        run_tag() == seq!['t' as u8],
        paragraph_tag() == seq!['p' as u8],
        run_tag() != paragraph_tag(),
{
    assert(run_tag()[0] == 116u8 && paragraph_tag()[0] == 112u8);
    assert('t' as u8 == 116u8 && 'p' as u8 == 112u8);
}

proof fn lemma_in_run(events: Seq<XmlEventView>)
    ensures
        gathered_from(events).in_run == inside_run(events, events.len() as int),
    decreases events.len(),
{
    lemma_tags();
    if events.len() > 0 {
        let front = events.drop_last();
        let n = front.len() as int;
        lemma_in_run(front);
        assert forall|j: int| 0 <= j < n implies front[j] == events[j] by {}
        assert(inside_run(front, n) == inside_run(events, n)) by {
            if inside_run(front, n) {
                let j = choose|j: int|
                    0 <= j < n && (#[trigger] front[j]) == XmlEventView::Start(seq!['t' as u8])
                        && forall|k: int|
                        j < k < n ==> (#[trigger] front[k]) != XmlEventView::End(seq!['t' as u8]);
                assert(events[j] == XmlEventView::Start(seq!['t' as u8]));
            }
            if inside_run(events, n) {
                let j = choose|j: int|
                    0 <= j < n && (#[trigger] events[j]) == XmlEventView::Start(seq!['t' as u8])
                        && forall|k: int|
                        j < k < n ==> (#[trigger] events[k]) != XmlEventView::End(seq!['t' as u8]);
                assert(front[j] == XmlEventView::Start(seq!['t' as u8]));
            }
        }
        let last = events[n];
        if last == XmlEventView::Start(seq!['t' as u8]) {
            assert(inside_run(events, n + 1));
        } else if last == XmlEventView::End(seq!['t' as u8]) {
            assert(!inside_run(events, n + 1)) by {
                if inside_run(events, n + 1) {
                    let j = choose|j: int|
                        0 <= j < n + 1 && (#[trigger] events[j]) == XmlEventView::Start(
                            seq!['t' as u8],
                        ) && forall|k: int|
                            j < k < n + 1 ==> (#[trigger] events[k]) != XmlEventView::End(
                                seq!['t' as u8],
                            );
                    assert(j < n);
                    assert(events[n] != XmlEventView::End(seq!['t' as u8]));
                }
            }
        } else {
            if inside_run(events, n) {
                let j = choose|j: int|
                    0 <= j < n && (#[trigger] events[j]) == XmlEventView::Start(seq!['t' as u8])
                        && forall|k: int|
                        j < k < n ==> (#[trigger] events[k]) != XmlEventView::End(seq!['t' as u8]);
                assert(inside_run(events, n + 1));
            }
            if inside_run(events, n + 1) {
                let j = choose|j: int|
                    0 <= j < n + 1 && (#[trigger] events[j]) == XmlEventView::Start(
                        seq!['t' as u8],
                    ) && forall|k: int|
                        j < k < n + 1 ==> (#[trigger] events[k]) != XmlEventView::End(
                            seq!['t' as u8],
                        );
                assert(j < n);
                assert(inside_run(events, n));
            }
        }
    }
}

proof fn lemma_inside_prefix(events: Seq<XmlEventView>, n: int, i: int)
    requires
        0 <= i <= n <= events.len(),
    ensures
        inside_run(events.take(n), i) == inside_run(events, i),
{
    let front = events.take(n);
    assert forall|j: int| 0 <= j < n implies front[j] == events[j] by {}
    if inside_run(front, i) {
        let j = choose|j: int|
            0 <= j < i && (#[trigger] front[j]) == XmlEventView::Start(seq!['t' as u8])
                && forall|k: int|
                j < k < i ==> (#[trigger] front[k]) != XmlEventView::End(seq!['t' as u8]);
        assert(events[j] == XmlEventView::Start(seq!['t' as u8]));
        assert forall|k: int| j < k < i implies (#[trigger] events[k]) != XmlEventView::End(
            seq!['t' as u8],
        ) by {
            assert(front[k] == events[k]);
        }
    }
    if inside_run(events, i) {
        let j = choose|j: int|
            0 <= j < i && (#[trigger] events[j]) == XmlEventView::Start(seq!['t' as u8])
                && forall|k: int|
                j < k < i ==> (#[trigger] events[k]) != XmlEventView::End(seq!['t' as u8]);
        assert(front[j] == XmlEventView::Start(seq!['t' as u8]));
        assert forall|k: int| j < k < i implies (#[trigger] front[k]) != XmlEventView::End(
            seq!['t' as u8],
        ) by {
            assert(front[k] == events[k]);
        }
    }
}

/// As long as no paragraph ends, the text of the current one is that of its text runs, all of them
/// and in their order, whatever other elements begin or end between them; and the paragraphs before
/// it stay as they are.
pub proof fn law_paragraph_is_its_runs(events: Seq<XmlEventView>, start: int, i: int)
    requires
        0 <= start <= i <= events.len(),
        paragraph_starts_at(events, start),
        forall|k: int| start <= k < i ==> !paragraph_ends_at(events, k),
    ensures
        gathered_from(events.take(i)).paragraph == run_text(events, start, i),
        gathered_from(events.take(i)).result == gathered_from(events.take(start)).result,
    decreases i - start,
{
    lemma_tags();
    let all = events.take(i);
    if i == start {
        if start > 0 {
            assert(all.drop_last() =~= events.take(i - 1));
            assert(all.last() == events[i - 1]);
        } else {
            assert(all =~= Seq::<XmlEventView>::empty());
        }
    } else {
        law_paragraph_is_its_runs(events, start, i - 1);
        assert(all.drop_last() =~= events.take(i - 1));
        assert(all.last() == events[i - 1]);
        assert(!paragraph_ends_at(events, i - 1));
        lemma_in_run(events.take(i - 1));
        lemma_inside_prefix(events, i - 1, i - 1);
        let before = gathered_from(events.take(i - 1)).paragraph;
        assert(before + Seq::<char>::empty() =~= before);
    }
}

/// The end of a paragraph adds the text of its runs to that of the slide: without white space at
/// either end and with a line feed behind it, or not at all where nothing is left.
pub proof fn law_paragraph_is_added(events: Seq<XmlEventView>, start: int, i: int)
    requires
        0 <= start <= i < events.len(),
        paragraph_starts_at(events, start),
        forall|k: int| start <= k < i ==> !paragraph_ends_at(events, k),
        paragraph_ends_at(events, i),
    ensures
        ({
            let line = trimmed(run_text(events, start, i));
            slide_text(events.take(i + 1)) == if line.len() > 0 {
                slide_text(events.take(start)) + line + seq!['\n']
            } else {
                slide_text(events.take(start))
            }
        }),
{
    reveal_strlit("\n");
    assert("\n"@ =~= seq!['\n']);
    lemma_tags();
    law_paragraph_is_its_runs(events, start, i);
    assert(events.take(i + 1).drop_last() =~= events.take(i));
    assert(events.take(i + 1).last() == events[i]);
}

/// What follows the last paragraph adds nothing, and without any step there is no text.
pub proof fn law_text_ends_with_its_paragraphs(events: Seq<XmlEventView>, start: int)
    requires
        0 <= start <= events.len(),
        paragraph_starts_at(events, start),
        forall|k: int| start <= k < events.len() ==> !paragraph_ends_at(events, k),
    ensures
        slide_text(events) == slide_text(events.take(start)),
        slide_text(events.take(0)) == Seq::<char>::empty(),
{
    law_paragraph_is_its_runs(events, start, events.len() as int);
    assert(events.take(events.len() as int) =~= events);
    assert(events.take(0) =~= Seq::<XmlEventView>::empty());
}

/// Another slide is put behind the text of a presentation, with a line feed between them, unless
/// it is blank.
pub proof fn law_next_slide(slides: Seq<Seq<char>>, slide: Seq<char>)
    ensures
        ({
            let before = joined_with(not_blank(slides), "\n"@);
            joined_with(not_blank(slides.push(slide)), "\n"@) == if trimmed(slide).len() == 0 {
                before
            } else if not_blank(slides).len() == 0 {
                slide
            } else {
                before + seq!['\n'] + slide
            }
        }),
        not_blank(slides.push(slide)).len() == not_blank(slides).len() + if trimmed(slide).len()
            == 0 {
            0nat
        } else {
            1
        },
        not_blank(Seq::<Seq<char>>::empty()).len() == 0,
{
    reveal_strlit("\n");
    assert("\n"@ =~= seq!['\n']);
    assert(slides.push(slide).drop_last() =~= slides);
    let kept = not_blank(slides);
    if trimmed(slide).len() > 0 {
        assert(kept.push(slide).drop_last() =~= kept);
        assert(kept.push(slide).last() == slide);
    }
}

/// The slides of a presentation are the entries `ppt/slides/slide` with a number and `.xml`, and
/// each is sorted by its number.
pub proof fn law_numbered_slide(n: nat)
    requires
        n <= usize::MAX,
    ensures
        is_slide("ppt/slides/slide"@ + decimal(n) + ".xml"@),
        slide_number("ppt/slides/slide"@ + decimal(n) + ".xml"@) == n,
{
    reveal_strlit("ppt/slides/slide");
    reveal_strlit(".xml");
    reveal_strlit("/_rels/");
    let head = "ppt/slides/slide"@;
    let tail = ".xml"@;
    let digits = decimal(n);
    let name = head + digits + tail;
    lemma_decimal(n, usize::MAX as nat);
    assert(name.subrange(0, 16) =~= head);
    assert(name.subrange(name.len() - 4, name.len() as int) =~= tail);
    assert forall|i: int| !occurs_at(name, "/_rels/"@, i) by {
        if occurs_at(name, "/_rels/"@, i) {
            assert(name.subrange(i, i + 7)[1] == '_');
            assert(name[i + 1] == '_');
            if i + 1 >= 16 && i + 1 < 16 + digits.len() {
                assert(is_digit(digits[i + 1 - 16]));
            }
        }
    }
    let rest = digits + tail;
    assert(name.subrange(16, name.len() as int) =~= rest);
    assert(is_digit(digits[0]));
    assert(!occurs_at(rest, head, 0)) by {
        if occurs_at(rest, head, 0) {
            assert(rest.subrange(0, 16)[0] == 'p');
            assert(rest[0] == digits[0]);
        }
    }
    assert(without_prefixes(rest, head) == rest);
    assert(without_prefixes(name, head) == rest);
    assert(rest.subrange(rest.len() - 4, rest.len() as int) =~= tail);
    assert(rest.subrange(0, rest.len() - 4) =~= digits);
    assert(!occurs_at(digits, tail, digits.len() - 4)) by {
        if occurs_at(digits, tail, digits.len() - 4) {
            assert(digits.subrange(digits.len() - 4, digits.len() as int)[3] == 'l');
            assert(is_digit(digits[digits.len() - 1]));
        }
    }
    assert(without_suffixes(digits, tail) == digits);
    assert(without_suffixes(rest, tail) == digits);
    law_decimal_round_trip(n, usize::MAX as nat);
}

/// An entry that lies elsewhere, is no XML or lies among the relationships is no slide.
pub proof fn law_no_slide(name: Seq<char>)
    requires
        !(occurs_at(name, "ppt/slides/slide"@, 0) && occurs_at(name, ".xml"@, name.len() - 4))
            || occurs(name, "/_rels/"@),
    ensures
        !is_slide(name),
{
    reveal_strlit(".xml");
}

/// A property of a presentation is what stands between its tag and the next `<`, without white
/// space at either end. It is missing where nothing is left, or no `<` follows, or there is no tag.
pub proof fn law_core_prop(p: Seq<char>, tag: Seq<char>, value: Seq<char>, rest: Seq<char>)
    requires
        !value.contains('<'),
        rest.len() == 0 || rest[0] == '<',
        forall|i: int|
            0 <= i < p.len() ==> !#[trigger] occurs_at(
                p + (seq![':'] + tag + seq!['>']) + (value + rest),
                seq![':'] + tag + seq!['>'],
                i,
            ),
    ensures
        ({
            let xml = p + (seq![':'] + tag + seq!['>']) + (value + rest);
            forall|x: Option<Seq<char>>| #[trigger]
                is_core_prop(xml, tag, x) <==> x == (if rest.len() > 0 && trimmed(value).len() > 0 {
                    Some(trimmed(value))
                } else {
                    None
                })
        }),
{
    reveal_strlit(":");
    reveal_strlit(">");
    let open = ":"@ + tag + ">"@;
    assert(open =~= seq![':'] + tag + seq!['>']);
    let tail = value + rest;
    let xml = p + open + tail;
    let n = p.len() as int;
    assert(xml.subrange(n, n + open.len()) =~= open);
    assert(first_occurrence(xml, open, 0, n));
    lemma_first_occurrence_unique(xml, open, n);
    assert(xml.subrange(n + open.len(), xml.len() as int) =~= tail);
    law_before_char(value, '<', rest);
    if rest.len() > 0 {
        assert(tail[value.len() as int] == '<');
        assert(tail.contains('<'));
    } else {
        assert(tail =~= value);
    }
    let wanted = if rest.len() > 0 && trimmed(value).len() > 0 {
        Some(trimmed(value))
    } else {
        None
    };
    assert forall|x: Option<Seq<char>>| #[trigger] is_core_prop(xml, tag, x) <==> x == wanted by {
        assert(exists|i: int| first_occurrence(xml, open, 0, i));
        if x == wanted {
            assert(first_occurrence(xml, open, 0, n));
        }
    }
}

/// A property whose tag does not occur is missing.
pub proof fn law_no_core_prop(xml: Seq<char>, tag: Seq<char>)
    requires
        !occurs(xml, seq![':'] + tag + seq!['>']),
    ensures
        forall|x: Option<Seq<char>>| #[trigger] is_core_prop(xml, tag, x) <==> x is None,
{
    reveal_strlit(":");
    reveal_strlit(">");
    assert(":"@ + tag + ">"@ =~= seq![':'] + tag + seq!['>']);
}

/// The metadata of a presentation: each field holds what it is named after, and there are no
/// others. The title and the creator are `Unknown` where they are missing.
pub proof fn law_pptx_fields(
    title: Option<Seq<char>>,
    creator: Option<Seq<char>>,
    slide_count: nat,
    path: Seq<char>,
)
    ensures
        ({
            let fields = pptx_fields(title, creator, slide_count, path);
            &&& fields.dom() == set!["title"@, "creator"@, "slide_count"@, "path"@]
            &&& title is Some ==> fields["title"@] == MetaView::Text(title->0)
            &&& title is None ==> fields["title"@] == MetaView::Text("Unknown"@)
            &&& creator is Some ==> fields["creator"@] == MetaView::Text(creator->0)
            &&& creator is None ==> fields["creator"@] == MetaView::Text("Unknown"@)
            &&& fields["slide_count"@] == MetaView::Json(decimal(slide_count))
            &&& fields["path"@] == MetaView::Text(path)
        }),
{
    reveal_strlit("title");
    reveal_strlit("creator");
    reveal_strlit("slide_count");
    reveal_strlit("path");
    assert("title"@.len() == 5 && "creator"@.len() == 7);
    assert("slide_count"@.len() == 11 && "path"@.len() == 4);
    let fields = pptx_fields(title, creator, slide_count, path);
    assert(fields.dom() =~= set!["title"@, "creator"@, "slide_count"@, "path"@]);
}

/// The metadata of a presentation has the properties `title` and `creator` of its core properties
/// under the same names.
pub proof fn law_pptx_metadata(
    metadata: MetadataView,
    xml: &str,
    slide_count: nat,
    path: Seq<char>,
    title: Option<Seq<char>>,
    creator: Option<Seq<char>>,
)
    requires
        is_pptx_metadata(metadata, Some(xml), slide_count, path),
        is_core_prop(xml@, "title"@, title),
        is_core_prop(xml@, "creator"@, creator),
    ensures
        metadata matches MetadataView::Object(fields) && {
            &&& fields["title"@] == MetaView::Text(
                if title is Some {
                    title->0
                } else {
                    "Unknown"@
                },
            )
            &&& fields["creator"@] == MetaView::Text(
                if creator is Some {
                    creator->0
                } else {
                    "Unknown"@
                },
            )
            &&& fields["slide_count"@] == MetaView::Json(decimal(slide_count))
            &&& fields["path"@] == MetaView::Text(path)
        },
{
    let (t, c) = choose|t: Option<Seq<char>>, c: Option<Seq<char>>|
        #![trigger is_core_prop(xml@, "title"@, t), is_core_prop(xml@, "creator"@, c)]
        is_core_prop(xml@, "title"@, t) && is_core_prop(xml@, "creator"@, c) && metadata
            == MetadataView::Object(pptx_fields(t, c, slide_count, path));
    lemma_core_prop_unique(xml@, "title"@, title, t);
    lemma_core_prop_unique(xml@, "creator"@, creator, c);
    law_pptx_fields(title, creator, slide_count, path);
}

proof fn lemma_core_prop_unique(
    xml: Seq<char>,
    tag: Seq<char>,
    a: Option<Seq<char>>,
    b: Option<Seq<char>>,
)
    requires
        is_core_prop(xml, tag, a),
        is_core_prop(xml, tag, b),
    ensures
        a == b,
{
    let open = ":"@ + tag + ">"@;
    if exists|i: int| first_occurrence(xml, open, 0, i) {
        let i = choose|i: int| first_occurrence(xml, open, 0, i);
        lemma_first_occurrence_unique(xml, open, i);
    }
}

/// The slides of an archive are those of its files that are slides, and all of them.
pub proof fn law_slides_are_found(names: &Vec<String>, res: Vec<String>, k: int)
    requires
        call_ensures(slide_names, (names,), res),
        0 <= k < names@.len(),
    ensures
        is_slide(names@[k]@) ==> exists|i: int|
            0 <= i < res@.len() && (#[trigger] res@[i])@ == names@[k]@,
        forall|i: int| 0 <= i < res@.len() ==> is_slide((#[trigger] res@[i])@) && exists|j: int|
            0 <= j < names@.len() && (#[trigger] names@[j])@ == res@[i]@,
{
    let all = texts(names@);
    let order = choose|order: Seq<int>| #[trigger]
        is_slide_order(all, order) && res@.len() == order.len() && forall|i: int|
            0 <= i < order.len() ==> (#[trigger] res@[i])@ == all[order[i]];
    assert forall|j: int| 0 <= j < names@.len() implies all[j] == (#[trigger] names@[j])@ by {}
    if is_slide(names@[k]@) {
        assert(order.contains(k));
        let i = choose|i: int| 0 <= i < order.len() && order[i] == k;
        assert(res@[i]@ == names@[k]@);
    }
    assert forall|i: int| 0 <= i < res@.len() implies is_slide((#[trigger] res@[i])@) && exists|
        j: int,
    |
        0 <= j < names@.len() && (#[trigger] names@[j])@ == res@[i]@ by {
        assert(order.contains(order[i]));
        assert(names@[order[i]]@ == res@[i]@);
    }
}

/// The slides come in the order of their numbers, not of their names.
pub proof fn law_slides_are_in_order(
    names: &Vec<String>,
    res: Vec<String>,
    i: int,
    j: int,
    n: nat,
    m: nat,
)
    requires
        call_ensures(slide_names, (names,), res),
        0 <= i < j < res@.len(),
        n <= usize::MAX,
        m <= usize::MAX,
        res@[i]@ == "ppt/slides/slide"@ + decimal(n) + ".xml"@,
        res@[j]@ == "ppt/slides/slide"@ + decimal(m) + ".xml"@,
    ensures
        n <= m,
{
    let all = texts(names@);
    let order = choose|order: Seq<int>| #[trigger]
        is_slide_order(all, order) && res@.len() == order.len() && forall|i: int|
            0 <= i < order.len() ==> (#[trigger] res@[i])@ == all[order[i]];
    law_numbered_slide(n);
    law_numbered_slide(m);
    assert(slide_before(all, order[i], order[j]));
}

/// A file is taken for a slide, and its number read, by its name.
pub proof fn law_slide_calls(name: &str, n: usize, slide: bool, number: usize)
    requires
        call_ensures(pptx_is_slide, (name,), slide),
        call_ensures(pptx_slide_number, (name,), number),
    ensures
        name@ == "ppt/slides/slide"@ + decimal(n as nat) + ".xml"@ ==> slide && number == n,
        occurs(name@, "/_rels/"@) ==> !slide,
        !occurs_at(name@, "ppt/slides/slide"@, 0) ==> !slide,
{
    law_numbered_slide(n as nat);
    if occurs(name@, "/_rels/"@) || !occurs_at(name@, "ppt/slides/slide"@, 0) {
        law_no_slide(name@);
    }
}

/// A property of the document is the text of the first element of its name, without the white space
/// around it.
pub proof fn law_property_is_read(
    xml: &str,
    tag: &str,
    p: Seq<char>,
    value: Seq<char>,
    rest: Seq<char>,
    res: Option<String>,
)
    requires
        call_ensures(pptx_core_prop, (xml, tag), res),
        xml@ == p + (seq![':'] + tag@ + seq!['>']) + (value + rest),
        !value.contains('<'),
        rest.len() > 0,
        rest[0] == '<',
        forall|i: int|
            0 <= i < p.len() ==> !#[trigger] occurs_at(xml@, seq![':'] + tag@ + seq!['>'], i),
    ensures
        trimmed(value).len() > 0 ==> (res matches Some(s) && s@ == trimmed(value)),
        trimmed(value).len() == 0 ==> res is None,
{
    law_core_prop(p, tag@, value, rest);
    assert(is_core_prop(xml@, tag@, optional_text(res)));
}

/// The text of a slide that ends with a paragraph is what stands before the paragraph and a line
/// with the text of its runs, without the white space around it.
pub proof fn law_slide_text_call(xml: &str, start: int, i: int, res: String)
    requires
        call_ensures(pptx_extract_drawingml_text, (xml,), res),
        0 <= start <= i,
        i + 1 == xml_events(xml@).len(),
        paragraph_starts_at(xml_events(xml@), start),
        forall|k: int| start <= k < i ==> !paragraph_ends_at(xml_events(xml@), k),
        paragraph_ends_at(xml_events(xml@), i),
    ensures
        ({
            let events = xml_events(xml@);
            let line = trimmed(run_text(events, start, i));
            let before = slide_text(events.take(start));
            &&& res@ == if line.len() > 0 {
                before + line + seq!['\n']
            } else {
                before
            }
            &&& start == 0 ==> before.len() == 0
        }),
{
    let events = xml_events(xml@);
    law_paragraph_is_added(events, start, i);
    assert(events.take(i + 1) =~= events);
}

/// The text of the slides has a line break between each two that are not blank.
pub proof fn law_next_slide_call(
    slides: &Vec<String>,
    longer: &Vec<String>,
    text: Result<String, String>,
    longer_text: Result<String, String>,
)
    requires
        call_ensures(pptx_text, (slides,), text),
        call_ensures(pptx_text, (longer,), longer_text),
        longer@.len() == slides@.len() + 1,
        longer@.drop_last() == slides@,
        text is Ok,
        longer_text is Ok,
    ensures
        longer_text->Ok_0@ == if trimmed(longer@.last()@).len() == 0 {
            text->Ok_0@
        } else {
            text->Ok_0@ + seq!['\n'] + longer@.last()@
        },
{
    let parts = texts(slides@);
    let last = longer@.last()@;
    assert(texts(longer@) =~= parts.push(last));
    law_next_slide(parts, last);
    if not_blank(parts).len() == 0 {
        assert(trimmed(joined_with(not_blank(parts), "\n"@)).len() == 0);
    }
}

/// A presentation without slides has no text, which is an error.
pub proof fn law_no_slides(
    slides: &Vec<String>,
    path: &str,
    text: Result<String, String>,
    source: String,
)
    requires
        slides@.len() == 0,
        call_ensures(pptx_text, (slides,), text),
        call_ensures(pptx_source, (path,), source),
    ensures
        text matches Err(s) && s@ == "No text could be extracted from the PPTX"@,
        source@ == "pptx:"@ + path@,
{
    assert(texts(slides@) =~= Seq::<Seq<char>>::empty());
    assert(joined_with(not_blank(texts(slides@)), "\n"@) == Seq::<char>::empty());
}

/// The metadata of a presentation holds its title and creator, how many slides it has and where it
/// lies.
pub proof fn law_presentation(
    xml: &str,
    slides: Vec<String>,
    path: &str,
    executor: Executor,
    title: Option<Seq<char>>,
    creator: Option<Seq<char>>,
    res: Result<(Metadata, String), String>,
)
    requires
        call_ensures(pptx_document, (Some(xml), slides, path, executor), res),
        is_core_prop(xml@, "title"@, title),
        is_core_prop(xml@, "creator"@, creator),
    ensures
        res matches Ok((metadata, _)) ==> metadata@ matches MetadataView::Object(fields) && {
            &&& title is Some ==> fields["title"@] == MetaView::Text(title->0)
            &&& title is None ==> fields["title"@] == MetaView::Text("Unknown"@)
            &&& creator is Some ==> fields["creator"@] == MetaView::Text(creator->0)
            &&& creator is None ==> fields["creator"@] == MetaView::Text("Unknown"@)
            &&& fields["slide_count"@] == MetaView::Json(decimal(slides@.len()))
            &&& fields["path"@] == MetaView::Text(path@)
        },
{
    if let Ok((metadata, _)) = res {
        law_pptx_metadata(metadata@, xml, slides@.len(), path@, title, creator);
    }
}

/// The text of a run is added to its paragraph. That a run begins or ends adds nothing and takes
/// nothing away. Text that stands in no run is left out.
pub proof fn law_gather_run(
    result: &mut String,
    paragraph: &mut String,
    in_run: bool,
    event: &XmlEvent,
    res: bool,
)
    requires
        call_ensures(gather, (result, paragraph, in_run, event), res),
        event@ != XmlEventView::End(seq!['p' as u8]),
    ensures
        final(result)@ == old(result)@,
        event@ matches XmlEventView::Text(Some(text)) ==> final(paragraph)@ == if in_run {
            old(paragraph)@ + text
        } else {
            old(paragraph)@
        },
        !(event@ is Text) ==> final(paragraph)@ == old(paragraph)@,
        event@ == XmlEventView::Start(seq!['t' as u8]) ==> res,
        event@ == XmlEventView::End(seq!['t' as u8]) ==> !res,
        event@ is Text ==> res == in_run,
{
    assert(seq!['t' as u8] =~= run_tag());
    assert(seq!['p' as u8] =~= paragraph_tag());
}

/// At its end a paragraph becomes a line, unless it is blank, and the next one begins empty.
pub proof fn law_gather_paragraph(
    result: &mut String,
    paragraph: &mut String,
    in_run: bool,
    event: &XmlEvent,
    res: bool,
)
    requires
        call_ensures(gather, (result, paragraph, in_run, event), res),
        event@ == XmlEventView::End(seq!['p' as u8]),
    ensures
        final(paragraph)@.len() == 0,
        final(result)@ == if trimmed(old(paragraph)@).len() > 0 {
            old(result)@ + trimmed(old(paragraph)@) + seq!['\n']
        } else {
            old(result)@
        },
        res == in_run,
{
    reveal_strlit("\n");
    assert("\n"@ =~= seq!['\n']);
    assert(seq!['t' as u8] =~= run_tag());
    assert(seq!['p' as u8] =~= paragraph_tag());
    assert(run_tag()[0] != paragraph_tag()[0]);
}

/// A slide without a number in its name counts as number 0.
pub proof fn law_unnumbered_slide(name: &str, c: char, number: usize)
    requires
        name@ == "ppt/slides/slide"@ + seq![c] + ".xml"@,
        !('0' <= c <= '9'),
        call_ensures(pptx_slide_number, (name,), number),
    ensures
        number == 0,
{
    reveal_strlit("ppt/slides/slide");
    reveal_strlit(".xml");
    let head = "ppt/slides/slide"@;
    let tail = ".xml"@;
    let rest = seq![c] + tail;
    assert(name@.subrange(0, 16) =~= head);
    assert(name@.subrange(16, name@.len() as int) =~= rest);
    assert(without_prefixes(rest, head) == rest);
    assert(without_prefixes(name@, head) == rest);
    assert(rest.subrange(1, 5) =~= tail);
    assert(rest.subrange(0, 1) =~= seq![c]);
    assert(without_suffixes(seq![c], tail) == seq![c]);
    assert(without_suffixes(rest, tail) == seq![c]);
    reveal_with_fuel(digits_value, 2);
    assert(seq![c].drop_last().len() == 0);
    assert(seq![c].last() == c);
}

} // verus!
