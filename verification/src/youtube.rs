//! Documents made of the transcripts of videos.

use vstd::prelude::*;
use crate::metadata::{Fields, MetaValue, MetaView, Metadata, MetadataView};
use crate::paths::last_slash;
use crate::text::{
    before_char, byte_len, byte_length, chars_of, contains_text, copy_of, find_char, find_text,
    first_occurrence, join_texts, joined_with, law_before_char, law_joined, occurs, occurs_at,
    string_of, take_before_char, texts,
};

verus! {

/// Whether an input is a video's identifier by itself: eleven bytes, without `/` and `&`.
pub open spec fn is_bare_id(input: Seq<char>) -> bool {
    &&& byte_len(input) == 11
    &&& !input.contains('/')
    &&& !input.contains('&')
}

/// Whether `id` is what stands behind the first `v=` of the input, up to an `&`.
pub open spec fn is_id_in_query(input: Seq<char>, id: Seq<char>) -> bool {
    exists|i: int| #[trigger]
        first_occurrence(input, "v="@, 0, i) && id == before_char(
            input.subrange(i + 2, input.len() as int),
            '&',
        )
}

/// What stands behind the last `/` of the input, up to a `?`.
pub open spec fn id_in_path(input: Seq<char>) -> Seq<char> {
    before_char(
        input.subrange(last_slash(input, 0, input.len() as int) + 1, input.len() as int),
        '?',
    )
}

/// Whether `id` is the video's identifier that the input holds.
pub open spec fn is_video_id(input: Seq<char>, id: Seq<char>) -> bool {
    if is_bare_id(input) {
        id == input
    } else if occurs(input, "v="@) {
        is_id_in_query(input, id)
    } else {
        occurs(input, "youtu.be/"@) && id == id_in_path(input)
    }
}

/// Whether the input holds a video's identifier.
pub open spec fn has_video_id(input: Seq<char>) -> bool {
    is_bare_id(input) || occurs(input, "v="@) || occurs(input, "youtu.be/"@)
}

fn contains_char(s: &str, c: char) -> (res: bool)
    ensures
        res == s@.contains(c),
{
    let chars = chars_of(s);
    match find_char(&chars, c, 0) {
        Some(i) => {
            assert(s@[i as int] == c);
            true
        },
        None => false,
    }
}

/// The video's identifier in an identifier or a URL. The error is the text that reports an input
/// that holds none.
pub fn extract_video_id(id_or_url: &str) -> (res: Result<String, String>)
    ensures
        match res {
            Ok(id) => has_video_id(id_or_url@) && is_video_id(id_or_url@, id@),
            Err(text) => !has_video_id(id_or_url@) && text@
                == "Could not extract video ID from: "@ + id_or_url@,
        },
{
    if byte_length(id_or_url) == 11 && !contains_char(id_or_url, '/') && !contains_char(
        id_or_url,
        '&',
    ) {
        return Ok(copy_of(id_or_url));
    }
    let chars = chars_of(id_or_url);
    let n: usize = chars.len();
    let pattern = chars_of("v=");
    proof {
        reveal_strlit("v=");
    }
    match find_text(&chars, &pattern, 0) {
        Some(i) => {
            let rest = string_of(&chars, i + 2, n);
            let id = take_before_char(rest.as_str(), '&');
            proof {
                assert(occurs_at(id_or_url@, "v="@, i as int));
                assert(first_occurrence(id_or_url@, "v="@, 0, i as int));
            }
            return Ok(id);
        },
        None => {
            proof {
                assert forall|i: int| !occurs_at(id_or_url@, "v="@, i) by {
                    if i >= 0 {
                        assert(!occurs_at(chars@, pattern@, i));
                    }
                }
            }
        },
    }
    if contains_text(id_or_url, "youtu.be/") {
        let start: usize = match find_last_slash_in(&chars) {
            Some(i) => i + 1,
            None => 0,
        };
        let rest = string_of(&chars, start, n);
        return Ok(take_before_char(rest.as_str(), '?'));
    }
    let mut text = "Could not extract video ID from: ".to_owned();
    text.append(id_or_url);
    Err(text)
}

fn find_last_slash_in(chars: &Vec<char>) -> (res: Option<usize>)
    ensures
        match res {
            Some(i) => i < chars@.len() && last_slash(chars@, 0, chars@.len() as int) == i,
            None => last_slash(chars@, 0, chars@.len() as int) == -1,
        },
{
    crate::paths::find_last_slash(chars, 0, chars.len())
}

/// The URL of a video.
pub open spec fn url_of(video_id: Seq<char>) -> Seq<char> {
    "https://www.youtube.com/watch?v="@ + video_id
}

/// The source under which a transcript is put into the queue.
pub open spec fn transcript_source(video_id: Seq<char>) -> Seq<char> {
    "yt:"@ + video_id
}

/// The URL of a video.
pub fn video_url(video_id: &str) -> (res: String)
    ensures
        res@ == url_of(video_id@),
{
    let mut res = "https://www.youtube.com/watch?v=".to_owned();
    res.append(video_id);
    res
}

/// The source under which a transcript is put into the queue.
pub fn video_source(video_id: &str) -> (res: String)
    ensures
        res@ == transcript_source(video_id@),
{
    let mut res = "yt:".to_owned();
    res.append(video_id);
    res
}

/// The text of a transcript: its snippets with a space between them.
pub fn transcript_text(snippets: &Vec<String>) -> (res: String)
    ensures
        res@ == joined_with(texts(snippets@), " "@),
{
    join_texts(snippets, " ")
}

/// The metadata of a transcript.
pub open spec fn transcript_fields(
    title: Seq<char>,
    author: Seq<char>,
    video_id: Seq<char>,
    language: Seq<char>,
) -> Map<Seq<char>, MetaView> {
    Map::empty().insert("title"@, MetaView::Text(title)).insert(
        "author"@,
        MetaView::Text(author),
    ).insert("video_url"@, MetaView::Text(url_of(video_id))).insert(
        "video_id"@,
        MetaView::Text(video_id),
    ).insert("language"@, MetaView::Text(language))
}

/// The metadata of a transcript.
pub fn transcript_metadata(title: &str, author: &str, video_id: &str, language: &str) -> (res:
    Metadata)
    ensures
        res.wf(),
        res@ == MetadataView::Object(
            transcript_fields(title@, author@, video_id@, language@),
        ),
{
    let mut fields = Fields::new();
    fields.set("title", MetaValue::Text(copy_of(title)));
    fields.set("author", MetaValue::Text(copy_of(author)));
    fields.set("video_url", MetaValue::Text(video_url(video_id)));
    fields.set("video_id", MetaValue::Text(copy_of(video_id)));
    fields.set("language", MetaValue::Text(copy_of(language)));
    Metadata::Object(fields)
}

proof fn lemma_no_v_before(p: Seq<char>, rest: Seq<char>)
    requires
        !occurs(p, "v="@),
    ensures
        first_occurrence(p + "v="@ + rest, "v="@, 0, p.len() as int),
{
    reveal_strlit("v=");
    let whole = p + "v="@ + rest;
    let n = p.len() as int;
    assert(whole.subrange(n, n + 2) =~= "v="@);
    assert forall|j: int| 0 <= j < n implies !#[trigger] occurs_at(whole, "v="@, j) by {
        if occurs_at(whole, "v="@, j) {
            assert(whole.subrange(j, j + 2)[0] == 'v' && whole.subrange(j, j + 2)[1] == '=');
            assert(whole[j + 1] == '=');
            if j + 1 < n {
                assert(p.subrange(j, j + 2) =~= "v="@);
                assert(occurs_at(p, "v="@, j));
            } else {
                assert(whole[n] == 'v');
            }
        }
    }
}

/// The identifier in a URL is what stands behind its first `v=`, up to the next `&` or the end,
/// whatever characters it is made of.
pub proof fn law_id_behind_v(p: Seq<char>, id: Seq<char>, rest: Seq<char>)
    requires
        !occurs(p, "v="@),
        !id.contains('&'),
        rest.len() == 0 || rest[0] == '&',
        ({
            let input = p + "v="@ + (id + rest);
            byte_len(input) != 11 || input.contains('/') || input.contains('&')
        }),
    ensures
        has_video_id(p + "v="@ + (id + rest)),
        forall|x: Seq<char>| #[trigger] is_video_id(p + "v="@ + (id + rest), x) <==> x == id,
{
    reveal_strlit("v=");
    let tail = id + rest;
    let input = p + "v="@ + tail;
    let n = p.len() as int;
    lemma_no_v_before(p, tail);
    assert(occurs_at(input, "v="@, n));
    assert(occurs(input, "v="@));
    law_before_char(id, '&', rest);
    assert(input.subrange(n + 2, input.len() as int) =~= tail);
    assert forall|x: Seq<char>| #[trigger] is_video_id(input, x) <==> x == id by {
        if is_id_in_query(input, x) {
            let i = choose|i: int| #[trigger]
                first_occurrence(input, "v="@, 0, i) && x == before_char(
                    input.subrange(i + 2, input.len() as int),
                    '&',
                );
            if i < n {
                assert(!occurs_at(input, "v="@, i));
            } else if i > n {
                assert(!occurs_at(input, "v="@, n));
            }
            assert(i == n);
        }
        if x == id {
            assert(first_occurrence(input, "v="@, 0, n));
            assert(is_id_in_query(input, x));
        }
    }
}

/// An input of eleven bytes without `/` and `&` is an identifier by itself.
pub proof fn law_bare_id(input: Seq<char>)
    requires
        byte_len(input) == 11,
        !input.contains('/'),
        !input.contains('&'),
    ensures
        has_video_id(input),
        forall|x: Seq<char>| #[trigger] is_video_id(input, x) <==> x == input,
{
}

/// The identifier in a short URL is its last component, up to a `?` or the end.
pub proof fn law_id_in_short_url(p: Seq<char>, id: Seq<char>, rest: Seq<char>)
    requires
        !id.contains('/'),
        !id.contains('?'),
        rest.len() == 0 || rest[0] == '?',
        !rest.contains('/'),
        !occurs(p + "youtu.be/"@ + (id + rest), "v="@),
    ensures
        has_video_id(p + "youtu.be/"@ + (id + rest)),
        forall|x: Seq<char>| #[trigger]
            is_video_id(p + "youtu.be/"@ + (id + rest), x) <==> x == id,
{
    reveal_strlit("youtu.be/");
    let tail = id + rest;
    let input = p + "youtu.be/"@ + tail;
    let n = (p.len() + 9) as int;
    assert(input.subrange(p.len() as int, n) =~= "youtu.be/"@);
    assert(occurs_at(input, "youtu.be/"@, p.len() as int));
    assert(input[n - 1] == '/');
    assert(input.contains('/'));
    assert forall|i: int| n <= i < input.len() implies input[i] != '/' by {
        assert(input[i] == tail[i - n]);
        if i - n < id.len() {
            assert(id.contains(id[i - n]));
        } else {
            assert(rest.contains(rest[i - n - id.len()]));
        }
    }
    crate::paths::lemma_last_slash_at(input, 0, input.len() as int, n - 1);
    assert(input.subrange(n, input.len() as int) =~= tail);
    law_before_char(id, '?', rest);
}

/// An input holds no identifier where it is none by itself and has neither a `v=` nor a short URL.
pub proof fn law_no_id(input: Seq<char>)
    requires
        byte_len(input) != 11 || input.contains('/') || input.contains('&'),
        !occurs(input, "v="@),
        !occurs(input, "youtu.be/"@),
    ensures
        !has_video_id(input),
{
}

/// The URL of a video holds the identifier of the video, and so does its source behind the prefix.
pub proof fn law_url_holds_its_id(id: Seq<char>)
    requires
        !id.contains('&'),
    ensures
        has_video_id(url_of(id)),
        forall|x: Seq<char>| #[trigger] is_video_id(url_of(id), x) <==> x == id,
        occurs_at(url_of(id), "https://www.youtube.com/watch?"@, 0),
        transcript_source(id).len() == 3 + id.len(),
        transcript_source(id).skip(3) == id,
{
    reveal_strlit("https://www.youtube.com/watch?v=");
    reveal_strlit("https://www.youtube.com/watch?");
    reveal_strlit("v=");
    reveal_strlit("yt:");
    let p = "https://www.youtube.com/watch?"@;
    assert(p + "v="@ =~= "https://www.youtube.com/watch?v="@);
    let rest = Seq::<char>::empty();
    assert(id + rest =~= id);
    assert(url_of(id) =~= p + "v="@ + (id + rest));
    assert(p[6] == '/');
    assert(url_of(id)[6] == '/');
    assert(url_of(id).contains('/'));
    assert forall|i: int| !occurs_at(p, "v="@, i) by {
        if occurs_at(p, "v="@, i) {
            assert(p.subrange(i, i + 2)[1] == '=');
            assert(p[i + 1] == '=');
        }
    }
    law_id_behind_v(p, id, rest);
    assert(url_of(id).subrange(0, 30) =~= p);
    assert(transcript_source(id).skip(3) =~= id);
}

/// The metadata of a transcript: each field holds what it is named after, and there are no others.
pub proof fn law_transcript_fields(
    title: Seq<char>,
    author: Seq<char>,
    video_id: Seq<char>,
    language: Seq<char>,
)
    ensures
        ({
            let fields = transcript_fields(title, author, video_id, language);
            &&& fields.dom() == set![
                "title"@,
                "author"@,
                "video_url"@,
                "video_id"@,
                "language"@,
            ]
            &&& fields["title"@] == MetaView::Text(title)
            &&& fields["author"@] == MetaView::Text(author)
            &&& fields["video_url"@] == MetaView::Text(
                "https://www.youtube.com/watch?v="@ + video_id,
            )
            &&& fields["video_id"@] == MetaView::Text(video_id)
            &&& fields["language"@] == MetaView::Text(language)
        }),
{
    reveal_strlit("title");
    reveal_strlit("author");
    reveal_strlit("video_url");
    reveal_strlit("video_id");
    reveal_strlit("language");
    assert("title"@.len() == 5 && "author"@.len() == 6 && "video_url"@.len() == 9);
    assert("video_id"@.len() == 8 && "language"@.len() == 8);
    assert("video_id"@[0] == 'v' && "language"@[0] == 'l');
    let fields = transcript_fields(title, author, video_id, language);
    assert(fields.dom() =~= set!["title"@, "author"@, "video_url"@, "video_id"@, "language"@]);
}

/// The identifier of a video is what stands behind the first `v=`, up to an `&`.
pub proof fn law_id_behind_v_is_extracted(
    input: &str,
    p: Seq<char>,
    id: Seq<char>,
    rest: Seq<char>,
    res: Result<String, String>,
)
    requires
        call_ensures(extract_video_id, (input,), res),
        input@ == p + "v="@ + (id + rest),
        !occurs(p, "v="@),
        !id.contains('&'),
        rest.len() == 0 || rest[0] == '&',
        byte_len(input@) != 11 || input@.contains('/') || input@.contains('&'),
    ensures
        res matches Ok(x) && x@ == id,
{
    law_id_behind_v(p, id, rest);
}

/// The identifier of a video in a short address is what stands behind the last `/`, up to a `?`.
pub proof fn law_id_in_short_url_is_extracted(
    input: &str,
    p: Seq<char>,
    id: Seq<char>,
    rest: Seq<char>,
    res: Result<String, String>,
)
    requires
        call_ensures(extract_video_id, (input,), res),
        input@ == p + "youtu.be/"@ + (id + rest),
        !id.contains('/'),
        !id.contains('?'),
        rest.len() == 0 || rest[0] == '?',
        !rest.contains('/'),
        !occurs(input@, "v="@),
    ensures
        res matches Ok(x) && x@ == id,
{
    law_id_in_short_url(p, id, rest);
}

/// Eleven bytes without `/` and `&` are an identifier. Of what is none and holds none, the message
/// says so.
pub proof fn law_bare_id_is_extracted(input: &str, res: Result<String, String>)
    requires
        call_ensures(extract_video_id, (input,), res),
    ensures
        byte_len(input@) == 11 && !input@.contains('/') && !input@.contains('&') ==> (
        res matches Ok(x) && x@ == input@),
        (byte_len(input@) != 11 || input@.contains('/') || input@.contains('&')) && !occurs(
            input@,
            "v="@,
        ) && !occurs(input@, "youtu.be/"@) ==> (res matches Err(text) && text@
            == "Could not extract video ID from: "@ + input@),
{
    if byte_len(input@) == 11 && !input@.contains('/') && !input@.contains('&') {
        law_bare_id(input@);
    }
    if (byte_len(input@) != 11 || input@.contains('/') || input@.contains('&')) && !occurs(
        input@,
        "v="@,
    ) && !occurs(input@, "youtu.be/"@) {
        law_no_id(input@);
    }
}

/// The address of a video holds its identifier, and so does its source.
pub proof fn law_video_addresses(
    video_id: &str,
    url: String,
    source: String,
    again: &str,
    res: Result<String, String>,
)
    requires
        !video_id@.contains('&'),
        call_ensures(video_url, (video_id,), url),
        call_ensures(video_source, (video_id,), source),
        again@ == url@,
        call_ensures(extract_video_id, (again,), res),
    ensures
        url@ == "https://www.youtube.com/watch?v="@ + video_id@,
        source@ == "yt:"@ + video_id@,
        res matches Ok(x) && x@ == video_id@,
{
    law_url_holds_its_id(video_id@);
}

/// A transcript is its snippets with a space between each two.
pub proof fn law_next_snippet(
    snippets: &Vec<String>,
    longer: &Vec<String>,
    text: String,
    longer_text: String,
)
    requires
        call_ensures(transcript_text, (snippets,), text),
        call_ensures(transcript_text, (longer,), longer_text),
        longer@.len() == snippets@.len() + 1,
        longer@.drop_last() == snippets@,
    ensures
        snippets@.len() == 0 ==> text@.len() == 0 && longer_text@ == longer@.last()@,
        snippets@.len() > 0 ==> longer_text@ == text@ + seq![' '] + longer@.last()@,
{
    let parts = texts(snippets@);
    let last = longer@.last()@;
    assert(texts(longer@) =~= parts.push(last));
    assert(parts.len() == snippets@.len());
    reveal_strlit(" ");
    assert(" "@ =~= seq![' ']);
    law_joined(parts, last, " "@);
    if parts.len() == 0 {
        assert(parts =~= Seq::<Seq<char>>::empty());
        assert(parts.push(last) =~= seq![last]);
    }
}

/// The metadata of a transcript says what it was made of.
pub proof fn law_transcript_metadata(
    title: &str,
    author: &str,
    video_id: &str,
    language: &str,
    res: Metadata,
)
    requires
        call_ensures(transcript_metadata, (title, author, video_id, language), res),
    ensures
        res@ matches MetadataView::Object(fields) && {
            &&& fields["title"@] == MetaView::Text(title@)
            &&& fields["author"@] == MetaView::Text(author@)
            &&& fields["video_url"@] == MetaView::Text(
                "https://www.youtube.com/watch?v="@ + video_id@,
            )
            &&& fields["video_id"@] == MetaView::Text(video_id@)
            &&& fields["language"@] == MetaView::Text(language@)
        },
{
    law_transcript_fields(title@, author@, video_id@, language@);
}

} // verus!
