//! The encodings in which documents and chunks are stored: LZ4 frames, UTF-8 and JSON.

use std::io::{Read, Write};
use vstd::prelude::*;
use vstd::utf8::*;
use crate::error::{CapsaError, ProcessingError, Result};

verus! {

/// The bytes that an LZ4 frame holds, as `lz4_flex` reads it: nothing where it refuses the frame.
pub uninterp spec fn lz4_decoded(frame: Seq<u8>) -> Option<Seq<u8>>;

/// Writes an LZ4 frame into memory with `lz4_flex::frame::FrameEncoder`. The claim is that this
/// succeeds, and that reading the frame back gives the data; which bytes the frame consists of is
/// left open.
#[verifier::external_body]
fn lz4_encode(data: &[u8]) -> (res: core::result::Result<Vec<u8>, std::io::Error>)
    ensures
        match res {
            Ok(frame) => lz4_decoded(frame@) == Some(data@),
            Err(_) => false,
        },
{
    let mut encoder = lz4_flex::frame::FrameEncoder::new(Vec::new());
    encoder.write_all(data)?;
    encoder.finish().map_err(std::io::Error::other)
}

/// Reads an LZ4 frame with `lz4_flex::frame::FrameDecoder`. The claim is that the outcome depends
/// on the bytes of the frame alone.
#[verifier::external_body]
fn lz4_decode(frame: &[u8]) -> (res: core::result::Result<Vec<u8>, std::io::Error>)
    ensures
        match res {
            Ok(data) => lz4_decoded(frame@) == Some(data@),
            Err(_) => lz4_decoded(frame@) is None,
        },
{
    let mut decoder = lz4_flex::frame::FrameDecoder::new(frame);
    let mut data = Vec::new();
    decoder.read_to_end(&mut data)?;
    Ok(data)
}

/// Whether `err` is an error with which `lz4_flex` refuses a frame.
pub closed spec fn refuses_frame(frame: Seq<u8>, err: std::io::Error) -> bool {
    exists|s: &[u8]|
        s@ == frame && #[trigger] call_ensures(
            lz4_decode,
            (s,),
            Err::<Vec<u8>, std::io::Error>(err),
        )
}

/// Whether an error reports that a frame cannot be read, with what `lz4_flex` says of that frame.
pub open spec fn is_frame_error(frame: Seq<u8>, e: CapsaError) -> bool {
    e matches CapsaError::Processing(ProcessingError::Io(err)) && refuses_frame(frame, err)
}

/// `String::from_utf8` of std: the string that the bytes encode, where they are valid UTF-8.
#[verifier::external_body]
pub(crate) fn utf8_text(bytes: Vec<u8>) -> (res: Option<String>)
    ensures
        match res {
            Some(s) => valid_utf8(bytes@) && s@ == decode_utf8(bytes@),
            None => !valid_utf8(bytes@),
        },
{
    String::from_utf8(bytes).ok()
}

/// Compresses data. Reading the frame back gives the data.
pub fn compress(data: &[u8]) -> (res: Result<Vec<u8>>)
    ensures
        res matches Ok(frame) && lz4_decoded(frame@) == Some(data@),
{
    match lz4_encode(data) {
        Ok(frame) => Ok(frame),
        Err(e) => Err(CapsaError::from(e)),
    }
}

/// What bytes that are no UTF-8 are answered.
pub open spec fn is_invalid_text(e: CapsaError) -> bool {
    e matches CapsaError::Processing(ProcessingError::MissingData(s)) && s@
        == "document content is not valid UTF-8"@
}

/// The text that a decompressed document holds.
pub fn decoded_text(data: Vec<u8>) -> (res: Result<String>)
    ensures
        match res {
            Ok(s) => valid_utf8(data@) && s@ == decode_utf8(data@),
            Err(e) => !valid_utf8(data@) && is_invalid_text(e),
        },
{
    match utf8_text(data) {
        Some(s) => Ok(s),
        None => Err(
            CapsaError::Processing(
                ProcessingError::MissingData("document content is not valid UTF-8".to_owned()),
            ),
        ),
    }
}

/// The text that a stored document holds: it fails where the frame cannot be read, and where what
/// it holds is no UTF-8.
pub fn decompress_text(frame: &[u8]) -> (res: Result<String>)
    ensures
        match (lz4_decoded(frame@), res) {
            (Some(data), Ok(s)) => valid_utf8(data) && s@ == decode_utf8(data),
            (Some(data), Err(e)) => !valid_utf8(data) && is_invalid_text(e),
            (None, Ok(_)) => false,
            (None, Err(e)) => is_frame_error(frame@, e),
        },
{
    match lz4_decode(frame) {
        Ok(data) => decoded_text(data),
        Err(e) => Err(CapsaError::from(e)),
    }
}

/// Compressing a text and reading the frame back gives the text.
pub proof fn law_compressed_text_round_trip(text: Seq<char>, frame: Seq<u8>)
    requires
        lz4_decoded(frame) == Some(encode_utf8(text)),
    ensures
        valid_utf8(lz4_decoded(frame)->0),
        decode_utf8(lz4_decoded(frame)->0) == text,
{
    encode_utf8_valid_utf8(text);
    encode_utf8_decode_utf8(text);
}

/// A chunk of a document: its text, and where it begins and ends in the document.
pub type TextChunk = (String, usize, usize);

/// A chunk as a mathematical value.
pub type TextChunkView = (Seq<char>, u64, u64);

/// The chunk that a value stands for.
pub open spec fn text_chunk_view(c: TextChunk) -> TextChunkView {
    (c.0@, c.1 as u64, c.2 as u64)
}

/// The chunks that a list stands for.
pub open spec fn text_chunk_views(s: Seq<TextChunk>) -> Seq<TextChunkView> {
    s.map_values(|c: TextChunk| text_chunk_view(c))
}

/// A chunk as JSON gives it.
pub type WideChunk = (String, u64, u64);

/// The chunks that a list read from JSON stands for.
pub open spec fn wide_chunk_views(s: Seq<WideChunk>) -> Seq<TextChunkView> {
    s.map_values(|c: WideChunk| (c.0@, c.1, c.2))
}

/// The JSON text that `serde_json` writes for a list of chunks.
pub uninterp spec fn chunks_json(chunks: Seq<TextChunkView>) -> Seq<char>;

/// The list of chunks that `serde_json` reads from a JSON text: nothing where it refuses the text.
pub uninterp spec fn json_chunks(text: Seq<char>) -> Option<Seq<TextChunkView>>;

/// `serde_json::to_string` on a list of chunks, which holds neither maps nor anything that refuses
/// to be written. The claim is that this succeeds, that the text depends on the chunks alone, and
/// that `serde_json` reads the same chunks from it.
#[verifier::external_body]
fn write_chunks(chunks: &[TextChunk]) -> (res: core::result::Result<String, serde_json::Error>)
    ensures
        match res {
            Ok(text) => text@ == chunks_json(text_chunk_views(chunks@)) && json_chunks(text@)
                == Some(text_chunk_views(chunks@)),
            Err(_) => false,
        },
{
    serde_json::to_string(chunks)
}

/// `serde_json::from_str` for a list of chunks. The claim is that the outcome depends on the text
/// alone.
#[verifier::external_body]
fn read_chunks(text: &str) -> (res: core::result::Result<Vec<WideChunk>, serde_json::Error>)
    ensures
        match res {
            Ok(chunks) => json_chunks(text@) == Some(wide_chunk_views(chunks@)),
            Err(_) => json_chunks(text@) is None,
        },
{
    serde_json::from_str(text)
}

/// Whether `err` is an error with which `serde_json` refuses a text that is no list of chunks.
pub closed spec fn refuses_chunks(text: Seq<char>, err: serde_json::Error) -> bool {
    exists|s: &str|
        s@ == text && #[trigger] call_ensures(
            read_chunks,
            (s,),
            Err::<Vec<WideChunk>, serde_json::Error>(err),
        )
}

/// Whether an error reports that a text is no list of chunks, with what `serde_json` says of that
/// text.
pub open spec fn is_chunks_error(text: Seq<char>, e: CapsaError) -> bool {
    e matches CapsaError::Processing(ProcessingError::Json(err)) && refuses_chunks(text, err)
}

/// The JSON text of a list of chunks.
pub fn chunks_to_json(chunks: &[TextChunk]) -> (res: Result<String>)
    ensures
        res matches Ok(text) && text@ == chunks_json(text_chunk_views(chunks@)) && json_chunks(
            text@,
        ) == Some(text_chunk_views(chunks@)),
{
    match write_chunks(chunks) {
        Ok(text) => Ok(text),
        Err(e) => Err(CapsaError::from(e)),
    }
}

/// Whether every position of the chunks fits the machine's word.
pub open spec fn positions_fit(chunks: Seq<TextChunkView>) -> bool {
    forall|i: int|
        0 <= i < chunks.len() ==> (#[trigger] chunks[i]).1 <= usize::MAX && chunks[i].2
            <= usize::MAX
}

/// What positions that do not fit the machine's word are answered.
pub open spec fn is_position_too_large(e: CapsaError) -> bool {
    e matches CapsaError::Processing(ProcessingError::MissingData(s)) && s@
        == "chunk position too large"@
}

/// The chunks with positions of the machine's word, where they fit it.
pub fn narrow_chunks(chunks: Vec<WideChunk>) -> (res: Result<Vec<TextChunk>>)
    ensures
        match res {
            Ok(v) => positions_fit(wide_chunk_views(chunks@)) && text_chunk_views(v@)
                == wide_chunk_views(chunks@),
            Err(e) => !positions_fit(wide_chunk_views(chunks@)) && is_position_too_large(e),
        },
{
    let ghost views = wide_chunk_views(chunks@);
    let mut res: Vec<TextChunk> = Vec::new();
    let mut i: usize = 0;
    while i < chunks.len()
        invariant
            views == wide_chunk_views(chunks@),
            0 <= i <= chunks@.len(),
            text_chunk_views(res@) == views.take(i as int),
            forall|k: int|
                0 <= k < i ==> (#[trigger] views[k]).1 <= usize::MAX && views[k].2 <= usize::MAX,
        decreases chunks@.len() - i,
    {
        let start: u64 = chunks[i].1;
        let end: u64 = chunks[i].2;
        assert(views[i as int] == (chunks@[i as int].0@, start, end));
        if start > usize::MAX as u64 || end > usize::MAX as u64 {
            return Err(
                CapsaError::Processing(
                    ProcessingError::MissingData("chunk position too large".to_owned()),
                ),
            );
        }
        let ghost before = res@;
        res.push((chunks[i].0.clone(), start as usize, end as usize));
        proof {
            assert(text_chunk_views(res@) =~= text_chunk_views(before).push(views[i as int]));
            assert(views.take(i + 1) =~= views.take(i as int).push(views[i as int]));
        }
        i = i + 1;
    }
    assert(views.take(i as int) == views);
    Ok(res)
}

/// The chunks that a JSON text holds.
pub fn chunks_from_json(text: &str) -> (res: Result<Vec<TextChunk>>)
    ensures
        match (json_chunks(text@), res) {
            (Some(chunks), Ok(v)) => positions_fit(chunks) && text_chunk_views(v@) == chunks,
            (Some(chunks), Err(e)) => !positions_fit(chunks) && is_position_too_large(e),
            (None, Ok(_)) => false,
            (None, Err(e)) => is_chunks_error(text@, e),
        },
{
    match read_chunks(text) {
        Ok(chunks) => narrow_chunks(chunks),
        Err(e) => Err(CapsaError::from(e)),
    }
}

/// The positions of chunks that were written fit the machine's word, so reading them back
/// succeeds.
pub proof fn law_written_positions_fit(chunks: Seq<TextChunk>)
    ensures
        positions_fit(text_chunk_views(chunks)),
{
}

/// A text that was compressed is decompressed again.
pub proof fn law_text_comes_back(
    text: Seq<char>,
    data: &[u8],
    frame: Result<Vec<u8>>,
    bytes: &[u8],
    res: Result<String>,
)
    requires
        data@ == encode_utf8(text),
        call_ensures(compress, (data,), frame),
        call_ensures(decompress_text, (bytes,), res),
        frame matches Ok(f) ==> bytes@ == f@,
    ensures
        frame is Ok,
        res matches Ok(s) && s@ == text,
{
    law_compressed_text_round_trip(text, bytes@);
}

/// Chunks that were written as JSON are read again.
pub proof fn law_chunks_come_back(
    chunks: &[TextChunk],
    text: Result<String>,
    read: &str,
    res: Result<Vec<TextChunk>>,
)
    requires
        call_ensures(chunks_to_json, (chunks,), text),
        call_ensures(chunks_from_json, (read,), res),
        text matches Ok(s) ==> read@ == s@,
    ensures
        text is Ok,
        res matches Ok(v) && v@.len() == chunks@.len() && forall|i: int|
            0 <= i < v@.len() ==> text_chunk_view(#[trigger] v@[i]) == text_chunk_view(chunks@[i]),
{
    law_written_positions_fit(chunks@);
    if res is Ok {
        let v = res->Ok_0;
        assert(text_chunk_views(v@).len() == v@.len());
        assert forall|i: int| 0 <= i < v@.len() implies text_chunk_view(#[trigger] v@[i])
            == text_chunk_view(chunks@[i]) by {
            assert(text_chunk_views(v@)[i] == text_chunk_views(chunks@)[i]);
        }
    }
}

/// Bytes that are no text are refused, and so are chunks that lie beyond what can be addressed.
pub proof fn law_refused_content(
    data: Vec<u8>,
    chunks: Vec<WideChunk>,
    text: Result<String>,
    narrow: Result<Vec<TextChunk>>,
)
    requires
        call_ensures(decoded_text, (data,), text),
        call_ensures(narrow_chunks, (chunks,), narrow),
    ensures
        text is Ok <==> valid_utf8(data@),
        text matches Err(e) ==> (e matches CapsaError::Processing(ProcessingError::MissingData(s))
            && s@ == "document content is not valid UTF-8"@),
        narrow is Ok <==> positions_fit(wide_chunk_views(chunks@)),
        narrow matches Err(e) ==> (e matches CapsaError::Processing(
            ProcessingError::MissingData(s),
        ) && s@ == "chunk position too large"@),
{
}

/// A chunk whose positions cannot be addressed is refused, wherever it stands.
pub proof fn law_distant_chunk(chunks: Vec<WideChunk>, i: int, res: Result<Vec<TextChunk>>)
    requires
        call_ensures(narrow_chunks, (chunks,), res),
        0 <= i < chunks@.len(),
    ensures
        chunks@[i].1 > usize::MAX || chunks@[i].2 > usize::MAX ==> res is Err,
        res matches Ok(v) ==> v@.len() == chunks@.len() && v@[i].0@ == chunks@[i].0@ && v@[i].1
            == chunks@[i].1 && v@[i].2 == chunks@[i].2,
{
    let wide = wide_chunk_views(chunks@);
    assert(wide[i] == (chunks@[i].0@, chunks@[i].1, chunks@[i].2));
    if res is Ok {
        let v = res->Ok_0;
        assert(text_chunk_views(v@).len() == v@.len());
        assert(text_chunk_views(v@)[i] == text_chunk_view(v@[i]));
    }
}

} // verus!
