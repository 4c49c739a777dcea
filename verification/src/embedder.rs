//! Requests for embeddings: what is sent for queries and documents, and what is made of the
//! replies.

use vstd::prelude::*;
use crate::codec::TextChunk;
use crate::embeddings::EmbeddedChunk;
use crate::error::{collect_results, CapsaError, EmbeddingError, Result};
use crate::report::is_char_range;
use crate::text::{
    byte_len, byte_slice, is_boundary, is_byte_slice, law_part_of_text, lemma_slice_unique,
};

verus! {

/// A client of an embedding API: where it is, the key that it asks for and the model to use.
#[derive(Debug)]
pub struct EmbeddingClient {
    pub base_url: String,
    pub api_key: Option<String>,
    pub model: String,
}

impl EmbeddingClient {
    /// A client of the API at a URL.
    pub fn new(base_url: String, api_key: Option<String>, model: String) -> (res: Self)
        ensures
            res.base_url == base_url,
            res.api_key == api_key,
            res.model == model,
    {
        Self { base_url, api_key, model }
    }

    /// The embedding that a reply holds: the first of its data. A reply without data is an error.
    pub fn embed_raw<T>(&self, data: Vec<T>) -> (res: Result<T>)
        ensures
            match res {
                Ok(first) => data@.len() > 0 && first == data@[0],
                Err(e) => data@.len() == 0 && e == CapsaError::Embedding(
                    EmbeddingError::NoEmbeddingReturned,
                ),
            },
    {
        let mut data = data;
        if data.len() == 0 {
            Err(CapsaError::Embedding(EmbeddingError::NoEmbeddingReturned))
        } else {
            Ok(data.remove(0))
        }
    }
}

/// What is sent for a chunk of a document.
pub open spec fn document_input(chunk: Seq<char>) -> Seq<char> {
    "search_document: "@ + chunk
}

/// What is sent for a query.
pub open spec fn query_input(query: Seq<char>) -> Seq<char> {
    "search_query: "@ + query
}

/// Whether the bounds of the chunks of a text are positions of its characters.
pub open spec fn are_bounds(text: Seq<char>, bounds: Seq<(usize, usize)>) -> bool {
    forall|i: int|
        0 <= i < bounds.len() ==> is_char_range(
            text,
            (#[trigger] bounds[i]).0 as int,
            bounds[i].1 as int,
        )
}

/// Whether a chunk is what stands in the text between the bounds.
pub open spec fn is_chunk_at(chunk: TextChunk, text: Seq<char>, bounds: (usize, usize)) -> bool {
    &&& is_byte_slice(text, bounds.0 as int, bounds.1 as int, chunk.0@)
    &&& chunk.1 == bounds.0
    &&& chunk.2 == bounds.1
}

/// Whether a chunk is what is sent for the text between the bounds.
pub open spec fn is_input_at(chunk: TextChunk, text: Seq<char>, bounds: (usize, usize)) -> bool {
    &&& exists|part: Seq<char>|
        is_byte_slice(text, bounds.0 as int, bounds.1 as int, part) && chunk.0@
            == #[trigger] document_input(part)
    &&& chunk.1 == bounds.0
    &&& chunk.2 == bounds.1
}

/// How large the chunks of a text are, in tokens, and by how many they overlap.
#[derive(Debug, Clone, Copy, PartialEq, Eq, Structural)]
pub struct ChunkSizes {
    pub capacity: usize,
    pub overlap: usize,
}

/// How queries and documents are split. Where a splitter that keeps to the sizes puts the bounds
/// of the chunks is handed in.
#[derive(Debug)]
pub struct EmbeddingSplitter {
    pub query: ChunkSizes,
    pub document: ChunkSizes,
}

impl EmbeddingSplitter {
    /// The sizes of the chunks in a context of `n_ctx` tokens behind a prefix of `prefix_len`:
    /// what the prefix leaves, with an overlap of 5 %, rounded down.
    pub fn create_splitter(n_ctx: usize, prefix_len: usize) -> (res: ChunkSizes)
        requires
            prefix_len <= n_ctx,
        ensures
            res.capacity == n_ctx - prefix_len,
            res.overlap == res.capacity as int * 5 / 100,
            res.capacity > 0 ==> res.overlap < res.capacity,
    {
        let capacity: usize = n_ctx - prefix_len;
        ChunkSizes { capacity, overlap: capacity / 20 }
    }

    /// How many tokens are kept free in front of a query: as many as the prefix that is sent takes,
    /// and no fewer than "query_document: " takes.
    pub fn query_prefix_len(sent_len: usize, reserved_len: usize) -> (res: usize)
        ensures
            res == if sent_len < reserved_len {
                reserved_len
            } else {
                sent_len
            },
    {
        if sent_len < reserved_len {
            reserved_len
        } else {
            sent_len
        }
    }

    /// How queries and documents are split for a context of `n_ctx` tokens, given how many tokens
    /// the prefixes of both take.
    pub fn new(n_ctx: usize, query_prefix_len: usize, document_prefix_len: usize) -> (res: Self)
        requires
            query_prefix_len <= n_ctx,
            document_prefix_len <= n_ctx,
        ensures
            res.query.capacity == n_ctx - query_prefix_len,
            res.query.overlap == res.query.capacity as int * 5 / 100,
            res.document.capacity == n_ctx - document_prefix_len,
            res.document.overlap == res.document.capacity as int * 5 / 100,
    {
        EmbeddingSplitter {
            query: Self::create_splitter(n_ctx, query_prefix_len),
            document: Self::create_splitter(n_ctx, document_prefix_len),
        }
    }

    /// The part of a query that fits the context: its first chunk, or nothing.
    pub fn truncate_query(&self, text: &str, bounds: &Vec<(usize, usize)>) -> (res: String)
        requires
            are_bounds(text@, bounds@),
        ensures
            if bounds@.len() == 0 {
                res@ == Seq::<char>::empty()
            } else {
                is_byte_slice(text@, bounds@[0].0 as int, bounds@[0].1 as int, res@)
            },
    {
        if bounds.len() == 0 {
            String::new()
        } else {
            byte_slice(text, bounds[0].0, bounds[0].1)
        }
    }

    /// The chunks of a document.
    pub fn document_chunks(&self, text: &str, bounds: &Vec<(usize, usize)>) -> (res: Vec<String>)
        requires
            are_bounds(text@, bounds@),
        ensures
            res@.len() == bounds@.len(),
            forall|i: int|
                0 <= i < res@.len() ==> is_byte_slice(
                    text@,
                    bounds@[i].0 as int,
                    bounds@[i].1 as int,
                    (#[trigger] res@[i])@,
                ),
    {
        let n: usize = bounds.len();
        let mut chunks: Vec<String> = Vec::new();
        let mut i: usize = 0;
        while i < n
            invariant
                n == bounds@.len(),
                are_bounds(text@, bounds@),
                i <= n,
                chunks@.len() == i,
                forall|k: int|
                    0 <= k < i ==> is_byte_slice(
                        text@,
                        bounds@[k].0 as int,
                        bounds@[k].1 as int,
                        (#[trigger] chunks@[k])@,
                    ),
            decreases n - i,
        {
            chunks.push(byte_slice(text, bounds[i].0, bounds[i].1));
            i = i + 1;
        }
        chunks
    }

    /// The chunks of a document, with the positions of their bytes.
    pub fn document_chunks_with_offsets(&self, text: &str, bounds: &Vec<(usize, usize)>) -> (res:
        Vec<TextChunk>)
        requires
            are_bounds(text@, bounds@),
        ensures
            res@.len() == bounds@.len(),
            forall|i: int|
                0 <= i < res@.len() ==> is_chunk_at(#[trigger] res@[i], text@, bounds@[i]),
    {
        let n: usize = bounds.len();
        let mut chunks: Vec<TextChunk> = Vec::new();
        let mut i: usize = 0;
        while i < n
            invariant
                n == bounds@.len(),
                are_bounds(text@, bounds@),
                i <= n,
                chunks@.len() == i,
                forall|k: int|
                    0 <= k < i ==> is_chunk_at(#[trigger] chunks@[k], text@, bounds@[k]),
            decreases n - i,
        {
            let start: usize = bounds[i].0;
            let end: usize = bounds[i].1;
            chunks.push((byte_slice(text, start, end), start, end));
            i = i + 1;
        }
        chunks
    }
}

/// What is sent to an embedding API for documents and queries.
#[derive(Debug)]
pub struct Embedder {
    pub client: EmbeddingClient,
    pub splitter: EmbeddingSplitter,
}

impl Embedder {
    /// An embedder for an API, with texts split as the splitter says.
    pub fn new(
        base_url: String,
        model: String,
        api_key: Option<String>,
        splitter: EmbeddingSplitter,
    ) -> (res: Self)
        ensures
            res.client.base_url == base_url,
            res.client.model == model,
            res.client.api_key == api_key,
            res.splitter == splitter,
    {
        Embedder { client: EmbeddingClient::new(base_url, api_key, model), splitter }
    }

    /// What is sent for a query: the part of it that fits the context, behind the prefix for
    /// queries.
    pub fn embed_query(&self, query: &str, bounds: &Vec<(usize, usize)>) -> (res: String)
        requires
            are_bounds(query@, bounds@),
        ensures
            if bounds@.len() == 0 {
                res@ == query_input(Seq::empty())
            } else {
                exists|part: Seq<char>|
                    is_byte_slice(query@, bounds@[0].0 as int, bounds@[0].1 as int, part) && res@
                        == #[trigger] query_input(part)
            },
    {
        let part = self.splitter.truncate_query(query, bounds);
        let res = Self::query_text(part.as_str());
        assert(res@ == query_input(part@));
        res
    }

    /// What is sent for a chunk of a document.
    pub fn document_text(chunk: &str) -> (res: String)
        ensures
            res@ == document_input(chunk@),
    {
        let mut res = "search_document: ".to_owned();
        res.append(chunk);
        res
    }

    /// What is sent for a query.
    pub fn query_text(query: &str) -> (res: String)
        ensures
            res@ == query_input(query@),
    {
        let mut res = "search_query: ".to_owned();
        res.append(query);
        res
    }

    /// The prefix for which room is kept in front of a query at the least.
    pub fn reserved_query_prefix() -> (res: String)
        ensures
            res@ == "query_document: "@,
    {
        "query_document: ".to_owned()
    }

    /// What is sent for the chunks of a document, with their positions.
    pub fn chunk_document(text: &str, bounds: &Vec<(usize, usize)>) -> (res: Vec<TextChunk>)
        requires
            are_bounds(text@, bounds@),
        ensures
            res@.len() == bounds@.len(),
            forall|i: int|
                0 <= i < res@.len() ==> is_input_at(#[trigger] res@[i], text@, bounds@[i]),
    {
        let n: usize = bounds.len();
        let mut chunks: Vec<TextChunk> = Vec::new();
        let mut i: usize = 0;
        while i < n
            invariant
                n == bounds@.len(),
                are_bounds(text@, bounds@),
                i <= n,
                chunks@.len() == i,
                forall|k: int|
                    0 <= k < i ==> is_input_at(#[trigger] chunks@[k], text@, bounds@[k]),
            decreases n - i,
        {
            let start: usize = bounds[i].0;
            let end: usize = bounds[i].1;
            let part = byte_slice(text, start, end);
            let input = Self::document_text(part.as_str());
            proof {
                assert(input@ == document_input(part@));
            }
            chunks.push((input, start, end));
            assert(is_input_at(chunks@[i as int], text@, bounds@[i as int]));
            i = i + 1;
        }
        chunks
    }

    /// The embedded chunks of a document, given the replies for its chunks in their order. The
    /// first reply that is an error is the error of the whole.
    pub fn embed_document(chunks: &Vec<TextChunk>, replies: Vec<Result<Vec<u32>>>) -> (res: Result<
        Vec<EmbeddedChunk>,
    >)
        requires
            chunks@.len() == replies@.len(),
        ensures
            match res {
                Ok(embedded) => embedded@.len() == chunks@.len() && forall|i: int|
                    0 <= i < chunks@.len() ==> {
                        &&& (#[trigger] replies@[i]) matches Ok(words)
                        &&& embedded@[i].0@ == words@
                        &&& embedded@[i].1 == chunks@[i].1
                        &&& embedded@[i].2 == chunks@[i].2
                    },
                Err(e) => exists|i: int|
                    0 <= i < replies@.len() && (#[trigger] replies@[i]) == Err::<
                        Vec<u32>,
                        CapsaError,
                    >(e) && forall|k: int| 0 <= k < i ==> (#[trigger] replies@[k]) is Ok,
            },
    {
        let ghost all = replies@;
        match collect_results(replies) {
            Err(e) => Err(e),
            Ok(vectors) => {
                let ghost values = vectors@;
                let mut embedded: Vec<EmbeddedChunk> = Vec::new();
                let n: usize = chunks.len();
                let mut i: usize = 0;
                for vector in it: vectors
                    invariant
                        it.seq() == values,
                        n == chunks@.len(),
                        values.len() == n,
                        i == it.index(),
                        embedded@.len() == i,
                        forall|k: int|
                            0 <= k < i ==> {
                                &&& (#[trigger] embedded@[k]).0@ == values[k]@
                                &&& embedded@[k].1 == chunks@[k].1
                                &&& embedded@[k].2 == chunks@[k].2
                            },
                {
                    embedded.push((vector, chunks[i].1, chunks[i].2));
                    i = i + 1;
                }
                proof {
                    assert forall|k: int| 0 <= k < chunks@.len() implies {
                        &&& (#[trigger] all[k]) matches Ok(words)
                        &&& embedded@[k].0@ == words@
                        &&& embedded@[k].1 == chunks@[k].1
                        &&& embedded@[k].2 == chunks@[k].2
                    } by {
                        assert(all[k] == Ok::<Vec<u32>, CapsaError>(values[k]));
                        assert(embedded@[k].0@ == values[k]@);
                    }
                }
                Ok(embedded)
            },
        }
    }

    /// The dimension of the embeddings, given how many components the reply to a probe has. An
    /// empty reply is an error.
    pub fn probed_dimension(components: usize) -> (res: Result<usize>)
        ensures
            match res {
                Ok(dim) => components > 0 && dim == components,
                Err(e) => components == 0 && e == CapsaError::Embedding(
                    EmbeddingError::NoEmbeddingReturned,
                ),
            },
    {
        if components == 0 {
            Err(CapsaError::Embedding(EmbeddingError::NoEmbeddingReturned))
        } else {
            Ok(components)
        }
    }
}

/// Every chunk of a document lies in it: it begins before it ends and ends within the text, both at
/// positions of characters, and it is what stands in the text between them. A text without
/// characters has no chunks. This is so wherever the splitter puts the bounds, as long as it marks
/// no empty chunk.
pub proof fn law_chunks_lie_in_text(
    text: Seq<char>,
    bounds: Seq<(usize, usize)>,
    chunks: Seq<TextChunk>,
)
    requires
        are_bounds(text, bounds),
        forall|i: int| 0 <= i < bounds.len() ==> (#[trigger] bounds[i]).0 < bounds[i].1,
        chunks.len() == bounds.len(),
        forall|i: int|
            0 <= i < chunks.len() ==> is_chunk_at(#[trigger] chunks[i], text, bounds[i]),
    ensures
        forall|i: int|
            0 <= i < chunks.len() ==> {
                &&& (#[trigger] chunks[i]).1 < chunks[i].2
                &&& chunks[i].2 <= byte_len(text)
                &&& is_boundary(text, chunks[i].1 as int)
                &&& is_boundary(text, chunks[i].2 as int)
                &&& is_byte_slice(text, chunks[i].1 as int, chunks[i].2 as int, chunks[i].0@)
            },
        text.len() == 0 ==> chunks.len() == 0,
{
    assert forall|i: int| 0 <= i < chunks.len() implies {
        &&& (#[trigger] chunks[i]).1 < chunks[i].2
        &&& chunks[i].2 <= byte_len(text)
        &&& is_boundary(text, chunks[i].1 as int)
        &&& is_boundary(text, chunks[i].2 as int)
        &&& is_byte_slice(text, chunks[i].1 as int, chunks[i].2 as int, chunks[i].0@)
    } by {
        assert(is_chunk_at(chunks[i], text, bounds[i]));
        assert(is_char_range(text, bounds[i].0 as int, bounds[i].1 as int));
    }
    if text.len() == 0 && chunks.len() > 0 {
        assert(chunks[0].2 <= byte_len(text));
    }
}

/// The chunks of a document are the same with and without their positions, in the same order, and
/// each stands in the text between its positions, which are positions of characters.
pub proof fn law_same_chunks(
    text: Seq<char>,
    bounds: Seq<(usize, usize)>,
    chunks: Seq<String>,
    with_offsets: Seq<TextChunk>,
)
    requires
        are_bounds(text, bounds),
        chunks.len() == bounds.len(),
        forall|i: int|
            0 <= i < chunks.len() ==> is_byte_slice(
                text,
                bounds[i].0 as int,
                bounds[i].1 as int,
                (#[trigger] chunks[i])@,
            ),
        with_offsets.len() == bounds.len(),
        forall|i: int|
            0 <= i < with_offsets.len() ==> is_chunk_at(
                #[trigger] with_offsets[i],
                text,
                bounds[i],
            ),
    ensures
        with_offsets.len() == chunks.len(),
        forall|i: int|
            0 <= i < chunks.len() ==> {
                &&& (#[trigger] with_offsets[i]).0@ == chunks[i]@
                &&& is_char_range(text, with_offsets[i].1 as int, with_offsets[i].2 as int)
                &&& is_byte_slice(
                    text,
                    with_offsets[i].1 as int,
                    with_offsets[i].2 as int,
                    with_offsets[i].0@,
                )
            },
{
    assert forall|i: int| 0 <= i < chunks.len() implies {
        &&& (#[trigger] with_offsets[i]).0@ == chunks[i]@
        &&& is_char_range(text, with_offsets[i].1 as int, with_offsets[i].2 as int)
        &&& is_byte_slice(
            text,
            with_offsets[i].1 as int,
            with_offsets[i].2 as int,
            with_offsets[i].0@,
        )
    } by {
        assert(is_chunk_at(with_offsets[i], text, bounds[i]));
        assert(is_char_range(text, bounds[i].0 as int, bounds[i].1 as int));
        assert(is_byte_slice(text, bounds[i].0 as int, bounds[i].1 as int, chunks[i]@));
        lemma_slice_unique(
            text,
            bounds[i].0 as int,
            bounds[i].1 as int,
            chunks[i]@,
            with_offsets[i].0@,
        );
    }
}

/// The chunks of a text and the prefix in front of them fill the context, and overlap by a twentieth
/// of what the prefix leaves, rounded down.
pub proof fn law_chunks_fill_the_context(
    n_ctx: usize,
    query_len: usize,
    document_len: usize,
    res: EmbeddingSplitter,
)
    requires
        query_len <= n_ctx,
        document_len <= n_ctx,
        call_ensures(EmbeddingSplitter::new, (n_ctx, query_len, document_len), res),
    ensures
        query_len + res.query.capacity == n_ctx,
        document_len + res.document.capacity == n_ctx,
        20 * res.query.overlap <= res.query.capacity < 20 * (res.query.overlap + 1),
        20 * res.document.overlap <= res.document.capacity < 20 * (res.document.overlap + 1),
{
}

/// What is sent for a chunk or a query is that text behind the prefix for it, and nothing else.
pub proof fn law_inputs(text: Seq<char>)
    ensures
        document_input(text).len() == 17 + text.len(),
        document_input(text).take(17) == "search_document: "@,
        document_input(text).skip(17) == text,
        query_input(text).len() == 14 + text.len(),
        query_input(text).take(14) == "search_query: "@,
        query_input(text).skip(14) == text,
{
    reveal_strlit("search_document: ");
    reveal_strlit("search_query: ");
    assert(document_input(text).take(17) =~= "search_document: "@);
    assert(document_input(text).skip(17) =~= text);
    assert(query_input(text).take(14) =~= "search_query: "@);
    assert(query_input(text).skip(14) =~= text);
}

/// A query is sent as the beginning of it that the splitter marks, behind the prefix for queries.
pub proof fn law_query_is_sent(
    embedder: &Embedder,
    query: &str,
    bounds: &Vec<(usize, usize)>,
    part: Seq<char>,
    res: String,
)
    requires
        are_bounds(query@, bounds@),
        bounds@.len() > 0,
        is_byte_slice(query@, bounds@[0].0 as int, bounds@[0].1 as int, part),
        call_ensures(Embedder::embed_query, (embedder, query, bounds), res),
    ensures
        res@ == "search_query: "@ + part,
{
    let p = choose|p: Seq<char>|
        is_byte_slice(query@, bounds@[0].0 as int, bounds@[0].1 as int, p) && res@
            == #[trigger] query_input(p);
    lemma_slice_unique(query@, bounds@[0].0 as int, bounds@[0].1 as int, p, part);
}

/// A chunk of a document is sent as what stands between its bounds, behind the prefix for documents,
/// and keeps its bounds.
pub proof fn law_chunk_is_sent(
    text: &str,
    bounds: &Vec<(usize, usize)>,
    i: int,
    part: Seq<char>,
    res: Vec<TextChunk>,
)
    requires
        are_bounds(text@, bounds@),
        0 <= i < bounds@.len(),
        is_byte_slice(text@, bounds@[i].0 as int, bounds@[i].1 as int, part),
        call_ensures(Embedder::chunk_document, (text, bounds), res),
    ensures
        res@.len() == bounds@.len(),
        res@[i].0@ == "search_document: "@ + part,
        res@[i].1 == bounds@[i].0,
        res@[i].2 == bounds@[i].1,
{
    assert(is_input_at(res@[i], text@, bounds@[i]));
    let p = choose|p: Seq<char>|
        is_byte_slice(text@, bounds@[i].0 as int, bounds@[i].1 as int, p) && res@[i].0@
            == #[trigger] document_input(p);
    lemma_slice_unique(text@, bounds@[i].0 as int, bounds@[i].1 as int, p, part);
}

/// The embedded chunks of a document have the vectors that the replies hold, in the order of the
/// chunks, and the bounds of the chunks.
pub proof fn law_vectors_go_with_their_chunks(
    chunks: &Vec<TextChunk>,
    replies: Vec<Result<Vec<u32>>>,
    embedded: Vec<EmbeddedChunk>,
    i: int,
)
    requires
        chunks@.len() == replies@.len(),
        0 <= i < chunks@.len(),
        call_ensures(Embedder::embed_document, (chunks, replies), Ok(embedded)),
    ensures
        embedded@.len() == chunks@.len(),
        replies@[i] matches Ok(words) && embedded@[i].0@ == words@,
        embedded@[i].1 == chunks@[i].1,
        embedded@[i].2 == chunks@[i].2,
{
}

/// The reply to a request is its first embedding, and the dimension is the number of components of
/// the reply to a probe; where there is nothing, both are errors.
pub proof fn law_replies<T>(
    client: &EmbeddingClient,
    data: Vec<T>,
    first: Result<T>,
    components: usize,
    dim: Result<usize>,
)
    requires
        call_ensures(EmbeddingClient::embed_raw::<T>, (client, data), first),
        call_ensures(Embedder::probed_dimension, (components,), dim),
    ensures
        first is Ok <==> data@.len() > 0,
        first matches Ok(x) ==> x == data@[0],
        dim is Ok <==> components > 0,
        dim matches Ok(n) ==> n == components,
{
}

/// A part of a document is sent as a document, and a part of a query as a query.
pub proof fn law_prefixes(
    chunk: &str,
    query: &str,
    document: String,
    asked: String,
    reserved: String,
)
    requires
        call_ensures(Embedder::document_text, (chunk,), document),
        call_ensures(Embedder::query_text, (query,), asked),
        call_ensures(Embedder::reserved_query_prefix, (), reserved),
    ensures
        document@.take(17) == "search_document: "@,
        document@.skip(17) == chunk@,
        asked@.take(14) == "search_query: "@,
        asked@.skip(14) == query@,
        reserved@ == "query_document: "@,
{
    law_inputs(chunk@);
    law_inputs(query@);
}

/// The longer of two prefixes is left room for.
pub proof fn law_room_for_prefix(sent: usize, reserved: usize, res: usize)
    requires
        call_ensures(EmbeddingSplitter::query_prefix_len, (sent, reserved), res),
    ensures
        res >= sent,
        res >= reserved,
        res == sent || res == reserved,
{
}

/// What the splitter is asked for leaves room for the prefix, and lets chunks overlap by a twentieth.
pub proof fn law_splitter(n_ctx: usize, prefix_len: usize, res: ChunkSizes)
    requires
        prefix_len <= n_ctx,
        call_ensures(EmbeddingSplitter::create_splitter, (n_ctx, prefix_len), res),
    ensures
        res.capacity + prefix_len == n_ctx,
        20 * res.overlap <= res.capacity < 20 * (res.overlap + 1),
{
}

/// The chunks of a document are the parts of its text between the bounds, in their order, and of a
/// query the first is taken.
pub proof fn law_parts_of_text(
    splitter: &EmbeddingSplitter,
    text: &str,
    bounds: &Vec<(usize, usize)>,
    i: int,
    a: Seq<char>,
    part: Seq<char>,
    b: Seq<char>,
    query: String,
    chunks: Vec<String>,
    with_offsets: Vec<TextChunk>,
)
    requires
        are_bounds(text@, bounds@),
        0 <= i < bounds@.len(),
        text@ == a + part + b,
        bounds@[i].0 == byte_len(a),
        bounds@[i].1 == byte_len(a) + byte_len(part),
        call_ensures(EmbeddingSplitter::truncate_query, (splitter, text, bounds), query),
        call_ensures(EmbeddingSplitter::document_chunks, (splitter, text, bounds), chunks),
        call_ensures(
            EmbeddingSplitter::document_chunks_with_offsets,
            (splitter, text, bounds),
            with_offsets,
        ),
    ensures
        i == 0 ==> query@ == part,
        chunks@.len() == bounds@.len(),
        chunks@[i]@ == part,
        with_offsets@.len() == bounds@.len(),
        with_offsets@[i].0@ == part,
        with_offsets@[i].1 == bounds@[i].0,
        with_offsets@[i].2 == bounds@[i].1,
{
    if i == 0 {
        law_part_of_text(a, part, b, query@);
    }
    law_part_of_text(a, part, b, chunks@[i]@);
    assert(is_chunk_at(with_offsets@[i], text@, bounds@[i]));
    law_part_of_text(a, part, b, with_offsets@[i].0@);
}

} // verus!
