//! The binary form in which the embeddings of a document wait to be written.
//!
//! The form begins with the number of chunks (four bytes). Each chunk follows with the position
//! of its first byte in the document (eight bytes), the position behind its last byte (eight
//! bytes), the number of components (four bytes) and the components (four bytes each). Every
//! number is little-endian. A component is held by the bit pattern of its floating-point value.

use vstd::prelude::*;
use crate::error::{CapsaError, ProcessingError, Result};

verus! {

/// An embedded chunk: the bit patterns of its vector, and where the chunk begins and ends in the
/// document.
pub type EmbeddedChunk = (Vec<u32>, usize, usize);

/// An embedded chunk as a mathematical value.
pub type ChunkView = (Seq<u32>, usize, usize);

/// The chunk that a value stands for.
pub open spec fn chunk_view(c: EmbeddedChunk) -> ChunkView {
    (c.0@, c.1, c.2)
}

/// The chunks that a list stands for.
pub open spec fn chunk_views(s: Seq<EmbeddedChunk>) -> Seq<ChunkView> {
    s.map_values(|c: EmbeddedChunk| chunk_view(c))
}

/// The lowest `width` bytes of `n`, the lowest first.
pub open spec fn le_bytes(n: nat, width: nat) -> Seq<u8>
    decreases width,
{
    if width == 0 {
        Seq::empty()
    } else {
        seq![(n % 256) as u8] + le_bytes(n / 256, (width - 1) as nat)
    }
}

/// The number that bytes denote, the lowest byte first.
pub open spec fn le_value(s: Seq<u8>) -> nat
    decreases s.len(),
{
    if s.len() == 0 {
        0
    } else {
        s[0] as nat + 256 * le_value(s.drop_first())
    }
}

/// The number of values that `width` bytes can take.
pub open spec fn byte_range(width: nat) -> nat
    decreases width,
{
    if width == 0 {
        1
    } else {
        256 * byte_range((width - 1) as nat)
    }
}

/// The components of a vector, four bytes each.
pub open spec fn packed_words(words: Seq<u32>) -> Seq<u8>
    decreases words.len(),
{
    if words.len() == 0 {
        Seq::empty()
    } else {
        packed_words(words.drop_last()) + le_bytes(words.last() as nat, 4)
    }
}

/// One chunk in binary form.
pub open spec fn packed_chunk(c: ChunkView) -> Seq<u8> {
    le_bytes(c.1 as nat, 8) + le_bytes(c.2 as nat, 8) + le_bytes(c.0.len() as u32 as nat, 4)
        + packed_words(c.0)
}

/// Chunks in binary form, one after the other.
pub open spec fn packed_chunks(cs: Seq<ChunkView>) -> Seq<u8>
    decreases cs.len(),
{
    if cs.len() == 0 {
        Seq::empty()
    } else {
        packed_chunks(cs.drop_last()) + packed_chunk(cs.last())
    }
}

/// The binary form of a list of embedded chunks.
pub open spec fn packed(cs: Seq<ChunkView>) -> Seq<u8> {
    le_bytes(cs.len() as u32 as nat, 4) + packed_chunks(cs)
}

/// The number in the `width` bytes of `data` from `at` on.
pub open spec fn number_at(data: Seq<u8>, at: int, width: int) -> nat {
    le_value(data.subrange(at, at + width))
}

/// The `n` components from `at` on.
pub open spec fn words_at(data: Seq<u8>, at: int, n: nat) -> Seq<u32> {
    Seq::new(n, |i: int| number_at(data, at + 4 * i, 4) as u32)
}

/// The `n` chunks from `at` on, where the data holds as many.
pub open spec fn chunks_at(data: Seq<u8>, at: int, n: nat) -> Option<Seq<ChunkView>>
    decreases n,
{
    if n == 0 {
        Some(Seq::empty())
    } else if at + 20 > data.len() {
        None
    } else {
        let count = number_at(data, at + 16, 4);
        let next = at + 20 + 4 * count;
        if next > data.len() {
            None
        } else {
            let chunk = (
                words_at(data, at + 20, count),
                number_at(data, at, 8) as usize,
                number_at(data, at + 8, 8) as usize,
            );
            match chunks_at(data, next, (n - 1) as nat) {
                None => None,
                Some(rest) => Some(seq![chunk] + rest),
            }
        }
    }
}

/// The chunks that data in binary form holds: nothing where it ends too early.
pub open spec fn unpacked(data: Seq<u8>) -> Option<Seq<ChunkView>> {
    if data.len() < 4 {
        None
    } else {
        chunks_at(data, 4, number_at(data, 0, 4))
    }
}

/// Writes the lowest `width` bytes of `n`.
fn push_number(out: &mut Vec<u8>, n: u64, width: usize)
    ensures
        final(out)@ == old(out)@ + le_bytes(n as nat, width as nat),
{
    let mut rest: u64 = n;
    let mut left: usize = width;
    proof {
        assert(out@ + le_bytes(rest as nat, left as nat) == old(out)@ + le_bytes(
            n as nat,
            width as nat,
        ));
    }
    while left > 0
        invariant
            out@ + le_bytes(rest as nat, left as nat) == old(out)@ + le_bytes(
                n as nat,
                width as nat,
            ),
        decreases left,
    {
        let ghost before = out@;
        let ghost tail = le_bytes((rest / 256) as nat, (left - 1) as nat);
        out.push((rest % 256) as u8);
        proof {
            assert(le_bytes(rest as nat, left as nat) == seq![(rest % 256) as u8] + tail);
            assert(out@ + tail == before + (seq![(rest % 256) as u8] + tail));
        }
        rest = rest / 256;
        left = left - 1;
    }
    assert(out@ + le_bytes(rest as nat, 0) == out@);
}

/// The binary form of a list of embedded chunks.
pub fn pack_embeddings(embeddings: &[EmbeddedChunk]) -> (res: Vec<u8>)
    ensures
        res@ == packed(chunk_views(embeddings@)),
{
    let ghost views = chunk_views(embeddings@);
    let n: usize = embeddings.len();
    let mut buf: Vec<u8> = Vec::new();
    push_number(&mut buf, n as u32 as u64, 4);
    let ghost head = le_bytes(views.len() as u32 as nat, 4);
    let mut i: usize = 0;
    assert(buf@ == head + packed_chunks(views.take(0)));
    while i < n
        invariant
            n == embeddings@.len(),
            views == chunk_views(embeddings@),
            0 <= i <= n,
            buf@ == head + packed_chunks(views.take(i as int)),
        decreases n - i,
    {
        let words: &Vec<u32> = &embeddings[i].0;
        let count: usize = words.len();
        let ghost before = buf@;
        let ghost c = views[i as int];
        push_number(&mut buf, embeddings[i].1 as u64, 8);
        push_number(&mut buf, embeddings[i].2 as u64, 8);
        push_number(&mut buf, count as u32 as u64, 4);
        let ghost fields = le_bytes(c.1 as nat, 8) + le_bytes(c.2 as nat, 8) + le_bytes(
            c.0.len() as u32 as nat,
            4,
        );
        let mut k: usize = 0;
        assert(buf@ == before + (fields + packed_words(words@.take(0))));
        while k < count
            invariant
                count == words@.len(),
                0 <= k <= count,
                buf@ == before + (fields + packed_words(words@.take(k as int))),
            decreases count - k,
        {
            push_number(&mut buf, words[k] as u64, 4);
            proof {
                let seen = words@.take(k + 1);
                assert(seen.drop_last() == words@.take(k as int));
                assert(packed_words(seen) == packed_words(words@.take(k as int)) + le_bytes(
                    words@[k as int] as nat,
                    4,
                ));
            }
            k = k + 1;
        }
        proof {
            assert(words@.take(count as int) == words@);
            assert(packed_chunk(c) == fields + packed_words(words@));
            let seen = views.take(i + 1);
            assert(seen.drop_last() == views.take(i as int));
            assert(packed_chunks(seen) == packed_chunks(views.take(i as int)) + packed_chunk(c));
        }
        i = i + 1;
    }
    assert(views.take(n as int) == views);
    buf
}

proof fn lemma_le_value_bound(s: Seq<u8>)
    ensures
        le_value(s) < byte_range(s.len()),
    decreases s.len(),
{
    if s.len() > 0 {
        lemma_le_value_bound(s.drop_first());
    }
}

proof fn lemma_byte_ranges()
    ensures
        byte_range(4) == 0x1_0000_0000,
        byte_range(8) == 0x1_0000_0000_0000_0000,
{
    reveal_with_fuel(byte_range, 9);
}

/// The number in the `width` bytes of `data` from `at` on.
pub fn read_number(data: &[u8], at: usize, width: usize) -> (res: u64)
    requires
        width <= 8,
        at + width <= data@.len(),
    ensures
        res as nat == number_at(data@, at as int, width as int),
        res < byte_range(width as nat),
{
    let len: usize = data.len();
    let end: usize = at + width;
    let mut value: u64 = 0;
    let mut i: usize = end;
    proof {
        assert(data@.subrange(end as int, end as int) == Seq::<u8>::empty());
        lemma_byte_ranges();
    }
    while i > at
        invariant
            len == data@.len(),
            end == at + width,
            width <= 8,
            at <= i <= end <= len,
            value as nat == le_value(data@.subrange(i as int, end as int)),
            byte_range(8) == 0x1_0000_0000_0000_0000,
        decreases i,
    {
        let b: u8 = data[i - 1];
        proof {
            let rest = data@.subrange(i as int, end as int);
            let more = data@.subrange(i - 1, end as int);
            assert(more.drop_first() == rest);
            assert(more[0] == b);
            lemma_le_value_bound(more);
            lemma_byte_range_monotonic(more.len(), 8);
            assert(le_value(more) == b as nat + 256 * le_value(rest));
        }
        value = b as u64 + 256 * value;
        i = i - 1;
    }
    proof {
        lemma_le_value_bound(data@.subrange(at as int, end as int));
    }
    value
}

proof fn lemma_byte_range_monotonic(a: nat, b: nat)
    requires
        a <= b,
    ensures
        0 < byte_range(a) <= byte_range(b),
    decreases b,
{
    if a < b {
        lemma_byte_range_monotonic(a, (b - 1) as nat);
    } else if a > 0 {
        lemma_byte_range_monotonic((a - 1) as nat, (b - 1) as nat);
    }
}

/// What a blob that ends too early is answered.
pub open spec fn is_malformed_blob(e: CapsaError) -> bool {
    e matches CapsaError::Processing(ProcessingError::MissingData(s)) && s@
        == "malformed embeddings blob"@
}

fn malformed_blob() -> (res: CapsaError)
    ensures
        is_malformed_blob(res),
{
    CapsaError::Processing(ProcessingError::MissingData("malformed embeddings blob".to_owned()))
}

/// `seen` chunks were read and the remaining `left` start at `at`.
spec fn reading(data: Seq<u8>, seen: Seq<ChunkView>, at: int, left: nat) -> Option<Seq<ChunkView>> {
    match chunks_at(data, at, left) {
        None => None,
        Some(rest) => Some(seen + rest),
    }
}

/// Reads the chunks back from their binary form.
pub fn unpack_embeddings(data: &[u8]) -> (res: Result<Vec<EmbeddedChunk>>)
    ensures
        match res {
            Ok(v) => unpacked(data@) == Some(chunk_views(v@)),
            Err(e) => unpacked(data@) is None && is_malformed_blob(e),
        },
{
    let len: usize = data.len();
    if len < 4 {
        return Err(malformed_blob());
    }
    proof {
        lemma_byte_ranges();
    }
    let n_chunks: u32 = read_number(data, 0, 4) as u32;
    let mut cursor: usize = 4;
    let mut result: Vec<EmbeddedChunk> = Vec::new();
    let mut left: u32 = n_chunks;
    proof {
        assert(chunk_views(result@) == Seq::<ChunkView>::empty());
        if let Some(rest) = chunks_at(data@, 4, left as nat) {
            assert(chunk_views(result@) + rest == rest);
        }
    }
    while left > 0
        invariant
            len == data@.len(),
            4 <= cursor <= len,
            byte_range(4) == 0x1_0000_0000,
            byte_range(8) == 0x1_0000_0000_0000_0000,
            unpacked(data@) == reading(data@, chunk_views(result@), cursor as int, left as nat),
        decreases left,
    {
        if len - cursor < 20 {
            return Err(malformed_blob());
        }
        let ghost at = cursor as int;
        let start: usize = read_number(data, cursor, 8) as usize;
        let end: usize = read_number(data, cursor + 8, 8) as usize;
        let count: usize = read_number(data, cursor + 16, 4) as usize;
        cursor = cursor + 20;
        if count > (len - cursor) / 4 {
            return Err(malformed_blob());
        }
        let mut words: Vec<u32> = Vec::new();
        let mut k: usize = 0;
        while k < count
            invariant
                len == data@.len(),
                0 <= k <= count,
                at + 20 + 4 * count <= len,
                cursor == at + 20 + 4 * k,
                byte_range(4) == 0x1_0000_0000,
                words@.len() == k,
                forall|j: int|
                    0 <= j < k ==> #[trigger] words@[j] == number_at(
                        data@,
                        at + 20 + 4 * j,
                        4,
                    ) as u32,
            decreases count - k,
        {
            words.push(read_number(data, cursor, 4) as u32);
            cursor = cursor + 4;
            k = k + 1;
        }
        let ghost before = chunk_views(result@);
        let ghost chunk = (words@, start, end);
        proof {
            assert(words@ =~= words_at(data@, at + 20, count as nat));
            let rest = chunks_at(data@, cursor as int, (left - 1) as nat);
            if let Some(tail) = rest {
                assert(before + (seq![chunk] + tail) == before.push(chunk) + tail);
            }
        }
        result.push((words, start, end));
        proof {
            assert(chunk_views(result@) =~= before.push(chunk));
        }
        left = left - 1;
    }
    proof {
        assert(chunk_views(result@) + Seq::<ChunkView>::empty() == chunk_views(result@));
    }
    Ok(result)
}

proof fn lemma_le_bytes_len(n: nat, width: nat)
    ensures
        le_bytes(n, width).len() == width,
    decreases width,
{
    if width > 0 {
        lemma_le_bytes_len(n / 256, (width - 1) as nat);
    }
}

/// Reading bytes back gives the number, where it fits them.
pub proof fn law_number_round_trip(n: nat, width: nat)
    requires
        n < byte_range(width),
    ensures
        le_bytes(n, width).len() == width,
        le_value(le_bytes(n, width)) == n,
    decreases width,
{
    lemma_le_bytes_len(n, width);
    if width > 0 {
        let rest = le_bytes(n / 256, (width - 1) as nat);
        law_number_round_trip(n / 256, (width - 1) as nat);
        assert(le_bytes(n, width).drop_first() == rest);
    }
}

proof fn lemma_packed_words(words: Seq<u32>)
    ensures
        packed_words(words).len() == 4 * words.len(),
        forall|i: int|
            0 <= i < words.len() ==> packed_words(words).subrange(4 * i, 4 * i + 4) == le_bytes(
                #[trigger] words[i] as nat,
                4,
            ),
    decreases words.len(),
{
    if words.len() > 0 {
        let front = words.drop_last();
        lemma_packed_words(front);
        lemma_le_bytes_len(words.last() as nat, 4);
        let n = words.len() as int;
        assert forall|i: int| 0 <= i < words.len() implies packed_words(words).subrange(
            4 * i,
            4 * i + 4,
        ) == le_bytes(#[trigger] words[i] as nat, 4) by {
            if i < n - 1 {
                assert(words[i] == front[i]);
                assert(packed_words(words).subrange(4 * i, 4 * i + 4) == packed_words(
                    front,
                ).subrange(4 * i, 4 * i + 4));
            } else {
                assert(packed_words(words).subrange(4 * i, 4 * i + 4) == le_bytes(
                    words.last() as nat,
                    4,
                ));
            }
        }
    }
}

/// Reading the bytes of a vector gives back its components, and there are four bytes to each.
pub proof fn law_words_round_trip(words: Seq<u32>)
    ensures
        packed_words(words).len() == 4 * words.len(),
        words_at(packed_words(words), 0, words.len()) == words,
{
    lemma_packed_words(words);
    lemma_byte_ranges();
    assert forall|i: int| 0 <= i < words.len() implies words_at(
        packed_words(words),
        0,
        words.len(),
    )[i] == words[i] by {
        law_number_round_trip(words[i] as nat, 4);
    }
    assert(words_at(packed_words(words), 0, words.len()) =~= words);
}

proof fn lemma_packed_chunks_first(cs: Seq<ChunkView>)
    requires
        cs.len() > 0,
    ensures
        packed_chunks(cs) == packed_chunk(cs[0]) + packed_chunks(cs.drop_first()),
    decreases cs.len(),
{
    if cs.len() == 1 {
        assert(cs.drop_last() == Seq::<ChunkView>::empty());
        assert(cs.drop_first() == Seq::<ChunkView>::empty());
        assert(packed_chunks(cs) == packed_chunk(cs[0]) + packed_chunks(cs.drop_first()));
    } else {
        lemma_packed_chunks_first(cs.drop_last());
        assert(cs.drop_last().drop_first() == cs.drop_first().drop_last());
        assert(packed_chunks(cs) == packed_chunk(cs[0]) + packed_chunks(cs.drop_first()));
    }
}

proof fn lemma_chunks_at(data: Seq<u8>, at: int, cs: Seq<ChunkView>)
    requires
        0 <= at <= data.len(),
        data.subrange(at, data.len() as int) == packed_chunks(cs),
        forall|i: int| 0 <= i < cs.len() ==> (#[trigger] cs[i]).0.len() <= u32::MAX,
    ensures
        chunks_at(data, at, cs.len()) == Some(cs),
    decreases cs.len(),
{
    if cs.len() > 0 {
        let c = cs[0];
        let rest = cs.drop_first();
        let body = data.subrange(at, data.len() as int);
        lemma_packed_chunks_first(cs);
        lemma_byte_ranges();
        law_number_round_trip(c.1 as nat, 8);
        law_number_round_trip(c.2 as nat, 8);
        law_number_round_trip(c.0.len() as nat, 4);
        lemma_packed_words(c.0);
        let count = c.0.len();
        let next = at + 20 + 4 * count;
        assert(packed_chunk(c).len() == 20 + 4 * count);
        assert(body == packed_chunk(c) + packed_chunks(rest));
        assert(body.len() == data.len() - at);
        assert(data.subrange(at, at + 8) == body.subrange(0, 8));
        assert(body.subrange(0, 8) == le_bytes(c.1 as nat, 8));
        assert(data.subrange(at + 8, at + 16) == body.subrange(8, 16));
        assert(body.subrange(8, 16) == le_bytes(c.2 as nat, 8));
        assert(data.subrange(at + 16, at + 20) == body.subrange(16, 20));
        assert(body.subrange(16, 20) == le_bytes(count, 4));
        assert forall|i: int| 0 <= i < count implies words_at(data, at + 20, count)[i]
            == c.0[i] by {
            let from = at + 20 + 4 * i;
            assert(data.subrange(from, from + 4) == body.subrange(20 + 4 * i, 24 + 4 * i));
            assert(body.subrange(20 + 4 * i, 24 + 4 * i) == packed_words(c.0).subrange(
                4 * i,
                4 * i + 4,
            ));
            law_number_round_trip(c.0[i] as nat, 4);
        }
        assert(words_at(data, at + 20, count) == c.0);
        assert(data.subrange(next, data.len() as int) == packed_chunks(rest)) by {
            assert(data.subrange(next, data.len() as int) == body.subrange(
                (20 + 4 * count) as int,
                body.len() as int,
            ));
        }
        assert forall|i: int| 0 <= i < rest.len() implies (#[trigger] rest[i]).0.len()
            <= u32::MAX by {
            assert(rest[i] == cs[i + 1]);
        }
        lemma_chunks_at(data, next, rest);
        assert(seq![c] + rest == cs);
    } else {
        assert(cs == Seq::<ChunkView>::empty());
    }
}

/// Unpacking gives back what was packed, as long as the number of chunks and the length of each
/// vector fit the four bytes that hold them.
pub proof fn law_pack_unpack(cs: Seq<ChunkView>)
    requires
        cs.len() <= u32::MAX,
        forall|i: int| 0 <= i < cs.len() ==> (#[trigger] cs[i]).0.len() <= u32::MAX,
    ensures
        unpacked(packed(cs)) == Some(cs),
{
    let data = packed(cs);
    lemma_byte_ranges();
    law_number_round_trip(cs.len(), 4);
    assert(data.subrange(0, 4) == le_bytes(cs.len(), 4));
    assert(data.subrange(4, data.len() as int) == packed_chunks(cs));
    lemma_chunks_at(data, 4, cs);
}

/// Byte `i` of a number in binary form is its digit `i` to the base 256.
pub proof fn law_number_bytes(n: nat, width: nat, i: nat)
    requires
        i < width,
    ensures
        le_bytes(n, width).len() == width,
        le_bytes(n, width)[i as int] as nat == (n / byte_range(i)) % 256,
    decreases width,
{
    lemma_le_bytes_len(n, width);
    if i > 0 {
        let k = (i - 1) as nat;
        law_number_bytes(n / 256, (width - 1) as nat, k);
        lemma_byte_range_positive(k);
        vstd::arithmetic::div_mod::lemma_div_denominator(n as int, 256, byte_range(k) as int);
        assert(le_bytes(n, width)[i as int] == le_bytes(n / 256, (width - 1) as nat)[k as int]);
        assert(byte_range(i) == 256 * byte_range(k));
        assert(n / byte_range(i) == (n / 256) / byte_range(k));
    } else {
        assert(byte_range(i) == 1);
        assert(n / 1 == n);
        assert(n / byte_range(i) == n);
    }
}

proof fn lemma_byte_range_positive(width: nat)
    ensures
        byte_range(width) > 0,
    decreases width,
{
    if width > 0 {
        lemma_byte_range_positive((width - 1) as nat);
    }
}

/// One more chunk adds its positions, how many components it has and the components to the binary
/// form, and one to the number of chunks in front. The form of no chunks is four zero bytes.
pub proof fn law_form_grows(
    embeddings: &[EmbeddedChunk],
    longer: &[EmbeddedChunk],
    res: Vec<u8>,
    longer_res: Vec<u8>,
    j: nat,
)
    requires
        call_ensures(pack_embeddings, (embeddings,), res),
        call_ensures(pack_embeddings, (longer,), longer_res),
        longer@.len() == embeddings@.len() + 1,
        longer@.len() <= u32::MAX,
        longer@.drop_last() == embeddings@,
        longer@.last().0@.len() <= u32::MAX,
        j < 4,
    ensures
        ({
            let (vector, start, end) = longer@.last();
            longer_res@.skip(4) == res@.skip(4) + le_bytes(start as nat, 8) + le_bytes(
                end as nat,
                8,
            ) + le_bytes(vector@.len(), 4) + packed_words(vector@)
        }),
        res@[j as int] as nat == (embeddings@.len() / byte_range(j)) % 256,
{
    let cs = chunk_views(embeddings@);
    let more = chunk_views(longer@);
    assert(more.drop_last() =~= cs);
    assert(more.last() == chunk_view(longer@.last()));
    law_number_bytes(cs.len(), 4, j);
    law_number_bytes(more.len(), 4, j);
    assert(res@.skip(4) =~= packed_chunks(cs));
    assert(longer_res@.skip(4) =~= packed_chunks(more));
    assert(packed_chunks(more) =~= packed_chunks(cs) + packed_chunk(more.last()));
    let (vector, start, end) = longer@.last();
    assert(longer_res@.skip(4) =~= res@.skip(4) + le_bytes(start as nat, 8) + le_bytes(
        end as nat,
        8,
    ) + le_bytes(vector@.len(), 4) + packed_words(vector@));
}

/// A component takes four bytes, the lowest first, behind those of the components before it.
pub proof fn law_component_bytes(words: Seq<u32>, k: int, j: nat)
    requires
        0 <= k < words.len(),
        j < 4,
    ensures
        packed_words(words).len() == 4 * words.len(),
        packed_words(words)[4 * k + j] as nat == (words[k] as nat / byte_range(j)) % 256,
    decreases words.len(),
{
    law_words_round_trip(words);
    let front = words.drop_last();
    law_words_round_trip(front);
    law_number_bytes(words.last() as nat, 4, j);
    if k < front.len() {
        law_component_bytes(front, k, j);
        assert(front[k] == words[k]);
    }
}

/// The powers of 256 by which the bytes of a number count.
pub proof fn law_byte_places()
    ensures
        byte_range(0) == 1,
        byte_range(1) == 256,
        byte_range(2) == 65536,
        byte_range(3) == 16777216,
{
    reveal_with_fuel(byte_range, 4);
}

/// What was packed is unpacked again.
pub proof fn law_embeddings_come_back(
    embeddings: &[EmbeddedChunk],
    form: Vec<u8>,
    data: &[u8],
    res: Result<Vec<EmbeddedChunk>>,
)
    requires
        call_ensures(pack_embeddings, (embeddings,), form),
        call_ensures(unpack_embeddings, (data,), res),
        data@ == form@,
        embeddings@.len() <= u32::MAX,
        forall|i: int|
            0 <= i < embeddings@.len() ==> (#[trigger] embeddings@[i]).0@.len() <= u32::MAX,
    ensures
        res matches Ok(v) && v@.len() == embeddings@.len() && forall|i: int|
            0 <= i < v@.len() ==> {
                &&& (#[trigger] v@[i]).0@ == embeddings@[i].0@
                &&& v@[i].1 == embeddings@[i].1
                &&& v@[i].2 == embeddings@[i].2
            },
{
    let cs = chunk_views(embeddings@);
    assert forall|i: int| 0 <= i < cs.len() implies (#[trigger] cs[i]).0.len() <= u32::MAX by {
        assert(cs[i] == chunk_view(embeddings@[i]));
    }
    law_pack_unpack(cs);
    if res is Ok {
        let v = res->Ok_0;
        assert(chunk_views(v@) == cs);
        assert(chunk_views(v@).len() == v@.len());
        assert forall|i: int| 0 <= i < v@.len() implies {
            &&& (#[trigger] v@[i]).0@ == embeddings@[i].0@
            &&& v@[i].1 == embeddings@[i].1
            &&& v@[i].2 == embeddings@[i].2
        } by {
            assert(chunk_views(v@)[i] == chunk_view(v@[i]));
            assert(cs[i] == chunk_view(embeddings@[i]));
        }
    }
}

/// Data that ends before what it announces is refused: before the number of chunks, before the
/// head of the first chunk, or before its components.
pub proof fn law_short_data(data: &[u8], res: Result<Vec<EmbeddedChunk>>)
    requires
        call_ensures(unpack_embeddings, (data,), res),
        data@.len() < 4 || (number_at(data@, 0, 4) > 0 && (data@.len() < 24 || data@.len() < 24
            + 4 * number_at(data@, 20, 4))),
    ensures
        res matches Err(e) && e matches CapsaError::Processing(ProcessingError::MissingData(s)) && s@
            == "malformed embeddings blob"@,
{
    if data@.len() >= 4 {
        reveal_with_fuel(chunks_at, 2);
    }
}

} // verus!
