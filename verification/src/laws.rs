//! What opening a file and walking its chunks promise, and what the counter promises.

use crate::bytes::{be_bytes, be_u32, lemma_be_bytes_of_be_u32, lemma_be_u32_of_be_bytes};
use crate::gui::{apply_messages, Message};
use crate::inflate::zlib_inflated;
use crate::png::{
    decodes_header, length_at, next_offset, spec_chunk_kind, spec_decode_chunk, spec_file_error,
    spec_read, spec_read_from, ChunkError, ChunkKind, ChunkModel, Header, HeaderError, ReadFailure,
    ReadingModel, CHUNK_HEADER_LENGTH, CHUNK_TYPE_IHDR, SIGNATURE, SIGNATURE_LENGTH,
    CHUNK_TYPE_BACKGROUND_COLOR, CHUNK_TYPE_COLOR_SPACE_INFORMATION, CHUNK_TYPE_END,
    CHUNK_TYPE_GAMA, CHUNK_TYPE_IDAT, CHUNK_TYPE_LAST_MODIFICATION_DATE,
    CHUNK_TYPE_PHYSICAL_DIMENSIONS, CHUNK_TYPE_TEXT,
};
use vstd::prelude::*;

verus! {

/// A chunk as it is written in a file: its type, data and CRC bytes.
pub struct RawChunk {
    pub chunk_type: Seq<u8>,
    pub data: Seq<u8>,
    pub crc: Seq<u8>,
}

/// The bytes of `c` in a file: data length, type, data, CRC.
pub open spec fn encode_chunk(c: RawChunk) -> Seq<u8> {
    be_bytes(c.data.len() as u32) + c.chunk_type + c.data + c.crc
}

/// The bytes of the chunks `cs`, one after another.
pub open spec fn encode_chunks(cs: Seq<RawChunk>) -> Seq<u8>
    decreases cs.len(),
{
    if cs.len() == 0 {
        seq![]
    } else {
        encode_chunk(cs[0]) + encode_chunks(cs.drop_first())
    }
}

/// `c` is a chunk the walk decodes: its type is known, its data length fits the length
/// field, its CRC has four bytes, and a gamma or physical dimensions chunk has at least
/// four data bytes.
pub open spec fn well_formed_chunk(c: RawChunk) -> bool {
    &&& spec_chunk_kind(c.chunk_type) matches Some(k)
    &&& c.chunk_type.len() == 4
    &&& c.data.len() <= u32::MAX
    &&& c.crc.len() == 4
    &&& (k == ChunkKind::Gama || k == ChunkKind::PhysicalDimensions) ==> c.data.len() >= 4
}

/// Whether `c` is an `IEND` chunk.
pub open spec fn is_end(c: RawChunk) -> bool {
    spec_chunk_kind(c.chunk_type) == Some(ChunkKind::End)
}

/// What the walk gives for the well-formed chunk `c`.
pub open spec fn written_chunk_model(c: RawChunk) -> ChunkModel {
    match spec_chunk_kind(c.chunk_type) {
        Some(ChunkKind::Gama) => ChunkModel::Gama { value: be_u32(c.data) as u32, crc: c.crc },
        Some(ChunkKind::ColorSpaceInformation) => ChunkModel::ColorSpaceInformation {
            content: c.data,
            crc: c.crc,
        },
        Some(ChunkKind::PhysicalDimensions) => ChunkModel::PhysicalDimensions {
            value: be_u32(c.data) as u32,
            crc: c.crc,
        },
        Some(ChunkKind::LastModificationDate) => ChunkModel::LastModificationDate {
            value: c.data,
            crc: c.crc,
        },
        Some(ChunkKind::BackgroundColor) => ChunkModel::BackgroundColor {
            value: c.data,
            crc: c.crc,
        },
        Some(ChunkKind::Text) => ChunkModel::Text { content: c.data, crc: c.crc },
        Some(ChunkKind::ImageData) => ChunkModel::ImageData {
            cmf: (c.data + c.crc)[0],
            flg: (c.data + c.crc)[1],
            content: zlib_inflated(c.data),
            crc: c.crc,
        },
        _ => ChunkModel::End { crc: c.crc },
    }
}

/// The list of data lengths and decoded chunks that the walk gives for `cs`.
pub open spec fn written_chunk_models(cs: Seq<RawChunk>) -> Seq<(u32, ChunkModel)> {
    cs.map_values(|c: RawChunk| (c.data.len() as u32, written_chunk_model(c)))
}

/// The walk decodes the first chunk of `encode_chunk(c) + after` as `c`, and the next
/// chunk starts right after it.
proof fn lemma_decode_first(prefix: Seq<u8>, c: RawChunk, after: Seq<u8>)
    requires
        well_formed_chunk(c),
    ensures
        ({
            let content = prefix + encode_chunk(c) + after;
            let o = prefix.len() as int;
            let length = length_at(content, o);
            &&& o + 8 <= content.len()
            &&& length == c.data.len()
            &&& content.subrange(o + 4, o + 8) == c.chunk_type
            &&& spec_decode_chunk(
                spec_chunk_kind(c.chunk_type).unwrap(),
                content.subrange(o + 8, content.len() as int),
                length as int,
            ) == Ok::<ChunkModel, ChunkError>(written_chunk_model(c))
            &&& next_offset(o, length) == (prefix + encode_chunk(c)).len()
        }),
{
    let content = prefix + encode_chunk(c) + after;
    let o = prefix.len() as int;
    let n = c.data.len() as u32;
    lemma_be_u32_of_be_bytes(n);
    assert(content.subrange(o, o + 4) =~= be_bytes(n));
    assert(content.subrange(o + 4, o + 8) =~= c.chunk_type);
    let body = content.subrange(o + 8, content.len() as int);
    assert(body =~= c.data + c.crc + after);
    assert(body.take(n as int) =~= c.data);
    assert(body.subrange(n as int, n + 4) =~= c.crc);
    assert(body.take(n + 4) =~= c.data + c.crc);
    assert(body[0] == (c.data + c.crc)[0] && body[1] == (c.data + c.crc)[1]);
    if c.data.len() >= 4 {
        assert(body[0] == c.data[0] && body[1] == c.data[1] && body[2] == c.data[2] && body[3]
            == c.data[3]);
    }
}

/// The walk over `prefix + encode_chunks(cs) + trailing`, started where `cs` begins.
#[verifier::rlimit(40)]
proof fn lemma_read_encoded(prefix: Seq<u8>, cs: Seq<RawChunk>, trailing: Seq<u8>)
    requires
        cs.len() > 0,
        forall|i: int| 0 <= i < cs.len() ==> #[trigger] well_formed_chunk(cs[i]),
        forall|i: int| 0 <= i < cs.len() - 1 ==> !#[trigger] is_end(cs[i]),
        trailing.len() == 0 || is_end(cs.last()),
    ensures
        spec_read_from(prefix + encode_chunks(cs) + trailing, prefix.len() as int) == (
            written_chunk_models(cs),
            None::<ReadFailure>,
        ),
    decreases cs.len(),
{
    let c = cs[0];
    let rest = cs.drop_first();
    let content = prefix + encode_chunks(cs) + trailing;
    let after = encode_chunks(rest) + trailing;
    assert(encode_chunks(cs) == encode_chunk(c) + encode_chunks(rest));
    assert(content =~= prefix + encode_chunk(c) + after);
    lemma_decode_first(prefix, c, after);
    let o = prefix.len() as int;
    let length = length_at(content, o);
    let next = next_offset(o, length);
    assert(well_formed_chunk(cs[0]));
    let head = seq![(c.data.len() as u32, written_chunk_model(c))];
    if is_end(c) {
        assert(cs.len() == 1);
        assert(written_chunk_models(cs) =~= head);
    } else if rest.len() == 0 {
        assert(cs.last() == c);
        assert(after =~= seq![]);
        assert(written_chunk_models(cs) =~= head);
    } else {
        let prefix2 = prefix + encode_chunk(c);
        assert forall|i: int| 0 <= i < rest.len() implies #[trigger] well_formed_chunk(rest[i]) by {
            assert(rest[i] == cs[i + 1]);
        }
        assert forall|i: int| 0 <= i < rest.len() - 1 implies !#[trigger] is_end(rest[i]) by {
            assert(rest[i] == cs[i + 1]);
        }
        assert(rest.last() == cs.last());
        lemma_read_encoded(prefix2, rest, trailing);
        assert(content =~= prefix2 + encode_chunks(rest) + trailing);
        assert(well_formed_chunk(rest[0]));
        assert(encode_chunk(rest[0]).len() >= 12);
        assert(encode_chunks(rest) == encode_chunk(rest[0]) + encode_chunks(rest.drop_first()));
        assert(next < content.len());
        assert(written_chunk_models(cs) =~= head + written_chunk_models(rest));
    }
}

/// Reading a file made of well-formed chunks gives those chunks back, in order, each with its
/// data length, and no failure: provided that no chunk but the last is an `IEND` chunk, and
/// that bytes after the chunks, if any, follow an `IEND` chunk, which the walk does not go
/// past.
pub proof fn read_returns_listed_chunks(cs: Seq<RawChunk>, trailing: Seq<u8>)
    requires
        cs.len() > 0,
        forall|i: int| 0 <= i < cs.len() ==> #[trigger] well_formed_chunk(cs[i]),
        forall|i: int| 0 <= i < cs.len() - 1 ==> !#[trigger] is_end(cs[i]),
        trailing.len() == 0 || is_end(cs.last()),
    ensures
        spec_read(encode_chunks(cs) + trailing) == (written_chunk_models(cs), None::<ReadFailure>),
{
    let empty: Seq<u8> = seq![];
    lemma_read_encoded(empty, cs, trailing);
    assert(empty + encode_chunks(cs) + trailing =~= encode_chunks(cs) + trailing);
}

/// `h` holds the header fields written as the thirteen data bytes `data` and the CRC `crc`
/// of an `IHDR` chunk.
pub open spec fn header_fields(data: Seq<u8>, crc: Seq<u8>, h: Header) -> bool {
    &&& h.width as int == be_u32(data.subrange(0, 4))
    &&& h.height as int == be_u32(data.subrange(4, 8))
    &&& h.bit_depth == data[8]
    &&& h.color_space == data[9]
    &&& h.compression_method == data[10]
    &&& h.filter_method == data[11]
    &&& h.interlacing == data[12]
    &&& h.crc@ == crc
}

/// A file written as the signature, an `IHDR` chunk with thirteen data bytes, and
/// well-formed chunks (with trailing bytes only after an `IEND` chunk) can be opened: its
/// header holds the fields written in the `IHDR` data, and walking its content gives the
/// chunks back.
pub proof fn open_and_read_written_file(
    ihdr_data: Seq<u8>,
    ihdr_crc: Seq<u8>,
    cs: Seq<RawChunk>,
    trailing: Seq<u8>,
)
    requires
        ihdr_data.len() == 13,
        ihdr_crc.len() == 4,
        cs.len() > 0,
        forall|i: int| 0 <= i < cs.len() ==> #[trigger] well_formed_chunk(cs[i]),
        forall|i: int| 0 <= i < cs.len() - 1 ==> !#[trigger] is_end(cs[i]),
        trailing.len() == 0 || is_end(cs.last()),
    ensures
        ({
            let ihdr = RawChunk { chunk_type: CHUNK_TYPE_IHDR@, data: ihdr_data, crc: ihdr_crc };
            let file = SIGNATURE@ + encode_chunk(ihdr) + encode_chunks(cs) + trailing;
            &&& spec_file_error(file) is None
            &&& forall|h: Header|
                decodes_header(file.skip(SIGNATURE_LENGTH as int), h) <==> header_fields(
                    ihdr_data,
                    ihdr_crc,
                    h,
                )
            &&& spec_read(file.skip((SIGNATURE_LENGTH + CHUNK_HEADER_LENGTH) as int)) == (
                written_chunk_models(cs),
                None::<ReadFailure>,
            )
        }),
{
    let ihdr = RawChunk { chunk_type: CHUNK_TYPE_IHDR@, data: ihdr_data, crc: ihdr_crc };
    let body = encode_chunks(cs) + trailing;
    let file = SIGNATURE@ + encode_chunk(ihdr) + encode_chunks(cs) + trailing;
    let rest = file.skip(SIGNATURE_LENGTH as int);
    lemma_be_u32_of_be_bytes(13);
    assert(rest =~= encode_chunk(ihdr) + body);
    assert(encode_chunk(ihdr).len() == 25);
    assert(rest.subrange(0, 4) =~= be_bytes(13));
    assert(be_u32(rest) == be_u32(rest.subrange(0, 4)));
    assert(rest.subrange(4, 8) =~= CHUNK_TYPE_IHDR@);
    assert(rest.subrange(8, 12) =~= ihdr_data.subrange(0, 4));
    assert(rest.subrange(12, 16) =~= ihdr_data.subrange(4, 8));
    assert(rest.subrange(21, 25) =~= ihdr_crc);
    assert forall|h: Header|
        decodes_header(rest, h) <==> header_fields(ihdr_data, ihdr_crc, h) by {
        assert(rest[16] == ihdr_data[8] && rest[17] == ihdr_data[9] && rest[18] == ihdr_data[10]
            && rest[19] == ihdr_data[11] && rest[20] == ihdr_data[12]);
    }
    assert(file.skip((SIGNATURE_LENGTH + CHUNK_HEADER_LENGTH) as int) =~= body);
    read_returns_listed_chunks(cs, trailing);
}

/// The walk goes no further than the first `IEND` chunk: of the chunks it returns, only the
/// last one can be an `IEND` chunk.
pub proof fn read_stops_at_first_end(content: Seq<u8>, offset: int)
    ensures
        forall|i: int|
            0 <= i < spec_read_from(content, offset).0.len() - 1 ==> !(#[trigger] spec_read_from(
                content,
                offset,
            ).0[i].1 is End),
    decreases content.len() - offset,
{
    let r = spec_read_from(content, offset);
    if offset >= 0 && offset + 8 <= content.len() {
        let length = length_at(content, offset);
        let t = content.subrange(offset + 4, offset + 8);
        let body = content.subrange(offset + 8, content.len() as int);
        if let Some(kind) = spec_chunk_kind(t) {
            if let Ok(c) = spec_decode_chunk(kind, body, length as int) {
                let next = next_offset(offset, length);
                if kind != ChunkKind::End && next < content.len() {
                    read_stops_at_first_end(content, next);
                    let rest = spec_read_from(content, next);
                    assert(!(c is End));
                    assert forall|i: int| 0 <= i < r.0.len() - 1 implies !(
                    #[trigger] r.0[i].1 is End) by {
                        if i > 0 {
                            assert(r.0[i] == rest.0[i - 1]);
                        }
                    }
                }
            }
        }
    }
}
/// The counter counts the messages: applying any list of messages to a count adds the
/// number of messages, so from zero it ends at the number of increments handled.
pub proof fn counter_counts_messages(counter: int, ms: Seq<Message>)
    ensures
        apply_messages(counter, ms) == counter + ms.len(),
    decreases ms.len(),
{
    if ms.len() > 0 {
        counter_counts_messages(counter + 1, ms.drop_first());
    }
}

/// How many chunks a walk looked at: those it returned, and the one it stopped on, if any.
pub open spec fn chunks_examined(r: ReadingModel) -> int {
    r.0.len() + if r.1 matches Some(ReadFailure::Chunk { .. }) {
        1int
    } else {
        0int
    }
}

/// Each chunk the walk looks at takes at least twelve bytes, except possibly the last.
proof fn lemma_examined_bound(content: Seq<u8>, offset: int)
    requires
        0 <= offset,
    ensures
        chunks_examined(spec_read_from(content, offset)) == 0 || 12 * (chunks_examined(
            spec_read_from(content, offset),
        ) - 1) <= content.len() - offset,
    decreases content.len() - offset,
{
    let r = spec_read_from(content, offset);
    if offset + 8 <= content.len() {
        let length = length_at(content, offset);
        let t = content.subrange(offset + 4, offset + 8);
        let body = content.subrange(offset + 8, content.len() as int);
        if let Some(kind) = spec_chunk_kind(t) {
            if let Ok(c) = spec_decode_chunk(kind, body, length as int) {
                let next = next_offset(offset, length);
                if kind != ChunkKind::End && next < content.len() {
                    lemma_examined_bound(content, next);
                    let rest = spec_read_from(content, next);
                    assert(chunks_examined(r) == 1 + chunks_examined(rest));
                }
            }
        }
    }
}

/// The walk over `content` looks at no more than `content.len() / 12 + 1` chunks, counting
/// the one it stops on.
pub proof fn read_examines_few_chunks(content: Seq<u8>)
    ensures
        chunks_examined(spec_read(content)) <= content.len() / 12 + 1,
{
    lemma_examined_bound(content, 0);
    let n = chunks_examined(spec_read(content));
    let len = content.len() as int;
    assert(n == 0 || 12 * (n - 1) <= len);
    assert(n >= 0);
    assert(n <= len / 12 + 1) by (nonlinear_arith)
        requires
            n == 0 || 12 * (n - 1) <= len,
            len >= 0,
    ;
}

/// A walk that ends on an `IEND` chunk.
pub open spec fn ends_at_iend(r: ReadingModel) -> bool {
    &&& r.1 is None
    &&& r.0.len() > 0
    &&& r.0.last().1 is End
}

/// Decoding a chunk reads nothing past its CRC.
proof fn lemma_decode_ignores_suffix(kind: ChunkKind, body: Seq<u8>, length: int, s: Seq<u8>)
    requires
        spec_decode_chunk(kind, body, length) is Ok,
    ensures
        spec_decode_chunk(kind, body + s, length) == spec_decode_chunk(kind, body, length),
{
    let b2 = body + s;
    assert(b2.take(length) =~= body.take(length));
    assert(b2.subrange(length, length + 4) =~= body.subrange(length, length + 4));
    assert(b2[0] == body[0] && b2[1] == body[1] && b2[2] == body[2] && b2[3] == body[3]);
}

/// Bytes appended to content whose walk from `offset` ends on an `IEND` chunk change nothing.
proof fn lemma_suffix_after_iend(content: Seq<u8>, offset: int, s: Seq<u8>)
    requires
        ends_at_iend(spec_read_from(content, offset)),
    ensures
        spec_read_from(content + s, offset) == spec_read_from(content, offset),
    decreases content.len() - offset,
{
    let c2 = content + s;
    let length = length_at(content, offset);
    assert(c2.subrange(offset, offset + 4) =~= content.subrange(offset, offset + 4));
    let t = content.subrange(offset + 4, offset + 8);
    assert(c2.subrange(offset + 4, offset + 8) =~= t);
    let body = content.subrange(offset + 8, content.len() as int);
    assert(c2.subrange(offset + 8, c2.len() as int) =~= body + s);
    let kind = spec_chunk_kind(t).unwrap();
    lemma_decode_ignores_suffix(kind, body, length as int, s);
    let next = next_offset(offset, length);
    if kind != ChunkKind::End && next < content.len() {
        lemma_suffix_after_iend(content, next, s);
    }
}

/// Once the walk reaches an `IEND` chunk, whatever follows it in the content is not looked
/// at: appending any bytes gives the same chunks.
pub proof fn read_ignores_bytes_after_iend(content: Seq<u8>, s: Seq<u8>)
    requires
        ends_at_iend(spec_read(content)),
    ensures
        spec_read(content + s) == spec_read(content),
{
    lemma_suffix_after_iend(content, 0, s);
}
/// Opening a file looks only at its signature and `IHDR` chunk: two files of at least 33
/// bytes that agree on their first 33 bytes are both openable or both not, for the same
/// reason, and hold the same header.
pub proof fn header_reads_only_its_bytes(f1: Seq<u8>, f2: Seq<u8>)
    requires
        f1.len() >= SIGNATURE_LENGTH + CHUNK_HEADER_LENGTH,
        f2.len() >= SIGNATURE_LENGTH + CHUNK_HEADER_LENGTH,
        f1.take((SIGNATURE_LENGTH + CHUNK_HEADER_LENGTH) as int) == f2.take(
            (SIGNATURE_LENGTH + CHUNK_HEADER_LENGTH) as int,
        ),
    ensures
        spec_file_error(f1) == spec_file_error(f2),
        forall|h: Header|
            decodes_header(f1.skip(SIGNATURE_LENGTH as int), h) <==> decodes_header(
                f2.skip(SIGNATURE_LENGTH as int),
                h,
            ),
{
    let r1 = f1.skip(SIGNATURE_LENGTH as int);
    let r2 = f2.skip(SIGNATURE_LENGTH as int);
    assert forall|i: int| 0 <= i < 25 implies r1[i] == r2[i] by {
        assert(f1.take(33)[i + 8] == f2.take(33)[i + 8]);
    }
    assert(r1.subrange(0, 4) =~= r2.subrange(0, 4));
    assert(be_u32(r1) == be_u32(r1.subrange(0, 4)));
    assert(be_u32(r2) == be_u32(r2.subrange(0, 4)));
    assert(r1.subrange(4, 8) =~= r2.subrange(4, 8));
    assert(r1.subrange(8, 12) =~= r2.subrange(8, 12));
    assert(r1.subrange(12, 16) =~= r2.subrange(12, 16));
    assert(r1.subrange(21, 25) =~= r2.subrange(21, 25));
}
/// The four type bytes that name the chunk kind `k`.
pub open spec fn kind_type(k: ChunkKind) -> Seq<u8> {
    match k {
        ChunkKind::Gama => CHUNK_TYPE_GAMA@,
        ChunkKind::ColorSpaceInformation => CHUNK_TYPE_COLOR_SPACE_INFORMATION@,
        ChunkKind::PhysicalDimensions => CHUNK_TYPE_PHYSICAL_DIMENSIONS@,
        ChunkKind::LastModificationDate => CHUNK_TYPE_LAST_MODIFICATION_DATE@,
        ChunkKind::BackgroundColor => CHUNK_TYPE_BACKGROUND_COLOR@,
        ChunkKind::Text => CHUNK_TYPE_TEXT@,
        ChunkKind::ImageData => CHUNK_TYPE_IDAT@,
        ChunkKind::End => CHUNK_TYPE_END@,
    }
}

/// A chunk type is recognized exactly when it is the type of a known kind: it is then
/// recognized as that kind, and any other four bytes are not recognized at all.
pub proof fn chunk_kind_is_named_by_its_type(t: Seq<u8>)
    ensures
        spec_chunk_kind(t) matches Some(k) ==> t == kind_type(k),
        forall|k: ChunkKind| t == #[trigger] kind_type(k) ==> spec_chunk_kind(t) == Some(k),
{
    assert forall|k: ChunkKind| t == #[trigger] kind_type(k) implies spec_chunk_kind(t) == Some(
        k,
    ) by {
        let g = CHUNK_TYPE_GAMA@;
        let c = CHUNK_TYPE_COLOR_SPACE_INFORMATION@;
        let p = CHUNK_TYPE_PHYSICAL_DIMENSIONS@;
        let m = CHUNK_TYPE_LAST_MODIFICATION_DATE@;
        let b = CHUNK_TYPE_BACKGROUND_COLOR@;
        let x = CHUNK_TYPE_TEXT@;
        let i = CHUNK_TYPE_IDAT@;
        let e = CHUNK_TYPE_END@;
        assert(g[0] != c[0] && g[0] != p[0] && g[0] != m[0] && g[0] != b[0] && g[0] != x[0]
            && g[0] != i[0] && g[0] != e[0]);
        assert(c[0] != p[0] && c[0] != m[0] && c[0] != b[0] && c[0] != x[0] && c[0] != i[0]
            && c[0] != e[0]);
        assert(p[0] != m[0] && p[0] != b[0] && p[0] != x[0] && p[0] != i[0] && p[0] != e[0]);
        assert(m[1] != b[1] && m[1] != x[1] && m[1] != i[1] && m[1] != e[1]);
        assert(b[0] != x[0] && b[0] != i[0] && b[0] != e[0]);
        assert(x[0] != i[0] && x[0] != e[0]);
        assert(i[1] != e[1]);
    }
}

/// A chunk whose type is none of the known types is never decoded: when the first chunk
/// of the content has such a type, the walk returns no chunk and stops on it, reporting
/// its length and its four type bytes.
pub proof fn read_stops_on_unknown_type(content: Seq<u8>)
    requires
        content.len() >= 8,
        forall|k: ChunkKind| content.subrange(4, 8) != #[trigger] kind_type(k),
    ensures
        spec_read(content) == (
            Seq::<(u32, ChunkModel)>::empty(),
            Some(
                ReadFailure::Chunk {
                    length: be_u32(content) as u32,
                    error: ChunkError::UnknownType(content[4], content[5], content[6], content[7]),
                },
            ),
        ),
{
    let t = content.subrange(4, 8);
    chunk_kind_is_named_by_its_type(t);
    assert(spec_chunk_kind(t) is None) by {
        if let Some(k) = spec_chunk_kind(t) {
            assert(t == kind_type(k));
        }
    }
    assert(content.subrange(0, 4)[0] == content[0] && content.subrange(0, 4)[1] == content[1]
        && content.subrange(0, 4)[2] == content[2] && content.subrange(0, 4)[3] == content[3]);
}

/// Decoding a known chunk fails exactly when its data and CRC do not fit in the bytes after
/// its type, or when a gamma or physical dimensions chunk has fewer than four data bytes;
/// the failure then names the kind.
pub proof fn decode_fails_exactly_when_out_of_room(kind: ChunkKind, body: Seq<u8>, length: int)
    ensures
        spec_decode_chunk(kind, body, length) is Err <==> !(0 <= length && length + 4
            <= body.len() && ((kind == ChunkKind::Gama || kind == ChunkKind::PhysicalDimensions)
            ==> length >= 4)),
        spec_decode_chunk(kind, body, length) matches Err(e) ==> e == ChunkError::Malformed(kind),
{
}
/// A file can be opened exactly when it holds at least the signature and a whole `IHDR`
/// chunk of 33 bytes, whose length field holds 13 and whose type is `IHDR`; a bad length is
/// reported with the value written, and a short file as truncated.
pub proof fn file_opens_exactly_when_header_is_well_formed(f: Seq<u8>)
    ensures
        spec_file_error(f) is None <==> (f.len() >= 33 && f.subrange(8, 12) == be_bytes(13)
            && f.subrange(12, 16) == CHUNK_TYPE_IHDR@),
        spec_file_error(f) matches Some(HeaderError::BadLength(v)) ==> v != 13 && f.len() >= 12
            && f.subrange(8, 12) == be_bytes(v),
        spec_file_error(f) matches Some(HeaderError::NotIhdr) ==> f.len() >= 16 && f.subrange(
            8,
            12,
        ) == be_bytes(13) && f.subrange(12, 16) != CHUNK_TYPE_IHDR@,
        spec_file_error(f) == Some(HeaderError::Truncated) ==> f.len() < 33,
{
    lemma_be_u32_of_be_bytes(13);
    if f.len() >= 12 {
        let rest = f.skip(8);
        let l = f.subrange(8, 12);
        assert(rest.subrange(0, 4) =~= l);
        assert(rest[0] == l[0] && rest[1] == l[1] && rest[2] == l[2] && rest[3] == l[3]);
        lemma_be_bytes_of_be_u32(l);
        if f.len() >= 16 {
            assert(rest.subrange(4, 8) =~= f.subrange(12, 16));
        }
        if l == be_bytes(13) {
            assert(be_u32(l) == 13);
        }
    }
}

/// Content too short for a length field stops the walk at once for want of it; content
/// with a length field but too short for a type stops it for want of the type, reporting
/// the length.
pub proof fn read_of_short_content(content: Seq<u8>)
    ensures
        content.len() < 4 ==> spec_read(content) == (
            Seq::<(u32, ChunkModel)>::empty(),
            Some(ReadFailure::MissingLength),
        ),
        4 <= content.len() < 8 ==> spec_read(content) == (
            Seq::<(u32, ChunkModel)>::empty(),
            Some(
                ReadFailure::Chunk {
                    length: be_u32(content) as u32,
                    error: ChunkError::MissingType,
                },
            ),
        ),
{
    if content.len() >= 4 {
        assert(content.subrange(0, 4)[0] == content[0] && content.subrange(0, 4)[1]
            == content[1] && content.subrange(0, 4)[2] == content[2] && content.subrange(0, 4)[3]
            == content[3]);
    }
}

/// The signature is the eight bytes `89 50 4E 47 0D 0A 1A 0A`.
pub proof fn signature_bytes()
    ensures
        SIGNATURE@ == seq![0x89u8, 0x50, 0x4e, 0x47, 0x0d, 0x0a, 0x1a, 0x0a],
{
    assert(SIGNATURE@ =~= seq![0x89u8, 0x50, 0x4e, 0x47, 0x0d, 0x0a, 0x1a, 0x0a]);
}
/// The known chunk types are the ASCII names `gAMA`, `cHRM`, `pHYs`, `tIME`, `bKGD`, `tEXt`,
/// `IDAT` and `IEND`, and the header's is `IHDR`.
pub proof fn chunk_type_bytes()
    ensures
        kind_type(ChunkKind::Gama) == seq![0x67u8, 0x41, 0x4d, 0x41],
        kind_type(ChunkKind::ColorSpaceInformation) == seq![0x63u8, 0x48, 0x52, 0x4d],
        kind_type(ChunkKind::PhysicalDimensions) == seq![0x70u8, 0x48, 0x59, 0x73],
        kind_type(ChunkKind::LastModificationDate) == seq![0x74u8, 0x49, 0x4d, 0x45],
        kind_type(ChunkKind::BackgroundColor) == seq![0x62u8, 0x4b, 0x47, 0x44],
        kind_type(ChunkKind::Text) == seq![0x74u8, 0x45, 0x58, 0x74],
        kind_type(ChunkKind::ImageData) == seq![0x49u8, 0x44, 0x41, 0x54],
        kind_type(ChunkKind::End) == seq![0x49u8, 0x45, 0x4e, 0x44],
        CHUNK_TYPE_IHDR@ == seq![0x49u8, 0x48, 0x44, 0x52],
{
    assert(kind_type(ChunkKind::Gama) =~= seq![0x67u8, 0x41, 0x4d, 0x41]);
    assert(kind_type(ChunkKind::ColorSpaceInformation) =~= seq![0x63u8, 0x48, 0x52, 0x4d]);
    assert(kind_type(ChunkKind::PhysicalDimensions) =~= seq![0x70u8, 0x48, 0x59, 0x73]);
    assert(kind_type(ChunkKind::LastModificationDate) =~= seq![0x74u8, 0x49, 0x4d, 0x45]);
    assert(kind_type(ChunkKind::BackgroundColor) =~= seq![0x62u8, 0x4b, 0x47, 0x44]);
    assert(kind_type(ChunkKind::Text) =~= seq![0x74u8, 0x45, 0x58, 0x74]);
    assert(kind_type(ChunkKind::ImageData) =~= seq![0x49u8, 0x44, 0x41, 0x54]);
    assert(kind_type(ChunkKind::End) =~= seq![0x49u8, 0x45, 0x4e, 0x44]);
    assert(CHUNK_TYPE_IHDR@ =~= seq![0x49u8, 0x48, 0x44, 0x52]);
}
} // verus!
