//! PNG file layout: the signature, the `IHDR` header and the chunks after it.
//!
//! A chunk is a four-byte big-endian data length, a four-byte type, the data and a
//! four-byte CRC. The reader walks the chunks one after another and decodes the types it
//! knows; it stops after an `IEND` chunk or when the chunks end exactly at the end of the
//! content.

use crate::bytes::{be_u32, read_u32_be};
use crate::inflate::{inflate_zlib, zlib_inflated};
use vstd::prelude::*;
use vstd::slice::slice_to_vec;

verus! {

/// The eight bytes every PNG file starts with.
pub const SIGNATURE: [u8; 8] = [0x89, 0x50, 0x4e, 0x47, 0x0d, 0x0a, 0x1a, 0x0a];

/// Type of the header chunk.
pub const CHUNK_TYPE_IHDR: [u8; 4] = [0x49, 0x48, 0x44, 0x52];

/// Type of the gamma chunk.
pub const CHUNK_TYPE_GAMA: [u8; 4] = [0x67, 0x41, 0x4d, 0x41];

/// Type of the chromaticities (color space information) chunk.
pub const CHUNK_TYPE_COLOR_SPACE_INFORMATION: [u8; 4] = [0x63, 0x48, 0x52, 0x4d];

/// Type of the physical pixel dimensions chunk.
pub const CHUNK_TYPE_PHYSICAL_DIMENSIONS: [u8; 4] = [0x70, 0x48, 0x59, 0x73];

/// Type of the last modification time chunk.
pub const CHUNK_TYPE_LAST_MODIFICATION_DATE: [u8; 4] = [0x74, 0x49, 0x4d, 0x45];

/// Type of the background color chunk.
pub const CHUNK_TYPE_BACKGROUND_COLOR: [u8; 4] = [0x62, 0x4b, 0x47, 0x44];

/// Type of the text chunk.
pub const CHUNK_TYPE_TEXT: [u8; 4] = [0x74, 0x45, 0x58, 0x74];

/// Type of the image data chunk.
pub const CHUNK_TYPE_IDAT: [u8; 4] = [0x49, 0x44, 0x41, 0x54];

/// Type of the end chunk.
pub const CHUNK_TYPE_END: [u8; 4] = [0x49, 0x45, 0x4E, 0x44];

/// Length of the PNG signature.
pub const SIGNATURE_LENGTH: usize = 8;

/// Size of a chunk's length field.
pub const CHUNK_LENGTH_SIZE: usize = 4;

/// Size of a chunk's type field.
pub const CHUNK_TYPE_SIZE: usize = 4;

/// Size of a chunk's CRC field.
pub const CHUNK_CRC_SIZE: usize = 4;

/// Size of the whole `IHDR` chunk: length, type, thirteen bytes of data and the CRC.
pub const CHUNK_HEADER_LENGTH: usize = 25;

/// The image header (`IHDR` chunk).
#[derive(Debug, Clone, Copy)]
pub struct Header {
    pub width: u32,
    pub height: u32,
    pub bit_depth: u8,
    pub color_space: u8,
    pub compression_method: u8,
    pub filter_method: u8,
    pub interlacing: u8,
    pub crc: [u8; 4],
}

/// The gamma chunk: its value is the first four data bytes, big-endian.
#[derive(Debug, Clone, Copy)]
pub struct Gama {
    pub value: u32,
    pub crc: [u8; 4],
}

/// The chromaticities chunk, kept as raw data.
#[derive(Debug)]
pub struct ColorSpaceInformation {
    pub content: Vec<u8>,
    pub crc: [u8; 4],
}

/// The physical dimensions chunk: its value is the first four data bytes, big-endian.
#[derive(Debug, Clone, Copy)]
pub struct PhysicalDimensions {
    pub value: u32,
    pub crc: [u8; 4],
}

/// The last modification time chunk, kept as raw data.
#[derive(Debug)]
pub struct LastModificationDate {
    pub value: Vec<u8>,
    pub crc: [u8; 4],
}

/// The background color chunk, kept as raw data.
#[derive(Debug)]
pub struct BackgroundColor {
    pub value: Vec<u8>,
    pub crc: [u8; 4],
}

/// An image data chunk, decompressed. `cmf` and `flg` are the first two bytes after the
/// chunk's type, which begin the zlib stream.
#[derive(Debug)]
pub struct ImageData {
    pub cmf: u8,
    pub flg: u8,
    pub content: Vec<u8>,
    pub crc: [u8; 4],
}

/// The text chunk, kept as raw data.
#[derive(Debug)]
pub struct Text {
    pub content: Vec<u8>,
    pub crc: [u8; 4],
}

/// The end chunk.
#[derive(Debug, Clone, Copy)]
pub struct End {
    pub crc: [u8; 4],
}

/// The chunk types the reader decodes.
#[derive(Debug, Clone, Copy, PartialEq, Eq, Structural)]
pub enum ChunkKind {
    Gama,
    ColorSpaceInformation,
    PhysicalDimensions,
    LastModificationDate,
    BackgroundColor,
    Text,
    ImageData,
    End,
}

/// A decoded chunk.
#[derive(Debug)]
pub enum Chunk {
    Gama(Gama),
    ColorSpaceInformation(ColorSpaceInformation),
    PhysicalDimensions(PhysicalDimensions),
    LastModificationDate(LastModificationDate),
    BackgroundColor(BackgroundColor),
    Text(Text),
    ImageData(ImageData),
    End(End),
}

/// The mathematical value of a decoded chunk: byte buffers become sequences.
#[allow(inconsistent_fields)]
pub enum ChunkModel {
    Gama { value: u32, crc: Seq<u8> },
    ColorSpaceInformation { content: Seq<u8>, crc: Seq<u8> },
    PhysicalDimensions { value: u32, crc: Seq<u8> },
    LastModificationDate { value: Seq<u8>, crc: Seq<u8> },
    BackgroundColor { value: Seq<u8>, crc: Seq<u8> },
    Text { content: Seq<u8>, crc: Seq<u8> },
    ImageData { cmf: u8, flg: u8, content: Seq<u8>, crc: Seq<u8> },
    End { crc: Seq<u8> },
}

impl View for Chunk {
    type V = ChunkModel;

    open spec fn view(&self) -> ChunkModel {
        match self {
            Chunk::Gama(c) => ChunkModel::Gama { value: c.value, crc: c.crc@ },
            Chunk::ColorSpaceInformation(c) => ChunkModel::ColorSpaceInformation {
                content: c.content@,
                crc: c.crc@,
            },
            Chunk::PhysicalDimensions(c) => ChunkModel::PhysicalDimensions {
                value: c.value,
                crc: c.crc@,
            },
            Chunk::LastModificationDate(c) => ChunkModel::LastModificationDate {
                value: c.value@,
                crc: c.crc@,
            },
            Chunk::BackgroundColor(c) => ChunkModel::BackgroundColor {
                value: c.value@,
                crc: c.crc@,
            },
            Chunk::Text(c) => ChunkModel::Text { content: c.content@, crc: c.crc@ },
            Chunk::ImageData(c) => ChunkModel::ImageData {
                cmf: c.cmf,
                flg: c.flg,
                content: c.content@,
                crc: c.crc@,
            },
            Chunk::End(c) => ChunkModel::End { crc: c.crc@ },
        }
    }
}

/// Why a buffer does not start with a signature and a decodable `IHDR` chunk.
#[derive(Debug, Clone, Copy, PartialEq, Eq, Structural)]
pub enum HeaderError {
    /// The buffer ends before a field that is read.
    Truncated,
    /// The header's data length is not 13.
    BadLength(u32),
    /// The first chunk is not of type `IHDR`.
    NotIhdr,
}

/// Why a chunk whose length field could be read cannot be decoded.
#[derive(Debug, Clone, Copy, PartialEq, Eq)]
pub enum ChunkError {
    /// The content ends inside the type field.
    MissingType,
    /// The type is none of those the reader knows; its four bytes.
    UnknownType(u8, u8, u8, u8),
    /// The content ends before the end of the data or of the CRC, or a gamma or physical
    /// dimensions chunk has fewer than four data bytes.
    Malformed(ChunkKind),
}

/// Why the walk over the chunks stopped early.
#[derive(Debug, Clone, Copy, PartialEq, Eq)]
pub enum ReadFailure {
    /// The content ends inside the length field of the next chunk.
    MissingLength,
    /// The chunk with this data length could not be decoded.
    Chunk { length: u32, error: ChunkError },
}

/// What a walk over the chunks found: each decoded chunk with its data length, in order,
/// and, when the walk could not finish, why.
#[derive(Debug)]
pub struct Reading {
    pub chunks: Vec<(u32, Chunk)>,
    pub failure: Option<ReadFailure>,
}

/// The model of a walk over the chunks.
pub type ReadingModel = (Seq<(u32, ChunkModel)>, Option<ReadFailure>);

/// The models of a list of decoded chunks.
pub open spec fn chunk_models(chunks: Seq<(u32, Chunk)>) -> Seq<(u32, ChunkModel)> {
    chunks.map_values(|p: (u32, Chunk)| (p.0, p.1@))
}

impl View for Reading {
    type V = ReadingModel;

    open spec fn view(&self) -> ReadingModel {
        (chunk_models(self.chunks@), self.failure)
    }
}

/// A PNG file: its decoded header and the bytes after the `IHDR` chunk.
pub struct Png {
    pub header: Header,
    pub content: Vec<u8>,
}

// ---------------------------------------------------------------------------------------
// Header
// ---------------------------------------------------------------------------------------
/// Whether `buf` (a file without its signature) can be decoded as an `IHDR` chunk, and if
/// not, why: the conditions come in the order in which the decoder reads the fields.
pub open spec fn spec_header_error(buf: Seq<u8>) -> Option<HeaderError> {
    if buf.len() < 4 {
        Some(HeaderError::Truncated)
    } else if be_u32(buf) != 13 {
        Some(HeaderError::BadLength(be_u32(buf) as u32))
    } else if buf.len() < 8 {
        Some(HeaderError::Truncated)
    } else if buf.subrange(4, 8) != CHUNK_TYPE_IHDR@ {
        Some(HeaderError::NotIhdr)
    } else if buf.len() < CHUNK_HEADER_LENGTH {
        Some(HeaderError::Truncated)
    } else {
        None
    }
}

/// Whether `file` (signature included) cannot be opened, and why.
pub open spec fn spec_file_error(file: Seq<u8>) -> Option<HeaderError> {
    if file.len() < SIGNATURE_LENGTH {
        Some(HeaderError::Truncated)
    } else {
        spec_header_error(file.skip(SIGNATURE_LENGTH as int))
    }
}

/// `h` holds the fields of the `IHDR` chunk at the start of `buf`.
pub open spec fn decodes_header(buf: Seq<u8>, h: Header) -> bool {
    &&& h.width as int == be_u32(buf.subrange(8, 12))
    &&& h.height as int == be_u32(buf.subrange(12, 16))
    &&& h.bit_depth == buf[16]
    &&& h.color_space == buf[17]
    &&& h.compression_method == buf[18]
    &&& h.filter_method == buf[19]
    &&& h.interlacing == buf[20]
    &&& h.crc@ == buf.subrange(21, 25)
}

/// The four bytes of `buf` from `at` on.
fn crc_at(buf: &[u8], at: usize) -> (c: [u8; 4])
    requires
        at + 4 <= buf@.len(),
    ensures
        c@ == buf@.subrange(at as int, at + 4),
{
    let c = [buf[at], buf[at + 1], buf[at + 2], buf[at + 3]];
    assert(c@ =~= buf@.subrange(at as int, at + 4));
    c
}

/// Whether the four bytes `t` are the chunk type `ty`.
fn same_type(t: &[u8], ty: &[u8; 4]) -> (r: bool)
    requires
        t@.len() == 4,
    ensures
        r == (t@ == ty@),
{
    let r = t[0] == ty[0] && t[1] == ty[1] && t[2] == ty[2] && t[3] == ty[3];
    if r {
        assert(t@ =~= ty@);
    }
    r
}

/// Decodes the `IHDR` chunk at the start of `buf`, a file without its signature.
fn decode_header(buf: &[u8]) -> (h: Header)
    requires
        spec_header_error(buf@) is None,
    ensures
        decodes_header(buf@, h),
{
    let length: u32 = read_u32_be(&buf[0..4]);
    assert(buf@.subrange(0, 4) =~= buf@.take(4));
    let u_length: usize = length as usize;
    let crc = crc_at(buf, 8 + u_length);
    Header {
        width: read_u32_be(&buf[8..12]),
        height: read_u32_be(&buf[12..16]),
        bit_depth: buf[16],
        color_space: buf[17],
        compression_method: buf[18],
        filter_method: buf[19],
        interlacing: buf[20],
        crc: crc,
    }
}

/// Why `buf` cannot be opened with [`new`], or `None` when it can.
pub fn header_error(buf: &[u8]) -> (r: Option<HeaderError>)
    ensures
        r == spec_file_error(buf@),
{
    if buf.len() < SIGNATURE_LENGTH {
        return Some(HeaderError::Truncated);
    }
    let rest = &buf[SIGNATURE_LENGTH..buf.len()];
    assert(rest@ =~= buf@.skip(SIGNATURE_LENGTH as int));
    if rest.len() < 4 {
        return Some(HeaderError::Truncated);
    }
    let length = read_u32_be(&rest[0..4]);
    assert(rest@.subrange(0, 4)[0] == rest@[0]);
    if length != 13 {
        return Some(HeaderError::BadLength(length));
    }
    if rest.len() < 8 {
        return Some(HeaderError::Truncated);
    }
    if !same_type(&rest[4..8], &CHUNK_TYPE_IHDR) {
        return Some(HeaderError::NotIhdr);
    }
    if rest.len() < CHUNK_HEADER_LENGTH {
        return Some(HeaderError::Truncated);
    }
    None
}

/// Opens a PNG file: decodes the `IHDR` chunk after the signature and keeps the bytes
/// after it. The signature itself is not checked here.
pub fn new(buf: &[u8]) -> (png: Png)
    requires
        spec_file_error(buf@) is None,
    ensures
        decodes_header(buf@.skip(SIGNATURE_LENGTH as int), png.header),
        png.content@ == buf@.skip((SIGNATURE_LENGTH + CHUNK_HEADER_LENGTH) as int),
{
    let header = decode_header(&buf[SIGNATURE_LENGTH..buf.len()]);
    assert(buf@.subrange(SIGNATURE_LENGTH as int, buf@.len() as int) =~= buf@.skip(
        SIGNATURE_LENGTH as int,
    ));
    let content = slice_to_vec(&buf[SIGNATURE_LENGTH + CHUNK_HEADER_LENGTH..buf.len()]);
    Png { header, content }
}

// ---------------------------------------------------------------------------------------
// Chunks
// ---------------------------------------------------------------------------------------
/// The kind of chunk that the four type bytes `t` name, if the reader knows it.
pub open spec fn spec_chunk_kind(t: Seq<u8>) -> Option<ChunkKind> {
    if t == CHUNK_TYPE_GAMA@ {
        Some(ChunkKind::Gama)
    } else if t == CHUNK_TYPE_COLOR_SPACE_INFORMATION@ {
        Some(ChunkKind::ColorSpaceInformation)
    } else if t == CHUNK_TYPE_PHYSICAL_DIMENSIONS@ {
        Some(ChunkKind::PhysicalDimensions)
    } else if t == CHUNK_TYPE_LAST_MODIFICATION_DATE@ {
        Some(ChunkKind::LastModificationDate)
    } else if t == CHUNK_TYPE_BACKGROUND_COLOR@ {
        Some(ChunkKind::BackgroundColor)
    } else if t == CHUNK_TYPE_TEXT@ {
        Some(ChunkKind::Text)
    } else if t == CHUNK_TYPE_IDAT@ {
        Some(ChunkKind::ImageData)
    } else if t == CHUNK_TYPE_END@ {
        Some(ChunkKind::End)
    } else {
        None
    }
}

/// The image data chunk whose `length` bytes of compressed data start `buf`, with `d` as
/// their decompressed form; the CRC is the four bytes after the data.
pub open spec fn image_data_model(buf: Seq<u8>, length: int, d: Seq<u8>) -> ChunkModel {
    ChunkModel::ImageData {
        cmf: buf[0],
        flg: buf[1],
        content: d,
        crc: buf.subrange(length, length + 4),
    }
}

/// Decoding a chunk of kind `kind` and data length `length` from `body`, the bytes that
/// follow its type field up to the end of the content: the data is the first `length`
/// bytes of `body` and the CRC the four bytes after it. Image data is the zlib
/// decompression of the data.
pub open spec fn spec_decode_chunk(kind: ChunkKind, body: Seq<u8>, length: int) -> Result<
    ChunkModel,
    ChunkError,
> {
    let fits = 0 <= length && length + 4 <= body.len();
    let crc = body.subrange(length, length + 4);
    match kind {
        ChunkKind::Gama => if fits && length >= 4 {
            Ok(ChunkModel::Gama { value: be_u32(body) as u32, crc })
        } else {
            Err(ChunkError::Malformed(kind))
        },
        ChunkKind::ColorSpaceInformation => if fits {
            Ok(ChunkModel::ColorSpaceInformation { content: body.take(length), crc })
        } else {
            Err(ChunkError::Malformed(kind))
        },
        ChunkKind::PhysicalDimensions => if fits && length >= 4 {
            Ok(ChunkModel::PhysicalDimensions { value: be_u32(body) as u32, crc })
        } else {
            Err(ChunkError::Malformed(kind))
        },
        ChunkKind::LastModificationDate => if fits {
            Ok(ChunkModel::LastModificationDate { value: body.take(length), crc })
        } else {
            Err(ChunkError::Malformed(kind))
        },
        ChunkKind::BackgroundColor => if fits {
            Ok(ChunkModel::BackgroundColor { value: body.take(length), crc })
        } else {
            Err(ChunkError::Malformed(kind))
        },
        ChunkKind::Text => if fits {
            Ok(ChunkModel::Text { content: body.take(length), crc })
        } else {
            Err(ChunkError::Malformed(kind))
        },
        ChunkKind::ImageData => if fits {
            Ok(image_data_model(body, length, zlib_inflated(body.take(length))))
        } else {
            Err(ChunkError::Malformed(kind))
        },
        ChunkKind::End => if fits {
            Ok(ChunkModel::End { crc })
        } else {
            Err(ChunkError::Malformed(kind))
        },
    }
}

/// The model of a decoding result.
pub open spec fn chunk_result_model(r: Result<Chunk, ChunkError>) -> Result<
    ChunkModel,
    ChunkError,
> {
    match r {
        Ok(c) => Ok(c@),
        Err(e) => Err(e),
    }
}

/// Decodes the gamma chunk whose data of `data_length` bytes starts `buf`.
pub fn decode_chunk_gama(buf: &[u8], data_length: usize) -> (chunk: Gama)
    requires
        4 <= data_length,
        data_length + CHUNK_CRC_SIZE <= buf@.len(),
    ensures
        chunk.value as int == be_u32(buf@),
        chunk.crc@ == buf@.subrange(data_length as int, data_length + CHUNK_CRC_SIZE),
{
    let crc = crc_at(buf, data_length);
    let value = read_u32_be(&buf[0..data_length]);
    Gama { value, crc }
}

/// Decodes the chromaticities chunk whose data of `data_length` bytes starts `buf`.
pub fn decode_chunk_color_space_information(buf: &[u8], data_length: usize) -> (chunk:
    ColorSpaceInformation)
    requires
        data_length + CHUNK_CRC_SIZE <= buf@.len(),
    ensures
        chunk.content@ == buf@.take(data_length as int),
        chunk.crc@ == buf@.subrange(data_length as int, data_length + CHUNK_CRC_SIZE),
{
    let crc = crc_at(buf, data_length);
    ColorSpaceInformation { content: slice_to_vec(&buf[0..data_length]), crc }
}

/// Decodes the physical dimensions chunk whose data of `data_length` bytes starts `buf`.
pub fn decode_chunk_physical_dimensions(buf: &[u8], data_length: usize) -> (chunk:
    PhysicalDimensions)
    requires
        4 <= data_length,
        data_length + CHUNK_CRC_SIZE <= buf@.len(),
    ensures
        chunk.value as int == be_u32(buf@),
        chunk.crc@ == buf@.subrange(data_length as int, data_length + CHUNK_CRC_SIZE),
{
    let crc = crc_at(buf, data_length);
    let value = read_u32_be(&buf[0..data_length]);
    PhysicalDimensions { value, crc }
}

/// Decodes the last modification time chunk whose data of `data_length` bytes starts `buf`.
pub fn decode_chunk_last_modification_date(buf: &[u8], data_length: usize) -> (chunk:
    LastModificationDate)
    requires
        data_length + CHUNK_CRC_SIZE <= buf@.len(),
    ensures
        chunk.value@ == buf@.take(data_length as int),
        chunk.crc@ == buf@.subrange(data_length as int, data_length + CHUNK_CRC_SIZE),
{
    let crc = crc_at(buf, data_length);
    LastModificationDate { value: slice_to_vec(&buf[0..data_length]), crc }
}

/// Decodes the background color chunk whose data of `data_length` bytes starts `buf`.
pub fn decode_chunk_background_color(buf: &[u8], data_length: usize) -> (chunk:
    BackgroundColor)
    requires
        data_length + CHUNK_CRC_SIZE <= buf@.len(),
    ensures
        chunk.value@ == buf@.take(data_length as int),
        chunk.crc@ == buf@.subrange(data_length as int, data_length + CHUNK_CRC_SIZE),
{
    let crc = crc_at(buf, data_length);
    BackgroundColor { value: slice_to_vec(&buf[0..data_length]), crc }
}

/// Decodes the text chunk whose data of `data_length` bytes starts `buf`.
pub fn decode_chunk_text(buf: &[u8], data_length: usize) -> (chunk: Text)
    requires
        data_length + CHUNK_CRC_SIZE <= buf@.len(),
    ensures
        chunk.content@ == buf@.take(data_length as int),
        chunk.crc@ == buf@.subrange(data_length as int, data_length + CHUNK_CRC_SIZE),
{
    let crc = crc_at(buf, data_length);
    Text { content: slice_to_vec(&buf[0..data_length]), crc }
}

/// Decodes the end chunk, whose CRC follows its `data_length` bytes of data in `buf`.
pub fn decode_chunk_end(buf: &[u8], data_length: usize) -> (chunk: End)
    requires
        data_length + CHUNK_CRC_SIZE <= buf@.len(),
    ensures
        chunk.crc@ == buf@.subrange(data_length as int, data_length + CHUNK_CRC_SIZE),
{
    End { crc: crc_at(buf, data_length) }
}

/// Builds the image data chunk whose `data_length` bytes of compressed data start `buf`,
/// from `decompressed`, their decompressed form.
pub fn image_data_from(buf: &[u8], data_length: usize, decompressed: Vec<u8>) -> (chunk:
    ImageData)
    requires
        data_length + CHUNK_CRC_SIZE <= buf@.len(),
    ensures
        Chunk::ImageData(chunk)@ == image_data_model(buf@, data_length as int, decompressed@),
{
    let crc = crc_at(buf, data_length);
    ImageData { cmf: buf[0], flg: buf[1], content: decompressed, crc }
}

/// Decodes an image data chunk whose `data_length` bytes of data, a zlib stream, start
/// `buf`, followed by the CRC: the data is decompressed.
pub fn decode_chunk_image_data(buf: &[u8], data_length: usize) -> (chunk: ImageData)
    requires
        data_length + CHUNK_CRC_SIZE <= buf@.len(),
    ensures
        Chunk::ImageData(chunk)@ == image_data_model(
            buf@,
            data_length as int,
            zlib_inflated(buf@.take(data_length as int)),
        ),
{
    let data = &buf[0..data_length];
    assert(data@ =~= buf@.take(data_length as int));
    let decompressed = inflate_zlib(data);
    image_data_from(buf, data_length, decompressed)
}

/// The kind of chunk that the type bytes `t` name.
fn chunk_kind(t: &[u8]) -> (k: Option<ChunkKind>)
    requires
        t@.len() == 4,
    ensures
        k == spec_chunk_kind(t@),
{
    if same_type(t, &CHUNK_TYPE_GAMA) {
        Some(ChunkKind::Gama)
    } else if same_type(t, &CHUNK_TYPE_COLOR_SPACE_INFORMATION) {
        Some(ChunkKind::ColorSpaceInformation)
    } else if same_type(t, &CHUNK_TYPE_PHYSICAL_DIMENSIONS) {
        Some(ChunkKind::PhysicalDimensions)
    } else if same_type(t, &CHUNK_TYPE_LAST_MODIFICATION_DATE) {
        Some(ChunkKind::LastModificationDate)
    } else if same_type(t, &CHUNK_TYPE_BACKGROUND_COLOR) {
        Some(ChunkKind::BackgroundColor)
    } else if same_type(t, &CHUNK_TYPE_TEXT) {
        Some(ChunkKind::Text)
    } else if same_type(t, &CHUNK_TYPE_IDAT) {
        Some(ChunkKind::ImageData)
    } else if same_type(t, &CHUNK_TYPE_END) {
        Some(ChunkKind::End)
    } else {
        None
    }
}

/// Decodes a chunk of kind `kind`, where `body` holds the bytes after its type field.
fn decode_chunk(kind: ChunkKind, body: &[u8], data_length: usize) -> (r: Result<Chunk, ChunkError>)
    ensures
        chunk_result_model(r) == spec_decode_chunk(kind, body@, data_length as int),
{
    let fits = data_length <= body.len() && body.len() - data_length >= CHUNK_CRC_SIZE;
    match kind {
        ChunkKind::Gama => if fits && data_length >= 4 {
            let c = decode_chunk_gama(body, data_length);
            Ok(Chunk::Gama(c))
        } else {
            Err(ChunkError::Malformed(kind))
        },
        ChunkKind::ColorSpaceInformation => if fits {
            let c = decode_chunk_color_space_information(body, data_length);
            Ok(Chunk::ColorSpaceInformation(c))
        } else {
            Err(ChunkError::Malformed(kind))
        },
        ChunkKind::PhysicalDimensions => if fits && data_length >= 4 {
            let c = decode_chunk_physical_dimensions(body, data_length);
            Ok(Chunk::PhysicalDimensions(c))
        } else {
            Err(ChunkError::Malformed(kind))
        },
        ChunkKind::LastModificationDate => if fits {
            Ok(Chunk::LastModificationDate(decode_chunk_last_modification_date(body, data_length)))
        } else {
            Err(ChunkError::Malformed(kind))
        },
        ChunkKind::BackgroundColor => if fits {
            Ok(Chunk::BackgroundColor(decode_chunk_background_color(body, data_length)))
        } else {
            Err(ChunkError::Malformed(kind))
        },
        ChunkKind::Text => if fits {
            Ok(Chunk::Text(decode_chunk_text(body, data_length)))
        } else {
            Err(ChunkError::Malformed(kind))
        },
        ChunkKind::ImageData => if fits {
            Ok(Chunk::ImageData(decode_chunk_image_data(body, data_length)))
        } else {
            Err(ChunkError::Malformed(kind))
        },
        ChunkKind::End => if fits {
            Ok(Chunk::End(decode_chunk_end(body, data_length)))
        } else {
            Err(ChunkError::Malformed(kind))
        },
    }
}

// ---------------------------------------------------------------------------------------
// Walking the chunks
// ---------------------------------------------------------------------------------------
/// The data length that the length field at `offset` holds.
pub open spec fn length_at(content: Seq<u8>, offset: int) -> u32 {
    be_u32(content.subrange(offset, offset + 4)) as u32
}

/// Where the chunk at `offset` with data length `length` ends: after its length, type,
/// data and CRC fields.
pub open spec fn next_offset(offset: int, length: u32) -> int {
    offset + CHUNK_LENGTH_SIZE + CHUNK_TYPE_SIZE + length + CHUNK_CRC_SIZE
}

/// The walk over the chunks of `content` from `offset` on. Each chunk's length field is
/// read, then its type; a chunk of a known type is decoded from the bytes after its type.
/// The walk ends after an `IEND` chunk, or when a chunk ends exactly at the end of
/// `content`; when a chunk ends beyond it, the next length field is missing.
pub open spec fn spec_read_from(content: Seq<u8>, offset: int) -> ReadingModel
    decreases content.len() - offset,
{
    if offset < 0 || offset + CHUNK_LENGTH_SIZE > content.len() {
        (seq![], Some(ReadFailure::MissingLength))
    } else {
        let length = length_at(content, offset);
        if offset + CHUNK_LENGTH_SIZE + CHUNK_TYPE_SIZE > content.len() {
            (seq![], Some(ReadFailure::Chunk { length, error: ChunkError::MissingType }))
        } else {
            let t = content.subrange(offset + 4, offset + 8);
            match spec_chunk_kind(t) {
                None => (
                    seq![],
                    Some(
                        ReadFailure::Chunk {
                            length,
                            error: ChunkError::UnknownType(t[0], t[1], t[2], t[3]),
                        },
                    ),
                ),
                Some(kind) => match spec_decode_chunk(
                    kind,
                    content.subrange(offset + 8, content.len() as int),
                    length as int,
                ) {
                    Err(e) => (seq![], Some(ReadFailure::Chunk { length, error: e })),
                    Ok(c) => {
                        let next = next_offset(offset, length);
                        if kind == ChunkKind::End || next == content.len() {
                            (seq![(length, c)], None)
                        } else if next > content.len() {
                            (seq![(length, c)], Some(ReadFailure::MissingLength))
                        } else {
                            let rest = spec_read_from(content, next);
                            (seq![(length, c)] + rest.0, rest.1)
                        }
                    },
                },
            }
        }
    }
}

/// The walk over all chunks of `content`.
pub open spec fn spec_read(content: Seq<u8>) -> ReadingModel {
    spec_read_from(content, 0)
}

impl Png {
    /// Walks over the chunks after the header and decodes each one, in order; see
    /// [`spec_read_from`] for where the walk stops.
    pub fn read(&self) -> (r: Reading)
        ensures
            r@ == spec_read(self.content@),
    {
        let content: &[u8] = self.content.as_slice();
        let u_content_length: usize = content.len();
        let mut chunks: Vec<(u32, Chunk)> = Vec::new();
        let mut u_read: usize = 0;
        loop
            invariant
                content@ == self.content@,
                u_content_length == content@.len(),
                u_read <= u_content_length,
                spec_read(content@) == ({
                    let rest = spec_read_from(content@, u_read as int);
                    (chunk_models(chunks@) + rest.0, rest.1)
                }),
            decreases u_content_length - u_read,
        {
            let ghost models = chunk_models(chunks@);
            if u_content_length - u_read < CHUNK_LENGTH_SIZE {
                assert(models + seq![] =~= models);
                return Reading { chunks, failure: Some(ReadFailure::MissingLength) };
            }
            let chunk_length: u32 = read_u32_be(&content[u_read..u_read + CHUNK_LENGTH_SIZE]);
            if u_content_length - u_read < CHUNK_LENGTH_SIZE + CHUNK_TYPE_SIZE {
                assert(models + seq![] =~= models);
                return Reading {
                    chunks,
                    failure: Some(
                        ReadFailure::Chunk { length: chunk_length, error: ChunkError::MissingType },
                    ),
                };
            }
            let chunk_type: &[u8] = &content[u_read + CHUNK_LENGTH_SIZE..u_read
                + CHUNK_LENGTH_SIZE + CHUNK_TYPE_SIZE];
            let chunk_content: &[u8] = &content[u_read + CHUNK_LENGTH_SIZE
                + CHUNK_TYPE_SIZE..u_content_length];
            let kind = match chunk_kind(chunk_type) {
                Some(k) => k,
                None => {
                    assert(models + seq![] =~= models);
                    return Reading {
                        chunks,
                        failure: Some(
                            ReadFailure::Chunk {
                                length: chunk_length,
                                error: ChunkError::UnknownType(
                                    chunk_type[0],
                                    chunk_type[1],
                                    chunk_type[2],
                                    chunk_type[3],
                                ),
                            },
                        ),
                    };
                },
            };
            let u_chunk_length: usize = chunk_length as usize;
            let chunk = match decode_chunk(kind, chunk_content, u_chunk_length) {
                Ok(c) => c,
                Err(e) => {
                    assert(models + seq![] =~= models);
                    return Reading {
                        chunks,
                        failure: Some(ReadFailure::Chunk { length: chunk_length, error: e }),
                    };
                },
            };
            let ghost c_model = chunk@;
            chunks.push((chunk_length, chunk));
            assert(chunk_models(chunks@) =~= models + seq![(chunk_length, c_model)]);
            let remaining: usize = u_content_length - u_read - CHUNK_LENGTH_SIZE
                - CHUNK_TYPE_SIZE;
            if matches!(kind, ChunkKind::End) {
                return Reading { chunks, failure: None };
            }
            if u_chunk_length > remaining || remaining - u_chunk_length < CHUNK_CRC_SIZE {
                return Reading { chunks, failure: Some(ReadFailure::MissingLength) };
            }
            if remaining - u_chunk_length == CHUNK_CRC_SIZE {
                return Reading { chunks, failure: None };
            }
            u_read = u_read + CHUNK_LENGTH_SIZE + CHUNK_TYPE_SIZE + u_chunk_length
                + CHUNK_CRC_SIZE;
            proof {
                let rest = spec_read_from(content@, u_read as int);
                assert(models + seq![(chunk_length, c_model)] + rest.0 =~= models + (seq![
                    (chunk_length, c_model),
                ] + rest.0));
            }
        }
    }
}

} // verus!
