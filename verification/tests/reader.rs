use png_reader::gui::{update, Message};
use png_reader::is_png_file;
use png_reader::png::{
    decode_chunk_background_color, decode_chunk_color_space_information, decode_chunk_end,
    decode_chunk_gama, decode_chunk_image_data, decode_chunk_last_modification_date,
    decode_chunk_physical_dimensions, decode_chunk_text, header_error, image_data_from, new,
    BackgroundColor, Chunk, ChunkError, ChunkKind, ColorSpaceInformation, End, Gama, Header,
    HeaderError, ImageData, LastModificationDate, PhysicalDimensions, ReadFailure, Text,
    SIGNATURE,
};

use std::io::Write;

fn chunk(ty: &[u8; 4], data: &[u8], crc: [u8; 4]) -> Vec<u8> {
    let mut out = Vec::new();
    out.extend_from_slice(&(data.len() as u32).to_be_bytes());
    out.extend_from_slice(ty);
    out.extend_from_slice(data);
    out.extend_from_slice(&crc);
    out
}

fn ihdr() -> Vec<u8> {
    let data = [0, 0, 1, 0, 0, 0, 0, 0x80, 8, 6, 0, 0, 1];
    chunk(b"IHDR", &data, [0xde, 0xad, 0xbe, 0xef])
}

fn file_with(chunks: &[Vec<u8>]) -> Vec<u8> {
    let mut f = SIGNATURE.to_vec();
    f.extend(ihdr());
    for c in chunks {
        f.extend_from_slice(c);
    }
    f
}

fn zlib(data: &[u8]) -> Vec<u8> {
    let mut enc = flate2::write::ZlibEncoder::new(Vec::new(), flate2::Compression::best());
    enc.write_all(data).unwrap();
    enc.finish().unwrap()
}

#[test]
fn signature_is_recognized() {
    assert!(is_png_file(&SIGNATURE));
    assert!(is_png_file(&[0x89, 0x50, 0x4e, 0x47, 0x0d, 0x0a, 0x1a, 0x0a]));
}

#[test]
fn other_bytes_are_not_a_signature() {
    assert!(!is_png_file(&[0x89, 0x50, 0x4e, 0x47, 0x0d, 0x0a, 0x1a, 0x0b]));
    assert!(!is_png_file(&SIGNATURE[..7]));
    assert!(!is_png_file(&[]));
    let mut longer = SIGNATURE.to_vec();
    longer.push(0);
    assert!(!is_png_file(&longer));
}

#[test]
fn header_is_decoded() {
    let f = file_with(&[chunk(b"IEND", &[], [1, 2, 3, 4])]);
    assert_eq!(header_error(&f), None);
    let png = new(&f);
    assert_eq!(png.header.width, 256);
    assert_eq!(png.header.height, 128);
    assert_eq!(png.header.bit_depth, 8);
    assert_eq!(png.header.color_space, 6);
    assert_eq!(png.header.compression_method, 0);
    assert_eq!(png.header.filter_method, 0);
    assert_eq!(png.header.interlacing, 1);
    assert_eq!(png.header.crc, [0xde, 0xad, 0xbe, 0xef]);
    assert_eq!(png.content, chunk(b"IEND", &[], [1, 2, 3, 4]));
}

#[test]
fn header_errors() {
    assert_eq!(header_error(&SIGNATURE[..5]), Some(HeaderError::Truncated));
    let mut f = SIGNATURE.to_vec();
    f.extend_from_slice(&[0, 0, 0]);
    assert_eq!(header_error(&f), Some(HeaderError::Truncated));
    let mut f = SIGNATURE.to_vec();
    f.extend_from_slice(&[0, 0, 0, 12]);
    assert_eq!(header_error(&f), Some(HeaderError::BadLength(12)));
    let mut f = SIGNATURE.to_vec();
    f.extend_from_slice(&[0, 0, 0, 13, b'I', b'H']);
    assert_eq!(header_error(&f), Some(HeaderError::Truncated));
    let mut f = SIGNATURE.to_vec();
    f.extend(chunk(b"IHDX", &[0; 13], [0; 4]));
    assert_eq!(header_error(&f), Some(HeaderError::NotIhdr));
    let mut f = SIGNATURE.to_vec();
    f.extend(ihdr());
    f.pop();
    assert_eq!(header_error(&f), Some(HeaderError::Truncated));
    f.push(0);
    assert_eq!(header_error(&f), None);
}

#[test]
fn chunks_are_read_in_order() {
    let f = file_with(&[
        chunk(b"gAMA", &[0, 0, 0xb1, 0x8f], [9, 9, 9, 9]),
        chunk(b"tEXt", b"Title\0Hi", [1, 1, 1, 1]),
        chunk(b"pHYs", &[0, 0, 0x0b, 0x13, 0, 0, 0x0b, 0x13, 1], [2, 2, 2, 2]),
        chunk(b"IEND", &[], [0xae, 0x42, 0x60, 0x82]),
    ]);
    let r = new(&f).read();
    assert_eq!(r.failure, None);
    assert_eq!(r.chunks.len(), 4);
    assert_eq!(r.chunks[0].0, 4);
    match &r.chunks[0].1 {
        Chunk::Gama(g) => {
            assert_eq!(g.value, 45455);
            assert_eq!(g.crc, [9, 9, 9, 9]);
        }
        _ => panic!("expected gAMA"),
    }
    match &r.chunks[1].1 {
        Chunk::Text(t) => {
            assert_eq!(t.content, b"Title\0Hi".to_vec());
            assert_eq!(t.crc, [1, 1, 1, 1]);
        }
        _ => panic!("expected tEXt"),
    }
    assert_eq!(r.chunks[2].0, 9);
    match &r.chunks[2].1 {
        Chunk::PhysicalDimensions(p) => assert_eq!(p.value, 2835),
        _ => panic!("expected pHYs"),
    }
    match &r.chunks[3].1 {
        Chunk::End(e) => assert_eq!(e.crc, [0xae, 0x42, 0x60, 0x82]),
        _ => panic!("expected IEND"),
    }
}

#[test]
fn bytes_after_end_are_ignored() {
    let mut f = file_with(&[
        chunk(b"bKGD", &[0, 255], [3, 3, 3, 3]),
        chunk(b"IEND", &[], [4, 4, 4, 4]),
    ]);
    f.extend_from_slice(&[1, 2, 3]);
    let r = new(&f).read();
    assert_eq!(r.failure, None);
    assert_eq!(r.chunks.len(), 2);
    match &r.chunks[0].1 {
        Chunk::BackgroundColor(b) => assert_eq!(b.value, vec![0, 255]),
        _ => panic!("expected bKGD"),
    }
}

#[test]
fn walk_ends_at_end_of_content_without_iend() {
    let f = file_with(&[
        chunk(b"cHRM", &[7; 32], [5, 5, 5, 5]),
        chunk(b"tIME", &[7, 0xe8, 1, 2, 3, 4, 5], [6, 6, 6, 6]),
    ]);
    let r = new(&f).read();
    assert_eq!(r.failure, None);
    assert_eq!(r.chunks.len(), 2);
    match &r.chunks[0].1 {
        Chunk::ColorSpaceInformation(c) => assert_eq!(c.content, vec![7; 32]),
        _ => panic!("expected cHRM"),
    }
    match &r.chunks[1].1 {
        Chunk::LastModificationDate(t) => {
            assert_eq!(t.value, vec![7, 0xe8, 1, 2, 3, 4, 5]);
            assert_eq!(t.crc, [6, 6, 6, 6]);
        }
        _ => panic!("expected tIME"),
    }
}

#[test]
fn empty_content_misses_a_length() {
    let f = file_with(&[]);
    let r = new(&f).read();
    assert!(r.chunks.is_empty());
    assert_eq!(r.failure, Some(ReadFailure::MissingLength));
}

#[test]
fn a_chunk_ending_past_the_content_is_followed_by_a_missing_length() {
    let mut c = chunk(b"tEXt", b"abc", [1, 2, 3, 4]);
    c.extend_from_slice(&[0, 0]);
    let f = file_with(&[c]);
    let r = new(&f).read();
    assert_eq!(r.chunks.len(), 1);
    assert_eq!(r.failure, Some(ReadFailure::MissingLength));
}

#[test]
fn a_truncated_type_is_reported_with_the_length() {
    let f = file_with(&[vec![0, 0, 0, 5, b'I', b'E']]);
    let r = new(&f).read();
    assert!(r.chunks.is_empty());
    assert_eq!(r.failure, Some(ReadFailure::Chunk { length: 5, error: ChunkError::MissingType }));
}

#[test]
fn an_unknown_type_stops_the_walk() {
    let f = file_with(&[
        chunk(b"gAMA", &[0, 0, 0, 1], [0; 4]),
        chunk(b"zzZZ", &[1], [0; 4]),
        chunk(b"IEND", &[], [0; 4]),
    ]);
    let r = new(&f).read();
    assert_eq!(r.chunks.len(), 1);
    assert_eq!(
        r.failure,
        Some(ReadFailure::Chunk { length: 1, error: ChunkError::UnknownType(b'z', b'z', b'Z', b'Z') })
    );
}

#[test]
fn a_short_gama_is_malformed() {
    let f = file_with(&[chunk(b"gAMA", &[0, 1], [0; 4]), chunk(b"IEND", &[], [0; 4])]);
    let r = new(&f).read();
    assert!(r.chunks.is_empty());
    assert_eq!(
        r.failure,
        Some(ReadFailure::Chunk { length: 2, error: ChunkError::Malformed(ChunkKind::Gama) })
    );
}

#[test]
fn a_crc_past_the_content_is_malformed() {
    let mut c = chunk(b"IEND", &[], [0; 4]);
    c.truncate(10);
    let f = file_with(&[c]);
    let r = new(&f).read();
    assert!(r.chunks.is_empty());
    assert_eq!(
        r.failure,
        Some(ReadFailure::Chunk { length: 0, error: ChunkError::Malformed(ChunkKind::End) })
    );
}

#[test]
fn decoders_on_their_own() {
    let buf = [0, 0, 1, 0, 9, 8, 7, 6, 5];
    let g = decode_chunk_gama(&buf, 4);
    assert_eq!(g.value, 256);
    assert_eq!(g.crc, [9, 8, 7, 6]);
    let p = decode_chunk_physical_dimensions(&buf, 5);
    assert_eq!(p.value, 256);
    assert_eq!(p.crc, [8, 7, 6, 5]);
    let c = decode_chunk_color_space_information(&buf, 3);
    assert_eq!(c.content, vec![0, 0, 1]);
    assert_eq!(c.crc, [0, 9, 8, 7]);
    let t = decode_chunk_last_modification_date(&buf, 2);
    assert_eq!(t.value, vec![0, 0]);
    assert_eq!(t.crc, [1, 0, 9, 8]);
    let b = decode_chunk_background_color(&buf, 1);
    assert_eq!(b.value, vec![0]);
    assert_eq!(b.crc, [0, 1, 0, 9]);
    let x = decode_chunk_text(&buf, 5);
    assert_eq!(x.content, vec![0, 0, 1, 0, 9]);
    let e = decode_chunk_end(&buf, 0);
    assert_eq!(e.crc, [0, 0, 1, 0]);
}

#[test]
fn update_counts_one_more() {
    let mut counter = 41u64;
    update(&mut counter, Message::Increment);
    assert_eq!(counter, 42);
    update(&mut counter, Message::Increment);
    assert_eq!(counter, 43);
}

#[test]
fn nothing_after_the_first_end_is_read() {
    let f = file_with(&[
        chunk(b"tEXt", b"a", [0; 4]),
        chunk(b"IEND", &[], [1; 4]),
        chunk(b"gAMA", &[0, 0, 0, 2], [2; 4]),
        chunk(b"IEND", &[], [3; 4]),
    ]);
    let r = new(&f).read();
    assert_eq!(r.failure, None);
    assert_eq!(r.chunks.len(), 2);
    match &r.chunks[1].1 {
        Chunk::End(e) => assert_eq!(e.crc, [1; 4]),
        _ => panic!("expected IEND"),
    }
}

#[test]
fn image_data_is_decompressed() {
    let raw: Vec<u8> = (0u8..100).collect();
    let z = zlib(&raw);
    let f = file_with(&[chunk(b"IDAT", &z, [0xa, 0xb, 0xc, 0xd]), chunk(b"IEND", &[], [7; 4])]);
    let r = new(&f).read();
    assert_eq!(r.failure, None);
    assert_eq!(r.chunks.len(), 2);
    assert_eq!(r.chunks[0].0 as usize, z.len());
    match &r.chunks[0].1 {
        Chunk::ImageData(d) => {
            assert_eq!(d.cmf, 0x78);
            assert_eq!(d.flg, 0xda);
            assert_eq!(d.content, raw);
            assert_eq!(d.crc, [0xa, 0xb, 0xc, 0xd]);
        }
        _ => panic!("expected IDAT"),
    }
}

#[test]
fn short_image_data_keeps_the_chunk_crc() {
    let z = zlib(b"ab");
    let f = file_with(&[chunk(b"IDAT", &z, [1, 2, 3, 4])]);
    let r = new(&f).read();
    assert_eq!(r.failure, None);
    match &r.chunks[0].1 {
        Chunk::ImageData(d) => {
            assert_eq!(d.content, b"ab".to_vec());
            assert_eq!(d.crc, [1, 2, 3, 4]);
        }
        _ => panic!("expected IDAT"),
    }
}

#[test]
fn image_data_without_room_for_a_crc_is_malformed() {
    let f = file_with(&[vec![0, 0, 0, 0, b'I', b'D', b'A', b'T', 0x78]]);
    let r = new(&f).read();
    assert_eq!(
        r.failure,
        Some(ReadFailure::Chunk { length: 0, error: ChunkError::Malformed(ChunkKind::ImageData) })
    );
}

#[test]
fn image_data_from_decompressed_bytes() {
    let buf = [0x78, 0x01, 0xaa, 1, 2, 3, 4, 9];
    let d = image_data_from(&buf, 3, vec![5, 6]);
    assert_eq!(d.cmf, 0x78);
    assert_eq!(d.flg, 0x01);
    assert_eq!(d.content, vec![5, 6]);
    assert_eq!(d.crc, [1, 2, 3, 4]);
}

#[test]
fn decode_chunk_image_data_inflates_only_its_data() {
    let z = zlib(b"0123456789");
    let mut buf = z.clone();
    buf.extend_from_slice(&[0xc0, 0xc1, 0xc2, 0xc3]);
    buf.extend(zlib(b"other stream"));
    let d = decode_chunk_image_data(&buf, z.len());
    assert_eq!(d.content, b"0123456789".to_vec());
    assert_eq!(d.crc, [0xc0, 0xc1, 0xc2, 0xc3]);
}

#[test]
fn walk_examines_few_chunks() {
    let f = file_with(&[
        chunk(b"tEXt", b"", [0; 4]),
        chunk(b"tEXt", b"", [0; 4]),
        chunk(b"tEXt", b"", [0; 4]),
    ]);
    let p = new(&f);
    let r = p.read();
    assert_eq!(r.chunks.len(), 3);
    assert!(r.chunks.len() <= p.content.len() / 12 + 1);
}

#[test]
fn bytes_after_iend_change_nothing_even_after_image_data() {
    let z = zlib(b"pixels");
    let base = [chunk(b"IDAT", &z, [1; 4]), chunk(b"IEND", &[], [2; 4])];
    let mut f1 = file_with(&base);
    let mut f2 = file_with(&base);
    f1.extend_from_slice(b"garbage");
    f2.extend(chunk(b"zzzz", &[1, 2], [0; 4]));
    let r1 = new(&f1).read();
    let r2 = new(&f2).read();
    assert_eq!(r1.failure, None);
    assert_eq!(r2.failure, None);
    assert_eq!(r1.chunks.len(), 2);
    assert_eq!(r2.chunks.len(), 2);
    match (&r1.chunks[0].1, &r2.chunks[0].1) {
        (Chunk::ImageData(a), Chunk::ImageData(b)) => {
            assert_eq!(a.content, b"pixels".to_vec());
            assert_eq!(a.content, b.content);
            assert_eq!(a.crc, b.crc);
        }
        _ => panic!("expected IDAT"),
    }
}

#[test]
fn counter_counts_increments_from_zero() {
    let mut counter = 0u64;
    for _ in 0..1000 {
        update(&mut counter, Message::Increment);
    }
    assert_eq!(counter, 1000);
}

#[test]
fn header_renders_like_the_printed_header() {
    let h = Header {
        width: 256,
        height: 128,
        bit_depth: 8,
        color_space: 6,
        compression_method: 0,
        filter_method: 0,
        interlacing: 1,
        crc: [222, 173, 190, 239],
    };
    assert_eq!(
        h.to_string(),
        "## Header\nWidth: 256\nLength: 128\nBit depth: 8\nColor space: 6\nCompression method: 0\nFilter method: 0\nInterlacing: 1\nCRC: [222, 173, 190, 239]"
    );
}

#[test]
fn chunks_render_like_debug_formatting() {
    let crc = [0u8, 7, 10, 255];
    assert_eq!(
        Gama { value: 45455, crc }.to_string(),
        format!("## Gama\nValue: {}\nCRC: {:?}", 45455, crc)
    );
    assert_eq!(
        PhysicalDimensions { value: 4294967295, crc }.to_string(),
        format!("## Phisical dimensions\nValue: {}\nCRC: {:?}", 4294967295u32, crc)
    );
    assert_eq!(
        ColorSpaceInformation { content: vec![1, 2], crc }.to_string(),
        format!("## Color space information\nContent: TODO\nCRC: {:?}", crc)
    );
    let v = vec![7u8, 232, 1, 0, 100];
    assert_eq!(
        LastModificationDate { value: v.clone(), crc }.to_string(),
        format!("## Last modification date\nValue: {:?}\nCRC: {:?}", v, crc)
    );
    assert_eq!(
        BackgroundColor { value: vec![], crc }.to_string(),
        "## Background color\nValue: []\nCRC: [0, 7, 10, 255]"
    );
    assert_eq!(
        ImageData { cmf: 0x78, flg: 0xda, content: vec![1], crc }.to_string(),
        format!("## Image data\nCRC: {:?}", crc)
    );
    assert_eq!(End { crc }.to_string(), "## End\nCRC: [0, 7, 10, 255]");
}

#[test]
fn text_renders_its_utf8_content() {
    let t = Text { content: "Title\0h\u{e9}llo \u{1f600}".as_bytes().to_vec(), crc: [1, 2, 3, 4] };
    assert!(t.content_is_utf8());
    assert_eq!(
        t.to_string(),
        "## Text\nContent: Title\0h\u{e9}llo \u{1f600}\nCRC: [1, 2, 3, 4]"
    );
    let bad = Text { content: vec![0xff, 0x41], crc: [0; 4] };
    assert!(!bad.content_is_utf8());
}
