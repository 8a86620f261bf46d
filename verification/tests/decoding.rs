use png_parser::document::{decode_image_data, DocumentBuilder, ImageDocument};
use png_parser::chunk::ChunkKind;
use png_parser::error::{DecodeError, ErrorKind};
use png_parser::header::{ColorType, PhysParam, PngParam};
use png_parser::parser::{decode, PngParser};
use png_parser::pixel::Pixel;

const SIGNATURE: [u8; 8] = [137, 80, 78, 71, 13, 10, 26, 10];

fn chunk(type_code: &[u8; 4], body: &[u8]) -> Vec<u8> {
    let mut covered = type_code.to_vec();
    covered.extend_from_slice(body);
    let mut out = (body.len() as u32).to_be_bytes().to_vec();
    out.extend_from_slice(&covered);
    out.extend_from_slice(&crc32fast::hash(&covered).to_be_bytes());
    out
}

fn header_body(width: u32, height: u32, depth: u8, color_type: u8, interlace: u8) -> Vec<u8> {
    let mut body = Vec::new();
    body.extend_from_slice(&width.to_be_bytes());
    body.extend_from_slice(&height.to_be_bytes());
    body.extend_from_slice(&[depth, color_type, 0, 0, interlace]);
    body
}

fn ihdr(width: u32, height: u32, depth: u8, color_type: u8) -> Vec<u8> {
    chunk(b"IHDR", &header_body(width, height, depth, color_type, 0))
}

fn zlib(data: &[u8]) -> Vec<u8> {
    let mut encoder =
        flate2::write::ZlibEncoder::new(Vec::new(), flate2::Compression::default());
    std::io::Write::write_all(&mut encoder, data).unwrap();
    encoder.finish().unwrap()
}

fn idat(lines: &[u8]) -> Vec<u8> {
    chunk(b"IDAT", &zlib(lines))
}

fn iend() -> Vec<u8> {
    chunk(b"IEND", b"")
}

fn stream(chunks: &[Vec<u8>]) -> Vec<u8> {
    let mut out = SIGNATURE.to_vec();
    for c in chunks {
        out.extend_from_slice(c);
    }
    out
}

fn px(r: u8, g: u8, b: u8, a: u8) -> Pixel {
    Pixel { r, g, b, a }
}

fn one_pixel() -> Vec<u8> {
    stream(&[ihdr(1, 1, 8, 6), idat(&[0, 10, 20, 30, 40]), iend()])
}

fn decode_err(bytes: Vec<u8>) -> DecodeError {
    decode(bytes).unwrap_err()
}

#[test]
fn should_be_run() {
    let mut parser = PngParser::new(one_pixel()).unwrap();
    parser.parse().unwrap();
}

#[test]
fn one_pixel_of_truecolour_with_alpha() {
    let document = decode(one_pixel()).unwrap();
    assert_eq!(document.pixels.data, vec![px(10, 20, 30, 40)]);
    assert_eq!(document.pixels.width, 1);
    assert_eq!(document.pixels.height, 1);
    assert_eq!(document.header.width, 1);
    assert_eq!(document.header.height, 1);
    assert_eq!(document.header.depth, 8);
    assert_eq!(document.header.color_type, ColorType::TrueColorAlpha);
    assert_eq!(document.phys, None);
    assert_eq!(document.profile, None);
}

#[test]
fn parser_gives_what_decode_gives() {
    let mut parser = PngParser::new(one_pixel()).unwrap();
    let document = parser.parse().unwrap();
    assert_eq!(document.pixels.data, decode(one_pixel()).unwrap().pixels.data);
}

#[test]
fn decoding_twice_gives_the_same_pixels() {
    let bytes = stream(&[
        ihdr(3, 2, 8, 2),
        idat(&[1, 1, 2, 3, 4, 5, 6, 7, 8, 9, 4, 1, 1, 1, 2, 2, 2, 3, 3, 3]),
        iend(),
    ]);
    let first = decode(bytes.clone()).unwrap();
    let second = decode(bytes).unwrap();
    assert_eq!(first.pixels.data, second.pixels.data);
    assert_eq!(first.header, second.header);
}

#[test]
fn filters_are_undone_across_rows() {
    // 2 x 3 pixels of 8-bit grey: Sub, then Up, then Paeth.
    let bytes = stream(&[ihdr(2, 3, 8, 0), idat(&[1, 5, 5, 2, 1, 1, 4, 1, 1]), iend()]);
    let document = decode(bytes).unwrap();
    let greys: Vec<u8> = document.pixels.data.iter().map(|p| p.r).collect();
    assert_eq!(greys, vec![5, 10, 6, 11, 7, 12]);
    assert!(document.pixels.data.iter().all(|p| p.r == p.g && p.g == p.b && p.a == 255));
}

#[test]
fn up_on_the_first_row_decodes_as_none() {
    let up = stream(&[ihdr(2, 1, 8, 6), idat(&[2, 1, 2, 3, 4, 5, 6, 7, 8]), iend()]);
    let none = stream(&[ihdr(2, 1, 8, 6), idat(&[0, 1, 2, 3, 4, 5, 6, 7, 8]), iend()]);
    let pixels = decode(up).unwrap().pixels.data;
    assert_eq!(pixels, decode(none).unwrap().pixels.data);
    assert_eq!(pixels, vec![px(1, 2, 3, 4), px(5, 6, 7, 8)]);
}

#[test]
fn image_data_chunks_are_strung_together() {
    let compressed = zlib(&[0, 10, 20, 30, 40]);
    for cut in 0..=compressed.len() {
        let bytes = stream(&[
            ihdr(1, 1, 8, 6),
            chunk(b"IDAT", &compressed[..cut]),
            chunk(b"IDAT", &compressed[cut..]),
            iend(),
        ]);
        assert_eq!(decode(bytes).unwrap().pixels.data, vec![px(10, 20, 30, 40)]);
    }
}

#[test]
fn indexed_image_with_palette() {
    let bytes = stream(&[
        ihdr(2, 1, 8, 3),
        chunk(b"PLTE", &[1, 2, 3, 4, 5, 6]),
        idat(&[0, 1, 0]),
        iend(),
    ]);
    assert_eq!(decode(bytes).unwrap().pixels.data, vec![px(4, 5, 6, 255), px(1, 2, 3, 255)]);
}

#[test]
fn a_later_palette_replaces_an_earlier_one() {
    let bytes = stream(&[
        ihdr(1, 1, 8, 3),
        chunk(b"PLTE", &[1, 2, 3]),
        chunk(b"PLTE", &[7, 8, 9]),
        idat(&[0, 0]),
        iend(),
    ]);
    assert_eq!(decode(bytes).unwrap().pixels.data, vec![px(7, 8, 9, 255)]);
}

#[test]
fn physical_dimensions_and_profile_are_kept() {
    let profile = b"name\0\0not looked at".to_vec();
    let bytes = stream(&[
        ihdr(1, 1, 8, 6),
        chunk(b"pHYs", &[0, 0, 0x0B, 0x13, 0, 0, 0x0B, 0x13, 1]),
        chunk(b"iCCP", &profile),
        idat(&[0, 10, 20, 30, 40]),
        iend(),
    ]);
    let document = decode(bytes).unwrap();
    assert_eq!(
        document.phys,
        Some(PhysParam { x_pixels_per_unit: 2835, y_pixels_per_unit: 2835, unit_specifier: 1 })
    );
    assert_eq!(document.profile, Some(profile));
    assert_eq!(document.pixels.data, vec![px(10, 20, 30, 40)]);
}

#[test]
fn unknown_ancillary_chunks_are_skipped() {
    let bytes = stream(&[
        ihdr(1, 1, 8, 6),
        chunk(b"sRGB", &[0]),
        chunk(b"tEXt", b"Comment\0hello"),
        idat(&[0, 10, 20, 30, 40]),
        chunk(b"iDOT", &[1, 2, 3]),
        iend(),
    ]);
    assert_eq!(decode(bytes).unwrap().pixels.data, vec![px(10, 20, 30, 40)]);
}

#[test]
fn bytes_after_the_end_chunk_are_not_read() {
    let mut bytes = one_pixel();
    bytes.extend_from_slice(&[1, 2, 3]);
    assert_eq!(decode(bytes).unwrap().pixels.data, vec![px(10, 20, 30, 40)]);
}

#[test]
fn invalid_signature() {
    assert_eq!(decode_err(Vec::new()), DecodeError::InvalidSignature);
    assert_eq!(decode_err(SIGNATURE[..7].to_vec()), DecodeError::InvalidSignature);
    let mut bytes = one_pixel();
    bytes[0] = 136;
    assert_eq!(decode_err(bytes), DecodeError::InvalidSignature);
    for at in 0..8 {
        let mut bytes = one_pixel();
        bytes[at] ^= 0x20;
        assert_eq!(PngParser::new(bytes).unwrap_err(), DecodeError::InvalidSignature);
    }
    assert_eq!(DecodeError::InvalidSignature.kind(), ErrorKind::Format);
}

#[test]
fn width_zero_fails_before_image_data_is_looked_at() {
    let bytes = stream(&[
        chunk(b"IHDR", &header_body(0, 1, 8, 6, 0)),
        chunk(b"IDAT", b"this is no zlib stream"),
        iend(),
    ]);
    assert_eq!(decode_err(bytes), DecodeError::InvalidDimensions);
    let alone = stream(&[chunk(b"IHDR", &header_body(0, 1, 8, 6, 0))]);
    assert_eq!(decode_err(alone), DecodeError::InvalidDimensions);
    let height = stream(&[chunk(b"IHDR", &header_body(1, 0, 8, 6, 0)), iend()]);
    assert_eq!(decode_err(height), DecodeError::InvalidDimensions);
}

#[test]
fn indexed_image_without_palette() {
    let bytes = stream(&[ihdr(1, 1, 8, 3), idat(&[0, 0]), iend()]);
    assert_eq!(decode_err(bytes), DecodeError::MissingPalette);
    let no_data = stream(&[ihdr(1, 1, 8, 3), iend()]);
    assert_eq!(decode_err(no_data), DecodeError::MissingPalette);
    let late = stream(&[ihdr(1, 1, 8, 3), idat(&[0, 0]), chunk(b"PLTE", &[1, 2, 3]), iend()]);
    assert_eq!(decode_err(late), DecodeError::MissingPalette);
}

#[test]
fn indexed_image_with_short_palette() {
    let bytes = stream(&[ihdr(1, 1, 8, 3), chunk(b"PLTE", &[1, 2, 3]), idat(&[0, 1]), iend()]);
    assert_eq!(decode_err(bytes), DecodeError::MissingPalette);
}

#[test]
fn truncated_streams() {
    let whole = one_pixel();
    for cut in 8..whole.len() {
        assert_eq!(decode_err(whole[..cut].to_vec()), DecodeError::TruncatedStream);
    }
    let no_end = stream(&[ihdr(1, 1, 8, 6), idat(&[0, 10, 20, 30, 40])]);
    assert_eq!(decode_err(no_end), DecodeError::TruncatedStream);
    assert_eq!(decode_err(SIGNATURE.to_vec()), DecodeError::TruncatedStream);
    let short_header = stream(&[chunk(b"IHDR", &[0, 0, 0, 1, 0, 0, 0, 1, 8, 6, 0, 0]), iend()]);
    assert_eq!(decode_err(short_header), DecodeError::TruncatedStream);
    let short_phys = stream(&[ihdr(1, 1, 8, 6), chunk(b"pHYs", &[0, 0, 0, 1]), iend()]);
    assert_eq!(decode_err(short_phys), DecodeError::TruncatedStream);
}

#[test]
fn damaged_chunk() {
    let whole = one_pixel();
    // The header chunk takes bytes 8..33: its type and body are bytes 12..29.
    for at in 12..29 {
        let mut bytes = whole.clone();
        bytes[at] ^= 0x04;
        match decode_err(bytes) {
            DecodeError::CrcMismatch { expected, computed } => assert_ne!(expected, computed),
            other => panic!("byte {}: {:?}", at, other),
        }
    }
    let mut bytes = whole.clone();
    let last = bytes.len() - 1;
    bytes[last] ^= 1;
    assert_eq!(
        decode_err(bytes),
        DecodeError::CrcMismatch { expected: 0xAE42_6083, computed: 0xAE42_6082 }
    );
}

#[test]
fn header_must_come_first_and_once() {
    let data_first = stream(&[idat(&[0, 10, 20, 30, 40]), ihdr(1, 1, 8, 6), iend()]);
    assert_eq!(decode_err(data_first), DecodeError::HeaderOutOfOrder);
    let end_first = stream(&[iend()]);
    assert_eq!(decode_err(end_first), DecodeError::HeaderOutOfOrder);
    let text_first = stream(&[chunk(b"tEXt", b"a\0b"), ihdr(1, 1, 8, 6), iend()]);
    assert_eq!(decode_err(text_first), DecodeError::HeaderOutOfOrder);
    let unknown_first = stream(&[chunk(b"ABCD", b""), ihdr(1, 1, 8, 6), iend()]);
    assert_eq!(decode_err(unknown_first), DecodeError::HeaderOutOfOrder);
    let twice = stream(&[ihdr(1, 1, 8, 6), ihdr(1, 1, 8, 6), idat(&[0, 10, 20, 30, 40]), iend()]);
    assert_eq!(decode_err(twice), DecodeError::HeaderOutOfOrder);
}

#[test]
fn palette_after_image_data() {
    let bytes = stream(&[
        ihdr(1, 1, 8, 2),
        idat(&[0, 10, 20, 30]),
        chunk(b"PLTE", &[1, 2, 3]),
        iend(),
    ]);
    assert_eq!(decode_err(bytes), DecodeError::PaletteOutOfOrder);
    let before = stream(&[
        ihdr(1, 1, 8, 2),
        chunk(b"PLTE", &[1, 2, 3]),
        idat(&[0, 10, 20, 30]),
        iend(),
    ]);
    assert_eq!(decode(before).unwrap().pixels.data, vec![px(10, 20, 30, 255)]);
}

#[test]
fn unknown_critical_chunk() {
    let bytes = stream(&[ihdr(1, 1, 8, 6), chunk(b"ABCD", &[1]), idat(&[0, 10, 20, 30, 40]), iend()]);
    assert_eq!(decode_err(bytes), DecodeError::UnsupportedCriticalChunk);
}

#[test]
fn corrupt_image_data() {
    let garbage = stream(&[ihdr(1, 1, 8, 6), chunk(b"IDAT", b"this is no zlib stream"), iend()]);
    assert_eq!(decode_err(garbage), DecodeError::CompressedStreamCorrupt);
    let compressed = zlib(&[0, 10, 20, 30, 40]);
    let cut = stream(&[ihdr(1, 1, 8, 6), chunk(b"IDAT", &compressed[..compressed.len() / 2]), iend()]);
    assert_eq!(decode_err(cut), DecodeError::CompressedStreamCorrupt);
    let none = stream(&[ihdr(1, 1, 8, 6), iend()]);
    assert_eq!(decode_err(none), DecodeError::CompressedStreamCorrupt);
    assert_eq!(DecodeError::CompressedStreamCorrupt.kind(), ErrorKind::Dependency);
}

#[test]
fn interlaced_image() {
    let bytes = stream(&[
        chunk(b"IHDR", &header_body(1, 1, 8, 6, 1)),
        idat(&[0, 10, 20, 30, 40]),
        iend(),
    ]);
    assert_eq!(decode_err(bytes), DecodeError::UnsupportedInterlacing);
    let garbage = stream(&[
        chunk(b"IHDR", &header_body(1, 1, 8, 6, 1)),
        chunk(b"IDAT", b"this is no zlib stream"),
        iend(),
    ]);
    assert_eq!(decode_err(garbage), DecodeError::UnsupportedInterlacing);
}

#[test]
fn unknown_filter_type() {
    let bytes = stream(&[ihdr(1, 2, 8, 6), idat(&[0, 10, 20, 30, 40, 5, 1, 1, 1, 1]), iend()]);
    assert_eq!(decode_err(bytes), DecodeError::InvalidFilterType);
}

#[test]
fn image_data_of_the_wrong_length() {
    let short = stream(&[ihdr(1, 2, 8, 6), idat(&[0, 10, 20, 30, 40]), iend()]);
    assert_eq!(decode_err(short), DecodeError::ScanlineLengthMismatch);
    let long = stream(&[ihdr(1, 1, 8, 6), idat(&[0, 10, 20, 30, 40, 0]), iend()]);
    assert_eq!(decode_err(long), DecodeError::ScanlineLengthMismatch);
    let empty = stream(&[ihdr(1, 1, 8, 6), idat(&[]), iend()]);
    assert_eq!(decode_err(empty), DecodeError::ScanlineLengthMismatch);
}

#[test]
fn a_failed_parse_can_be_asked_again() {
    let bytes = stream(&[ihdr(1, 1, 8, 6), chunk(b"ABCD", &[1]), iend()]);
    let mut parser = PngParser::new(bytes).unwrap();
    assert_eq!(parser.parse().unwrap_err(), DecodeError::UnsupportedCriticalChunk);
    assert_eq!(parser.parse().unwrap_err(), DecodeError::UnsupportedCriticalChunk);
}

#[test]
fn a_finished_parser_has_nothing_left() {
    let mut parser = PngParser::new(one_pixel()).unwrap();
    assert!(parser.parse().is_ok());
    assert_eq!(parser.parse().unwrap_err(), DecodeError::TruncatedStream);
}

#[test]
fn builder_takes_chunks_in_order() {
    let mut builder = DocumentBuilder::new();
    assert_eq!(builder.apply(ChunkKind::Data, &[1]), Err(DecodeError::HeaderOutOfOrder));
    assert_eq!(builder.parse_iend_block().unwrap_err(), DecodeError::HeaderOutOfOrder);
    assert_eq!(builder.apply(ChunkKind::Header, &header_body(1, 1, 8, 6, 0)), Ok(()));
    assert_eq!(
        builder.apply(ChunkKind::Header, &header_body(1, 1, 8, 6, 0)),
        Err(DecodeError::HeaderOutOfOrder)
    );
    assert_eq!(builder.apply(ChunkKind::Ancillary, &[1, 2]), Ok(()));
    assert_eq!(builder.apply(ChunkKind::Critical, &[]), Err(DecodeError::UnsupportedCriticalChunk));
    let compressed = zlib(&[0, 10, 20, 30, 40]);
    assert_eq!(builder.apply(ChunkKind::Data, &compressed[..3]), Ok(()));
    assert_eq!(builder.apply(ChunkKind::Data, &compressed[3..]), Ok(()));
    assert_eq!(builder.apply(ChunkKind::Palette, &[1, 2, 3]), Err(DecodeError::PaletteOutOfOrder));
    let document: ImageDocument = builder.parse_iend_block().unwrap();
    assert_eq!(document.pixels.data, vec![px(10, 20, 30, 40)]);
}

#[test]
fn pixels_from_decompressed_data() {
    let params = PngParam::new(&header_body(2, 1, 8, 0, 0)).unwrap();
    let buffer = decode_image_data(&params, None, Some(vec![1, 7, 1])).unwrap();
    assert_eq!(buffer.data, vec![px(7, 7, 7, 255), px(8, 8, 8, 255)]);
    assert_eq!(
        decode_image_data(&params, None, None).unwrap_err(),
        DecodeError::CompressedStreamCorrupt
    );
    assert_eq!(
        decode_image_data(&params, None, Some(vec![1, 7])).unwrap_err(),
        DecodeError::ScanlineLengthMismatch
    );
    assert_eq!(
        decode_image_data(&params, None, Some(vec![9, 7, 1])).unwrap_err(),
        DecodeError::InvalidFilterType
    );
    let indexed = PngParam::new(&header_body(1, 1, 8, 3, 0)).unwrap();
    assert_eq!(
        decode_image_data(&indexed, None, None).unwrap_err(),
        DecodeError::MissingPalette
    );
    let interlaced = PngParam::new(&header_body(1, 1, 8, 3, 1)).unwrap();
    assert_eq!(
        decode_image_data(&interlaced, None, None).unwrap_err(),
        DecodeError::UnsupportedInterlacing
    );
}
