use imgstruct::analyzer::{analyze, get_supported_templates};
use imgstruct::formats::{ImageParser, ParseError};
use imgstruct::gif::GifParser;
use imgstruct::jpeg::JpegParser;
use imgstruct::png::PngParser;

fn png_bytes(w: u32, h: u32, depth: u8, color_type: u8) -> Vec<u8> {
    let mut v = vec![0x89u8, 0x50, 0x4E, 0x47, 0x0D, 0x0A, 0x1A, 0x0A];
    v.extend_from_slice(&[0, 0, 0, 13]);
    v.extend_from_slice(b"IHDR");
    v.extend_from_slice(&w.to_be_bytes());
    v.extend_from_slice(&h.to_be_bytes());
    v.push(depth);
    v.push(color_type);
    v.extend_from_slice(&[0, 0, 0]);
    v.extend_from_slice(&[0, 0, 0, 0]); // CRC
    v.extend_from_slice(&[0, 0, 0, 0]);
    v.extend_from_slice(b"IEND");
    v.extend_from_slice(&[0, 0, 0, 0]); // CRC
    v
}

#[test]
fn test_png_concrete_structure() {
    let data = png_bytes(1, 1, 8, 2);
    let res = analyze(data.clone(), Vec::new());
    assert_eq!(res.file_size, 45);
    assert_eq!(res.raw_preview, data);

    let st = res.structure.expect("PNG should parse");
    assert_eq!(st.format_name, "PNG");
    assert_eq!(st.dimensions, Some((1, 1)));
    assert_eq!(st.bit_depth, Some(8));
    assert_eq!(st.color_mode, "Truecolor");

    assert_eq!(st.chunks.len(), 3);
    assert_eq!(st.chunks[0].name, "Signature");
    assert_eq!(st.chunks[0].offset, 0);
    assert_eq!(st.chunks[0].total_size, 8);
    assert_eq!(st.chunks[1].name, "IHDR");
    assert_eq!(st.chunks[1].offset, 8);
    assert_eq!(st.chunks[1].length, 13);
    assert_eq!(st.chunks[1].total_size, 25);
    assert_eq!(st.chunks[1].description, "Dims: 1x1, Depth: 8, Type: Truecolor");
    assert_eq!(st.chunks[2].name, "IEND");
    assert_eq!(st.chunks[2].offset, 33);
    assert_eq!(st.chunks[2].length, 0);
    assert_eq!(st.chunks[2].total_size, 12);
}

#[test]
fn test_png_color_modes() {
    let cases = [
        (0u8, "Grayscale"),
        (2, "Truecolor"),
        (3, "Indexed"),
        (4, "Gray+Alpha"),
        (6, "RGBA"),
        (5, "Unknown"),
    ];
    for (ct, expected) in cases {
        let st = analyze(png_bytes(10, 20, 16, ct), Vec::new())
            .structure
            .expect("PNG should parse");
        assert_eq!(st.color_mode, expected);
        assert_eq!(st.dimensions, Some((10, 20)));
        assert_eq!(st.bit_depth, Some(16));
    }
}

#[test]
fn test_png_ancillary_chunks() {
    // signature + tEXt chunk of length 2 + IEND
    let mut data = vec![0x89u8, 0x50, 0x4E, 0x47, 0x0D, 0x0A, 0x1A, 0x0A];
    data.extend_from_slice(&[0, 0, 0, 2]);
    data.extend_from_slice(b"tEXt");
    data.extend_from_slice(&[0xAA, 0xBB]);
    data.extend_from_slice(&[0, 0, 0, 0]);
    data.extend_from_slice(&[0, 0, 0, 0]);
    data.extend_from_slice(b"IEND");
    data.extend_from_slice(&[0, 0, 0, 0]);

    let st = analyze(data, Vec::new()).structure.expect("PNG should parse");
    assert_eq!(st.chunks.len(), 3);
    assert_eq!(st.chunks[1].name, "tEXt");
    assert_eq!(st.chunks[1].description, "文本元数据");
    assert_eq!(st.chunks[1].total_size, 14);
    // no IHDR seen: header fields keep their defaults
    assert_eq!(st.dimensions, Some((0, 0)));
    assert_eq!(st.color_mode, "Unknown");
}

#[test]
fn test_png_stops_at_iend() {
    let mut data = png_bytes(1, 1, 8, 0);
    data.extend_from_slice(b"garbage after the trailer");
    let st = analyze(data, Vec::new()).structure.expect("PNG should parse");
    assert_eq!(st.chunks.len(), 3);
}

#[test]
fn test_png_truncated_ihdr_gives_no_structure() {
    // signature + IHDR framing, stream cut mid-chunk-body
    let mut data = vec![0x89u8, 0x50, 0x4E, 0x47, 0x0D, 0x0A, 0x1A, 0x0A];
    data.extend_from_slice(&[0, 0, 0, 13]);
    data.extend_from_slice(b"IHDR");
    data.extend_from_slice(&[0, 0, 0, 1, 0]); // cut inside the body
    let res = analyze(data, Vec::new());
    assert!(res.structure.is_none());
    assert_eq!(res.file_size, 21);
}

#[test]
fn test_png_parser_reports_truncation() {
    let mut data = vec![0x89u8, 0x50, 0x4E, 0x47, 0x0D, 0x0A, 0x1A, 0x0A];
    data.extend_from_slice(&[0, 0, 1, 0]); // declares 256 data bytes
    data.extend_from_slice(b"IDAT");
    data.extend_from_slice(&[1, 2, 3]); // far fewer present
    let res = PngParser.parse(&data);
    assert_eq!(res.unwrap_err(), ParseError::Truncated);
}

#[test]
fn test_png_signature_alone_parses_gracefully() {
    let data = vec![0x89u8, 0x50, 0x4E, 0x47, 0x0D, 0x0A, 0x1A, 0x0A];
    let st = analyze(data, Vec::new()).structure.expect("PNG should parse");
    assert_eq!(st.chunks.len(), 1);
    assert_eq!(st.chunks[0].name, "Signature");
}

#[test]
fn test_jpeg_concrete_structure() {
    // SOI, APP0 of declared length 16, EOI
    let mut data = vec![0xFFu8, 0xD8, 0xFF, 0xE0, 0x00, 0x10];
    data.extend_from_slice(&[0u8; 14]);
    data.extend_from_slice(&[0xFF, 0xD9]);

    let st = analyze(data, Vec::new()).structure.expect("JPEG should parse");
    assert_eq!(st.format_name, "JPEG");
    assert_eq!(st.chunks.len(), 3);
    assert_eq!(st.chunks[0].name, "SOI");
    assert_eq!(st.chunks[0].offset, 0);
    assert_eq!(st.chunks[0].total_size, 2);
    assert_eq!(st.chunks[1].name, "E0");
    assert_eq!(st.chunks[1].offset, 2);
    assert_eq!(st.chunks[1].total_size, 18);
    assert_eq!(st.chunks[1].description, "APPn Metadata");
    assert_eq!(st.chunks[2].name, "EOI");
    assert_eq!(st.chunks[2].offset, 20);
    assert_eq!(st.chunks[2].total_size, 2);
}

#[test]
fn test_jpeg_frame_header_fields() {
    // SOF0 with bit depth 8, height 2, width 3, one component
    let mut data = vec![0xFFu8, 0xD8];
    data.extend_from_slice(&[0xFF, 0xC0, 0x00, 0x0B]);
    data.extend_from_slice(&[0x08, 0x00, 0x02, 0x00, 0x03, 0x01]);
    data.extend_from_slice(&[0, 0, 0]); // rest of the declared body
    data.extend_from_slice(&[0xFF, 0xD9]);

    let st = analyze(data, Vec::new()).structure.expect("JPEG should parse");
    assert_eq!(st.dimensions, Some((3, 2)));
    assert_eq!(st.bit_depth, Some(8));
    assert_eq!(st.color_mode, "1 comps");
    assert_eq!(st.chunks[1].name, "C0");
    assert_eq!(st.chunks[1].description, "Frame: 3x2, 8bit");
}

#[test]
fn test_jpeg_three_components_is_ycbcr() {
    let mut data = vec![0xFFu8, 0xD8];
    data.extend_from_slice(&[0xFF, 0xC0, 0x00, 0x08]);
    data.extend_from_slice(&[0x08, 0x00, 0x01, 0x00, 0x01, 0x03]);
    data.extend_from_slice(&[0xFF, 0xD9]);
    let st = analyze(data, Vec::new()).structure.expect("JPEG should parse");
    assert_eq!(st.color_mode, "YCbCr");
}

#[test]
fn test_jpeg_fill_and_restart_markers_skipped() {
    let data = vec![0xFFu8, 0xD8, 0x00, 0x12, 0xFF, 0xD0, 0xFF, 0xD9];
    let st = analyze(data, Vec::new()).structure.expect("JPEG should parse");
    assert_eq!(st.chunks.len(), 2);
    assert_eq!(st.chunks[1].name, "EOI");
    assert_eq!(st.chunks[1].offset, 6);
}

#[test]
fn test_jpeg_truncated_segment_gives_no_structure() {
    let data = vec![0xFFu8, 0xD8, 0xFF, 0xE0, 0x00, 0x10, 0x01, 0x02];
    let res = analyze(data, Vec::new());
    assert!(res.structure.is_none());
}

#[test]
fn test_jpeg_ends_before_marker_gracefully() {
    // stream ends while scanning: the collected segments are kept
    let data = vec![0xFFu8, 0xD8, 0x11, 0x22, 0x33];
    let st = analyze(data, Vec::new()).structure.expect("JPEG should parse");
    assert_eq!(st.chunks.len(), 1);
    assert_eq!(st.chunks[0].name, "SOI");
}

#[test]
fn test_gif_concrete_structure() {
    let mut data = b"GIF89a".to_vec();
    data.extend_from_slice(&[0x02, 0x00, 0x02, 0x00, 0x00, 0x00, 0x00]);
    data.push(0x3B);

    let st = analyze(data, Vec::new()).structure.expect("GIF should parse");
    assert_eq!(st.format_name, "GIF");
    assert_eq!(st.dimensions, Some((2, 2)));
    assert_eq!(st.bit_depth, Some(8));
    assert_eq!(st.color_mode, "Indexed");
    assert_eq!(st.chunks.len(), 3);
    assert_eq!(st.chunks[0].name, "Header");
    assert_eq!(st.chunks[0].offset, 0);
    assert_eq!(st.chunks[0].total_size, 6);
    assert_eq!(st.chunks[1].name, "LSD");
    assert_eq!(st.chunks[1].offset, 6);
    assert_eq!(st.chunks[1].total_size, 7);
    assert_eq!(st.chunks[1].description, "Logical Screen: 2x2");
    assert_eq!(st.chunks[2].name, "Trailer");
    assert_eq!(st.chunks[2].offset, 13);
    assert_eq!(st.chunks[2].total_size, 1);
}

#[test]
fn test_gif_global_color_table() {
    let mut data = b"GIF87a".to_vec();
    // packed 0x91: global table present, 2^(1+1) = 4 entries, 12 bytes
    data.extend_from_slice(&[0x01, 0x00, 0x01, 0x00, 0x91, 0x00, 0x00]);
    data.extend_from_slice(&[0u8; 12]);
    data.push(0x3B);

    let st = analyze(data, Vec::new()).structure.expect("GIF should parse");
    assert_eq!(st.chunks.len(), 4);
    assert_eq!(st.chunks[2].name, "GCT");
    assert_eq!(st.chunks[2].offset, 13);
    assert_eq!(st.chunks[2].length, 12);
    assert_eq!(st.chunks[2].description, "Global Color Table (4 colors)");
    assert_eq!(st.chunks[3].name, "Trailer");
    assert_eq!(st.chunks[3].offset, 25);
}

#[test]
fn test_gif_extension_and_image_blocks() {
    let mut data = b"GIF89a".to_vec();
    data.extend_from_slice(&[0x01, 0x00, 0x01, 0x00, 0x00, 0x00, 0x00]);
    // graphic control extension: label F9, 4 data bytes, terminator
    data.extend_from_slice(&[0x21, 0xF9, 0x04, 1, 2, 3, 4, 0x00]);
    // image descriptor: 9 descriptor bytes, LZW code size, one 2-byte
    // sub-block, empty sub-block
    data.push(0x2C);
    data.extend_from_slice(&[0u8; 9]);
    data.push(0x02);
    data.extend_from_slice(&[0x02, 0xAA, 0xBB]);
    data.push(0x00);
    data.push(0x3B);

    let st = analyze(data, Vec::new()).structure.expect("GIF should parse");
    assert_eq!(st.chunks.len(), 5);
    assert_eq!(st.chunks[2].name, "GCE");
    assert_eq!(st.chunks[2].offset, 13);
    assert_eq!(st.chunks[2].length, 4);
    assert_eq!(st.chunks[2].total_size, 8);
    assert_eq!(st.chunks[2].description, "Extension Block (Type: 0xF9)");
    assert_eq!(st.chunks[3].name, "IDAT");
    assert_eq!(st.chunks[3].offset, 21);
    assert_eq!(st.chunks[3].length, 2);
    assert_eq!(st.chunks[3].total_size, 15);
    assert_eq!(st.chunks[4].name, "Trailer");
    assert_eq!(st.chunks[4].offset, 36);
}

#[test]
fn test_gif_unknown_introducer_stops_gracefully() {
    let mut data = b"GIF89a".to_vec();
    data.extend_from_slice(&[0x01, 0x00, 0x01, 0x00, 0x00, 0x00, 0x00]);
    data.push(0xAB); // not a block introducer
    data.extend_from_slice(&[1, 2, 3]);

    let st = analyze(data, Vec::new()).structure.expect("GIF should parse");
    assert_eq!(st.chunks.len(), 2);
}

#[test]
fn test_gif_truncated_image_data_gives_no_structure() {
    let mut data = b"GIF89a".to_vec();
    data.extend_from_slice(&[0x01, 0x00, 0x01, 0x00, 0x00, 0x00, 0x00]);
    data.push(0x2C);
    data.extend_from_slice(&[0u8; 9]);
    data.push(0x02);
    data.push(0x05); // declares five data bytes, none follow
    let res = analyze(data, Vec::new());
    assert!(res.structure.is_none());
}

#[test]
fn test_unknown_format_yields_no_structure() {
    let data = b"hello world, this is not an image at all".to_vec();
    let res = analyze(data.clone(), Vec::new());
    assert!(res.structure.is_none());
    assert_eq!(res.file_size, data.len() as u64);
    assert_eq!(res.raw_preview, data);
}

#[test]
fn test_empty_source_yields_no_structure() {
    let res = analyze(Vec::new(), Vec::new());
    assert!(res.structure.is_none());
    assert_eq!(res.file_size, 0);
}

#[test]
fn test_analyze_is_idempotent() {
    let data = png_bytes(7, 9, 8, 6);
    let first = analyze(data.clone(), Vec::new());
    let second = analyze(data, Vec::new());
    assert_eq!(first.structure, second.structure);
    assert_eq!(first, second);
}

#[test]
fn test_exif_pairs_are_kept() {
    let pairs = vec![
        ("Make".to_string(), "ACME".to_string()),
        ("Model".to_string(), "M1".to_string()),
    ];
    let res = analyze(png_bytes(1, 1, 8, 2), pairs.clone());
    assert_eq!(res.exif_data, pairs);
}

#[test]
fn test_detection_order_and_signatures() {
    let mut header = [0u8; 16];
    header[0] = 0x89;
    header[1] = 0x50;
    header[2] = 0x4E;
    header[3] = 0x47;
    header[4] = 0x0D;
    header[5] = 0x0A;
    header[6] = 0x1A;
    header[7] = 0x0A;
    assert!(PngParser.can_parse(&header));
    assert!(!JpegParser.can_parse(&header));
    assert!(!GifParser.can_parse(&header));

    let mut jpeg_header = [0u8; 16];
    jpeg_header[0] = 0xFF;
    jpeg_header[1] = 0xD8;
    assert!(JpegParser.can_parse(&jpeg_header));
    assert!(!PngParser.can_parse(&jpeg_header));

    let mut gif_header = [0u8; 16];
    gif_header[..6].copy_from_slice(b"GIF87a");
    assert!(GifParser.can_parse(&gif_header));
    gif_header[..6].copy_from_slice(b"GIF89a");
    assert!(GifParser.can_parse(&gif_header));
    gif_header[..6].copy_from_slice(b"GIF88a");
    assert!(!GifParser.can_parse(&gif_header));
}

#[test]
fn test_supported_templates() {
    let ts = get_supported_templates();
    assert_eq!(ts.len(), 3);
    assert_eq!(ts[0].name, "PNG (Portable Network Graphics)");
    assert_eq!(ts[0].extension, "png");
    assert_eq!(ts[0].signature_hex, "89 50 4E 47 0D 0A 1A 0A");
    assert_eq!(ts[0].markers.len(), 4);
    assert_eq!(ts[0].markers[1].name, "IHDR");
    assert_eq!(ts[1].name, "JPEG Image");
    assert_eq!(ts[1].extension, "jpg, jpeg");
    assert_eq!(ts[1].signature_hex, "FF D8");
    assert_eq!(ts[1].markers.len(), 4);
    assert_eq!(ts[2].name, "GIF (Graphics Interchange Format)");
    assert_eq!(ts[2].extension, "gif");
    assert_eq!(ts[2].markers.len(), 5);
    assert_eq!(ts[2].markers[4].name, "Trailer");
}
