//! JPEG structural parser.
//!
//! After the fixed 2-byte `SOI` marker the stream is scanned byte by byte
//! for `0xFF` marker introducers.  Fill bytes and restart markers are
//! skipped; `EOI` ends the walk successfully; every other marker carries a
//! 2-byte big-endian length that counts itself.  Running out of bytes
//! before a complete marker and length ends the walk gracefully; a segment
//! body running past the end of the data is a hard truncation failure, as
//! is a declared length too small to cover its own field.

use vstd::prelude::*;

use crate::cursor::ByteCursor;
use crate::formats::{
    be16, chunk_models, hdr_depth, hdr_height, hdr_mode, hdr_width, ChunkInfo, ChunkModel,
    DetailModel, FormatDetail, FormatTemplate, HeaderModel, ImageParser, MarkerDefinition,
    MarkerModel, ParseError, TemplateModel, MAX_INPUT,
};
use crate::textutil::{dec_str, hex2, push_dec, push_hex2};
use vstd::string::StringExecFns;

verus! {

pub struct JpegParser;

/// Outcome of walking the marker segments from a given position.
#[verifier::ext_equal]
pub ghost enum JpegWalk {
    Stopped { segs: Seq<ChunkModel>, hdr: Option<HeaderModel> },
    Truncated,
}

/// The 2-byte JPEG signature.
pub open spec fn is_jpeg_sig(h: Seq<u8>) -> bool {
    &&& h.len() >= 2
    &&& h[0] == 0xFF
    &&& h[1] == 0xD8
}

/// True when the marker byte introduces a frame header segment.
pub open spec fn is_sof_marker(m: u8) -> bool {
    m == 0xC0 || m == 0xC2
}

/// The color mode string derived from the component count of a frame.
pub open spec fn jpeg_color_mode(n: int) -> Seq<char> {
    if n == 3 {
        "YCbCr"@
    } else {
        dec_str(n) + " comps"@
    }
}

/// The description emitted for a frame header segment.
pub open spec fn sof_desc(w: int, h: int, d: int) -> Seq<char> {
    "Frame: "@ + dec_str(w) + "x"@ + dec_str(h) + ", "@ + dec_str(d) + "bit"@
}

/// The description a non-frame segment is classified with, by marker.
pub open spec fn jpeg_seg_desc(m: u8) -> Seq<char> {
    if m == 0xC4 {
        "DHT (Huffman Table)"@
    } else if m == 0xDB {
        "DQT (Quantization)"@
    } else if m == 0xDA {
        "SOS (Scan Start)"@
    } else if 0xE0 <= m && m <= 0xEF {
        "APPn Metadata"@
    } else if m == 0xFE {
        "Comment"@
    } else {
        "Marker"@
    }
}

/// The highlight color a non-frame segment is classified with, by marker.
pub open spec fn jpeg_seg_color(m: u8) -> Seq<char> {
    if m == 0xC4 {
        "#BE4BDB"@
    } else if m == 0xDB {
        "#40C057"@
    } else if m == 0xDA {
        "#228BE6"@
    } else if 0xE0 <= m && m <= 0xEF {
        "#12B886"@
    } else if m == 0xFE {
        "#FAB005"@
    } else {
        "#868E96"@
    }
}

/// The descriptor emitted for the fixed `SOI` marker.
pub open spec fn jpeg_soi_chunk() -> ChunkModel {
    ChunkModel {
        name: "SOI"@,
        offset: 0,
        length: 0,
        total_size: 2,
        description: "Start Of Image"@,
        color: "#FAB005"@,
    }
}

/// The descriptor emitted for the `EOI` marker found at `pos`.
pub open spec fn jpeg_eoi_chunk(pos: int) -> ChunkModel {
    ChunkModel {
        name: "EOI"@,
        offset: pos,
        length: 0,
        total_size: 2,
        description: "End Of Image"@,
        color: "#212529"@,
    }
}

/// The descriptor emitted for a frame header segment found at `pos`.
pub open spec fn jpeg_sof_chunk(s: Seq<u8>, pos: int) -> ChunkModel {
    ChunkModel {
        name: hex2(s[pos + 1] as int),
        offset: pos,
        length: be16(s, pos + 2),
        total_size: be16(s, pos + 2) + 2,
        description: sof_desc(be16(s, pos + 7), be16(s, pos + 5), s[pos + 4] as int),
        color: "#FA5252"@,
    }
}

/// The header record collected from a frame header segment found at `pos`.
pub open spec fn jpeg_sof_header(s: Seq<u8>, pos: int) -> HeaderModel {
    HeaderModel {
        width: be16(s, pos + 7),
        height: be16(s, pos + 5),
        bit_depth: s[pos + 4] as int,
        color_mode: jpeg_color_mode(s[pos + 9] as int),
    }
}

/// The descriptor emitted for a non-frame segment found at `pos`.
pub open spec fn jpeg_other_chunk(s: Seq<u8>, pos: int) -> ChunkModel {
    ChunkModel {
        name: hex2(s[pos + 1] as int),
        offset: pos,
        length: be16(s, pos + 2),
        total_size: be16(s, pos + 2) + 2,
        description: jpeg_seg_desc(s[pos + 1]),
        color: jpeg_seg_color(s[pos + 1]),
    }
}

/// Walk the marker segments of `s` starting at `pos`.
pub open spec fn jpeg_walk(s: Seq<u8>, pos: int) -> JpegWalk
    decreases s.len() - pos,
{
    if pos < 0 || pos + 1 > s.len() {
        JpegWalk::Stopped { segs: seq![], hdr: None }
    } else if s[pos] != 0xFF {
        jpeg_walk(s, pos + 1)
    } else if pos + 2 > s.len() {
        JpegWalk::Stopped { segs: seq![], hdr: None }
    } else {
        let m = s[pos + 1];
        if m == 0xD9 {
            JpegWalk::Stopped { segs: seq![jpeg_eoi_chunk(pos)], hdr: None }
        } else if m == 0x00 || (0xD0 <= m && m <= 0xD7) {
            jpeg_walk(s, pos + 2)
        } else if pos + 4 > s.len() {
            JpegWalk::Stopped { segs: seq![], hdr: None }
        } else {
            let l = be16(s, pos + 2);
            if l < 2 {
                JpegWalk::Truncated
            } else if is_sof_marker(m) {
                if l < 8 || pos + 2 + l > s.len() {
                    JpegWalk::Truncated
                } else {
                    match jpeg_walk(s, pos + 2 + l) {
                        JpegWalk::Truncated => JpegWalk::Truncated,
                        JpegWalk::Stopped { segs, hdr } => JpegWalk::Stopped {
                            segs: seq![jpeg_sof_chunk(s, pos)] + segs,
                            hdr: if hdr is Some {
                                hdr
                            } else {
                                Some(jpeg_sof_header(s, pos))
                            },
                        },
                    }
                }
            } else {
                if pos + 2 + l > s.len() {
                    JpegWalk::Truncated
                } else {
                    match jpeg_walk(s, pos + 2 + l) {
                        JpegWalk::Truncated => JpegWalk::Truncated,
                        JpegWalk::Stopped { segs, hdr } => JpegWalk::Stopped {
                            segs: seq![jpeg_other_chunk(s, pos)] + segs,
                            hdr,
                        },
                    }
                }
            }
        }
    }
}

/// Prepend already-emitted segments (and an already-collected header) to
/// the outcome of walking the rest of the stream.
pub open spec fn jpeg_extend(
    prefix: Seq<ChunkModel>,
    hdr0: Option<HeaderModel>,
    w: JpegWalk,
) -> JpegWalk {
    match w {
        JpegWalk::Truncated => JpegWalk::Truncated,
        JpegWalk::Stopped { segs, hdr } => JpegWalk::Stopped {
            segs: prefix + segs,
            hdr: if hdr is Some {
                hdr
            } else {
                hdr0
            },
        },
    }
}

/// The full parse outcome for `s`: `None` stands for a truncation failure.
pub open spec fn jpeg_model(s: Seq<u8>) -> Option<DetailModel> {
    match jpeg_walk(s, 2) {
        JpegWalk::Truncated => None,
        JpegWalk::Stopped { segs, hdr } => Some(
            DetailModel {
                format_name: "JPEG"@,
                dimensions: Some((hdr_width(hdr), hdr_height(hdr))),
                bit_depth: Some(hdr_depth(hdr)),
                color_mode: hdr_mode(hdr),
                chunks: seq![jpeg_soi_chunk()] + segs,
            },
        ),
    }
}

/// The static template of the JPEG format.
pub open spec fn jpeg_template() -> TemplateModel {
    TemplateModel {
        name: "JPEG Image"@,
        extension: "jpg, jpeg"@,
        signature_hex: "FF D8"@,
        description: "基于 Marker 的压缩格式"@,
        markers: seq![
            MarkerModel {
                name: "SOI"@,
                hex: "FF D8"@,
                description: "Start Of Image"@,
                color: "#FAB005"@,
            },
            MarkerModel {
                name: "SOF0"@,
                hex: "FF C0"@,
                description: "Baseline Frame"@,
                color: "#FA5252"@,
            },
            MarkerModel {
                name: "DHT"@,
                hex: "FF C4"@,
                description: "Huffman Table"@,
                color: "#BE4BDB"@,
            },
            MarkerModel {
                name: "SOS"@,
                hex: "FF DA"@,
                description: "Start Of Scan"@,
                color: "#228BE6"@,
            },
        ],
    }
}

impl ImageParser for JpegParser {
    open spec fn signature_matches(h: Seq<u8>) -> bool {
        is_jpeg_sig(h)
    }

    open spec fn parse_model(s: Seq<u8>) -> Option<DetailModel> {
        jpeg_model(s)
    }

    open spec fn template_model() -> TemplateModel {
        jpeg_template()
    }

    fn can_parse(&self, header: &[u8; 16]) -> bool {
        header[0] == 0xFF && header[1] == 0xD8
    }

    fn parse(&self, data: &[u8]) -> Result<FormatDetail, ParseError> {
        parse_jpeg(data)
    }

    fn get_template(&self) -> FormatTemplate {
        jpeg_template_exec()
    }
}

/// Read the 6 fixed frame header fields (bit depth, height, width,
/// component count) and skip the rest of the declared segment body.
fn read_sof_body(cur: &mut ByteCursor, l: u16) -> (r: Result<(u8, u16, u16, u8), ParseError>)
    requires
        old(cur).cur() >= 0,
        l >= 8,
    ensures
        final(cur).bytes() == old(cur).bytes(),
        match r {
            Ok(v) => {
                &&& old(cur).cur() + (l - 2) <= old(cur).bytes().len()
                &&& final(cur).cur() == old(cur).cur() + (l - 2)
                &&& v.0 == old(cur).bytes()[old(cur).cur()]
                &&& v.1 as int == be16(old(cur).bytes(), old(cur).cur() + 1)
                &&& v.2 as int == be16(old(cur).bytes(), old(cur).cur() + 3)
                &&& v.3 == old(cur).bytes()[old(cur).cur() + 5]
            },
            Err(e) => {
                &&& e == ParseError::Truncated
                &&& old(cur).cur() + (l - 2) > old(cur).bytes().len()
            },
        },
{
    let d = match cur.read_u8() {
        Ok(v) => v,
        Err(e) => {
            return Err(e);
        },
    };
    let h = match cur.read_u16_be() {
        Ok(v) => v,
        Err(e) => {
            return Err(e);
        },
    };
    let w = match cur.read_u16_be() {
        Ok(v) => v,
        Err(e) => {
            return Err(e);
        },
    };
    let n = match cur.read_u8() {
        Ok(v) => v,
        Err(e) => {
            return Err(e);
        },
    };
    if cur.skip((l - 8) as usize).is_err() {
        return Err(ParseError::Truncated);
    }
    Ok((d, h, w, n))
}

/// Build the color mode string for a frame's component count.
fn jpeg_color_mode_string(n: u8) -> (s: String)
    ensures
        s@ == jpeg_color_mode(n as int),
{
    if n == 3 {
        String::from_str("YCbCr")
    } else {
        let mut s = String::new();
        push_dec(&mut s, n as u32);
        s.append(" comps");
        proof {
            assert(s@ =~= jpeg_color_mode(n as int));
        }
        s
    }
}

/// Build the descriptor for a frame header segment found at `offset`.
fn make_sof_chunk(offset: usize, l: u16, m: u8, w: u16, h: u16, d: u8) -> (c: ChunkInfo)
    ensures
        c@ == (ChunkModel {
            name: hex2(m as int),
            offset: offset as int,
            length: l as int,
            total_size: l + 2,
            description: sof_desc(w as int, h as int, d as int),
            color: "#FA5252"@,
        }),
{
    let mut name = String::new();
    push_hex2(&mut name, m);
    proof {
        assert(name@ =~= hex2(m as int));
    }
    let mut desc = String::from_str("Frame: ");
    push_dec(&mut desc, w as u32);
    desc.append("x");
    push_dec(&mut desc, h as u32);
    desc.append(", ");
    push_dec(&mut desc, d as u32);
    desc.append("bit");
    proof {
        assert(desc@ =~= sof_desc(w as int, h as int, d as int));
    }
    ChunkInfo {
        name,
        offset: offset as u64,
        length: l as u32,
        total_size: l as u32 + 2,
        description: desc,
        color: String::from_str("#FA5252"),
    }
}

/// Build the descriptor for a non-frame segment found at `offset`.
fn make_jpeg_other_chunk(offset: usize, l: u16, m: u8) -> (c: ChunkInfo)
    ensures
        c@ == (ChunkModel {
            name: hex2(m as int),
            offset: offset as int,
            length: l as int,
            total_size: l + 2,
            description: jpeg_seg_desc(m),
            color: jpeg_seg_color(m),
        }),
{
    let mut name = String::new();
    push_hex2(&mut name, m);
    proof {
        assert(name@ =~= hex2(m as int));
    }
    let (d_str, c_str): (&str, &str) = if m == 0xC4 {
        ("DHT (Huffman Table)", "#BE4BDB")
    } else if m == 0xDB {
        ("DQT (Quantization)", "#40C057")
    } else if m == 0xDA {
        ("SOS (Scan Start)", "#228BE6")
    } else if 0xE0 <= m && m <= 0xEF {
        ("APPn Metadata", "#12B886")
    } else if m == 0xFE {
        ("Comment", "#FAB005")
    } else {
        ("Marker", "#868E96")
    };
    ChunkInfo {
        name,
        offset: offset as u64,
        length: l as u32,
        total_size: l as u32 + 2,
        description: String::from_str(d_str),
        color: String::from_str(c_str),
    }
}

/// Growing the descriptor list by one keeps its head and extends the
/// models of its tail.
proof fn lemma_segs_grow(pre: Seq<ChunkInfo>, post: Seq<ChunkInfo>, c: ChunkInfo)
    requires
        pre.len() >= 1,
        post == pre.push(c),
    ensures
        post.len() == pre.len() + 1,
        post[0] == pre[0],
        chunk_models(post.skip(1)) == chunk_models(pre.skip(1)) + seq![c@],
{
    assert(post.skip(1) =~= pre.skip(1).push(c));
    assert(chunk_models(pre.skip(1).push(c)) =~= chunk_models(pre.skip(1)) + seq![c@]);
}

/// After emitting the frame header segment found at `pos`, the walk from
/// `pos` still factors through the walk from the following segment.
proof fn lemma_jpeg_step_sof(s: Seq<u8>, pos: int, prefix: Seq<ChunkModel>, hdr0: Option<
    HeaderModel,
>)
    requires
        0 <= pos,
        pos + 4 <= s.len(),
        s[pos] == 0xFF,
        is_sof_marker(s[pos + 1]),
        8 <= be16(s, pos + 2),
        pos + 2 + be16(s, pos + 2) <= s.len(),
    ensures
        jpeg_extend(prefix, hdr0, jpeg_walk(s, pos)) == jpeg_extend(
            prefix + seq![jpeg_sof_chunk(s, pos)],
            Some(jpeg_sof_header(s, pos)),
            jpeg_walk(s, pos + 2 + be16(s, pos + 2)),
        ),
{
    let c = jpeg_sof_chunk(s, pos);
    let this_hdr = jpeg_sof_header(s, pos);
    match jpeg_walk(s, pos + 2 + be16(s, pos + 2)) {
        JpegWalk::Truncated => {
            assert(jpeg_walk(s, pos) == JpegWalk::Truncated);
        },
        JpegWalk::Stopped { segs, hdr } => {
            assert(jpeg_walk(s, pos) == (JpegWalk::Stopped {
                segs: seq![c] + segs,
                hdr: if hdr is Some {
                    hdr
                } else {
                    Some(this_hdr)
                },
            }));
            assert(prefix + (seq![c] + segs) =~= (prefix + seq![c]) + segs);
        },
    }
}

/// The same factoring step for a segment that is not a frame header.
proof fn lemma_jpeg_step_other(s: Seq<u8>, pos: int, prefix: Seq<ChunkModel>, hdr0: Option<
    HeaderModel,
>)
    requires
        0 <= pos,
        pos + 4 <= s.len(),
        s[pos] == 0xFF,
        s[pos + 1] != 0xD9,
        s[pos + 1] != 0x00,
        !(0xD0 <= s[pos + 1] && s[pos + 1] <= 0xD7),
        !is_sof_marker(s[pos + 1]),
        2 <= be16(s, pos + 2),
        pos + 2 + be16(s, pos + 2) <= s.len(),
    ensures
        jpeg_extend(prefix, hdr0, jpeg_walk(s, pos)) == jpeg_extend(
            prefix + seq![jpeg_other_chunk(s, pos)],
            hdr0,
            jpeg_walk(s, pos + 2 + be16(s, pos + 2)),
        ),
{
    let c = jpeg_other_chunk(s, pos);
    match jpeg_walk(s, pos + 2 + be16(s, pos + 2)) {
        JpegWalk::Truncated => {
            assert(jpeg_walk(s, pos) == JpegWalk::Truncated);
        },
        JpegWalk::Stopped { segs, hdr } => {
            assert(jpeg_walk(s, pos) == (JpegWalk::Stopped { segs: seq![c] + segs, hdr }));
            assert(prefix + (seq![c] + segs) =~= (prefix + seq![c]) + segs);
        },
    }
}

/// Walk the marker segments of `data` and assemble the JPEG summary; the
/// result is exactly what [`jpeg_model`] states for these bytes.
#[verifier::rlimit(100)]
#[verifier::spinoff_prover]
pub fn parse_jpeg(data: &[u8]) -> (r: Result<FormatDetail, ParseError>)
    requires
        data@.len() <= MAX_INPUT,
    ensures
        jpeg_model(data@) is Some ==> (r matches Ok(d) && d@ == jpeg_model(data@).unwrap()),
        jpeg_model(data@) is None ==> (r matches Err(e) && e == ParseError::Truncated),
{
    let ghost s = data@;
    let mut cur = ByteCursor::new(data);
    cur.set_pos(2);

    let mut segs: Vec<ChunkInfo> = Vec::new();
    segs.push(
        ChunkInfo {
            name: String::from_str("SOI"),
            offset: 0,
            length: 0,
            total_size: 2,
            description: String::from_str("Start Of Image"),
            color: String::from_str("#FAB005"),
        },
    );

    let mut width: u32 = 0;
    let mut height: u32 = 0;
    let mut bit_depth: u8 = 0;
    let mut color_desc: String = String::from_str("Unknown");
    let ghost mut hdr_acc: Option<HeaderModel> = None;

    proof {
        assert(segs@.skip(1) =~= Seq::<ChunkInfo>::empty());
        assert(chunk_models(segs@.skip(1)) =~= Seq::<ChunkModel>::empty());
        assert(segs@[0]@ =~= jpeg_soi_chunk());
    }

    loop
        invariant_except_break
            s == data@,
            cur.bytes() == s,
            cur.cur() >= 0,
            s.len() <= MAX_INPUT,
            segs@.len() >= 1,
            segs@[0]@ == jpeg_soi_chunk(),
            jpeg_walk(s, 2) == jpeg_extend(
                chunk_models(segs@.skip(1)),
                hdr_acc,
                jpeg_walk(s, cur.cur()),
            ),
            width as int == hdr_width(hdr_acc),
            height as int == hdr_height(hdr_acc),
            bit_depth as int == hdr_depth(hdr_acc),
            color_desc@ == hdr_mode(hdr_acc),
        ensures
            segs@.len() >= 1,
            segs@[0]@ == jpeg_soi_chunk(),
            jpeg_walk(s, 2) == (JpegWalk::Stopped {
                segs: chunk_models(segs@.skip(1)),
                hdr: hdr_acc,
            }),
            width as int == hdr_width(hdr_acc),
            height as int == hdr_height(hdr_acc),
            bit_depth as int == hdr_depth(hdr_acc),
            color_desc@ == hdr_mode(hdr_acc),
        decreases s.len() - cur.cur(),
    {
        let ghost pos0 = cur.cur();
        let ghost prefix = chunk_models(segs@.skip(1));
        let ghost hdr0 = hdr_acc;

        let b = match cur.read_u8() {
            Ok(b) => b,
            Err(_) => {
                proof {
                    assert(jpeg_walk(s, pos0) == (JpegWalk::Stopped {
                        segs: Seq::<ChunkModel>::empty(),
                        hdr: None,
                    }));
                    assert(prefix + Seq::<ChunkModel>::empty() =~= prefix);
                }
                break ;
            },
        };
        if b != 0xFF {
            proof {
                assert(jpeg_walk(s, pos0) == jpeg_walk(s, pos0 + 1));
            }
            continue ;
        }

        let m = match cur.read_u8() {
            Ok(m) => m,
            Err(_) => {
                proof {
                    assert(jpeg_walk(s, pos0) == (JpegWalk::Stopped {
                        segs: Seq::<ChunkModel>::empty(),
                        hdr: None,
                    }));
                    assert(prefix + Seq::<ChunkModel>::empty() =~= prefix);
                }
                break ;
            },
        };
        let pos = cur.position() - 2;

        if m == 0xD9 {
            let chunk = ChunkInfo {
                name: String::from_str("EOI"),
                offset: pos as u64,
                length: 0,
                total_size: 2,
                description: String::from_str("End Of Image"),
                color: String::from_str("#212529"),
            };
            let ghost pre = segs@;
            let ghost cm = chunk@;
            segs.push(chunk);
            proof {
                lemma_segs_grow(pre, segs@, segs@.last());
                assert(cm =~= jpeg_eoi_chunk(pos0));
                assert(jpeg_walk(s, pos0) == (JpegWalk::Stopped {
                    segs: seq![jpeg_eoi_chunk(pos0)],
                    hdr: None,
                }));
                assert(prefix + seq![jpeg_eoi_chunk(pos0)] == chunk_models(segs@.skip(1)));
            }
            break ;
        }
        if m == 0x00 || (0xD0 <= m && m <= 0xD7) {
            proof {
                assert(jpeg_walk(s, pos0) == jpeg_walk(s, pos0 + 2));
            }
            continue ;
        }

        let l = match cur.read_u16_be() {
            Ok(l) => l,
            Err(_) => {
                proof {
                    assert(jpeg_walk(s, pos0) == (JpegWalk::Stopped {
                        segs: Seq::<ChunkModel>::empty(),
                        hdr: None,
                    }));
                    assert(prefix + Seq::<ChunkModel>::empty() =~= prefix);
                }
                break ;
            },
        };
        if l < 2 {
            proof {
                assert(jpeg_walk(s, pos0) == JpegWalk::Truncated);
            }
            return Err(ParseError::Truncated);
        }

        if m == 0xC0 || m == 0xC2 {
            if l < 8 {
                proof {
                    assert(jpeg_walk(s, pos0) == JpegWalk::Truncated);
                }
                return Err(ParseError::Truncated);
            }
            let (d, h, w, n) = match read_sof_body(&mut cur, l) {
                Ok(v) => v,
                Err(_) => {
                    proof {
                        assert(pos0 + 2 + be16(s, pos0 + 2) > s.len());
                        assert(jpeg_walk(s, pos0) == JpegWalk::Truncated);
                    }
                    return Err(ParseError::Truncated);
                },
            };

            let chunk = make_sof_chunk(pos, l, m, w, h, d);
            width = w as u32;
            height = h as u32;
            bit_depth = d;
            color_desc = jpeg_color_mode_string(n);
            let ghost pre = segs@;
            let ghost cm = chunk@;
            segs.push(chunk);
            proof {
                hdr_acc = Some(jpeg_sof_header(s, pos0));
                lemma_segs_grow(pre, segs@, segs@.last());
                assert(cm =~= jpeg_sof_chunk(s, pos0));
                lemma_jpeg_step_sof(s, pos0, prefix, hdr0);
            }
        } else {
            if cur.skip((l - 2) as usize).is_err() {
                proof {
                    assert(pos0 + 2 + be16(s, pos0 + 2) > s.len());
                    assert(jpeg_walk(s, pos0) == JpegWalk::Truncated);
                }
                return Err(ParseError::Truncated);
            }
            let chunk = make_jpeg_other_chunk(pos, l, m);
            let ghost pre = segs@;
            let ghost cm = chunk@;
            segs.push(chunk);
            proof {
                lemma_segs_grow(pre, segs@, segs@.last());
                assert(cm =~= jpeg_other_chunk(s, pos0));
                lemma_jpeg_step_other(s, pos0, prefix, hdr0);
            }
        }
    }

    let detail = FormatDetail {
        format_name: String::from_str("JPEG"),
        dimensions: Some((width, height)),
        bit_depth: Some(bit_depth),
        color_mode: color_desc,
        chunks: segs,
    };
    proof {
        let m = jpeg_model(s).unwrap();
        let cm = detail@.chunks;
        let rhs = seq![jpeg_soi_chunk()] + chunk_models(detail.chunks@.skip(1));
        assert forall|i: int| 0 <= i < cm.len() implies cm[i] == rhs[i] by {
            if i >= 1 {
                assert(detail.chunks@.skip(1)[i - 1] == detail.chunks@[i]);
            }
        }
        assert(cm =~= rhs);
        assert(detail@ =~= m);
    }
    Ok(detail)
}

/// Build the static JPEG template record.
pub fn jpeg_template_exec() -> (t: FormatTemplate)
    ensures
        t@ == jpeg_template(),
{
    let mut markers: Vec<MarkerDefinition> = Vec::new();
    markers.push(
        MarkerDefinition {
            name: String::from_str("SOI"),
            hex: String::from_str("FF D8"),
            description: String::from_str("Start Of Image"),
            color: String::from_str("#FAB005"),
        },
    );
    markers.push(
        MarkerDefinition {
            name: String::from_str("SOF0"),
            hex: String::from_str("FF C0"),
            description: String::from_str("Baseline Frame"),
            color: String::from_str("#FA5252"),
        },
    );
    markers.push(
        MarkerDefinition {
            name: String::from_str("DHT"),
            hex: String::from_str("FF C4"),
            description: String::from_str("Huffman Table"),
            color: String::from_str("#BE4BDB"),
        },
    );
    markers.push(
        MarkerDefinition {
            name: String::from_str("SOS"),
            hex: String::from_str("FF DA"),
            description: String::from_str("Start Of Scan"),
            color: String::from_str("#228BE6"),
        },
    );
    let t = FormatTemplate {
        name: String::from_str("JPEG Image"),
        extension: String::from_str("jpg, jpeg"),
        signature_hex: String::from_str("FF D8"),
        description: String::from_str("基于 Marker 的压缩格式"),
        markers,
    };
    proof {
        assert(t@.markers =~= jpeg_template().markers);
        assert(t@ =~= jpeg_template());
    }
    t
}

} // verus!
