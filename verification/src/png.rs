//! PNG structural parser.
//!
//! After the fixed 8-byte signature the file is a run of chunks, each
//! framed as 4-byte big-endian length, 4-byte type code, data, 4-byte CRC.
//! Running out of bytes where the next length field would start ends the
//! walk gracefully; running out inside a chunk is a hard truncation
//! failure.  Emitting the `IEND` chunk ends the walk successfully.

use vstd::prelude::*;

use crate::cursor::ByteCursor;
use crate::formats::{
    be32, chunk_models, hdr_depth, hdr_height, hdr_mode, hdr_width, ChunkInfo, ChunkModel,
    DetailModel, FormatDetail, FormatTemplate, HeaderModel, ImageParser, MarkerDefinition,
    MarkerModel, ParseError, TemplateModel, MAX_INPUT,
};
use crate::textutil::{code_name, code_name_string, dec_str, push_dec};
use vstd::string::StringExecFns;

verus! {

pub struct PngParser;

/// Outcome of walking the chunk sequence from a given position.
#[verifier::ext_equal]
pub ghost enum PngWalk {
    Stopped { chunks: Seq<ChunkModel>, hdr: Option<HeaderModel> },
    Truncated,
}

/// The fixed 8-byte PNG signature.
pub open spec fn is_png_sig(h: Seq<u8>) -> bool {
    &&& h.len() >= 8
    &&& h[0] == 0x89
    &&& h[1] == 0x50
    &&& h[2] == 0x4E
    &&& h[3] == 0x47
    &&& h[4] == 0x0D
    &&& h[5] == 0x0A
    &&& h[6] == 0x1A
    &&& h[7] == 0x0A
}

/// True when the four bytes of `t` are exactly `a b c d`.
pub open spec fn code_is(t: Seq<u8>, a: u8, b: u8, c: u8, d: u8) -> bool {
    &&& t[0] == a
    &&& t[1] == b
    &&& t[2] == c
    &&& t[3] == d
}

/// The color mode name a PNG color type maps to.
pub open spec fn png_color_mode(ct: int) -> Seq<char> {
    if ct == 0 {
        "Grayscale"@
    } else if ct == 2 {
        "Truecolor"@
    } else if ct == 3 {
        "Indexed"@
    } else if ct == 4 {
        "Gray+Alpha"@
    } else if ct == 6 {
        "RGBA"@
    } else {
        "Unknown"@
    }
}

/// The description string emitted for an `IHDR` chunk.
pub open spec fn ihdr_desc(w: int, h: int, d: int, mode: Seq<char>) -> Seq<char> {
    "Dims: "@ + dec_str(w) + "x"@ + dec_str(h) + ", Depth: "@ + dec_str(d) + ", Type: "@ + mode
}

/// The description a non-header chunk is classified with, by type code.
pub open spec fn png_chunk_desc(t: Seq<u8>) -> Seq<char> {
    if code_is(t, 0x49, 0x44, 0x41, 0x54) {
        "图像数据 (Deflate)"@
    } else if code_is(t, 0x50, 0x4C, 0x54, 0x45) {
        "调色板"@
    } else if code_is(t, 0x49, 0x45, 0x4E, 0x44) {
        "文件结束"@
    } else if code_is(t, 0x74, 0x45, 0x58, 0x74) || code_is(t, 0x7A, 0x54, 0x58, 0x74) {
        "文本元数据"@
    } else if code_is(t, 0x70, 0x48, 0x59, 0x73) {
        "物理像素尺寸"@
    } else {
        "辅助数据块"@
    }
}

/// The highlight color a non-header chunk is classified with, by type code.
pub open spec fn png_chunk_color(t: Seq<u8>) -> Seq<char> {
    if code_is(t, 0x49, 0x44, 0x41, 0x54) {
        "#228BE6"@
    } else if code_is(t, 0x50, 0x4C, 0x54, 0x45) {
        "#BE4BDB"@
    } else if code_is(t, 0x49, 0x45, 0x4E, 0x44) {
        "#212529"@
    } else if code_is(t, 0x74, 0x45, 0x58, 0x74) || code_is(t, 0x7A, 0x54, 0x58, 0x74) {
        "#12B886"@
    } else if code_is(t, 0x70, 0x48, 0x59, 0x73) {
        "#15AABF"@
    } else {
        "#868E96"@
    }
}

/// The descriptor emitted for the fixed signature prefix.
pub open spec fn png_sig_chunk() -> ChunkModel {
    ChunkModel {
        name: "Signature"@,
        offset: 0,
        length: 8,
        total_size: 8,
        description: "PNG Magic Header"@,
        color: "#FAB005"@,
    }
}

/// The descriptor emitted for an `IHDR` chunk found at `pos`.
pub open spec fn png_ihdr_chunk(s: Seq<u8>, pos: int) -> ChunkModel {
    ChunkModel {
        name: code_name(s.subrange(pos + 4, pos + 8)),
        offset: pos,
        length: be32(s, pos),
        total_size: be32(s, pos) + 12,
        description: ihdr_desc(
            be32(s, pos + 8),
            be32(s, pos + 12),
            s[pos + 16] as int,
            png_color_mode(s[pos + 17] as int),
        ),
        color: "#FA5252"@,
    }
}

/// The header record collected from an `IHDR` chunk found at `pos`.
pub open spec fn png_ihdr_header(s: Seq<u8>, pos: int) -> HeaderModel {
    HeaderModel {
        width: be32(s, pos + 8),
        height: be32(s, pos + 12),
        bit_depth: s[pos + 16] as int,
        color_mode: png_color_mode(s[pos + 17] as int),
    }
}

/// The descriptor emitted for a chunk other than `IHDR` found at `pos`.
pub open spec fn png_other_chunk(s: Seq<u8>, pos: int) -> ChunkModel {
    ChunkModel {
        name: code_name(s.subrange(pos + 4, pos + 8)),
        offset: pos,
        length: be32(s, pos),
        total_size: be32(s, pos) + 12,
        description: png_chunk_desc(s.subrange(pos + 4, pos + 8)),
        color: png_chunk_color(s.subrange(pos + 4, pos + 8)),
    }
}

/// Walk the chunk sequence of `s` starting at `pos`.
///
/// Stops gracefully when no complete length field remains, successfully on
/// `IEND`, and with `Truncated` when a chunk body or type code runs past
/// the end of `s` (or an `IHDR` declares a length too large for the
/// 32-bit span field).  The collected header is the one of the last
/// `IHDR`.
pub open spec fn png_walk(s: Seq<u8>, pos: int) -> PngWalk
    decreases s.len() - pos,
{
    if pos < 0 || pos + 4 > s.len() {
        PngWalk::Stopped { chunks: seq![], hdr: None }
    } else {
        let length = be32(s, pos);
        if pos + 8 > s.len() {
            PngWalk::Truncated
        } else {
            let t = s.subrange(pos + 4, pos + 8);
            if code_is(t, 0x49, 0x48, 0x44, 0x52) {
                if pos + 25 > s.len() || length > 0xFFFF_FF00 {
                    PngWalk::Truncated
                } else {
                    match png_walk(s, pos + 25) {
                        PngWalk::Truncated => PngWalk::Truncated,
                        PngWalk::Stopped { chunks, hdr } => PngWalk::Stopped {
                            chunks: seq![png_ihdr_chunk(s, pos)] + chunks,
                            hdr: if hdr is Some {
                                hdr
                            } else {
                                Some(png_ihdr_header(s, pos))
                            },
                        },
                    }
                }
            } else {
                if pos + 12 + length > s.len() {
                    PngWalk::Truncated
                } else {
                    if code_is(t, 0x49, 0x45, 0x4E, 0x44) {
                        PngWalk::Stopped { chunks: seq![png_other_chunk(s, pos)], hdr: None }
                    } else {
                        match png_walk(s, pos + 12 + length) {
                            PngWalk::Truncated => PngWalk::Truncated,
                            PngWalk::Stopped { chunks, hdr } => PngWalk::Stopped {
                                chunks: seq![png_other_chunk(s, pos)] + chunks,
                                hdr,
                            },
                        }
                    }
                }
            }
        }
    }
}

/// Prepend already-emitted chunks (and an already-collected header) to the
/// outcome of walking the rest of the stream.
pub open spec fn png_extend(
    prefix: Seq<ChunkModel>,
    hdr0: Option<HeaderModel>,
    w: PngWalk,
) -> PngWalk {
    match w {
        PngWalk::Truncated => PngWalk::Truncated,
        PngWalk::Stopped { chunks, hdr } => PngWalk::Stopped {
            chunks: prefix + chunks,
            hdr: if hdr is Some {
                hdr
            } else {
                hdr0
            },
        },
    }
}

/// The full parse outcome for `s`: `None` stands for a truncation failure.
pub open spec fn png_model(s: Seq<u8>) -> Option<DetailModel> {
    match png_walk(s, 8) {
        PngWalk::Truncated => None,
        PngWalk::Stopped { chunks, hdr } => Some(
            DetailModel {
                format_name: "PNG"@,
                dimensions: Some((hdr_width(hdr), hdr_height(hdr))),
                bit_depth: Some(hdr_depth(hdr)),
                color_mode: hdr_mode(hdr),
                chunks: seq![png_sig_chunk()] + chunks,
            },
        ),
    }
}

/// The static template of the PNG format.
pub open spec fn png_template() -> TemplateModel {
    TemplateModel {
        name: "PNG (Portable Network Graphics)"@,
        extension: "png"@,
        signature_hex: "89 50 4E 47 0D 0A 1A 0A"@,
        description: "基于 Chunk 的无损压缩位图格式"@,
        markers: seq![
            MarkerModel {
                name: "Signature"@,
                hex: "89 50..."@,
                description: "PNG 文件魔法头"@,
                color: "#FAB005"@,
            },
            MarkerModel {
                name: "IHDR"@,
                hex: "49 48 44 52"@,
                description: "图像头 (Header Chunk)"@,
                color: "#FA5252"@,
            },
            MarkerModel {
                name: "IDAT"@,
                hex: "49 44 41 54"@,
                description: "图像数据 (Image Data)"@,
                color: "#228BE6"@,
            },
            MarkerModel {
                name: "IEND"@,
                hex: "49 45 4E 44"@,
                description: "文件结束 (End)"@,
                color: "#212529"@,
            },
        ],
    }
}

impl ImageParser for PngParser {
    open spec fn signature_matches(h: Seq<u8>) -> bool {
        is_png_sig(h)
    }

    open spec fn parse_model(s: Seq<u8>) -> Option<DetailModel> {
        png_model(s)
    }

    open spec fn template_model() -> TemplateModel {
        png_template()
    }

    fn can_parse(&self, header: &[u8; 16]) -> bool {
        header[0] == 0x89 && header[1] == 0x50 && header[2] == 0x4E && header[3] == 0x47
            && header[4] == 0x0D && header[5] == 0x0A && header[6] == 0x1A && header[7] == 0x0A
    }

    fn parse(&self, data: &[u8]) -> Result<FormatDetail, ParseError> {
        parse_png(data)
    }

    fn get_template(&self) -> FormatTemplate {
        png_template_exec()
    }
}

/// Read the fixed 17-byte `IHDR` body (width, height, bit depth, color
/// type, the three skipped mode bytes and the CRC) from the cursor.
fn read_ihdr_body(cur: &mut ByteCursor) -> (r: Result<(u32, u32, u8, u8), ParseError>)
    requires
        old(cur).cur() >= 0,
    ensures
        final(cur).bytes() == old(cur).bytes(),
        match r {
            Ok(v) => {
                &&& old(cur).cur() + 17 <= old(cur).bytes().len()
                &&& final(cur).cur() == old(cur).cur() + 17
                &&& v.0 as int == be32(old(cur).bytes(), old(cur).cur())
                &&& v.1 as int == be32(old(cur).bytes(), old(cur).cur() + 4)
                &&& v.2 == old(cur).bytes()[old(cur).cur() + 8]
                &&& v.3 == old(cur).bytes()[old(cur).cur() + 9]
            },
            Err(e) => {
                &&& e == ParseError::Truncated
                &&& old(cur).cur() + 17 > old(cur).bytes().len()
            },
        },
{
    let w = match cur.read_u32_be() {
        Ok(v) => v,
        Err(e) => {
            return Err(e);
        },
    };
    let h = match cur.read_u32_be() {
        Ok(v) => v,
        Err(e) => {
            return Err(e);
        },
    };
    let d = match cur.read_u8() {
        Ok(v) => v,
        Err(e) => {
            return Err(e);
        },
    };
    let ct = match cur.read_u8() {
        Ok(v) => v,
        Err(e) => {
            return Err(e);
        },
    };
    if cur.skip(3).is_err() {
        return Err(ParseError::Truncated);
    }
    if cur.read_u32_be().is_err() {
        return Err(ParseError::Truncated);
    }
    Ok((w, h, d, ct))
}

/// Build the color mode string a PNG color type maps to.
fn color_mode_string(ct: u8) -> (s: String)
    ensures
        s@ == png_color_mode(ct as int),
{
    match ct {
        0 => String::from_str("Grayscale"),
        2 => String::from_str("Truecolor"),
        3 => String::from_str("Indexed"),
        4 => String::from_str("Gray+Alpha"),
        6 => String::from_str("RGBA"),
        _ => String::from_str("Unknown"),
    }
}

/// Build the descriptor for the `IHDR` chunk found at `offset`.
fn make_ihdr_chunk(offset: usize, length: u32, t: &[u8; 4], w: u32, h: u32, d: u8, ct: u8) -> (c:
    ChunkInfo)
    requires
        length <= 0xFFFF_FF00,
    ensures
        c@ == (ChunkModel {
            name: code_name(t@),
            offset: offset as int,
            length: length as int,
            total_size: length + 12,
            description: ihdr_desc(w as int, h as int, d as int, png_color_mode(ct as int)),
            color: "#FA5252"@,
        }),
{
    let mode = color_mode_string(ct);
    let mut desc = String::from_str("Dims: ");
    push_dec(&mut desc, w);
    desc.append("x");
    push_dec(&mut desc, h);
    desc.append(", Depth: ");
    push_dec(&mut desc, d as u32);
    desc.append(", Type: ");
    desc.append(mode.as_str());
    proof {
        assert(desc@ =~= ihdr_desc(w as int, h as int, d as int, png_color_mode(ct as int)));
    }
    ChunkInfo {
        name: code_name_string(t),
        offset: offset as u64,
        length,
        total_size: length + 12,
        description: desc,
        color: String::from_str("#FA5252"),
    }
}

/// Build the descriptor for a chunk other than `IHDR` found at `offset`.
fn make_other_chunk(offset: usize, length: u32, t: &[u8; 4]) -> (c: ChunkInfo)
    requires
        length <= 0xFFFF_FF00,
    ensures
        c@ == (ChunkModel {
            name: code_name(t@),
            offset: offset as int,
            length: length as int,
            total_size: length + 12,
            description: png_chunk_desc(t@),
            color: png_chunk_color(t@),
        }),
{
    let (d_str, c_str): (&str, &str) = if t[0] == 0x49 && t[1] == 0x44 && t[2] == 0x41 && t[3]
        == 0x54 {
        ("图像数据 (Deflate)", "#228BE6")
    } else if t[0] == 0x50 && t[1] == 0x4C && t[2] == 0x54 && t[3] == 0x45 {
        ("调色板", "#BE4BDB")
    } else if t[0] == 0x49 && t[1] == 0x45 && t[2] == 0x4E && t[3] == 0x44 {
        ("文件结束", "#212529")
    } else if (t[0] == 0x74 && t[1] == 0x45 && t[2] == 0x58 && t[3] == 0x74) || (t[0] == 0x7A
        && t[1] == 0x54 && t[2] == 0x58 && t[3] == 0x74) {
        ("文本元数据", "#12B886")
    } else if t[0] == 0x70 && t[1] == 0x48 && t[2] == 0x59 && t[3] == 0x73 {
        ("物理像素尺寸", "#15AABF")
    } else {
        ("辅助数据块", "#868E96")
    };
    ChunkInfo {
        name: code_name_string(t),
        offset: offset as u64,
        length,
        total_size: length + 12,
        description: String::from_str(d_str),
        color: String::from_str(c_str),
    }
}

/// Growing the descriptor list by one keeps its head and extends the
/// models of its tail.
proof fn lemma_chunks_grow(pre: Seq<ChunkInfo>, post: Seq<ChunkInfo>, c: ChunkInfo)
    requires
        pre.len() >= 1,
        post == pre.push(c),
    ensures
        post.len() == pre.len() + 1,
        post[0] == pre[0],
        chunk_models(post.skip(1)) == chunk_models(pre.skip(1)) + seq![c@],
{
    assert(post.skip(1) =~= pre.skip(1).push(c));
    assert(chunk_models(pre.skip(1).push(c)) =~= chunk_models(pre.skip(1)) + seq![c@]);
}

/// Walk the chunks of `data` and assemble the PNG summary; the result is
/// exactly what [`png_model`] states for these bytes.
#[verifier::rlimit(100)]
#[verifier::spinoff_prover]
pub fn parse_png(data: &[u8]) -> (r: Result<FormatDetail, ParseError>)
    requires
        data@.len() <= MAX_INPUT,
    ensures
        png_model(data@) is Some ==> (r matches Ok(d) && d@ == png_model(data@).unwrap()),
        png_model(data@) is None ==> (r matches Err(e) && e == ParseError::Truncated),
{
    let ghost s = data@;
    let mut cur = ByteCursor::new(data);
    cur.set_pos(8);

    let mut chunks: Vec<ChunkInfo> = Vec::new();
    chunks.push(
        ChunkInfo {
            name: String::from_str("Signature"),
            offset: 0,
            length: 8,
            total_size: 8,
            description: String::from_str("PNG Magic Header"),
            color: String::from_str("#FAB005"),
        },
    );

    let mut width: u32 = 0;
    let mut height: u32 = 0;
    let mut bit_depth: u8 = 0;
    let mut color_desc: String = String::from_str("Unknown");
    let ghost mut hdr_acc: Option<HeaderModel> = None;

    proof {
        assert(chunks@.skip(1) =~= Seq::<ChunkInfo>::empty());
        assert(chunk_models(chunks@.skip(1)) =~= Seq::<ChunkModel>::empty());
        assert(chunks@[0]@ =~= png_sig_chunk());
    }

    loop
        invariant_except_break
            s == data@,
            cur.bytes() == s,
            cur.cur() >= 0,
            s.len() <= MAX_INPUT,
            chunks@.len() >= 1,
            chunks@[0]@ == png_sig_chunk(),
            png_walk(s, 8) == png_extend(
                chunk_models(chunks@.skip(1)),
                hdr_acc,
                png_walk(s, cur.cur()),
            ),
            width as int == hdr_width(hdr_acc),
            height as int == hdr_height(hdr_acc),
            bit_depth as int == hdr_depth(hdr_acc),
            color_desc@ == hdr_mode(hdr_acc),
        ensures
            chunks@.len() >= 1,
            chunks@[0]@ == png_sig_chunk(),
            png_walk(s, 8) == (PngWalk::Stopped {
                chunks: chunk_models(chunks@.skip(1)),
                hdr: hdr_acc,
            }),
            width as int == hdr_width(hdr_acc),
            height as int == hdr_height(hdr_acc),
            bit_depth as int == hdr_depth(hdr_acc),
            color_desc@ == hdr_mode(hdr_acc),
        decreases s.len() - cur.cur(),
    {
        let ghost pos0 = cur.cur();
        let ghost prefix = chunk_models(chunks@.skip(1));
        let ghost hdr0 = hdr_acc;

        let length = match cur.read_u32_be() {
            Ok(l) => l,
            Err(_) => {
                proof {
                    assert(png_walk(s, pos0) == (PngWalk::Stopped {
                        chunks: Seq::<ChunkModel>::empty(),
                        hdr: None,
                    }));
                    assert(prefix + Seq::<ChunkModel>::empty() =~= prefix);
                }
                break ;
            },
        };
        let chunk_start = cur.position() - 4;

        let t = match cur.read4() {
            Ok(t) => t,
            Err(_) => {
                proof {
                    assert(png_walk(s, pos0) == PngWalk::Truncated);
                }
                return Err(ParseError::Truncated);
            },
        };
        proof {
            assert(t@ == s.subrange(pos0 + 4, pos0 + 8));
        }

        let is_ihdr = t[0] == 0x49 && t[1] == 0x48 && t[2] == 0x44 && t[3] == 0x52;

        if is_ihdr {
            let (w, h, d, ct) = match read_ihdr_body(&mut cur) {
                Ok(v) => v,
                Err(_) => {
                    proof {
                        assert(png_walk(s, pos0) == PngWalk::Truncated);
                    }
                    return Err(ParseError::Truncated);
                },
            };
            if length > 0xFFFF_FF00 {
                proof {
                    assert(png_walk(s, pos0) == PngWalk::Truncated);
                }
                return Err(ParseError::Truncated);
            }

            let chunk = make_ihdr_chunk(chunk_start, length, &t, w, h, d, ct);
            let mode = color_mode_string(ct);
            width = w;
            height = h;
            bit_depth = d;
            color_desc = mode;
            let ghost pre = chunks@;
            let ghost cm = chunk@;
            chunks.push(chunk);

            proof {
                hdr_acc = Some(png_ihdr_header(s, pos0));
                lemma_chunks_grow(pre, chunks@, chunks@.last());
                assert(cm =~= png_ihdr_chunk(s, pos0));
                lemma_png_step_ihdr(s, pos0, prefix, hdr0);
            }
        } else {
            if cur.skip(length as usize).is_err() {
                proof {
                    assert(pos0 + 12 + be32(s, pos0) > s.len());
                    assert(png_walk(s, pos0) == PngWalk::Truncated);
                }
                return Err(ParseError::Truncated);
            }
            if cur.skip(4).is_err() {
                proof {
                    assert(pos0 + 12 + be32(s, pos0) > s.len());
                    assert(png_walk(s, pos0) == PngWalk::Truncated);
                }
                return Err(ParseError::Truncated);
            }

            let is_iend = t[0] == 0x49 && t[1] == 0x45 && t[2] == 0x4E && t[3] == 0x44;
            let chunk = make_other_chunk(chunk_start, length, &t);
            let ghost pre = chunks@;
            let ghost cm = chunk@;
            chunks.push(chunk);

            proof {
                lemma_chunks_grow(pre, chunks@, chunks@.last());
                assert(cm =~= png_other_chunk(s, pos0));
            }

            if is_iend {
                proof {
                    assert(png_walk(s, pos0) == (PngWalk::Stopped {
                        chunks: seq![png_other_chunk(s, pos0)],
                        hdr: None,
                    }));
                    assert(prefix + seq![png_other_chunk(s, pos0)] == chunk_models(
                        chunks@.skip(1),
                    ));
                }
                break ;
            }
            proof {
                lemma_png_step_other(s, pos0, prefix, hdr0);
            }
        }
    }

    let detail = FormatDetail {
        format_name: String::from_str("PNG"),
        dimensions: Some((width, height)),
        bit_depth: Some(bit_depth),
        color_mode: color_desc,
        chunks,
    };
    proof {
        let m = png_model(s).unwrap();
        let cm = detail@.chunks;
        let rhs = seq![png_sig_chunk()] + chunk_models(detail.chunks@.skip(1));
        assert forall|i: int| 0 <= i < cm.len() implies cm[i] == rhs[i] by {
            if i >= 1 {
                assert(detail.chunks@.skip(1)[i - 1] == detail.chunks@[i]);
            }
        }
        assert(cm =~= rhs);
        assert(detail@ =~= m);
    }
    Ok(detail)
}

/// Build the static PNG template record.
pub fn png_template_exec() -> (t: FormatTemplate)
    ensures
        t@ == png_template(),
{
    let mut markers: Vec<MarkerDefinition> = Vec::new();
    markers.push(
        MarkerDefinition {
            name: String::from_str("Signature"),
            hex: String::from_str("89 50..."),
            description: String::from_str("PNG 文件魔法头"),
            color: String::from_str("#FAB005"),
        },
    );
    markers.push(
        MarkerDefinition {
            name: String::from_str("IHDR"),
            hex: String::from_str("49 48 44 52"),
            description: String::from_str("图像头 (Header Chunk)"),
            color: String::from_str("#FA5252"),
        },
    );
    markers.push(
        MarkerDefinition {
            name: String::from_str("IDAT"),
            hex: String::from_str("49 44 41 54"),
            description: String::from_str("图像数据 (Image Data)"),
            color: String::from_str("#228BE6"),
        },
    );
    markers.push(
        MarkerDefinition {
            name: String::from_str("IEND"),
            hex: String::from_str("49 45 4E 44"),
            description: String::from_str("文件结束 (End)"),
            color: String::from_str("#212529"),
        },
    );
    let t = FormatTemplate {
        name: String::from_str("PNG (Portable Network Graphics)"),
        extension: String::from_str("png"),
        signature_hex: String::from_str("89 50 4E 47 0D 0A 1A 0A"),
        description: String::from_str("基于 Chunk 的无损压缩位图格式"),
        markers,
    };
    proof {
        assert(t@.markers =~= png_template().markers);
        assert(t@ =~= png_template());
    }
    t
}

/// After emitting the `IHDR` chunk found at `pos`, the walk from `pos`
/// still factors through the walk from the following chunk.
proof fn lemma_png_step_ihdr(s: Seq<u8>, pos: int, prefix: Seq<ChunkModel>, hdr0: Option<
    HeaderModel,
>)
    requires
        0 <= pos,
        pos + 25 <= s.len(),
        code_is(s.subrange(pos + 4, pos + 8), 0x49, 0x48, 0x44, 0x52),
        be32(s, pos) <= 0xFFFF_FF00,
    ensures
        png_extend(prefix, hdr0, png_walk(s, pos)) == png_extend(
            prefix + seq![png_ihdr_chunk(s, pos)],
            Some(png_ihdr_header(s, pos)),
            png_walk(s, pos + 25),
        ),
{
    let c = png_ihdr_chunk(s, pos);
    let this_hdr = png_ihdr_header(s, pos);
    match png_walk(s, pos + 25) {
        PngWalk::Truncated => {
            assert(png_walk(s, pos) == PngWalk::Truncated);
        },
        PngWalk::Stopped { chunks, hdr } => {
            assert(png_walk(s, pos) == (PngWalk::Stopped {
                chunks: seq![c] + chunks,
                hdr: if hdr is Some {
                    hdr
                } else {
                    Some(this_hdr)
                },
            }));
            assert(prefix + (seq![c] + chunks) =~= (prefix + seq![c]) + chunks);
        },
    }
}

/// The same factoring step for a chunk that is neither `IHDR` nor `IEND`.
proof fn lemma_png_step_other(s: Seq<u8>, pos: int, prefix: Seq<ChunkModel>, hdr0: Option<
    HeaderModel,
>)
    requires
        0 <= pos,
        pos + 8 <= s.len(),
        pos + 12 + be32(s, pos) <= s.len(),
        !code_is(s.subrange(pos + 4, pos + 8), 0x49, 0x48, 0x44, 0x52),
        !code_is(s.subrange(pos + 4, pos + 8), 0x49, 0x45, 0x4E, 0x44),
    ensures
        png_extend(prefix, hdr0, png_walk(s, pos)) == png_extend(
            prefix + seq![png_other_chunk(s, pos)],
            hdr0,
            png_walk(s, pos + 12 + be32(s, pos)),
        ),
{
    let c = png_other_chunk(s, pos);
    match png_walk(s, pos + 12 + be32(s, pos)) {
        PngWalk::Truncated => {
            assert(png_walk(s, pos) == PngWalk::Truncated);
        },
        PngWalk::Stopped { chunks, hdr } => {
            assert(png_walk(s, pos) == (PngWalk::Stopped { chunks: seq![c] + chunks, hdr }));
            assert(prefix + (seq![c] + chunks) =~= (prefix + seq![c]) + chunks);
        },
    }
}

} // verus!
