//! GIF structural parser.
//!
//! After the 6-byte signature comes the 7-byte logical screen descriptor,
//! an optional global color table, and then a run of blocks: extensions
//! (`0x21`), image descriptors (`0x2C`) with their LZW data sub-blocks,
//! and the trailer (`0x3B`).  Running out of bytes between blocks, or an
//! unrecognized introducer byte, ends the walk gracefully; running out
//! inside a block's framing is a hard truncation failure.  An extension
//! whose data reaches the end of the stream keeps its partial span and
//! ends the walk.

use vstd::prelude::*;

use crate::cursor::ByteCursor;
use crate::formats::{
    chunk_models, le16, ChunkInfo, ChunkModel, DetailModel, FormatDetail, FormatTemplate,
    ImageParser, MarkerDefinition, MarkerModel, ParseError, TemplateModel, MAX_INPUT,
};
use crate::textutil::{dec_str, hex2, push_dec, push_hex2};
use vstd::string::StringExecFns;

verus! {

pub struct GifParser;

/// Outcome of walking the block sequence from a given position.
#[verifier::ext_equal]
pub ghost enum GifWalk {
    Stopped { blocks: Seq<ChunkModel> },
    Truncated,
}

/// The 6-byte GIF signature, either version.
pub open spec fn is_gif_sig(h: Seq<u8>) -> bool {
    &&& h.len() >= 6
    &&& h[0] == 0x47
    &&& h[1] == 0x49
    &&& h[2] == 0x46
    &&& h[3] == 0x38
    &&& (h[4] == 0x37 || h[4] == 0x39)
    &&& h[5] == 0x61
}

/// Number of entries of the global color table, from the packed flags.
pub open spec fn gct_entries(packed: u8) -> int {
    if packed & 0x07 == 0 {
        2
    } else if packed & 0x07 == 1 {
        4
    } else if packed & 0x07 == 2 {
        8
    } else if packed & 0x07 == 3 {
        16
    } else if packed & 0x07 == 4 {
        32
    } else if packed & 0x07 == 5 {
        64
    } else if packed & 0x07 == 6 {
        128
    } else {
        256
    }
}

/// The descriptor emitted for the fixed signature prefix.
pub open spec fn gif_header_chunk() -> ChunkModel {
    ChunkModel {
        name: "Header"@,
        offset: 0,
        length: 6,
        total_size: 6,
        description: "GIF Signature (Version 89a)"@,
        color: "#FAB005"@,
    }
}

/// The descriptor emitted for the logical screen descriptor.
pub open spec fn gif_lsd_chunk(w: int, h: int) -> ChunkModel {
    ChunkModel {
        name: "LSD"@,
        offset: 6,
        length: 7,
        total_size: 7,
        description: "Logical Screen: "@ + dec_str(w) + "x"@ + dec_str(h),
        color: "#FA5252"@,
    }
}

/// The descriptor emitted for the global color table.
pub open spec fn gif_gct_chunk(packed: u8) -> ChunkModel {
    ChunkModel {
        name: "GCT"@,
        offset: 13,
        length: 3 * gct_entries(packed),
        total_size: 3 * gct_entries(packed),
        description: "Global Color Table ("@ + dec_str(gct_entries(packed)) + " colors)"@,
        color: "#BE4BDB"@,
    }
}

/// The name an extension block is classified with, by label.
pub open spec fn gif_ext_name(label: u8) -> Seq<char> {
    if label == 0xF9 {
        "GCE"@
    } else if label == 0xFE {
        "Comment"@
    } else if label == 0xFF {
        "App Ext"@
    } else {
        "Extension"@
    }
}

/// The descriptor emitted for an extension block found at `pos`; `total`
/// is its whole span, terminator included when one was present.
pub open spec fn gif_ext_chunk(pos: int, label: u8, bs: u8, total: int) -> ChunkModel {
    ChunkModel {
        name: gif_ext_name(label),
        offset: pos,
        length: bs as int,
        total_size: total,
        description: "Extension Block (Type: 0x"@ + hex2(label as int) + ")"@,
        color: "#12B886"@,
    }
}

/// The descriptor emitted for an image descriptor with its data
/// sub-blocks: `len` is the accumulated payload, `total` the whole span.
pub open spec fn gif_image_chunk(pos: int, len: int, total: int) -> ChunkModel {
    ChunkModel {
        name: "IDAT"@,
        offset: pos,
        length: len,
        total_size: total,
        description: "Image Descriptor & LZW Data"@,
        color: "#228BE6"@,
    }
}

/// The descriptor emitted for the trailer byte found at `pos`.
pub open spec fn gif_trailer_chunk(pos: int) -> ChunkModel {
    ChunkModel {
        name: "Trailer"@,
        offset: pos,
        length: 0,
        total_size: 1,
        description: "File Termination"@,
        color: "#212529"@,
    }
}

/// Walk the block sequence of `s` starting at `pos`.
pub open spec fn gif_walk(s: Seq<u8>, pos: int) -> GifWalk
    decreases s.len() - pos, 1int,
{
    if pos < 0 || pos + 1 > s.len() {
        GifWalk::Stopped { blocks: seq![] }
    } else {
        let b = s[pos];
        if b == 0x21 {
            if pos + 3 > s.len() {
                GifWalk::Truncated
            } else {
                let label = s[pos + 1];
                let bs = s[pos + 2];
                if pos + 4 + bs > s.len() {
                    GifWalk::Stopped { blocks: seq![gif_ext_chunk(pos, label, bs, bs + 3)] }
                } else {
                    match gif_walk(s, pos + 4 + bs) {
                        GifWalk::Truncated => GifWalk::Truncated,
                        GifWalk::Stopped { blocks } => GifWalk::Stopped {
                            blocks: seq![gif_ext_chunk(pos, label, bs, bs + 4)] + blocks,
                        },
                    }
                }
            }
        } else if b == 0x2C {
            if pos + 12 > s.len() {
                GifWalk::Truncated
            } else {
                gif_subs(s, pos, pos + 11, 0)
            }
        } else if b == 0x3B {
            GifWalk::Stopped { blocks: seq![gif_trailer_chunk(pos)] }
        } else {
            GifWalk::Stopped { blocks: seq![] }
        }
    }
}

/// Scan the data sub-blocks of the image descriptor at `cpos`, the next
/// sub-block length byte standing at `p` with `acc` payload bytes already
/// counted, then walk on after the terminating empty sub-block.
pub open spec fn gif_subs(s: Seq<u8>, cpos: int, p: int, acc: int) -> GifWalk
    decreases s.len() - p, 0int,
{
    if p < 0 || p + 1 > s.len() {
        GifWalk::Truncated
    } else if s[p] == 0 {
        match gif_walk(s, p + 1) {
            GifWalk::Truncated => GifWalk::Truncated,
            GifWalk::Stopped { blocks } => GifWalk::Stopped {
                blocks: seq![gif_image_chunk(cpos, acc, p + 1 - cpos)] + blocks,
            },
        }
    } else if p + 1 + s[p] > s.len() {
        GifWalk::Truncated
    } else {
        gif_subs(s, cpos, p + 1 + s[p], acc + s[p])
    }
}

/// Prepend already-emitted blocks to the outcome of walking the rest.
pub open spec fn gif_extend(prefix: Seq<ChunkModel>, w: GifWalk) -> GifWalk {
    match w {
        GifWalk::Truncated => GifWalk::Truncated,
        GifWalk::Stopped { blocks } => GifWalk::Stopped { blocks: prefix + blocks },
    }
}

/// Where the block sequence starts: after the logical screen descriptor
/// and the global color table when one is declared.
pub open spec fn gif_start(s: Seq<u8>) -> int {
    if s[10] & 0x80 != 0 {
        13 + 3 * gct_entries(s[10])
    } else {
        13
    }
}

/// The fixed descriptors that precede the block sequence.
pub open spec fn gif_pre_chunks(s: Seq<u8>) -> Seq<ChunkModel> {
    if s[10] & 0x80 != 0 {
        seq![gif_header_chunk(), gif_lsd_chunk(le16(s, 6), le16(s, 8)), gif_gct_chunk(s[10])]
    } else {
        seq![gif_header_chunk(), gif_lsd_chunk(le16(s, 6), le16(s, 8))]
    }
}

/// The full parse outcome for `s`: `None` stands for a truncation failure.
pub open spec fn gif_model(s: Seq<u8>) -> Option<DetailModel> {
    if s.len() < 11 {
        None
    } else {
        match gif_walk(s, gif_start(s)) {
            GifWalk::Truncated => None,
            GifWalk::Stopped { blocks } => Some(
                DetailModel {
                    format_name: "GIF"@,
                    dimensions: Some((le16(s, 6), le16(s, 8))),
                    bit_depth: Some(8),
                    color_mode: "Indexed"@,
                    chunks: gif_pre_chunks(s) + blocks,
                },
            ),
        }
    }
}

/// The static template of the GIF format.
pub open spec fn gif_template() -> TemplateModel {
    TemplateModel {
        name: "GIF (Graphics Interchange Format)"@,
        extension: "gif"@,
        signature_hex: "47 49 46 38 39 61"@,
        description: "基于块（Block）的 8 位色彩格式，支持动画与 LZW 压缩"@,
        markers: seq![
            MarkerModel {
                name: "Header"@,
                hex: "47 49 46"@,
                description: "GIF 签名"@,
                color: "#FAB005"@,
            },
            MarkerModel {
                name: "LSD"@,
                hex: "6 字节处"@,
                description: "逻辑屏幕描述符"@,
                color: "#FA5252"@,
            },
            MarkerModel {
                name: "GCT"@,
                hex: "13 字节处"@,
                description: "全局调色板"@,
                color: "#BE4BDB"@,
            },
            MarkerModel {
                name: "GCE"@,
                hex: "21 F9"@,
                description: "图形控制扩展 (透明/帧间隔)"@,
                color: "#12B886"@,
            },
            MarkerModel {
                name: "Trailer"@,
                hex: "3B"@,
                description: "文件结束符"@,
                color: "#212529"@,
            },
        ],
    }
}

impl ImageParser for GifParser {
    open spec fn signature_matches(h: Seq<u8>) -> bool {
        is_gif_sig(h)
    }

    open spec fn parse_model(s: Seq<u8>) -> Option<DetailModel> {
        gif_model(s)
    }

    open spec fn template_model() -> TemplateModel {
        gif_template()
    }

    fn can_parse(&self, header: &[u8; 16]) -> bool {
        header[0] == 0x47 && header[1] == 0x49 && header[2] == 0x46 && header[3] == 0x38 && (
        header[4] == 0x37 || header[4] == 0x39) && header[5] == 0x61
    }

    fn parse(&self, data: &[u8]) -> Result<FormatDetail, ParseError> {
        parse_gif(data)
    }

    fn get_template(&self) -> FormatTemplate {
        gif_template_exec()
    }
}

/// Number of entries of the global color table, from the packed flags.
fn gct_entries_exec(packed: u8) -> (n: u32)
    ensures
        n as int == gct_entries(packed),
{
    let low = packed & 0x07;
    if low == 0 {
        2
    } else if low == 1 {
        4
    } else if low == 2 {
        8
    } else if low == 3 {
        16
    } else if low == 4 {
        32
    } else if low == 5 {
        64
    } else if low == 6 {
        128
    } else {
        256
    }
}

/// Build the descriptor for an extension block.
fn make_ext_chunk(offset: usize, label: u8, bs: u8, total: u32) -> (c: ChunkInfo)
    ensures
        c@ == gif_ext_chunk(offset as int, label, bs, total as int),
{
    let name: &str = if label == 0xF9 {
        "GCE"
    } else if label == 0xFE {
        "Comment"
    } else if label == 0xFF {
        "App Ext"
    } else {
        "Extension"
    };
    let mut desc = String::from_str("Extension Block (Type: 0x");
    push_hex2(&mut desc, label);
    desc.append(")");
    proof {
        assert(desc@ =~= "Extension Block (Type: 0x"@ + hex2(label as int) + ")"@);
    }
    ChunkInfo {
        name: String::from_str(name),
        offset: offset as u64,
        length: bs as u32,
        total_size: total,
        description: desc,
        color: String::from_str("#12B886"),
    }
}

/// Growing the descriptor list by one keeps its fixed prefix and extends
/// the models of its tail.
proof fn lemma_blocks_grow(pre: Seq<ChunkInfo>, post: Seq<ChunkInfo>, c: ChunkInfo, npre: int)
    requires
        0 <= npre <= pre.len(),
        post == pre.push(c),
    ensures
        post.len() == pre.len() + 1,
        post.subrange(0, npre) == pre.subrange(0, npre),
        chunk_models(post.skip(npre)) == chunk_models(pre.skip(npre)) + seq![c@],
{
    assert(post.subrange(0, npre) =~= pre.subrange(0, npre));
    assert(post.skip(npre) =~= pre.skip(npre).push(c));
    assert(chunk_models(pre.skip(npre).push(c)) =~= chunk_models(pre.skip(npre)) + seq![c@]);
}

/// After emitting a fully-framed extension block found at `pos`, the walk
/// from `pos` still factors through the walk from the next block.
proof fn lemma_gif_step_ext(s: Seq<u8>, pos: int, prefix: Seq<ChunkModel>)
    requires
        0 <= pos,
        pos + 3 <= s.len(),
        s[pos] == 0x21,
        pos + 4 + s[pos + 2] <= s.len(),
    ensures
        gif_extend(prefix, gif_walk(s, pos)) == gif_extend(
            prefix + seq![gif_ext_chunk(pos, s[pos + 1], s[pos + 2], s[pos + 2] + 4)],
            gif_walk(s, pos + 4 + s[pos + 2]),
        ),
{
    let c = gif_ext_chunk(pos, s[pos + 1], s[pos + 2], s[pos + 2] + 4);
    match gif_walk(s, pos + 4 + s[pos + 2]) {
        GifWalk::Truncated => {
            assert(gif_walk(s, pos) == GifWalk::Truncated);
        },
        GifWalk::Stopped { blocks } => {
            assert(gif_walk(s, pos) == (GifWalk::Stopped { blocks: seq![c] + blocks }));
            assert(prefix + (seq![c] + blocks) =~= (prefix + seq![c]) + blocks);
        },
    }
}

/// After emitting an image descriptor whose sub-blocks end at `end` with
/// `acc` payload bytes, the walk from `pos` still factors through the walk
/// from `end`.
proof fn lemma_gif_step_image(s: Seq<u8>, pos: int, end: int, acc: int, prefix: Seq<ChunkModel>)
    requires
        0 <= pos,
        pos + 12 <= s.len(),
        s[pos] == 0x2C,
        gif_subs(s, pos, pos + 11, 0) == gif_subs_done(s, pos, end, acc),
    ensures
        gif_extend(prefix, gif_walk(s, pos)) == gif_extend(
            prefix + seq![gif_image_chunk(pos, acc, end - pos)],
            gif_walk(s, end),
        ),
{
    let c = gif_image_chunk(pos, acc, end - pos);
    assert(gif_walk(s, pos) == gif_subs(s, pos, pos + 11, 0));
    match gif_walk(s, end) {
        GifWalk::Truncated => {
        },
        GifWalk::Stopped { blocks } => {
            assert(prefix + (seq![c] + blocks) =~= (prefix + seq![c]) + blocks);
        },
    }
}

/// The value of a finished sub-block scan: the image descriptor chunk,
/// followed by whatever the walk from `end` yields.
pub open spec fn gif_subs_done(s: Seq<u8>, cpos: int, end: int, acc: int) -> GifWalk {
    match gif_walk(s, end) {
        GifWalk::Truncated => GifWalk::Truncated,
        GifWalk::Stopped { blocks } => GifWalk::Stopped {
            blocks: seq![gif_image_chunk(cpos, acc, end - cpos)] + blocks,
        },
    }
}

/// Walk the blocks of `data` and assemble the GIF summary; the result is
/// exactly what [`gif_model`] states for these bytes.
#[verifier::rlimit(100)]
#[verifier::spinoff_prover]
pub fn parse_gif(data: &[u8]) -> (r: Result<FormatDetail, ParseError>)
    requires
        data@.len() <= MAX_INPUT,
    ensures
        gif_model(data@) is Some ==> (r matches Ok(d) && d@ == gif_model(data@).unwrap()),
        gif_model(data@) is None ==> (r matches Err(e) && e == ParseError::Truncated),
{
    let ghost s = data@;
    let mut cur = ByteCursor::new(data);
    cur.set_pos(6);

    let w = match cur.read_u16_le() {
        Ok(v) => v,
        Err(_) => {
            return Err(ParseError::Truncated);
        },
    };
    let h = match cur.read_u16_le() {
        Ok(v) => v,
        Err(_) => {
            return Err(ParseError::Truncated);
        },
    };
    let packed = match cur.read_u8() {
        Ok(v) => v,
        Err(_) => {
            return Err(ParseError::Truncated);
        },
    };

    let mut chunks: Vec<ChunkInfo> = Vec::new();
    chunks.push(
        ChunkInfo {
            name: String::from_str("Header"),
            offset: 0,
            length: 6,
            total_size: 6,
            description: String::from_str("GIF Signature (Version 89a)"),
            color: String::from_str("#FAB005"),
        },
    );
    let mut lsd_desc = String::from_str("Logical Screen: ");
    push_dec(&mut lsd_desc, w as u32);
    lsd_desc.append("x");
    push_dec(&mut lsd_desc, h as u32);
    proof {
        assert(lsd_desc@ =~= "Logical Screen: "@ + dec_str(w as int) + "x"@ + dec_str(h as int));
    }
    chunks.push(
        ChunkInfo {
            name: String::from_str("LSD"),
            offset: 6,
            length: 7,
            total_size: 7,
            description: lsd_desc,
            color: String::from_str("#FA5252"),
        },
    );

    let mut start: usize = 13;
    if packed & 0x80 != 0 {
        let entries = gct_entries_exec(packed);
        let gct_bytes = 3 * entries;
        let mut gct_desc = String::from_str("Global Color Table (");
        push_dec(&mut gct_desc, entries);
        gct_desc.append(" colors)");
        proof {
            assert(gct_desc@ =~= "Global Color Table ("@ + dec_str(gct_entries(packed))
                + " colors)"@);
        }
        chunks.push(
            ChunkInfo {
                name: String::from_str("GCT"),
                offset: 13,
                length: gct_bytes,
                total_size: gct_bytes,
                description: gct_desc,
                color: String::from_str("#BE4BDB"),
            },
        );
        start = 13 + gct_bytes as usize;
    }
    cur.set_pos(start);

    let ghost npre = chunks@.len() as int;
    proof {
        assert(chunk_models(chunks@.subrange(0, npre)) =~= chunk_models(chunks@));
        assert(chunk_models(chunks@) =~= gif_pre_chunks(s));
        assert(chunks@.skip(npre) =~= Seq::<ChunkInfo>::empty());
        assert(chunk_models(chunks@.skip(npre)) =~= Seq::<ChunkModel>::empty());
        assert(start as int == gif_start(s));
        assert(gif_walk(s, gif_start(s)) == gif_extend(
            chunk_models(chunks@.skip(npre)),
            gif_walk(s, cur.cur()),
        ));
    }

    loop
        invariant_except_break
            s == data@,
            cur.bytes() == s,
            cur.cur() >= 0,
            s.len() <= MAX_INPUT,
            11 <= s.len(),
            2 <= npre <= chunks@.len(),
            chunk_models(chunks@.subrange(0, npre)) == gif_pre_chunks(s),
            w as int == le16(s, 6),
            h as int == le16(s, 8),
            gif_walk(s, gif_start(s)) == gif_extend(
                chunk_models(chunks@.skip(npre)),
                gif_walk(s, cur.cur()),
            ),
        ensures
            2 <= npre <= chunks@.len(),
            chunk_models(chunks@.subrange(0, npre)) == gif_pre_chunks(s),
            gif_walk(s, gif_start(s)) == (GifWalk::Stopped {
                blocks: chunk_models(chunks@.skip(npre)),
            }),
        decreases s.len() - cur.cur(),
    {
        let ghost pos0 = cur.cur();
        let ghost prefix = chunk_models(chunks@.skip(npre));

        let intro = match cur.read_u8() {
            Ok(b) => b,
            Err(_) => {
                proof {
                    assert(gif_walk(s, pos0) == (GifWalk::Stopped {
                        blocks: Seq::<ChunkModel>::empty(),
                    }));
                    assert(prefix + Seq::<ChunkModel>::empty() =~= prefix);
                }
                break ;
            },
        };
        let pos = cur.position() - 1;

        if intro == 0x21 {
            let label = match cur.read_u8() {
                Ok(v) => v,
                Err(_) => {
                    proof {
                        assert(gif_walk(s, pos0) == GifWalk::Truncated);
                    }
                    return Err(ParseError::Truncated);
                },
            };
            let bs = match cur.read_u8() {
                Ok(v) => v,
                Err(_) => {
                    proof {
                        assert(gif_walk(s, pos0) == GifWalk::Truncated);
                    }
                    return Err(ParseError::Truncated);
                },
            };

            let mut ended = false;
            if cur.skip(bs as usize).is_err() {
                ended = true;
            } else if cur.read_u8().is_err() {
                ended = true;
            }

            if ended {
                let chunk = make_ext_chunk(pos, label, bs, bs as u32 + 3);
                let ghost pre = chunks@;
                let ghost cm = chunk@;
                chunks.push(chunk);
                proof {
                    lemma_blocks_grow(pre, chunks@, chunks@.last(), npre);
                    assert(pos0 + 4 + s[pos0 + 2] > s.len());
                    assert(gif_walk(s, pos0) == (GifWalk::Stopped {
                        blocks: seq![gif_ext_chunk(pos0, s[pos0 + 1], s[pos0 + 2], s[pos0 + 2]
                            + 3)],
                    }));
                    assert(cm =~= gif_ext_chunk(pos0, s[pos0 + 1], s[pos0 + 2], s[pos0 + 2] + 3));
                    assert(prefix + seq![cm] == chunk_models(chunks@.skip(npre)));
                }
                break ;
            } else {
                let chunk = make_ext_chunk(pos, label, bs, bs as u32 + 4);
                let ghost pre = chunks@;
                let ghost cm = chunk@;
                chunks.push(chunk);
                proof {
                    lemma_blocks_grow(pre, chunks@, chunks@.last(), npre);
                    assert(cm =~= gif_ext_chunk(pos0, s[pos0 + 1], s[pos0 + 2], s[pos0 + 2] + 4));
                    lemma_gif_step_ext(s, pos0, prefix);
                }
            }
        } else if intro == 0x2C {
            let p11 = pos + 11;
            cur.set_pos(p11);
            let mut acc: u32 = 0;
            let mut ok = false;

            loop
                invariant_except_break
                    s == data@,
                    cur.bytes() == s,
                    s.len() <= MAX_INPUT,
                    pos0 == pos as int,
                    0 <= pos0,
                    p11 == pos + 11,
                    !ok,
                    cur.cur() >= p11 as int,
                    p11 as int + acc as int <= cur.cur(),
                    gif_subs(s, pos0, cur.cur(), acc as int) == gif_subs(s, pos0, p11 as int, 0),
                ensures
                    s == data@,
                    cur.bytes() == s,
                    !ok ==> gif_subs(s, pos0, p11 as int, 0) == GifWalk::Truncated,
                    ok ==> {
                        &&& gif_subs(s, pos0, p11 as int, 0) == gif_subs_done(
                            s,
                            pos0,
                            cur.cur(),
                            acc as int,
                        )
                        &&& (p11 as int) < cur.cur()
                        &&& cur.cur() <= s.len()
                        &&& acc as int <= s.len()
                    },
                decreases s.len() - cur.cur(),
            {
                let ghost p = cur.cur();
                let sub_len = match cur.read_u8() {
                    Ok(v) => v,
                    Err(_) => {
                        proof {
                            assert(gif_subs(s, pos0, p, acc as int) == GifWalk::Truncated);
                        }
                        break ;
                    },
                };
                if sub_len == 0 {
                    ok = true;
                    proof {
                        assert(gif_subs(s, pos0, p, acc as int) == gif_subs_done(s, pos0, p + 1,
                            acc as int));
                    }
                    break ;
                }
                if cur.skip(sub_len as usize).is_err() {
                    proof {
                        assert(p + 1 + s[p] > s.len());
                        assert(gif_subs(s, pos0, p, acc as int) == GifWalk::Truncated);
                    }
                    break ;
                }
                acc = acc + sub_len as u32;
                proof {
                    assert(gif_subs(s, pos0, p, (acc - sub_len) as int) == gif_subs(
                        s,
                        pos0,
                        p + 1 + s[p],
                        (acc - sub_len) + s[p],
                    ));
                }
            }

            if !ok {
                proof {
                    if pos0 + 12 > s.len() {
                        assert(gif_walk(s, pos0) == GifWalk::Truncated);
                    } else {
                        assert(gif_walk(s, pos0) == gif_subs(s, pos0, pos0 + 11, 0));
                    }
                }
                return Err(ParseError::Truncated);
            }

            let end = cur.position();
            let chunk = ChunkInfo {
                name: String::from_str("IDAT"),
                offset: pos as u64,
                length: acc,
                total_size: (end - pos) as u32,
                description: String::from_str("Image Descriptor & LZW Data"),
                color: String::from_str("#228BE6"),
            };
            let ghost pre = chunks@;
            let ghost cm = chunk@;
            chunks.push(chunk);
            proof {
                assert(pos0 + 12 <= s.len());
                lemma_blocks_grow(pre, chunks@, chunks@.last(), npre);
                assert(cm =~= gif_image_chunk(pos0, acc as int, end as int - pos0));
                lemma_gif_step_image(s, pos0, end as int, acc as int, prefix);
            }
        } else if intro == 0x3B {
            let chunk = ChunkInfo {
                name: String::from_str("Trailer"),
                offset: pos as u64,
                length: 0,
                total_size: 1,
                description: String::from_str("File Termination"),
                color: String::from_str("#212529"),
            };
            let ghost pre = chunks@;
            let ghost cm = chunk@;
            chunks.push(chunk);
            proof {
                lemma_blocks_grow(pre, chunks@, chunks@.last(), npre);
                assert(cm =~= gif_trailer_chunk(pos0));
                assert(gif_walk(s, pos0) == (GifWalk::Stopped {
                    blocks: seq![gif_trailer_chunk(pos0)],
                }));
                assert(prefix + seq![cm] == chunk_models(chunks@.skip(npre)));
            }
            break ;
        } else {
            proof {
                assert(gif_walk(s, pos0) == (GifWalk::Stopped {
                    blocks: Seq::<ChunkModel>::empty(),
                }));
                assert(prefix + Seq::<ChunkModel>::empty() =~= prefix);
            }
            break ;
        }
    }

    let detail = FormatDetail {
        format_name: String::from_str("GIF"),
        dimensions: Some((w as u32, h as u32)),
        bit_depth: Some(8),
        color_mode: String::from_str("Indexed"),
        chunks,
    };
    proof {
        let m = gif_model(s).unwrap();
        let cm = detail@.chunks;
        let rhs = gif_pre_chunks(s) + chunk_models(detail.chunks@.skip(npre));
        assert forall|i: int| 0 <= i < cm.len() implies cm[i] == rhs[i] by {
            if i < npre {
                assert(chunk_models(detail.chunks@.subrange(0, npre))[i] == detail.chunks@[i]@);
            } else {
                assert(detail.chunks@.skip(npre)[i - npre] == detail.chunks@[i]);
            }
        }
        assert(cm =~= rhs);
        assert(detail@ =~= m);
    }
    Ok(detail)
}

/// Build the static GIF template record.
pub fn gif_template_exec() -> (t: FormatTemplate)
    ensures
        t@ == gif_template(),
{
    let mut markers: Vec<MarkerDefinition> = Vec::new();
    markers.push(
        MarkerDefinition {
            name: String::from_str("Header"),
            hex: String::from_str("47 49 46"),
            description: String::from_str("GIF 签名"),
            color: String::from_str("#FAB005"),
        },
    );
    markers.push(
        MarkerDefinition {
            name: String::from_str("LSD"),
            hex: String::from_str("6 字节处"),
            description: String::from_str("逻辑屏幕描述符"),
            color: String::from_str("#FA5252"),
        },
    );
    markers.push(
        MarkerDefinition {
            name: String::from_str("GCT"),
            hex: String::from_str("13 字节处"),
            description: String::from_str("全局调色板"),
            color: String::from_str("#BE4BDB"),
        },
    );
    markers.push(
        MarkerDefinition {
            name: String::from_str("GCE"),
            hex: String::from_str("21 F9"),
            description: String::from_str("图形控制扩展 (透明/帧间隔)"),
            color: String::from_str("#12B886"),
        },
    );
    markers.push(
        MarkerDefinition {
            name: String::from_str("Trailer"),
            hex: String::from_str("3B"),
            description: String::from_str("文件结束符"),
            color: String::from_str("#212529"),
        },
    );
    let t = FormatTemplate {
        name: String::from_str("GIF (Graphics Interchange Format)"),
        extension: String::from_str("gif"),
        signature_hex: String::from_str("47 49 46 38 39 61"),
        description: String::from_str("基于块（Block）的 8 位色彩格式，支持动画与 LZW 压缩"),
        markers,
    };
    proof {
        assert(t@.markers =~= gif_template().markers);
        assert(t@ =~= gif_template());
    }
    t
}

} // verus!
