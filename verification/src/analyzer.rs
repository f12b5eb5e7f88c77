//! The analysis façade: signature-based dispatch over the fixed parser
//! list (PNG, then JPEG, then GIF), assembly of the final result, and the
//! laws that hold of a whole analysis.
//!
//! A structural parse failure inside a matched format is downgraded to "no
//! structure": partial, foreign or corrupt files are expected input, not an
//! exceptional one.  Reading the source itself is the caller's concern;
//! the library works on bytes already in memory.

use vstd::prelude::*;

use crate::formats::{
    DetailModel, FormatDetail, FormatTemplate, ImageParser, MAX_INPUT,
};
use crate::gif::{gif_model, is_gif_sig, GifParser};
use crate::jpeg::{is_jpeg_sig, jpeg_model, JpegParser};
use crate::png::{is_png_sig, png_model, PngParser};

verus! {

/// Everything an analysis hands back for one byte source: its size, the
/// externally supplied metadata pairs, the structural summary when a
/// format matched and parsed, and the raw bytes themselves.
#[derive(Debug, Clone, PartialEq)]
pub struct AnalysisResult {
    pub file_size: u64,
    pub exif_data: Vec<(String, String)>,
    pub structure: Option<FormatDetail>,
    pub raw_preview: Vec<u8>,
}

/// Mathematical model of an [`AnalysisResult`].
#[verifier::ext_equal]
pub ghost struct AnalysisModel {
    pub file_size: int,
    pub exif: Seq<(Seq<char>, Seq<char>)>,
    pub structure: Option<DetailModel>,
    pub raw: Seq<u8>,
}

/// The models of a list of metadata key/value pairs.
pub open spec fn pairs_model(v: Seq<(String, String)>) -> Seq<(Seq<char>, Seq<char>)> {
    v.map_values(|p: (String, String)| (p.0@, p.1@))
}

impl View for AnalysisResult {
    type V = AnalysisModel;

    open spec fn view(&self) -> AnalysisModel {
        AnalysisModel {
            file_size: self.file_size as int,
            exif: pairs_model(self.exif_data@),
            structure: match self.structure {
                Some(d) => Some(d@),
                None => None,
            },
            raw: self.raw_preview@,
        }
    }
}

/// The 16-byte header prefix the signature matchers inspect: the first
/// bytes of `s`, padded with zeroes when the source is shorter.
pub open spec fn header16(s: Seq<u8>) -> Seq<u8> {
    Seq::new(16, |i: int| if i < s.len() { s[i] } else { 0 })
}

/// True when no registered format signature matches the source.
pub open spec fn no_signature_match(s: Seq<u8>) -> bool {
    &&& !is_png_sig(header16(s))
    &&& !is_jpeg_sig(header16(s))
    &&& !is_gif_sig(header16(s))
}

/// The structural summary an analysis of `s` carries: the first matching
/// parser's outcome, `None` when no signature matches or the matched
/// parse fails.
pub open spec fn structure_model(s: Seq<u8>) -> Option<DetailModel> {
    if is_png_sig(header16(s)) {
        png_model(s)
    } else if is_jpeg_sig(header16(s)) {
        jpeg_model(s)
    } else if is_gif_sig(header16(s)) {
        gif_model(s)
    } else {
        None
    }
}

/// The full analysis of source bytes `s` with metadata pairs `e`.
pub open spec fn analysis_model(s: Seq<u8>, e: Seq<(Seq<char>, Seq<char>)>) -> AnalysisModel {
    AnalysisModel { file_size: s.len() as int, exif: e, structure: structure_model(s), raw: s }
}

/// Analyze one byte source: match a signature, walk the structure, and
/// assemble the result around the externally supplied metadata pairs.
pub fn analyze(data: Vec<u8>, exif_data: Vec<(String, String)>) -> (r: AnalysisResult)
    requires
        data@.len() <= MAX_INPUT,
    ensures
        r@ == analysis_model(data@, pairs_model(exif_data@)),
{
    let ghost s = data@;
    let mut header: [u8; 16] = [0u8; 16];
    let mut i: usize = 0;
    while i < 16 && i < data.len()
        invariant
            i <= 16,
            i as int <= data@.len(),
            header@.len() == 16,
            forall|j: int| 0 <= j < i ==> header@[j] == data@[j],
            forall|j: int| i <= j < 16 ==> header@[j] == 0,
        decreases 16 - i,
    {
        header[i] = data[i];
        i = i + 1;
    }
    proof {
        assert(header@ =~= header16(s));
    }

    let png = PngParser;
    let jpeg = JpegParser;
    let gif = GifParser;

    let structure: Option<FormatDetail> = if png.can_parse(&header) {
        match png.parse(data.as_slice()) {
            Ok(d) => Some(d),
            Err(_) => None,
        }
    } else if jpeg.can_parse(&header) {
        match jpeg.parse(data.as_slice()) {
            Ok(d) => Some(d),
            Err(_) => None,
        }
    } else if gif.can_parse(&header) {
        match gif.parse(data.as_slice()) {
            Ok(d) => Some(d),
            Err(_) => None,
        }
    } else {
        None
    };

    let file_size = data.len() as u64;
    let r = AnalysisResult { file_size, exif_data, structure, raw_preview: data };
    proof {
        assert(r@ =~= analysis_model(s, pairs_model(r.exif_data@)));
    }
    r
}

/// The fixed static template list, in the registry's priority order.
pub fn get_supported_templates() -> (ts: Vec<FormatTemplate>)
    ensures
        ts@.len() == 3,
        ts@[0]@ == crate::png::png_template(),
        ts@[1]@ == crate::jpeg::jpeg_template(),
        ts@[2]@ == crate::gif::gif_template(),
{
    let png = PngParser;
    let jpeg = JpegParser;
    let gif = GifParser;
    let mut ts: Vec<FormatTemplate> = Vec::new();
    ts.push(png.get_template());
    ts.push(jpeg.get_template());
    ts.push(gif.get_template());
    ts
}

/// Analysis is a pure function of the source bytes and the supplied
/// metadata: two results obtained from byte-identical inputs are
/// identical, their structural summaries included.
pub proof fn lemma_analysis_deterministic(
    r1: AnalysisResult,
    r2: AnalysisResult,
    s: Seq<u8>,
    e: Seq<(Seq<char>, Seq<char>)>,
)
    requires
        r1@ == analysis_model(s, e),
        r2@ == analysis_model(s, e),
    ensures
        r1@ == r2@,
        r1@.structure == r2@.structure,
{
}

/// A source that matches no registered signature analyzes to a result
/// without structure — and analysis itself never fails.
pub proof fn lemma_unknown_format(s: Seq<u8>, e: Seq<(Seq<char>, Seq<char>)>)
    requires
        no_signature_match(s),
    ensures
        analysis_model(s, e).structure is None,
{
}

/// A PNG cut off in the middle of its `IHDR` chunk body analyzes to a
/// result without structure: the matched parse fails with a truncation
/// error, which the analysis downgrades.
pub proof fn lemma_truncated_png(body: Seq<u8>, e: Seq<(Seq<char>, Seq<char>)>)
    requires
        body.len() < 17,
    ensures
        ({
            let s = png_magic() + seq![0u8, 0u8, 0u8, 13u8] + seq![0x49u8, 0x48u8, 0x44u8, 0x52u8]
                + body;
            analysis_model(s, e).structure is None
        }),
{
    let s = png_magic() + seq![0u8, 0u8, 0u8, 13u8] + seq![0x49u8, 0x48u8, 0x44u8, 0x52u8] + body;
    assert(s.len() == 16 + body.len());
    assert forall|i: int| 0 <= i < 16 implies s[i] == png_ihdr_prefix()[i] by {
        assert(png_ihdr_prefix()[i] == (png_magic() + seq![0u8, 0u8, 0u8, 13u8] + seq![
            0x49u8,
            0x48u8,
            0x44u8,
            0x52u8,
        ])[i]);
    }
    assert(is_png_sig(header16(s)));
    assert(crate::formats::be32(s, 8) == 13);
    assert(crate::png::code_is(s.subrange(12, 16), 0x49, 0x48, 0x44, 0x52)) by {
        assert(s.subrange(12, 16)[0] == s[12]);
        assert(s.subrange(12, 16)[1] == s[13]);
        assert(s.subrange(12, 16)[2] == s[14]);
        assert(s.subrange(12, 16)[3] == s[15]);
    }
    assert(crate::png::png_walk(s, 8) == crate::png::PngWalk::Truncated);
    assert(png_model(s) is None);
}

/// The fixed 8-byte PNG signature, as bytes.
pub open spec fn png_magic() -> Seq<u8> {
    seq![0x89u8, 0x50u8, 0x4Eu8, 0x47u8, 0x0Du8, 0x0Au8, 0x1Au8, 0x0Au8]
}

/// The signature followed by the framing of an `IHDR` chunk of declared
/// length 13: what any PNG starts with.
pub open spec fn png_ihdr_prefix() -> Seq<u8> {
    png_magic() + seq![0u8, 0u8, 0u8, 13u8] + seq![0x49u8, 0x48u8, 0x44u8, 0x52u8]
}

/// The four big-endian bytes of a 32-bit value.
pub open spec fn be32_bytes(x: u32) -> Seq<u8> {
    seq![
        (x / 0x1000000) as u8,
        ((x / 0x10000) % 0x100) as u8,
        ((x / 0x100) % 0x100) as u8,
        (x % 0x100) as u8,
    ]
}

/// Reading the four big-endian bytes of a value back gives the value.
proof fn lemma_be32_bytes_value(x: u32)
    ensures
        be32_bytes(x).len() == 4,
        (be32_bytes(x)[0] as int) * 0x1000000 + (be32_bytes(x)[1] as int) * 0x10000 + (be32_bytes(
            x,
        )[2] as int) * 0x100 + (be32_bytes(x)[3] as int) == x as int,
{
    let xi = x as int;
    assert(xi / 0x1000000 < 0x100);
    assert((be32_bytes(x)[0] as int) == xi / 0x1000000);
    assert((be32_bytes(x)[1] as int) == (xi / 0x10000) % 0x100);
    assert((be32_bytes(x)[2] as int) == (xi / 0x100) % 0x100);
    assert((be32_bytes(x)[3] as int) == xi % 0x100);
    assert((xi / 0x10000) % 0x100 == xi / 0x10000 - (xi / 0x10000 / 0x100) * 0x100);
    assert(xi / 0x10000 / 0x100 == xi / 0x1000000) by {
        vstd::arithmetic::div_mod::lemma_div_denominator(xi, 0x10000, 0x100);
    }
    assert((xi / 0x100) % 0x100 == xi / 0x100 - (xi / 0x100 / 0x100) * 0x100);
    assert(xi / 0x100 / 0x100 == xi / 0x10000) by {
        vstd::arithmetic::div_mod::lemma_div_denominator(xi, 0x100, 0x100);
    }
    assert(xi % 0x100 == xi - (xi / 0x100) * 0x100);
}

/// A complete `IHDR` chunk: declared length 13, type code, the width,
/// height, bit depth and color type fields, the three fixed mode bytes,
/// and a CRC field.
pub open spec fn ihdr_chunk_bytes(w: u32, h: u32, d: u8, ct: u8, crc: Seq<u8>) -> Seq<u8> {
    seq![0u8, 0u8, 0u8, 13u8] + seq![0x49u8, 0x48u8, 0x44u8, 0x52u8] + be32_bytes(w) + be32_bytes(
        h,
    ) + seq![d, ct, 0u8, 0u8, 0u8] + crc
}

/// A complete `IEND` chunk: declared length 0, type code, and a CRC field.
pub open spec fn iend_chunk_bytes(crc: Seq<u8>) -> Seq<u8> {
    seq![0u8, 0u8, 0u8, 0u8] + seq![0x49u8, 0x45u8, 0x4Eu8, 0x44u8] + crc
}

/// Any source made of the PNG magic, a well-formed `IHDR` chunk and an
/// `IEND` chunk analyzes to a PNG structure with the header's dimensions
/// and exactly three segments at strictly increasing, non-overlapping
/// offsets.  Bytes after the `IEND` chunk do not take part in the walk.
pub proof fn lemma_wellformed_png(
    w: u32,
    h: u32,
    d: u8,
    ct: u8,
    crc1: Seq<u8>,
    crc2: Seq<u8>,
    tail: Seq<u8>,
    e: Seq<(Seq<char>, Seq<char>)>,
)
    requires
        crc1.len() == 4,
        crc2.len() == 4,
    ensures
        ({
            let s = png_magic() + ihdr_chunk_bytes(w, h, d, ct, crc1) + iend_chunk_bytes(crc2)
                + tail;
            let st = analysis_model(s, e).structure;
            &&& st is Some
            &&& st.unwrap().format_name == "PNG"@
            &&& st.unwrap().dimensions == Some((w as int, h as int))
            &&& st.unwrap().bit_depth == Some(d as int)
            &&& st.unwrap().color_mode == crate::png::png_color_mode(ct as int)
            &&& st.unwrap().chunks.len() == 3
            &&& st.unwrap().chunks[0].offset == 0
            &&& st.unwrap().chunks[1].offset == 8
            &&& st.unwrap().chunks[2].offset == 33
            &&& forall|i: int|
                0 <= i < 2 ==> #[trigger] st.unwrap().chunks[i].offset + st.unwrap().chunks[
                    i
                ].total_size <= st.unwrap().chunks[i + 1].offset
        }),
{
    let ih = ihdr_chunk_bytes(w, h, d, ct, crc1);
    let ie = iend_chunk_bytes(crc2);
    let s = png_magic() + ih + ie + tail;
    assert(be32_bytes(w).len() == 4);
    assert(be32_bytes(h).len() == 4);
    assert(ih.len() == 25);
    assert(ie.len() == 12);
    assert(s.len() == 45 + tail.len());

    assert forall|i: int| 0 <= i < 8 implies s[i] == png_magic()[i] by {}
    assert forall|i: int| 0 <= i < 25 implies s[8 + i] == ih[i] by {}
    assert forall|i: int| 0 <= i < 12 implies s[33 + i] == ie[i] by {}

    assert(is_png_sig(header16(s)));

    assert(ih[0] == 0 && ih[1] == 0 && ih[2] == 0 && ih[3] == 13);
    assert(ih[4] == 0x49 && ih[5] == 0x48 && ih[6] == 0x44 && ih[7] == 0x52);
    assert forall|k: int| 0 <= k < 4 implies ih[8 + k] == be32_bytes(w)[k] by {}
    assert forall|k: int| 0 <= k < 4 implies ih[12 + k] == be32_bytes(h)[k] by {}
    assert(ih[16] == d && ih[17] == ct);

    assert(crate::formats::be32(s, 8) == 13);
    let t1 = s.subrange(12, 16);
    assert(t1[0] == s[12] && t1[1] == s[13] && t1[2] == s[14] && t1[3] == s[15]);
    assert(crate::png::code_is(t1, 0x49, 0x48, 0x44, 0x52));

    lemma_be32_bytes_value(w);
    lemma_be32_bytes_value(h);
    assert(crate::formats::be32(s, 16) == w as int);
    assert(crate::formats::be32(s, 20) == h as int);
    assert(s[24] == d && s[25] == ct);

    assert(ie[0] == 0 && ie[1] == 0 && ie[2] == 0 && ie[3] == 0);
    assert(ie[4] == 0x49 && ie[5] == 0x45 && ie[6] == 0x4E && ie[7] == 0x44);
    assert(crate::formats::be32(s, 33) == 0);
    let t2 = s.subrange(37, 41);
    assert(t2[0] == s[37] && t2[1] == s[38] && t2[2] == s[39] && t2[3] == s[40]);
    assert(crate::png::code_is(t2, 0x49, 0x45, 0x4E, 0x44));
    assert(!crate::png::code_is(t2, 0x49, 0x48, 0x44, 0x52));

    assert(crate::png::png_walk(s, 33) == (crate::png::PngWalk::Stopped {
        chunks: seq![crate::png::png_other_chunk(s, 33)],
        hdr: None,
    }));
    assert(crate::png::png_walk(s, 8) == (crate::png::PngWalk::Stopped {
        chunks: seq![crate::png::png_ihdr_chunk(s, 8)] + seq![crate::png::png_other_chunk(s, 33)],
        hdr: Some(crate::png::png_ihdr_header(s, 8)),
    }));

    let st = analysis_model(s, e).structure;
    assert(st is Some);
    let m = st.unwrap();
    assert(m.chunks =~= seq![
        crate::png::png_sig_chunk(),
        crate::png::png_ihdr_chunk(s, 8),
        crate::png::png_other_chunk(s, 33),
    ]);
    assert(m.chunks[1].total_size == 25);
    assert forall|i: int|
        0 <= i < 2 implies #[trigger] m.chunks[i].offset + m.chunks[i].total_size <= m.chunks[
        i + 1
    ].offset by {}
}

} // verus!
