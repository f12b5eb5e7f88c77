//! Shared data shapes produced by the container parsers: segment
//! descriptors, per-format summaries, and the static reference templates,
//! together with their mathematical models.

use vstd::prelude::*;

verus! {

/// A structural parse fails only when a declared length runs past the end
/// of the available bytes while a segment body is being consumed.
#[derive(Clone, Copy, Debug, PartialEq, Eq, Structural)]
pub enum ParseError {
    Truncated,
}

/// One structural unit of a container file: a chunk, a marker segment or a
/// block, with its position and framing overhead.
#[derive(Debug, Clone, PartialEq)]
pub struct ChunkInfo {
    pub name: String,
    pub offset: u64,
    pub length: u32,
    pub total_size: u32,
    pub description: String,
    pub color: String,
}

/// Mathematical model of a [`ChunkInfo`].
#[verifier::ext_equal]
pub ghost struct ChunkModel {
    pub name: Seq<char>,
    pub offset: int,
    pub length: int,
    pub total_size: int,
    pub description: Seq<char>,
    pub color: Seq<char>,
}

impl View for ChunkInfo {
    type V = ChunkModel;

    open spec fn view(&self) -> ChunkModel {
        ChunkModel {
            name: self.name@,
            offset: self.offset as int,
            length: self.length as int,
            total_size: self.total_size as int,
            description: self.description@,
            color: self.color@,
        }
    }
}

/// The summary a parser produces for one file: identity, header fields and
/// the ordered segment list.
#[derive(Debug, Clone, PartialEq)]
pub struct FormatDetail {
    pub format_name: String,
    pub dimensions: Option<(u32, u32)>,
    pub bit_depth: Option<u8>,
    pub color_mode: String,
    pub chunks: Vec<ChunkInfo>,
}

/// Mathematical model of a [`FormatDetail`].
#[verifier::ext_equal]
pub ghost struct DetailModel {
    pub format_name: Seq<char>,
    pub dimensions: Option<(int, int)>,
    pub bit_depth: Option<int>,
    pub color_mode: Seq<char>,
    pub chunks: Seq<ChunkModel>,
}

impl View for FormatDetail {
    type V = DetailModel;

    open spec fn view(&self) -> DetailModel {
        DetailModel {
            format_name: self.format_name@,
            dimensions: match self.dimensions {
                Some((w, h)) => Some((w as int, h as int)),
                None => None,
            },
            bit_depth: match self.bit_depth {
                Some(d) => Some(d as int),
                None => None,
            },
            color_mode: self.color_mode@,
            chunks: self.chunks@.map_values(|c: ChunkInfo| c@),
        }
    }
}

/// Static description of one marker kind of a format, for reference display.
#[derive(Debug, Clone, PartialEq)]
pub struct MarkerDefinition {
    pub name: String,
    pub hex: String,
    pub description: String,
    pub color: String,
}

/// Mathematical model of a [`MarkerDefinition`].
#[verifier::ext_equal]
pub ghost struct MarkerModel {
    pub name: Seq<char>,
    pub hex: Seq<char>,
    pub description: Seq<char>,
    pub color: Seq<char>,
}

impl View for MarkerDefinition {
    type V = MarkerModel;

    open spec fn view(&self) -> MarkerModel {
        MarkerModel {
            name: self.name@,
            hex: self.hex@,
            description: self.description@,
            color: self.color@,
        }
    }
}

/// Static, caller-independent reference data for one supported format.
#[derive(Debug, Clone, PartialEq)]
pub struct FormatTemplate {
    pub name: String,
    pub extension: String,
    pub signature_hex: String,
    pub description: String,
    pub markers: Vec<MarkerDefinition>,
}

/// Mathematical model of a [`FormatTemplate`].
#[verifier::ext_equal]
pub ghost struct TemplateModel {
    pub name: Seq<char>,
    pub extension: Seq<char>,
    pub signature_hex: Seq<char>,
    pub description: Seq<char>,
    pub markers: Seq<MarkerModel>,
}

impl View for FormatTemplate {
    type V = TemplateModel;

    open spec fn view(&self) -> TemplateModel {
        TemplateModel {
            name: self.name@,
            extension: self.extension@,
            signature_hex: self.signature_hex@,
            description: self.description@,
            markers: self.markers@.map_values(|m: MarkerDefinition| m@),
        }
    }
}

/// Header fields a parser collects from a format's image header segment.
#[verifier::ext_equal]
pub ghost struct HeaderModel {
    pub width: int,
    pub height: int,
    pub bit_depth: int,
    pub color_mode: Seq<char>,
}

/// The width recorded so far, `0` before any header was seen.
pub open spec fn hdr_width(h: Option<HeaderModel>) -> int {
    match h {
        Some(h) => h.width,
        None => 0,
    }
}

/// The height recorded so far, `0` before any header was seen.
pub open spec fn hdr_height(h: Option<HeaderModel>) -> int {
    match h {
        Some(h) => h.height,
        None => 0,
    }
}

/// The bit depth recorded so far, `0` before any header was seen.
pub open spec fn hdr_depth(h: Option<HeaderModel>) -> int {
    match h {
        Some(h) => h.bit_depth,
        None => 0,
    }
}

/// The color mode recorded so far, `"Unknown"` before any header was seen.
pub open spec fn hdr_mode(h: Option<HeaderModel>) -> Seq<char> {
    match h {
        Some(h) => h.color_mode,
        None => "Unknown"@,
    }
}

/// The models of a sequence of segment descriptors, in order.
pub open spec fn chunk_models(s: Seq<ChunkInfo>) -> Seq<ChunkModel> {
    s.map_values(|c: ChunkInfo| c@)
}

/// Largest byte-source length a structural parse accepts; keeps every
/// `total_span` representable in the 32-bit descriptor field.
pub const MAX_INPUT: usize = 0xFFFF_FF00;

/// The shared capability set of the format parsers: signature match,
/// structural parse, and the static template description.  Each variant
/// fixes the mathematical model its methods are held to.
pub trait ImageParser: Sized {
    /// Whether a 16-byte header prefix carries this format's signature.
    spec fn signature_matches(h: Seq<u8>) -> bool;

    /// The full structural parse outcome for a byte source; `None` stands
    /// for a truncation failure.
    spec fn parse_model(s: Seq<u8>) -> Option<DetailModel>;

    /// The fixed static template of the format.
    spec fn template_model() -> TemplateModel;

    fn can_parse(&self, header: &[u8; 16]) -> (r: bool)
        ensures
            r == Self::signature_matches(header@),
    ;

    fn parse(&self, data: &[u8]) -> (r: Result<FormatDetail, ParseError>)
        requires
            data@.len() <= MAX_INPUT,
        ensures
            Self::parse_model(data@) is Some ==> (r matches Ok(d) && d@ == Self::parse_model(
                data@,
            ).unwrap()),
            Self::parse_model(data@) is None ==> (r matches Err(e) && e == ParseError::Truncated),
    ;

    fn get_template(&self) -> (t: FormatTemplate)
        ensures
            t@ == Self::template_model(),
    ;
}

/// Big-endian 16-bit value stored at offset `i` of `s`.
pub open spec fn be16(s: Seq<u8>, i: int) -> int {
    (s[i] as int) * 0x100 + (s[i + 1] as int)
}

/// Big-endian 32-bit value stored at offset `i` of `s`.
pub open spec fn be32(s: Seq<u8>, i: int) -> int {
    (s[i] as int) * 0x1000000 + (s[i + 1] as int) * 0x10000 + (s[i + 2] as int) * 0x100 + (s[i
        + 3] as int)
}

/// Little-endian 16-bit value stored at offset `i` of `s`.
pub open spec fn le16(s: Seq<u8>, i: int) -> int {
    (s[i] as int) + (s[i + 1] as int) * 0x100
}

} // verus!
