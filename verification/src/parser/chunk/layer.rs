//! The payload of a layer chunk: flags, kind, nesting, blend mode, opacity and
//! a length-prefixed UTF-8 name.

use vstd::prelude::*;
use vstd::utf8::{decode_utf8, valid_utf8};

use super::super::fields::{take_bytes, take_u16, take_u8, u16_at};

verus! {

/// Number of bytes of a layer payload in front of the name's length.
pub const LAYER_HEADER_SIZE: usize = 16;

/// The flag bits of a layer.
///
/// Bits without a name here are kept as they were read.
#[derive(Debug, Clone, Copy, PartialEq, Eq, Structural)]
pub struct LayerFlag {
    /// The raw bits.
    pub bits: u16,
}

impl LayerFlag {
    /// The layer is shown.
    pub const VISIBLE: u16 = 0x1;

    /// The layer can be edited.
    pub const EDITABLE: u16 = 0x2;

    /// The layer cannot be moved.
    pub const LOCK_MOVEMENT: u16 = 0x4;

    /// The layer is the background.
    pub const BACKGROUND: u16 = 0x8;

    /// New cels of the layer are linked by preference.
    pub const PREFER_LINKED_CELS: u16 = 0x10;

    /// The layer group is displayed collapsed.
    pub const DISPLAY_COLLAPSED: u16 = 0x20;

    /// The layer is a reference layer.
    pub const REFERENCE: u16 = 0x40;

    /// The flags with exactly the bits of `bits`, named or not.
    pub fn from_bits_retain(bits: u16) -> (f: LayerFlag)
        ensures
            f.bits == bits,
    {
        LayerFlag { bits }
    }

    /// The raw bits.
    pub fn bits(&self) -> (b: u16)
        ensures
            b == self.bits,
    {
        self.bits
    }

    /// Whether every bit of `mask` is set.
    pub fn contains(&self, mask: u16) -> (b: bool)
        ensures
            b == (self.bits & mask == mask),
    {
        self.bits & mask == mask
    }
}

/// The kind of a layer.
#[derive(Debug, Clone, Copy, PartialEq, Eq, Structural)]
pub enum LayerType {
    Normal,
    Group,
    Tilemap,
}

impl LayerType {
    /// The kind that a layer-type code stands for, if any.
    pub open spec fn of_code(code: u16) -> Option<LayerType> {
        if code == 0 {
            Some(LayerType::Normal)
        } else if code == 1 {
            Some(LayerType::Group)
        } else if code == 2 {
            Some(LayerType::Tilemap)
        } else {
            None
        }
    }

    /// The code that a file stores for this kind.
    pub open spec fn spec_code(self) -> u16 {
        match self {
            LayerType::Normal => 0,
            LayerType::Group => 1,
            LayerType::Tilemap => 2,
        }
    }

    /// Decodes a layer-type code; `None` for a code that names no kind.
    pub fn from_code(code: u16) -> (r: Option<LayerType>)
        ensures
            r == Self::of_code(code),
    {
        match code {
            0 => Some(LayerType::Normal),
            1 => Some(LayerType::Group),
            2 => Some(LayerType::Tilemap),
            _ => None,
        }
    }

    /// The code that a file stores for this kind.
    pub fn code(&self) -> (c: u16)
        ensures
            c == self.spec_code(),
            Self::of_code(c) == Some(*self),
    {
        match self {
            LayerType::Normal => 0,
            LayerType::Group => 1,
            LayerType::Tilemap => 2,
        }
    }
}

/// How a layer is blended onto what lies below it.
#[derive(Debug, Clone, Copy, PartialEq, Eq, Structural)]
pub enum BlendMode {
    Normal,
    Multiply,
    Screen,
    Overlay,
    Darken,
    Lighten,
    ColorDodge,
    ColorBurn,
    HardLight,
    SoftLight,
    Difference,
    Exclusion,
    Hue,
    Saturation,
    Color,
    Luminosity,
    Addition,
    Subtract,
    Divide,
}

impl BlendMode {
    /// The code that a file stores for this mode.
    pub open spec fn spec_code(self) -> u16 {
        match self {
            BlendMode::Normal => 0,
            BlendMode::Multiply => 1,
            BlendMode::Screen => 2,
            BlendMode::Overlay => 3,
            BlendMode::Darken => 4,
            BlendMode::Lighten => 5,
            BlendMode::ColorDodge => 6,
            BlendMode::ColorBurn => 7,
            BlendMode::HardLight => 8,
            BlendMode::SoftLight => 9,
            BlendMode::Difference => 10,
            BlendMode::Exclusion => 11,
            BlendMode::Hue => 12,
            BlendMode::Saturation => 13,
            BlendMode::Color => 14,
            BlendMode::Luminosity => 15,
            BlendMode::Addition => 16,
            BlendMode::Subtract => 17,
            BlendMode::Divide => 18,
        }
    }

    /// The mode that a blend-mode code stands for, if any.
    pub open spec fn of_code(code: u16) -> Option<BlendMode> {
        match code {
            0 => Some(BlendMode::Normal),
            1 => Some(BlendMode::Multiply),
            2 => Some(BlendMode::Screen),
            3 => Some(BlendMode::Overlay),
            4 => Some(BlendMode::Darken),
            5 => Some(BlendMode::Lighten),
            6 => Some(BlendMode::ColorDodge),
            7 => Some(BlendMode::ColorBurn),
            8 => Some(BlendMode::HardLight),
            9 => Some(BlendMode::SoftLight),
            10 => Some(BlendMode::Difference),
            11 => Some(BlendMode::Exclusion),
            12 => Some(BlendMode::Hue),
            13 => Some(BlendMode::Saturation),
            14 => Some(BlendMode::Color),
            15 => Some(BlendMode::Luminosity),
            16 => Some(BlendMode::Addition),
            17 => Some(BlendMode::Subtract),
            18 => Some(BlendMode::Divide),
            _ => None,
        }
    }

    /// Decodes a blend-mode code; `None` for a code that names no mode.
    pub fn from_code(code: u16) -> (r: Option<BlendMode>)
        ensures
            r == Self::of_code(code),
    {
        match code {
            0 => Some(BlendMode::Normal),
            1 => Some(BlendMode::Multiply),
            2 => Some(BlendMode::Screen),
            3 => Some(BlendMode::Overlay),
            4 => Some(BlendMode::Darken),
            5 => Some(BlendMode::Lighten),
            6 => Some(BlendMode::ColorDodge),
            7 => Some(BlendMode::ColorBurn),
            8 => Some(BlendMode::HardLight),
            9 => Some(BlendMode::SoftLight),
            10 => Some(BlendMode::Difference),
            11 => Some(BlendMode::Exclusion),
            12 => Some(BlendMode::Hue),
            13 => Some(BlendMode::Saturation),
            14 => Some(BlendMode::Color),
            15 => Some(BlendMode::Luminosity),
            16 => Some(BlendMode::Addition),
            17 => Some(BlendMode::Subtract),
            18 => Some(BlendMode::Divide),
            _ => None,
        }
    }

    /// The code that a file stores for this mode.
    pub fn code(&self) -> (c: u16)
        ensures
            c == self.spec_code(),
            Self::of_code(c) == Some(*self),
    {
        match self {
            BlendMode::Normal => 0,
            BlendMode::Multiply => 1,
            BlendMode::Screen => 2,
            BlendMode::Overlay => 3,
            BlendMode::Darken => 4,
            BlendMode::Lighten => 5,
            BlendMode::ColorDodge => 6,
            BlendMode::ColorBurn => 7,
            BlendMode::HardLight => 8,
            BlendMode::SoftLight => 9,
            BlendMode::Difference => 10,
            BlendMode::Exclusion => 11,
            BlendMode::Hue => 12,
            BlendMode::Saturation => 13,
            BlendMode::Color => 14,
            BlendMode::Luminosity => 15,
            BlendMode::Addition => 16,
            BlendMode::Subtract => 17,
            BlendMode::Divide => 18,
        }
    }

    /// The codes of the modes are the numbers 0 to 18, one mode each.
    pub proof fn lemma_codes()
        ensures
            forall|c: u16| #[trigger] Self::of_code(c) is Some <==> c <= 18,
            forall|c: u16| c <= 18 ==> (#[trigger] Self::of_code(c))->0.spec_code() == c,
            forall|m: BlendMode| Self::of_code(#[trigger] m.spec_code()) == Some(m),
    {
    }
}

/// Why a layer payload could not be decoded.
#[derive(Debug, Clone, Copy, PartialEq, Eq, Structural)]
pub enum LayerParseError {
    /// The payload ends before the fixed fields, the name's length or the
    /// name itself do.
    CastError,
    /// The layer-type code names no kind of layer.
    UnsupportedLayerType(u16),
    /// The blend-mode code names no blend mode.
    UnsupportedBlendMode(u16),
    /// The name is not valid UTF-8.
    InvalidUtf8Name,
}

/// The fixed fields at the start of a layer payload.
#[derive(Debug, Clone, Copy, PartialEq, Eq, Structural)]
pub struct LayerHeader {
    /// The layer's flags.
    pub flags: LayerFlag,
    /// The kind of layer.
    pub layer_type: LayerType,
    /// How deep the layer is nested in layer groups.
    pub child_level: u16,
    /// How the layer is blended.
    pub blend_mode: BlendMode,
    /// The layer's opacity.
    pub opacity: u8,
}

/// A decoded layer chunk. The name and the trailing bytes borrow from the
/// payload.
#[derive(Debug, Clone, Copy)]
pub struct Layer<'a> {
    /// The fixed fields.
    pub header: LayerHeader,
    /// The layer's name.
    pub name: &'a str,
    /// What the payload holds behind the name.
    pub rest: &'a [u8],
}

/// What a [`Layer`] stands for.
pub struct LayerView {
    pub header: LayerHeader,
    pub name: Seq<char>,
    pub rest: Seq<u8>,
}

impl<'a> View for Layer<'a> {
    type V = LayerView;

    open spec fn view(&self) -> LayerView {
        LayerView { header: self.header, name: self.name@, rest: self.rest@ }
    }
}

/// What decoding a layer payload `s` gives.
///
/// The checks come in the order of the fields: the fixed fields must be
/// there, then the layer type and the blend mode must be known, then the
/// name's length and the name must be there, and the name must be UTF-8.
pub open spec fn layer_result(s: Seq<u8>) -> Result<LayerView, LayerParseError> {
    if s.len() < LAYER_HEADER_SIZE {
        Err(LayerParseError::CastError)
    } else {
        match (LayerType::of_code(u16_at(s, 2)), BlendMode::of_code(u16_at(s, 10))) {
            (None, _) => Err(LayerParseError::UnsupportedLayerType(u16_at(s, 2))),
            (Some(_), None) => Err(LayerParseError::UnsupportedBlendMode(u16_at(s, 10))),
            (Some(layer_type), Some(blend_mode)) => {
                let name_end = LAYER_HEADER_SIZE + 2 + u16_at(s, LAYER_HEADER_SIZE as int);
                if s.len() < LAYER_HEADER_SIZE + 2 || s.len() < name_end {
                    Err(LayerParseError::CastError)
                } else if !valid_utf8(s.subrange(LAYER_HEADER_SIZE + 2, name_end)) {
                    Err(LayerParseError::InvalidUtf8Name)
                } else {
                    Ok(
                        LayerView {
                            header: LayerHeader {
                                flags: LayerFlag { bits: u16_at(s, 0) },
                                layer_type,
                                child_level: u16_at(s, 4),
                                blend_mode,
                                opacity: s[12],
                            },
                            name: decode_utf8(s.subrange(LAYER_HEADER_SIZE + 2, name_end)),
                            rest: s.skip(name_end),
                        },
                    )
                }
            },
        }
    }
}

/// The raw fixed fields of a layer payload, before the codes are decoded.
struct RawLayerFields {
    flags: u16,
    layer_type: u16,
    child_level: u16,
    blend_mode: u16,
    opacity: u8,
}

fn read_layer_fields(data: &[u8]) -> (r: Option<(RawLayerFields, &[u8])>)
    ensures
        r is None <==> data@.len() < LAYER_HEADER_SIZE,
        r matches Some(p) ==> {
            &&& p.0.flags == u16_at(data@, 0)
            &&& p.0.layer_type == u16_at(data@, 2)
            &&& p.0.child_level == u16_at(data@, 4)
            &&& p.0.blend_mode == u16_at(data@, 10)
            &&& p.0.opacity == data@[12]
            &&& p.1@ == data@.skip(LAYER_HEADER_SIZE as int)
        },
{
    let (flags, rest) = take_u16(data)?;
    let (layer_type, rest) = take_u16(rest)?;
    let (child_level, rest) = take_u16(rest)?;
    let (_ignored_size, rest) = take_bytes(rest, 4)?;
    let (blend_mode, rest) = take_u16(rest)?;
    let (opacity, rest) = take_u8(rest)?;
    let (_reserved, rest) = take_bytes(rest, 3)?;
    Some((RawLayerFields { flags, layer_type, child_level, blend_mode, opacity }, rest))
}

fn read_name_bytes(data: &[u8]) -> (r: Option<(&[u8], &[u8])>)
    ensures
        r is None <==> data@.len() < 2 || data@.len() < 2 + u16_at(data@, 0),
        r matches Some(p) ==> p.0@ == data@.subrange(2, 2 + u16_at(data@, 0)) && p.1@ == data@.skip(
            2 + u16_at(data@, 0),
        ),
{
    let (name_len, rest) = take_u16(data)?;
    take_bytes(rest, name_len as usize)
}

/// Checks that `bytes` are UTF-8 and views them as a string.
///
/// Trusted: calls `core::str::from_utf8`. The contract claims that the call
/// succeeds exactly on well-formed UTF-8, and that the string it yields is the
/// text that the bytes encode.
#[verifier::external_body]
fn str_from_utf8<'a>(bytes: &'a [u8]) -> (r: Option<&'a str>)
    ensures
        r is Some <==> valid_utf8(bytes@),
        r matches Some(s) ==> s@ == decode_utf8(bytes@),
{
    match core::str::from_utf8(bytes) {
        Ok(s) => Some(s),
        Err(_) => None,
    }
}

impl<'a> Layer<'a> {
    /// Decodes the payload of a layer chunk.
    pub fn new(data: &'a [u8]) -> (r: Result<Layer<'a>, LayerParseError>)
        ensures
            match layer_result(data@) {
                Ok(l) => r matches Ok(layer) && layer@ == l,
                Err(e) => r matches Err(x) && x == e,
            },
    {
        let (raw, rest) = match read_layer_fields(data) {
            Some(p) => p,
            None => { return Err(LayerParseError::CastError); },
        };
        let layer_type = match LayerType::from_code(raw.layer_type) {
            Some(t) => t,
            None => { return Err(LayerParseError::UnsupportedLayerType(raw.layer_type)); },
        };
        let blend_mode = match BlendMode::from_code(raw.blend_mode) {
            Some(b) => b,
            None => { return Err(LayerParseError::UnsupportedBlendMode(raw.blend_mode)); },
        };
        let ghost tail = rest@;
        let (name_bytes, rest) = match read_name_bytes(rest) {
            Some(p) => p,
            None => { return Err(LayerParseError::CastError); },
        };
        proof {
            let name_end = LAYER_HEADER_SIZE + 2 + u16_at(data@, LAYER_HEADER_SIZE as int);
            assert(u16_at(tail, 0) == u16_at(data@, LAYER_HEADER_SIZE as int));
            assert(name_bytes@ =~= data@.subrange(LAYER_HEADER_SIZE + 2, name_end));
            assert(rest@ =~= data@.skip(name_end));
        }
        let name = match str_from_utf8(name_bytes) {
            Some(name) => name,
            None => { return Err(LayerParseError::InvalidUtf8Name); },
        };
        let header = LayerHeader {
            flags: LayerFlag::from_bits_retain(raw.flags),
            layer_type,
            child_level: raw.child_level,
            blend_mode,
            opacity: raw.opacity,
        };
        Ok(Layer { header, name, rest })
    }
}

} // verus!
