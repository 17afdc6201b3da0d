//! The document header and the reader that starts from it.

use vstd::prelude::*;

pub mod chunk;
pub mod fields;
pub mod frame;

pub use self::chunk::{ASEChunkHeader, ChunkHeaderParseError};
pub use self::frame::{parse_frame, FrameParseError};

use self::fields::{take_bytes, take_u16, take_u32, take_u8, u16_at, u32_at};
use self::frame::{frames_intact, frames_of, lemma_frames_bounded, lemma_frames_complete};
use self::frame::{FrameListIterator, FrameView};

verus! {

/// Number of bytes that the document header occupies at the start of a file.
pub const HEADER_SIZE: usize = 128;

/// The metadata of a whole document, decoded from the first
/// [`HEADER_SIZE`] bytes of a file.
#[derive(Debug, Clone, Copy, PartialEq, Eq, Structural)]
pub struct ASEHeader {
    /// Size of the file in bytes, as the file itself declares it.
    pub filesize: u32,
    /// Number of frames that the file declares.
    pub frames: u16,
    /// Canvas width in pixels.
    pub width: u16,
    /// Canvas height in pixels.
    pub height: u16,
    /// Colour depth in bits per pixel: 32 (RGBA), 16 (grayscale) or 8 (indexed).
    pub depth: u16,
    /// Document flags.
    pub flags: u32,
    /// Palette entry that stands for a transparent pixel (indexed documents).
    pub pallet_transparent_idx: u8,
    /// Number of colours in the palette.
    pub num_colors: u16,
    /// Width of one pixel, for the pixel aspect ratio.
    pub pixel_width: u8,
    /// Height of one pixel, for the pixel aspect ratio.
    pub pixel_height: u8,
    /// Horizontal position of the grid origin.
    pub xgrid: u16,
    /// Vertical position of the grid origin.
    pub ygrid: u16,
    /// Width of one grid cell.
    pub grid_width: u16,
    /// Height of one grid cell.
    pub grid_height: u16,
}

/// Why a document header could not be decoded.
#[derive(Debug, Clone, Copy, PartialEq, Eq, Structural)]
pub enum HeaderParseError {
    /// The input is shorter than [`HEADER_SIZE`].
    CastError,
}

/// The header that the first [`HEADER_SIZE`] bytes of `s` hold, field by field
/// at its fixed offset.
pub open spec fn header_of(s: Seq<u8>) -> ASEHeader
    recommends
        s.len() >= HEADER_SIZE,
{
    ASEHeader {
        filesize: u32_at(s, 0),
        frames: u16_at(s, 6),
        width: u16_at(s, 8),
        height: u16_at(s, 10),
        depth: u16_at(s, 12),
        flags: u32_at(s, 14),
        pallet_transparent_idx: s[28],
        num_colors: u16_at(s, 32),
        pixel_width: s[34],
        pixel_height: s[35],
        xgrid: u16_at(s, 36),
        ygrid: u16_at(s, 38),
        grid_width: u16_at(s, 40),
        grid_height: u16_at(s, 42),
    }
}

/// Reads the header fields one after the other; `None` as soon as the input
/// runs out.
fn read_header(input: &[u8]) -> (r: Option<(ASEHeader, &[u8])>)
    ensures
        r is None <==> input@.len() < HEADER_SIZE,
        r matches Some(p) ==> p.0 == header_of(input@) && p.1@ == input@.skip(HEADER_SIZE as int),
{
    let (filesize, rest) = take_u32(input)?;
    let (_magic, rest) = take_u16(rest)?;
    let (frames, rest) = take_u16(rest)?;
    let (width, rest) = take_u16(rest)?;
    let (height, rest) = take_u16(rest)?;
    let (depth, rest) = take_u16(rest)?;
    let (flags, rest) = take_u32(rest)?;
    let (_speed, rest) = take_u16(rest)?;
    let (_reserved, rest) = take_bytes(rest, 8)?;
    let (pallet_transparent_idx, rest) = take_u8(rest)?;
    let (_reserved, rest) = take_bytes(rest, 3)?;
    let (num_colors, rest) = take_u16(rest)?;
    let (pixel_width, rest) = take_u8(rest)?;
    let (pixel_height, rest) = take_u8(rest)?;
    let (xgrid, rest) = take_u16(rest)?;
    let (ygrid, rest) = take_u16(rest)?;
    let (grid_width, rest) = take_u16(rest)?;
    let (grid_height, rest) = take_u16(rest)?;
    let (_reserved, rest) = take_bytes(rest, 84)?;
    Some(
        (
            ASEHeader {
                filesize,
                frames,
                width,
                height,
                depth,
                flags,
                pallet_transparent_idx,
                num_colors,
                pixel_width,
                pixel_height,
                xgrid,
                ygrid,
                grid_width,
                grid_height,
            },
            rest,
        ),
    )
}

/// Decodes the document header at the start of `input` and hands back the
/// bytes that follow it.
///
/// Fails with [`HeaderParseError::CastError`] exactly when `input` is shorter
/// than [`HEADER_SIZE`]; nothing is consumed then.
pub fn parse_header<'a>(input: &'a [u8]) -> (r: Result<(ASEHeader, &'a [u8]), HeaderParseError>)
    ensures
        r is Err <==> input@.len() < HEADER_SIZE,
        r matches Err(e) ==> e == HeaderParseError::CastError,
        r matches Ok(p) ==> p.0 == header_of(input@) && p.1@ == input@.skip(HEADER_SIZE as int),
{
    match read_header(input) {
        Some(p) => Ok(p),
        None => Err(HeaderParseError::CastError),
    }
}

/// The frame header, by its short name.
pub type ASEFrame = self::frame::ASEFrameHeader;

/// One frame with its chunk region, seen as what holds the frame's chunks.
pub type ASEFrameContainer<'a> = self::frame::FrameReader<'a>;

/// The chunk walker, seen as a pointer to the chunk that it stands at.
pub type ChunkPtr<'a> = self::chunk::ChunkIterator<'a>;

/// A whole document: its header and the bytes behind the header, where the
/// frames are.
#[derive(Debug, Clone, Copy)]
pub struct HeaderReader<'a> {
    /// The document header.
    pub header: ASEHeader,
    /// The bytes behind the header.
    pub rest: &'a [u8],
}

impl<'a> HeaderReader<'a> {
    /// Decodes the header of the document `data`.
    ///
    /// Fails with [`HeaderParseError::CastError`] exactly when `data` is
    /// shorter than [`HEADER_SIZE`].
    pub fn new(data: &'a [u8]) -> (r: Result<HeaderReader<'a>, HeaderParseError>)
        ensures
            r is Err <==> data@.len() < HEADER_SIZE,
            r matches Ok(reader) ==> reader.header == header_of(data@) && reader.rest@
                == data@.skip(HEADER_SIZE as int),
    {
        match parse_header(data) {
            Ok((header, rest)) => Ok(HeaderReader { header, rest }),
            Err(e) => Err(e),
        }
    }

    /// The document header.
    pub fn header(&self) -> (h: &ASEHeader)
        ensures
            *h == self.header,
    {
        &self.header
    }

    /// A fresh walker over the frames of the document, at the first frame.
    pub fn frames(&self) -> (it: FrameListIterator<'a>)
        ensures
            it.rest@ == self.rest@,
            it.remaining == self.header.frames,
    {
        FrameListIterator { rest: self.rest, remaining: self.header.frames }
    }
}

/// The frames that walking the document `s` yields.
pub open spec fn document_frames(s: Seq<u8>) -> Seq<FrameView>
    recommends
        s.len() >= HEADER_SIZE,
{
    frames_of(s.skip(HEADER_SIZE as int), header_of(s).frames as nat)
}

/// Walking a document yields no more frames than its header declares, and
/// yields that many exactly when none of the declared frames is cut short or
/// malformed.
pub proof fn lemma_document_frames(s: Seq<u8>)
    requires
        s.len() >= HEADER_SIZE,
    ensures
        document_frames(s).len() <= header_of(s).frames,
        document_frames(s).len() == header_of(s).frames <==> frames_intact(
            s.skip(HEADER_SIZE as int),
            header_of(s).frames as nat,
        ),
{
    lemma_frames_bounded(s.skip(HEADER_SIZE as int), header_of(s).frames as nat);
    lemma_frames_complete(s.skip(HEADER_SIZE as int), header_of(s).frames as nat);
}

} // verus!
