//! What is shown of a document: the raw cels of its first frame, each turned
//! into an RGBA image and composited over a grey canvas.
//!
//! Which images there are, and what bytes they hold, is decided and proved
//! here; the compositing itself is `tiny_skia`'s.

use tiny_skia::{PixmapMut, PixmapPaint, PixmapRef, Transform};
use vstd::prelude::*;

use crate::parser::chunk::{cel_data_result, ASEChunk, ASEChunkReader, ASEChunkView};
use crate::parser::chunk::{CelData, CelDataView, ChunkView, RawImageDataContainer, RawImageView};
use crate::parser::chunk::chunks_of;
use crate::parser::frame::frame_result;
use crate::parser::HeaderReader;

verus! {

/// The colour that a palette index is shown in, as four bytes: red, green,
/// blue, alpha. Index 0 is transparent, index 1 is the dark ink, every other
/// index is white.
pub open spec fn palette_colour(index: u8) -> Seq<u8> {
    if index == 0 {
        seq![0u8, 0u8, 0u8, 0u8]
    } else if index == 1 {
        seq![22u8, 18u8, 54u8, 255u8]
    } else {
        seq![255u8, 255u8, 255u8, 255u8]
    }
}

/// The colour that a palette index is shown in.
pub fn palette(index: u8) -> (colour: [u8; 4])
    ensures
        colour@ == palette_colour(index),
{
    let colour: [u8; 4] = if index == 0 {
        [0, 0, 0, 0]
    } else if index == 1 {
        [22, 18, 54, 255]
    } else {
        [255, 255, 255, 255]
    };
    assert(colour@ =~= palette_colour(index));
    colour
}

/// The RGBA bytes of a row of palette indices: four bytes for each index, its
/// colour.
pub open spec fn rgba_of(indices: Seq<u8>) -> Seq<u8> {
    Seq::new(4 * indices.len(), |k: int| palette_colour(indices[k / 4])[k % 4])
}

/// One image to composite: where its top left corner goes on the canvas, its
/// size, and its pixels row by row, four bytes (RGBA) each.
#[derive(Debug, PartialEq, Eq)]
pub struct CelImage {
    pub x: i16,
    pub y: i16,
    pub width: u16,
    pub height: u16,
    pub rgba: Vec<u8>,
}

/// What a [`CelImage`] stands for.
pub struct CelImageView {
    pub x: i16,
    pub y: i16,
    pub width: u16,
    pub height: u16,
    pub rgba: Seq<u8>,
}

impl View for CelImage {
    type V = CelImageView;

    open spec fn view(&self) -> CelImageView {
        CelImageView {
            x: self.x,
            y: self.y,
            width: self.width,
            height: self.height,
            rgba: self.rgba@,
        }
    }
}

/// The image that a raw cel is shown as: pixel `i` has the colour of byte `i`
/// of the cel's samples. There is none when the samples are fewer than the
/// pixels.
pub open spec fn image_of(image: RawImageView) -> Option<CelImageView> {
    if image.ptr.len() >= image.pixel_count() {
        Some(
            CelImageView {
                x: image.parent.cel_header.point_x,
                y: image.parent.cel_header.point_y,
                width: image.header.width,
                height: image.header.height,
                rgba: rgba_of(image.ptr.take(image.pixel_count() as int)),
            },
        )
    } else {
        None
    }
}

/// The image that a chunk is shown as in a document of colour depth `depth`:
/// that of its raw cel, where the chunk is a cel chunk that decodes to one.
pub open spec fn chunk_image(chunk: ChunkView, depth: u16) -> Option<CelImageView> {
    match chunk.decoded() {
        Ok(ASEChunkView::Cel(cel)) => match cel_data_result(cel, depth) {
            Ok(CelDataView::Raw(image)) => image_of(image),
            _ => None,
        },
        _ => None,
    }
}

/// The images of `chunks`, in the order of the chunks; a chunk without an
/// image is passed over.
pub open spec fn images_of(chunks: Seq<ChunkView>, depth: u16) -> Seq<CelImageView>
    decreases chunks.len(),
{
    if chunks.len() == 0 {
        Seq::empty()
    } else {
        let before = images_of(chunks.drop_last(), depth);
        match chunk_image(chunks.last(), depth) {
            Some(image) => before.push(image),
            None => before,
        }
    }
}

/// Turns a raw cel into the image that it is shown as.
pub fn cel_image(image: &RawImageDataContainer) -> (r: Option<CelImage>)
    ensures
        match image_of(image@) {
            Some(i) => r matches Some(x) && x@ == i,
            None => r is None,
        },
{
    let width = image.header.width;
    let height = image.header.height;
    assert(width * height <= 0xffff * 0xffff) by (nonlinear_arith)
        requires
            width <= 0xffff,
            height <= 0xffff,
    ;
    let count: u64 = (width as u64) * (height as u64);
    if (image.ptr.len() as u64) < count {
        return None;
    }
    let count: usize = count as usize;
    let mut rgba: Vec<u8> = Vec::new();
    let mut i: usize = 0;
    while i < count
        invariant
            i <= count <= image.ptr@.len(),
            count == image@.pixel_count(),
            rgba@ == rgba_of(image.ptr@.take(i as int)),
        decreases count - i,
    {
        let colour = palette(image.ptr[i]);
        let ghost before = rgba@;
        rgba.push(colour[0]);
        rgba.push(colour[1]);
        rgba.push(colour[2]);
        rgba.push(colour[3]);
        proof {
            let now = image.ptr@.take(i + 1);
            let then = image.ptr@.take(i as int);
            assert forall|k: int| 0 <= k < 4 * (i + 1) implies rgba@[k] == rgba_of(now)[k] by {
                if k < 4 * i {
                    assert(rgba@[k] == before[k]);
                    assert(then[k / 4] == now[k / 4]);
                } else {
                    assert(k / 4 == i && k % 4 == k - 4 * i);
                }
            }
            assert(rgba@ =~= rgba_of(now));
        }
        i = i + 1;
    }
    Some(
        CelImage {
            x: image.parent.cel_header.point_x,
            y: image.parent.cel_header.point_y,
            width,
            height,
            rgba,
        },
    )
}

/// Turns a chunk into the image that it is shown as, if it has one, in a
/// document of colour depth `depth`.
pub fn image_of_chunk(chunk: &ASEChunkReader, depth: u16) -> (r: Option<CelImage>)
    ensures
        match chunk_image(chunk@, depth) {
            Some(i) => r matches Some(x) && x@ == i,
            None => r is None,
        },
{
    match chunk.get_chunk() {
        Ok(ASEChunk::Cel(cel)) => match cel.get(depth) {
            Ok(CelData::Raw(image)) => cel_image(&image),
            _ => None,
        },
        _ => None,
    }
}

/// Why a document could not be drawn.
#[derive(Debug, Clone, Copy, PartialEq, Eq, Structural)]
pub enum DrawError {
    /// The canvas does not hold four bytes for each of its pixels.
    CanvasSize,
    /// The document has no first frame: none is declared, or the first one
    /// cannot be decoded.
    NoFirstFrame,
}

/// A canvas of `len` bytes in the background colour, an opaque grey: of
/// every four bytes the first three are `0x8b` and the last is `0xff`.
pub open spec fn background(len: nat) -> Seq<u8> {
    Seq::new(
        len,
        |k: int|
            if k % 4 == 3 {
                0xffu8
            } else {
                0x8bu8
            },
    )
}

/// Fills `frame` with the background colour.
pub fn clear(frame: &mut [u8])
    ensures
        final(frame)@ == background(old(frame)@.len()),
{
    let len = frame.len();
    let mut i: usize = 0;
    while i < len
        invariant
            i <= len,
            frame@.len() == len,
            forall|k: int| 0 <= k < i ==> frame@[k] == background(len as nat)[k],
        decreases len - i,
    {
        frame[i] = if i % 4 == 3 {
            0xff
        } else {
            0x8b
        };
        i = i + 1;
    }
    assert(frame@ =~= background(len as nat));
}

/// Composites `image` over the canvas `frame` of `width` by `height` RGBA
/// pixels, at the image's position.
///
/// Trusted: calls `tiny_skia`'s `PixmapMut::from_bytes`,
/// `PixmapRef::from_bytes` and `PixmapMut::draw_pixmap`, with the default
/// paint and no transform or mask. Where one of the first two turns the
/// sizes down, nothing is drawn. Of the canvas the contract claims only that
/// it keeps its length.
#[verifier::external_body]
fn composite(frame: &mut [u8], width: u32, height: u32, image: &CelImage)
    ensures
        final(frame)@.len() == old(frame)@.len(),
{
    if let Some(mut canvas) = PixmapMut::from_bytes(frame, width, height) {
        let size = (image.width as u32, image.height as u32);
        if let Some(picture) = PixmapRef::from_bytes(&image.rgba, size.0, size.1) {
            let paint = PixmapPaint::default();
            let at = (image.x as i32, image.y as i32);
            canvas.draw_pixmap(at.0, at.1, picture, &paint, Transform::default(), None);
        }
    }
}

/// A document that is to be shown.
#[derive(Debug, Clone, Copy)]
pub struct ASEDrawing<'a> {
    /// The document.
    pub reader: HeaderReader<'a>,
}

impl<'a> ASEDrawing<'a> {
    /// Width and height of the canvas, in pixels.
    pub fn size(&self) -> (r: (u32, u32))
        ensures
            r.0 == self.reader.header.width,
            r.1 == self.reader.header.height,
    {
        let header = self.reader.header();
        (header.width as u32, header.height as u32)
    }

    /// What the first frame shows, from the bottom up.
    pub open spec fn first_frame(&self) -> Option<Seq<CelImageView>> {
        if self.reader.header.frames == 0 {
            None
        } else {
            match frame_result(self.reader.rest@) {
                Ok(frame) => Some(
                    images_of(
                        chunks_of(frame.rest, frame.frame.num_chunks as nat),
                        self.reader.header.depth,
                    ),
                ),
                Err(_) => None,
            }
        }
    }

    /// What drawing onto a canvas of `len` bytes, `width` by `height` pixels,
    /// comes to: the images that are composited over the background, or why
    /// nothing is drawn.
    pub open spec fn drawn(&self, len: nat, width: u32, height: u32) -> Result<
        Seq<CelImageView>,
        DrawError,
    > {
        if len != 4 * (width * height) {
            Err(DrawError::CanvasSize)
        } else {
            match self.first_frame() {
                Some(images) => Ok(images),
                None => Err(DrawError::NoFirstFrame),
            }
        }
    }

    /// Draws the first frame onto the canvas `frame` of `width` by `height`
    /// RGBA pixels: the background first, then the images of the frame in
    /// their order, each composited over what is there.
    ///
    /// Fails, and leaves the canvas as it is, with `CanvasSize` when the
    /// canvas does not hold four bytes for each pixel, else with
    /// `NoFirstFrame` when the document has no first frame.
    pub fn draw(&self, frame: &mut [u8], width: u32, height: u32) -> (r: Result<(), DrawError>)
        ensures
            final(frame)@.len() == old(frame)@.len(),
            match self.drawn(old(frame)@.len(), width, height) {
                Err(e) => r == Err::<(), DrawError>(e) && final(frame)@ == old(frame)@,
                Ok(images) => r is Ok && (images.len() == 0 ==> final(frame)@ == background(
                    old(frame)@.len(),
                )),
            },
    {
        assert(width * height <= 0xffff_ffff * 0xffff_ffff) by (nonlinear_arith)
            requires
                width <= 0xffff_ffff,
                height <= 0xffff_ffff,
        ;
        let wanted: u128 = 4 * ((width as u128) * (height as u128));
        if frame.len() as u128 != wanted {
            return Err(DrawError::CanvasSize);
        }
        let images = match self.first_frame_images() {
            Some(images) => images,
            None => { return Err(DrawError::NoFirstFrame); },
        };
        clear(frame);
        let ghost len = frame@.len();
        let mut i: usize = 0;
        while i < images.len()
            invariant
                i <= images@.len(),
                frame@.len() == len,
                images@.len() == 0 ==> frame@ == background(len),
            decreases images@.len() - i,
        {
            composite(frame, width, height, &images[i]);
            i = i + 1;
        }
        Ok(())
    }

    /// The images of the first frame, in the order in which they are to be
    /// composited: one for each cel chunk of the frame that decodes to a raw
    /// cel with a sample for every pixel.
    ///
    /// `None` exactly when the document has no first frame: none is declared,
    /// or the first one cannot be decoded.
    pub fn first_frame_images(&self) -> (r: Option<Vec<CelImage>>)
        ensures
            match self.first_frame() {
                Some(images) => r matches Some(v) && v@.len() == images.len() && forall|i: int|
                    0 <= i < v@.len() ==> (#[trigger] v@[i])@ == images[i],
                None => r is None,
            },
    {
        let mut frames = self.reader.frames();
        let frame = frames.next()?;
        let depth = self.reader.header().depth;
        let chunks = frame.chunks().collect();
        let ghost all = chunks_of(frame.rest@, frame.frame.num_chunks as nat);
        assert(chunks@.len() == all.len());
        let mut images: Vec<CelImage> = Vec::new();
        let mut i: usize = 0;
        while i < chunks.len()
            invariant
                i <= chunks@.len() == all.len(),
                forall|k: int| 0 <= k < chunks@.len() ==> (#[trigger] chunks@[k])@ == all[k],
                images@.len() == images_of(all.take(i as int), depth).len(),
                forall|k: int|
                    0 <= k < images@.len() ==> (#[trigger] images@[k])@ == images_of(
                        all.take(i as int),
                        depth,
                    )[k],
            decreases chunks@.len() - i,
        {
            proof {
                assert(all.take(i + 1).drop_last() =~= all.take(i as int));
                assert(all.take(i + 1).last() == chunks@[i as int]@);
            }
            match image_of_chunk(&chunks[i], depth) {
                Some(image) => {
                    images.push(image);
                },
                None => {},
            }
            i = i + 1;
        }
        assert(all.take(i as int) =~= all);
        Some(images)
    }
}

} // verus!
