//! Chunks: the records inside a frame, each with its own length and type, the
//! walker that steps from chunk to chunk, and the decoded payloads.

use vstd::prelude::*;
use vstd::slice::slice_subrange;

pub mod layer;

use self::layer::{layer_result, Layer, LayerParseError, LayerView};
use super::fields::{i16_at, take_bytes, take_i16, take_u16, take_u32, take_u8, u16_at, u32_at};

verus! {

/// Number of bytes that a chunk header occupies at the start of a chunk.
pub const CHUNK_HEADER_SIZE: usize = 6;

/// The header at the start of every chunk.
#[derive(Debug, Clone, Copy, PartialEq, Eq, Structural)]
pub struct ASEChunkHeader {
    /// Length of the whole chunk in bytes, this header included.
    pub size: u32,
    /// The code that says what the payload holds.
    pub chunk_type: u16,
}

impl ASEChunkHeader {
    /// Length of the whole chunk in bytes, this header included.
    pub fn size(&self) -> (n: usize)
        ensures
            n == self.size,
    {
        self.size as usize
    }
}

/// Why a chunk could not be located.
#[derive(Debug, Clone, Copy, PartialEq, Eq, Structural)]
pub enum ChunkHeaderParseError {
    /// The input is too short for the chunk header, or for the length that
    /// the chunk declares, or that length is shorter than the header.
    CastError,
}

/// The chunk header that the first [`CHUNK_HEADER_SIZE`] bytes of `s` hold.
pub open spec fn chunk_header_of(s: Seq<u8>) -> ASEChunkHeader
    recommends
        s.len() >= CHUNK_HEADER_SIZE,
{
    ASEChunkHeader { size: u32_at(s, 0), chunk_type: u16_at(s, 4) }
}

fn read_chunk_header(input: &[u8]) -> (r: Option<(ASEChunkHeader, &[u8])>)
    ensures
        r is None <==> input@.len() < CHUNK_HEADER_SIZE,
        r matches Some(p) ==> p.0 == chunk_header_of(input@) && p.1@ == input@.skip(
            CHUNK_HEADER_SIZE as int,
        ),
{
    let (size, rest) = take_u32(input)?;
    let (chunk_type, rest) = take_u16(rest)?;
    Some((ASEChunkHeader { size, chunk_type }, rest))
}

/// Decodes the chunk header at the start of `input` and hands back the bytes
/// that follow it.
///
/// Fails exactly when `input` is shorter than [`CHUNK_HEADER_SIZE`].
pub fn parse_chunk_header<'a>(input: &'a [u8]) -> (r: Result<
    (ASEChunkHeader, &'a [u8]),
    ChunkHeaderParseError,
>)
    ensures
        r is Err <==> input@.len() < CHUNK_HEADER_SIZE,
        r matches Ok(p) ==> p.0 == chunk_header_of(input@) && p.1@ == input@.skip(
            CHUNK_HEADER_SIZE as int,
        ),
{
    match read_chunk_header(input) {
        Some(p) => Ok(p),
        None => Err(ChunkHeaderParseError::CastError),
    }
}

/// One chunk as the walker finds it: its header and the bytes behind the
/// header.
///
/// A chunk that a [`ChunkIterator`] yields holds exactly its payload; one
/// made by hand may hold more, of which the payload is the front.
#[derive(Debug, Clone, Copy)]
pub struct ASEChunkReader<'a>(pub ASEChunkHeader, pub &'a [u8]);

/// What an [`ASEChunkReader`] stands for.
pub struct ChunkView {
    pub header: ASEChunkHeader,
    pub data: Seq<u8>,
}

impl<'a> View for ASEChunkReader<'a> {
    type V = ChunkView;

    open spec fn view(&self) -> ChunkView {
        ChunkView { header: self.0, data: self.1@ }
    }
}

/// The chunk at the start of `s`: its header and its payload.
///
/// Besides the header the chunk needs a declared length that covers the
/// header and lies within `s`; the payload is what lies between the header
/// and that length.
pub open spec fn chunk_result(s: Seq<u8>) -> Result<ChunkView, ChunkHeaderParseError> {
    if s.len() < CHUNK_HEADER_SIZE {
        Err(ChunkHeaderParseError::CastError)
    } else {
        let header = chunk_header_of(s);
        if CHUNK_HEADER_SIZE <= header.size <= s.len() {
            Ok(ChunkView { header, data: s.subrange(CHUNK_HEADER_SIZE as int, header.size as int) })
        } else {
            Err(ChunkHeaderParseError::CastError)
        }
    }
}

/// The chunks that a walker yields from `s` when `n` chunks are declared: it
/// stops at the first chunk that cannot be located, and after `n` chunks.
pub open spec fn chunks_of(s: Seq<u8>, n: nat) -> Seq<ChunkView>
    decreases n,
{
    if n == 0 {
        Seq::empty()
    } else {
        match chunk_result(s) {
            Err(_) => Seq::empty(),
            Ok(c) => seq![c] + chunks_of(s.skip(c.header.size as int), (n - 1) as nat),
        }
    }
}

/// No chunk among the `n` declared ones is cut short or malformed: each can be
/// located where the one before it ends.
pub open spec fn chunks_intact(s: Seq<u8>, n: nat) -> bool
    decreases n,
{
    n == 0 || match chunk_result(s) {
        Err(_) => false,
        Ok(c) => chunks_intact(s.skip(c.header.size as int), (n - 1) as nat),
    }
}

/// A walker never yields more chunks than are declared.
pub proof fn lemma_chunks_bounded(s: Seq<u8>, n: nat)
    ensures
        chunks_of(s, n).len() <= n,
    decreases n,
{
    if n > 0 {
        if let Ok(c) = chunk_result(s) {
            lemma_chunks_bounded(s.skip(c.header.size as int), (n - 1) as nat);
        }
    }
}

/// A walker yields every declared chunk exactly when none of them is cut short
/// or malformed.
pub proof fn lemma_chunks_complete(s: Seq<u8>, n: nat)
    ensures
        chunks_of(s, n).len() == n <==> chunks_intact(s, n),
    decreases n,
{
    if n > 0 {
        if let Ok(c) = chunk_result(s) {
            lemma_chunks_complete(s.skip(c.header.size as int), (n - 1) as nat);
        }
    }
}

/// One step of a walk along `all`: if what lies ahead after `k` items is
/// `head` followed by `tail`, then `head` is item `k` and `tail` lies ahead
/// after `k + 1` items.
proof fn lemma_walk_step(all: Seq<ChunkView>, k: int, head: ChunkView, tail: Seq<ChunkView>)
    requires
        0 <= k <= all.len(),
        all.skip(k) == seq![head] + tail,
    ensures
        k < all.len(),
        all[k] == head,
        all.skip(k + 1) == tail,
{
    let ahead = all.skip(k);
    assert(ahead.len() == 1 + tail.len());
    assert(ahead[0] == head);
    assert forall|j: int| 0 <= j < tail.len() implies all.skip(k + 1)[j] == tail[j] by {
        assert(ahead[j + 1] == tail[j]);
    }
    assert(all.skip(k + 1) =~= tail);
}

/// Why a chunk could not be fetched by its index.
#[derive(Debug, Clone, Copy, PartialEq, Eq, Structural)]
pub enum ChunkIndexError {
    /// The index is not below the number of chunks declared.
    IndexOutOfRange,
    /// The chunk at the index, or one before it, cannot be located.
    CastError,
}

/// A cursor over the chunks of one frame: the bytes from the next chunk on,
/// and how many chunks are still declared.
#[derive(Debug, Clone, Copy)]
pub struct ChunkIterator<'a> {
    /// The bytes from the start of the next chunk header on.
    pub ptr: &'a [u8],
    /// Number of declared chunks not yet yielded.
    pub remaining: usize,
}

impl<'a> ChunkIterator<'a> {
    /// The chunks that this walker has yet to yield.
    pub open spec fn chunks(&self) -> Seq<ChunkView> {
        chunks_of(self.ptr@, self.remaining as nat)
    }

    /// Yields the next chunk and steps over it, by the length that the chunk
    /// declares, whatever its type.
    ///
    /// Yields `None`, and stays where it is, once every declared chunk has
    /// been yielded or the next chunk cannot be located.
    pub fn next(&mut self) -> (r: Option<ASEChunkReader<'a>>)
        ensures
            match r {
                Some(c) => {
                    &&& old(self).remaining > 0
                    &&& chunk_result(old(self).ptr@) == Ok::<ChunkView, ChunkHeaderParseError>(c@)
                    &&& CHUNK_HEADER_SIZE <= c.0.size
                    &&& final(self).ptr@ == old(self).ptr@.skip(c.0.size as int)
                    &&& final(self).ptr@.len() + c.0.size == old(self).ptr@.len()
                    &&& final(self).remaining == old(self).remaining - 1
                    &&& old(self).chunks() == seq![c@] + final(self).chunks()
                },
                None => {
                    &&& old(self).remaining == 0 || chunk_result(old(self).ptr@) is Err
                    &&& *final(self) == *old(self)
                    &&& old(self).chunks() == Seq::<ChunkView>::empty()
                },
            },
    {
        if self.remaining == 0 {
            return None;
        }
        let (header, rest) = match parse_chunk_header(self.ptr) {
            Ok(p) => p,
            Err(_) => { return None; },
        };
        let size = header.size as usize;
        if size < CHUNK_HEADER_SIZE || size > self.ptr.len() {
            return None;
        }
        let (payload, next) = match take_bytes(rest, size - CHUNK_HEADER_SIZE) {
            Some(p) => p,
            None => { return None; },
        };
        assert(payload@ =~= self.ptr@.subrange(CHUNK_HEADER_SIZE as int, size as int));
        assert(next@ =~= self.ptr@.skip(size as int));
        self.ptr = next;
        self.remaining = self.remaining - 1;
        Some(ASEChunkReader(header, payload))
    }

    /// The chunk `index` places ahead of this walker, or why there is none.
    pub open spec fn chunk_at(&self, index: int) -> Result<ChunkView, ChunkIndexError> {
        if index >= self.remaining {
            Err(ChunkIndexError::IndexOutOfRange)
        } else if index >= self.chunks().len() {
            Err(ChunkIndexError::CastError)
        } else {
            Ok(self.chunks()[index])
        }
    }

    /// Number of chunks still declared.
    pub fn len(&self) -> (n: usize)
        ensures
            n == self.remaining,
    {
        self.remaining
    }

    /// Bounds on the number of chunks that this walker has yet to yield: none
    /// at least, since any chunk may be cut short, and at most as many as are
    /// still declared.
    pub fn size_hint(&self) -> (r: (usize, Option<usize>))
        ensures
            r.0 == 0,
            r.1 == Some(self.remaining),
            r.0 <= self.chunks().len() <= self.remaining,
    {
        proof {
            lemma_chunks_bounded(self.ptr@, self.remaining as nat);
        }
        (0, Some(self.remaining))
    }

    /// Fetches the chunk `index` places ahead by walking there from this
    /// walker's position, which is left as it is.
    ///
    /// Fails with `IndexOutOfRange` when `index` is not below the number of
    /// chunks still declared, and with `CastError` when the walk ends before
    /// it gets there.
    pub fn get(&self, index: usize) -> (r: Result<ASEChunkReader<'a>, ChunkIndexError>)
        ensures
            match self.chunk_at(index as int) {
                Ok(c) => r matches Ok(x) && x@ == c,
                Err(e) => r matches Err(x) && x == e,
            },
    {
        proof {
            lemma_chunks_bounded(self.ptr@, self.remaining as nat);
        }
        if index >= self.remaining {
            return Err(ChunkIndexError::IndexOutOfRange);
        }
        let mut walker = *self;
        let mut passed: usize = 0;
        while passed < index
            invariant
                passed <= index < self.remaining,
                passed <= self.chunks().len(),
                walker.chunks() == self.chunks().skip(passed as int),
            decreases index - passed,
        {
            match walker.next() {
                None => { return Err(ChunkIndexError::CastError); },
                Some(c) => {
                    proof {
                        lemma_walk_step(self.chunks(), passed as int, c@, walker.chunks());
                    }
                },
            }
            passed = passed + 1;
        }
        match walker.next() {
            Some(c) => {
                proof {
                    lemma_walk_step(self.chunks(), passed as int, c@, walker.chunks());
                }
                Ok(c)
            },
            None => Err(ChunkIndexError::CastError),
        }
    }

    /// Walks to the end and gathers the chunks on the way.
    pub fn collect(self) -> (v: Vec<ASEChunkReader<'a>>)
        ensures
            v@.len() == self.chunks().len(),
            forall|i: int| 0 <= i < v@.len() ==> (#[trigger] v@[i])@ == self.chunks()[i],
            v@.len() <= self.remaining,
    {
        let mut it = self;
        let mut v: Vec<ASEChunkReader<'a>> = Vec::new();
        loop
            invariant
                v@.len() <= self.chunks().len(),
                it.chunks() == self.chunks().skip(v@.len() as int),
                forall|i: int| 0 <= i < v@.len() ==> (#[trigger] v@[i])@ == self.chunks()[i],
            ensures
                it.chunks().len() == 0,
            decreases it.remaining,
        {
            let ghost done = v@.len() as int;
            match it.next() {
                None => { break ; },
                Some(c) => {
                    v.push(c);
                    proof {
                        lemma_walk_step(self.chunks(), done, c@, it.chunks());
                    }
                },
            }
        }
        proof {
            lemma_chunks_bounded(self.ptr@, self.remaining as nat);
        }
        v
    }
}

/// The type code of a layer chunk.
pub const LAYER_CHUNK: u16 = 0x2004;

/// The type code of a cel chunk.
pub const CEL_CHUNK: u16 = 0x2005;

/// Number of bytes that the fixed fields of a cel occupy at the start of its
/// payload.
pub const CEL_HEADER_SIZE: usize = 16;

/// The cel-type code of a cel that stores its pixels uncompressed.
pub const RAW_CEL: u16 = 0;

/// The cel-type code of a cel that refers to the cel of another frame.
pub const LINKED_CEL: u16 = 1;

/// Number of bytes that the size of a raw image occupies in front of its
/// pixels.
pub const RAW_IMAGE_HEADER_SIZE: usize = 4;

/// The fixed fields at the start of a cel payload.
#[derive(Debug, Clone, Copy, PartialEq, Eq, Structural)]
pub struct CelHeader {
    /// Index of the layer that the cel belongs to.
    pub layer_index: u16,
    /// Horizontal position of the cel on the canvas.
    pub point_x: i16,
    /// Vertical position of the cel on the canvas.
    pub point_y: i16,
    /// The cel's opacity.
    pub opacity: u8,
    /// The code that says what the body holds.
    pub cel_type: u16,
    /// Where the cel lies in the stack, relative to its layer.
    pub z_index: i16,
}

/// Why a cel could not be decoded.
#[derive(Debug, Clone, Copy, PartialEq, Eq, Structural)]
pub enum CelParseError {
    /// The payload ends before the fields or the pixels do.
    CastError,
    /// The cel-type code is neither [`RAW_CEL`] nor [`LINKED_CEL`].
    UnsupportedCelType(u16),
}

/// A cel: its fixed fields and its body, which [`CelContainer::get`]
/// decodes.
#[derive(Debug, Clone, Copy)]
pub struct CelContainer<'a> {
    /// The fixed fields.
    pub cel_header: CelHeader,
    /// The body: what the payload holds behind the fixed fields.
    pub ptr: &'a [u8],
}

/// What a [`CelContainer`] stands for.
pub struct CelView {
    pub cel_header: CelHeader,
    pub ptr: Seq<u8>,
}

impl<'a> View for CelContainer<'a> {
    type V = CelView;

    open spec fn view(&self) -> CelView {
        CelView { cel_header: self.cel_header, ptr: self.ptr@ }
    }
}

/// The cel header that the first [`CEL_HEADER_SIZE`] bytes of `s` hold.
pub open spec fn cel_header_of(s: Seq<u8>) -> CelHeader
    recommends
        s.len() >= CEL_HEADER_SIZE,
{
    CelHeader {
        layer_index: u16_at(s, 0),
        point_x: i16_at(s, 2),
        point_y: i16_at(s, 4),
        opacity: s[6],
        cel_type: u16_at(s, 7),
        z_index: i16_at(s, 9),
    }
}

/// What splitting a cel payload `s` into fixed fields and body gives.
pub open spec fn cel_result(s: Seq<u8>) -> Result<CelView, CelParseError> {
    if s.len() < CEL_HEADER_SIZE {
        Err(CelParseError::CastError)
    } else {
        Ok(CelView { cel_header: cel_header_of(s), ptr: s.skip(CEL_HEADER_SIZE as int) })
    }
}

fn read_cel_header(data: &[u8]) -> (r: Option<(CelHeader, &[u8])>)
    ensures
        r is None <==> data@.len() < CEL_HEADER_SIZE,
        r matches Some(p) ==> p.0 == cel_header_of(data@) && p.1@ == data@.skip(
            CEL_HEADER_SIZE as int,
        ),
{
    let (layer_index, rest) = take_u16(data)?;
    let (point_x, rest) = take_i16(rest)?;
    let (point_y, rest) = take_i16(rest)?;
    let (opacity, rest) = take_u8(rest)?;
    let (cel_type, rest) = take_u16(rest)?;
    let (z_index, rest) = take_i16(rest)?;
    let (_reserved, rest) = take_bytes(rest, 5)?;
    Some((CelHeader { layer_index, point_x, point_y, opacity, cel_type, z_index }, rest))
}

/// Splits the payload of a cel chunk into its fixed fields and its body.
///
/// Fails with `CastError` exactly when the payload is shorter than
/// [`CEL_HEADER_SIZE`]. The cel type is not looked at here: a cel of a type
/// that [`CelContainer::get`] cannot decode still has its position and
/// opacity.
pub fn chunk_cel<'a>(ptr: &'a [u8]) -> (r: Result<CelContainer<'a>, CelParseError>)
    ensures
        match cel_result(ptr@) {
            Ok(c) => r matches Ok(x) && x@ == c,
            Err(e) => r matches Err(x) && x == e,
        },
{
    match read_cel_header(ptr) {
        Some((cel_header, body)) => Ok(CelContainer { cel_header, ptr: body }),
        None => Err(CelParseError::CastError),
    }
}

/// The size of a raw image, in pixels.
#[derive(Debug, Clone, Copy, PartialEq, Eq, Structural)]
pub struct RawImageHeader {
    pub width: u16,
    pub height: u16,
}

/// Number of bytes that one pixel takes in a document of colour depth
/// `depth`: the least number of bytes that hold `depth` bits.
pub open spec fn bytes_per_pixel(depth: u16) -> nat {
    ((depth + 7) / 8) as nat
}

/// Number of bytes that the pixels of a `width` by `height` image take in a
/// document of colour depth `depth`.
pub open spec fn pixel_bytes(width: u16, height: u16, depth: u16) -> nat {
    (width * height) as nat * bytes_per_pixel(depth)
}

/// The pixels of a raw cel: the image's size and its samples, row by row
/// from the top left.
#[derive(Debug, Clone, Copy)]
pub struct RawImageDataContainer<'a> {
    /// The cel that the image belongs to.
    pub parent: &'a CelContainer<'a>,
    /// The image's size.
    pub header: RawImageHeader,
    /// The colour depth of the document, in bits per pixel.
    pub depth: u16,
    /// The samples, [`bytes_per_pixel`] bytes each.
    pub ptr: &'a [u8],
}

/// What a [`RawImageDataContainer`] stands for.
pub struct RawImageView {
    pub parent: CelView,
    pub header: RawImageHeader,
    pub depth: u16,
    pub ptr: Seq<u8>,
}

impl<'a> View for RawImageDataContainer<'a> {
    type V = RawImageView;

    open spec fn view(&self) -> RawImageView {
        RawImageView {
            parent: (*self.parent)@,
            header: self.header,
            depth: self.depth,
            ptr: self.ptr@,
        }
    }
}

impl RawImageView {
    /// Number of pixels of the image.
    pub open spec fn pixel_count(self) -> nat {
        (self.header.width * self.header.height) as nat
    }

    /// The span holds exactly the samples of all pixels.
    pub open spec fn complete(self) -> bool {
        self.ptr.len() == pixel_bytes(self.header.width, self.header.height, self.depth)
    }

    /// The sample of pixel `index`, if the image has that pixel and the span
    /// reaches that far.
    pub open spec fn sample(self, index: int) -> Option<Seq<u8>> {
        let size = bytes_per_pixel(self.depth) as int;
        if 0 <= index < self.pixel_count() && (index + 1) * size <= self.ptr.len() {
            Some(self.ptr.subrange(index * size, (index + 1) * size))
        } else {
            None
        }
    }
}

/// The body of a cel, decoded.
#[derive(Debug, Clone, Copy)]
pub enum CelData<'a> {
    /// The cel stores its pixels uncompressed.
    Raw(RawImageDataContainer<'a>),
    /// The cel shows what the cel of the same layer shows in the frame with
    /// this index.
    Linked(u16),
}

/// What a [`CelData`] stands for.
pub enum CelDataView {
    Raw(RawImageView),
    Linked(u16),
}

impl<'a> View for CelData<'a> {
    type V = CelDataView;

    open spec fn view(&self) -> CelDataView {
        match self {
            CelData::Raw(image) => CelDataView::Raw(image@),
            CelData::Linked(frame) => CelDataView::Linked(*frame),
        }
    }
}

/// What decoding the body of `cel` gives in a document of colour depth
/// `depth`.
///
/// A raw cel holds the image's width and height and then the samples of
/// all its pixels; what lies behind them is left out. A linked cel holds the
/// index of a frame. Any other cel type is reported with its code.
pub open spec fn cel_data_result(cel: CelView, depth: u16) -> Result<CelDataView, CelParseError> {
    let body = cel.ptr;
    if cel.cel_header.cel_type == RAW_CEL {
        let header = RawImageHeader { width: u16_at(body, 0), height: u16_at(body, 2) };
        let wanted = pixel_bytes(header.width, header.height, depth);
        if body.len() < RAW_IMAGE_HEADER_SIZE || body.len() - RAW_IMAGE_HEADER_SIZE < wanted {
            Err(CelParseError::CastError)
        } else {
            Ok(
                CelDataView::Raw(
                    RawImageView {
                        parent: cel,
                        header,
                        depth,
                        ptr: body.subrange(
                            RAW_IMAGE_HEADER_SIZE as int,
                            RAW_IMAGE_HEADER_SIZE + wanted,
                        ),
                    },
                ),
            )
        }
    } else if cel.cel_header.cel_type == LINKED_CEL {
        if body.len() < 2 {
            Err(CelParseError::CastError)
        } else {
            Ok(CelDataView::Linked(u16_at(body, 0)))
        }
    } else {
        Err(CelParseError::UnsupportedCelType(cel.cel_header.cel_type))
    }
}

/// Number of bytes that one pixel takes in a document of colour depth
/// `depth`.
pub fn pixel_size(depth: u16) -> (n: usize)
    ensures
        n == bytes_per_pixel(depth),
        n <= 8192,
{
    (depth / 8) as usize + if depth % 8 == 0 {
        0
    } else {
        1
    }
}

/// Number of bytes that the pixels of a `width` by `height` image take in a
/// document of colour depth `depth`.
pub fn pixel_byte_count(width: u16, height: u16, depth: u16) -> (n: u64)
    ensures
        n == pixel_bytes(width, height, depth),
{
    assert(width * height <= 0xffff * 0xffff) by (nonlinear_arith)
        requires
            width <= 0xffff,
            height <= 0xffff,
    ;
    let pixels: u64 = (width as u64) * (height as u64);
    let size: u64 = pixel_size(depth) as u64;
    assert(pixels * size <= 0xffff * 0xffff * 8192) by (nonlinear_arith)
        requires
            pixels <= 0xffff * 0xffff,
            size <= 8192,
    ;
    pixels * size
}

fn read_raw_image_header(body: &[u8]) -> (r: Option<(RawImageHeader, &[u8])>)
    ensures
        r is None <==> body@.len() < RAW_IMAGE_HEADER_SIZE,
        r matches Some(p) ==> p.0 == (RawImageHeader {
            width: u16_at(body@, 0),
            height: u16_at(body@, 2),
        }) && p.1@ == body@.skip(RAW_IMAGE_HEADER_SIZE as int),
{
    let (width, rest) = take_u16(body)?;
    let (height, rest) = take_u16(rest)?;
    Some((RawImageHeader { width, height }, rest))
}

impl<'a> CelContainer<'a> {
    /// Decodes the body of the cel, in a document of colour depth `depth`
    /// bits per pixel.
    ///
    /// Fails with `UnsupportedCelType` for a cel that is neither raw nor
    /// linked, and with `CastError` when the body ends before the fields or
    /// the pixels do.
    pub fn get(&'a self, depth: u16) -> (r: Result<CelData<'a>, CelParseError>)
        ensures
            match cel_data_result(self@, depth) {
                Ok(d) => r matches Ok(x) && x@ == d,
                Err(e) => r matches Err(x) && x == e,
            },
            r matches Ok(CelData::Raw(image)) ==> image@.complete(),
    {
        let cel_type = self.cel_header.cel_type;
        if cel_type == RAW_CEL {
            let (header, rest) = match read_raw_image_header(self.ptr) {
                Some(p) => p,
                None => { return Err(CelParseError::CastError); },
            };
            let wanted = pixel_byte_count(header.width, header.height, depth);
            if (rest.len() as u64) < wanted {
                return Err(CelParseError::CastError);
            }
            let pixels = slice_subrange(rest, 0, wanted as usize);
            assert(pixels@ =~= self.ptr@.subrange(
                RAW_IMAGE_HEADER_SIZE as int,
                RAW_IMAGE_HEADER_SIZE + wanted,
            ));
            Ok(CelData::Raw(RawImageDataContainer { parent: self, header, depth, ptr: pixels }))
        } else if cel_type == LINKED_CEL {
            match take_u16(self.ptr) {
                Some((frame, _)) => Ok(CelData::Linked(frame)),
                None => Err(CelParseError::CastError),
            }
        } else {
            Err(CelParseError::UnsupportedCelType(cel_type))
        }
    }
}

impl<'a> RawImageDataContainer<'a> {
    /// The sample of pixel `index`, counted row by row from the top left.
    ///
    /// `None` when the image has no such pixel, or when the span ends before
    /// that sample does.
    pub fn sample(&self, index: usize) -> (r: Option<&'a [u8]>)
        ensures
            match self@.sample(index as int) {
                Some(s) => r matches Some(x) && x@ == s,
                None => r is None,
            },
    {
        let width = self.header.width;
        let height = self.header.height;
        assert(width * height <= 0xffff * 0xffff) by (nonlinear_arith)
            requires
                width <= 0xffff,
                height <= 0xffff,
        ;
        let count: u64 = (width as u64) * (height as u64);
        if index as u64 >= count {
            return None;
        }
        let size: u64 = pixel_size(self.depth) as u64;
        assert((index + 1) * size <= 0xffff * 0xffff * 8192 && (index + 1) * size - size == index
            * size) by (nonlinear_arith)
            requires
                0 <= index < 0xffff * 0xffff,
                0 <= size <= 8192,
        ;
        let end: u64 = (index as u64 + 1) * size;
        if end > self.ptr.len() as u64 {
            return None;
        }
        let start: u64 = end - size;
        Some(slice_subrange(self.ptr, start as usize, end as usize))
    }

    /// Where the image lies on the canvas: the position of its top left
    /// corner, then its width and height.
    pub fn bounds(&self) -> (r: (i32, i32, u32, u32))
        ensures
            r.0 == self.parent.cel_header.point_x,
            r.1 == self.parent.cel_header.point_y,
            r.2 == self.header.width,
            r.3 == self.header.height,
    {
        (
            self.parent.cel_header.point_x as i32,
            self.parent.cel_header.point_y as i32,
            self.header.width as u32,
            self.header.height as u32,
        )
    }

    /// A fresh walker over the samples of the image, at the first pixel.
    pub fn pixels(&self) -> (it: PixelIterator<'a>)
        ensures
            it.idc == *self,
            it.idx == 0,
    {
        PixelIterator::new(*self)
    }
}

/// In an image whose span is complete every pixel has its sample, of
/// [`bytes_per_pixel`] bytes, and there is no sample beyond the last pixel.
pub proof fn lemma_complete_image_samples(image: RawImageView, index: int)
    requires
        image.complete(),
    ensures
        0 <= index < image.pixel_count() ==> image.sample(index) is Some && image.sample(
            index,
        ).unwrap().len() == bytes_per_pixel(image.depth),
        !(0 <= index < image.pixel_count()) ==> image.sample(index) is None,
{
    let size = bytes_per_pixel(image.depth) as int;
    let count = image.pixel_count() as int;
    if 0 <= index < count {
        assert((index + 1) * size <= count * size && index * size + size == (index + 1) * size
            && 0 <= index * size) by (nonlinear_arith)
            requires
                0 <= index < count,
                0 <= size,
        ;
    }
}

/// A cursor over the samples of a raw image, pixel by pixel.
#[derive(Debug, Clone, Copy)]
pub struct PixelIterator<'a> {
    /// The image.
    pub idc: RawImageDataContainer<'a>,
    /// Number of samples yielded so far: the index of the next pixel.
    pub idx: usize,
}

impl<'a> PixelIterator<'a> {
    /// A walker over the samples of `idc`, at the first pixel.
    pub fn new(idc: RawImageDataContainer<'a>) -> (it: PixelIterator<'a>)
        ensures
            it.idc == idc,
            it.idx == 0,
    {
        PixelIterator { idc, idx: 0 }
    }

    /// Yields the sample of the next pixel and steps over it.
    ///
    /// Yields `None`, and stays where it is, behind the last pixel, or where
    /// the span ends before the next sample does.
    pub fn next(&mut self) -> (r: Option<&'a [u8]>)
        ensures
            final(self).idc == old(self).idc,
            match old(self).idc@.sample(old(self).idx as int) {
                Some(s) => r matches Some(x) && x@ == s && final(self).idx == old(self).idx + 1,
                None => r is None && final(self).idx == old(self).idx,
            },
    {
        let r = self.idc.sample(self.idx);
        if r.is_some() {
            let width = self.idc.header.width;
            let height = self.idc.header.height;
            assert(width * height <= 0xffff * 0xffff) by (nonlinear_arith)
                requires
                    width <= 0xffff,
                    height <= 0xffff,
            ;
            self.idx = self.idx + 1;
        }
        r
    }
}

/// Why the payload of a chunk could not be decoded.
#[derive(Debug, Clone, Copy, PartialEq, Eq, Structural)]
pub enum ChunkParseError {
    /// The chunk's declared length is shorter than its header, or longer
    /// than what is there.
    CastError,
    /// The chunk is a cel chunk that could not be decoded.
    Cel(CelParseError),
    /// The chunk is a layer chunk that could not be decoded.
    Layer(LayerParseError),
}

/// The payload of a chunk, decoded as far as its type is known.
#[derive(Debug, Clone, Copy)]
pub enum ASEChunk<'a> {
    /// A chunk of a type that is not decoded here: its type code and its
    /// payload as it stands.
    Unknown(u16, &'a [u8]),
    /// A cel chunk.
    Cel(CelContainer<'a>),
    /// A layer chunk.
    Layer(Layer<'a>),
}

/// What an [`ASEChunk`] stands for.
pub enum ASEChunkView {
    Unknown(u16, Seq<u8>),
    Cel(CelView),
    Layer(LayerView),
}

impl<'a> View for ASEChunk<'a> {
    type V = ASEChunkView;

    open spec fn view(&self) -> ASEChunkView {
        match self {
            ASEChunk::Unknown(chunk_type, data) => ASEChunkView::Unknown(*chunk_type, data@),
            ASEChunk::Cel(cel) => ASEChunkView::Cel(cel@),
            ASEChunk::Layer(layer) => ASEChunkView::Layer(layer@),
        }
    }
}

/// What decoding a payload `data` of a chunk of type `chunk_type` gives.
///
/// Every type code has a result: a layer or a cel for their two codes, and
/// for any other code the payload as it stands.
pub open spec fn payload_result(chunk_type: u16, data: Seq<u8>) -> Result<
    ASEChunkView,
    ChunkParseError,
> {
    if chunk_type == LAYER_CHUNK {
        match layer_result(data) {
            Ok(layer) => Ok(ASEChunkView::Layer(layer)),
            Err(e) => Err(ChunkParseError::Layer(e)),
        }
    } else if chunk_type == CEL_CHUNK {
        match cel_result(data) {
            Ok(cel) => Ok(ASEChunkView::Cel(cel)),
            Err(e) => Err(ChunkParseError::Cel(e)),
        }
    } else {
        Ok(ASEChunkView::Unknown(chunk_type, data))
    }
}

impl<'a> ASEChunk<'a> {
    /// Decodes the payload `data` of a chunk of type `chunk_type`.
    ///
    /// A chunk of a type that is not decoded here is handed back as
    /// `Unknown`, never as an error.
    pub fn new(chunk_type: u16, data: &'a [u8]) -> (r: Result<ASEChunk<'a>, ChunkParseError>)
        ensures
            match payload_result(chunk_type, data@) {
                Ok(c) => r matches Ok(x) && x@ == c,
                Err(e) => r matches Err(x) && x == e,
            },
            chunk_type != LAYER_CHUNK && chunk_type != CEL_CHUNK ==> r is Ok,
    {
        if chunk_type == LAYER_CHUNK {
            match Layer::new(data) {
                Ok(layer) => Ok(ASEChunk::Layer(layer)),
                Err(e) => Err(ChunkParseError::Layer(e)),
            }
        } else if chunk_type == CEL_CHUNK {
            match chunk_cel(data) {
                Ok(cel) => Ok(ASEChunk::Cel(cel)),
                Err(e) => Err(ChunkParseError::Cel(e)),
            }
        } else {
            Ok(ASEChunk::Unknown(chunk_type, data))
        }
    }
}

impl ChunkView {
    /// What decoding this chunk gives: its payload is the front of the bytes
    /// behind the header, as long as the header says.
    pub open spec fn decoded(self) -> Result<ASEChunkView, ChunkParseError> {
        if CHUNK_HEADER_SIZE <= self.header.size && self.header.size - CHUNK_HEADER_SIZE
            <= self.data.len() {
            payload_result(
                self.header.chunk_type,
                self.data.take(self.header.size - CHUNK_HEADER_SIZE),
            )
        } else {
            Err(ChunkParseError::CastError)
        }
    }
}

impl<'a> ASEChunkReader<'a> {
    /// Decodes the chunk's payload according to its type.
    ///
    /// Fails with `CastError` when the chunk's declared length does not fit
    /// the bytes that are there, and as [`ASEChunk::new`] does.
    pub fn get_chunk(&self) -> (r: Result<ASEChunk<'a>, ChunkParseError>)
        ensures
            match self@.decoded() {
                Ok(c) => r matches Ok(x) && x@ == c,
                Err(e) => r matches Err(x) && x == e,
            },
    {
        let size = self.0.size as usize;
        if size < CHUNK_HEADER_SIZE || size - CHUNK_HEADER_SIZE > self.1.len() {
            return Err(ChunkParseError::CastError);
        }
        let data = slice_subrange(self.1, 0, size - CHUNK_HEADER_SIZE);
        ASEChunk::new(self.0.chunk_type, data)
    }
}

} // verus!
