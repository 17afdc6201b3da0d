//! Frames: the fixed frame header, one frame's view, and the walker that
//! steps from frame to frame by each frame's own declared length.

use vstd::prelude::*;
use vstd::slice::slice_subrange;

use super::chunk::{chunks_intact, chunks_of, lemma_chunks_bounded, lemma_chunks_complete};
use super::chunk::{ChunkIterator, ChunkView};
use super::fields::{take_bytes, take_u16, take_u32, u16_at, u32_at};

verus! {

/// Number of bytes that a frame header occupies at the start of a frame.
pub const FRAME_HEADER_SIZE: usize = 16;

/// The marker that every frame header carries behind its length.
pub const FRAME_MAGIC: u16 = 0xF1FA;

/// The fixed header at the start of every frame.
#[derive(Debug, Clone, Copy, PartialEq, Eq, Structural)]
pub struct ASEFrameHeader {
    /// Length of the whole frame in bytes, this header included.
    pub num_bytes: u32,
    /// The field that older files used for the chunk count; not used here.
    pub old_unused: u16,
    /// How long the frame is shown, in milliseconds.
    pub duration: u16,
    /// Number of chunks that the frame declares.
    pub num_chunks: u32,
}

/// Why a frame could not be decoded.
#[derive(Debug, Clone, Copy, PartialEq, Eq, Structural)]
pub enum FrameParseError {
    /// The input is too short for the frame header, or for the length that
    /// the frame declares.
    CastError,
    /// The frame header carries this value in place of [`FRAME_MAGIC`].
    InvalidMagic(u16),
}

/// The frame header that the first [`FRAME_HEADER_SIZE`] bytes of `s` hold.
pub open spec fn frame_header_of(s: Seq<u8>) -> ASEFrameHeader
    recommends
        s.len() >= FRAME_HEADER_SIZE,
{
    ASEFrameHeader {
        num_bytes: u32_at(s, 0),
        old_unused: u16_at(s, 6),
        duration: u16_at(s, 8),
        num_chunks: u32_at(s, 12),
    }
}

/// What decoding a frame header from `s` gives: too short a span is a
/// `CastError`, a wrong marker is reported with the value found.
pub open spec fn frame_header_result(s: Seq<u8>) -> Result<ASEFrameHeader, FrameParseError> {
    if s.len() < FRAME_HEADER_SIZE {
        Err(FrameParseError::CastError)
    } else if u16_at(s, 4) != FRAME_MAGIC {
        Err(FrameParseError::InvalidMagic(u16_at(s, 4)))
    } else {
        Ok(frame_header_of(s))
    }
}

fn read_frame_header(input: &[u8]) -> (r: Option<(ASEFrameHeader, u16, &[u8])>)
    ensures
        r is None <==> input@.len() < FRAME_HEADER_SIZE,
        r matches Some(p) ==> p.0 == frame_header_of(input@) && p.1 == u16_at(input@, 4) && p.2@
            == input@.skip(FRAME_HEADER_SIZE as int),
{
    let (num_bytes, rest) = take_u32(input)?;
    let (magic, rest) = take_u16(rest)?;
    let (old_unused, rest) = take_u16(rest)?;
    let (duration, rest) = take_u16(rest)?;
    let (_reserved, rest) = take_bytes(rest, 2)?;
    let (num_chunks, rest) = take_u32(rest)?;
    Some((ASEFrameHeader { num_bytes, old_unused, duration, num_chunks }, magic, rest))
}

/// Decodes the frame header at the start of `input` and hands back the bytes
/// that follow it.
///
/// Fails with `CastError` when `input` is shorter than
/// [`FRAME_HEADER_SIZE`], and with `InvalidMagic` when the marker is not
/// [`FRAME_MAGIC`].
pub fn parse_frame<'a>(input: &'a [u8]) -> (r: Result<(ASEFrameHeader, &'a [u8]), FrameParseError>)
    ensures
        match frame_header_result(input@) {
            Ok(h) => r matches Ok(p) && p.0 == h && p.1@ == input@.skip(FRAME_HEADER_SIZE as int),
            Err(e) => r matches Err(x) && x == e,
        },
{
    match read_frame_header(input) {
        None => Err(FrameParseError::CastError),
        Some((frame, magic, rest)) => {
            if magic != FRAME_MAGIC {
                Err(FrameParseError::InvalidMagic(magic))
            } else {
                Ok((frame, rest))
            }
        },
    }
}

/// One frame: its header and its chunk region.
#[derive(Debug, Clone, Copy)]
pub struct FrameReader<'a> {
    /// The frame's header.
    pub frame: ASEFrameHeader,
    /// The chunk region: the bytes between the header and the frame's
    /// declared end.
    pub rest: &'a [u8],
}

/// What a [`FrameReader`] stands for: a header and the bytes of its chunk
/// region.
pub struct FrameView {
    pub frame: ASEFrameHeader,
    pub rest: Seq<u8>,
}

impl FrameView {
    /// The chunks that walking this frame yields.
    pub open spec fn chunks(self) -> Seq<ChunkView> {
        chunks_of(self.rest, self.frame.num_chunks as nat)
    }
}

/// Walking a frame yields no more chunks than its header declares, and yields
/// that many exactly when none of the declared chunks is cut short or
/// malformed.
pub proof fn lemma_frame_chunks(frame: FrameView)
    ensures
        frame.chunks().len() <= frame.frame.num_chunks,
        frame.chunks().len() == frame.frame.num_chunks <==> chunks_intact(
            frame.rest,
            frame.frame.num_chunks as nat,
        ),
{
    lemma_chunks_bounded(frame.rest, frame.frame.num_chunks as nat);
    lemma_chunks_complete(frame.rest, frame.frame.num_chunks as nat);
}

impl<'a> View for FrameReader<'a> {
    type V = FrameView;

    open spec fn view(&self) -> FrameView {
        FrameView { frame: self.frame, rest: self.rest@ }
    }
}

/// The frame at the start of `s`.
///
/// Besides a decodable header the frame needs a declared length that covers
/// the header and lies within `s`; its chunk region is what lies between the
/// header and that length.
pub open spec fn frame_result(s: Seq<u8>) -> Result<FrameView, FrameParseError> {
    match frame_header_result(s) {
        Err(e) => Err(e),
        Ok(h) => if FRAME_HEADER_SIZE <= h.num_bytes <= s.len() {
            Ok(FrameView { frame: h, rest: s.subrange(FRAME_HEADER_SIZE as int, h.num_bytes as int) })
        } else {
            Err(FrameParseError::CastError)
        },
    }
}

impl<'a> FrameReader<'a> {
    /// Decodes the frame at the start of `data`.
    ///
    /// Fails as [`parse_frame`] does, and with `CastError` when the frame's
    /// declared length is shorter than its header or longer than `data`.
    pub fn new(data: &'a [u8]) -> (r: Result<FrameReader<'a>, FrameParseError>)
        ensures
            match frame_result(data@) {
                Ok(f) => r matches Ok(fr) && fr@ == f,
                Err(e) => r matches Err(x) && x == e,
            },
    {
        let (frame, rest) = match parse_frame(data) {
            Ok(p) => p,
            Err(e) => { return Err(e); },
        };
        let num_bytes = frame.num_bytes as usize;
        if num_bytes < FRAME_HEADER_SIZE || num_bytes > data.len() {
            return Err(FrameParseError::CastError);
        }
        let chunks = slice_subrange(rest, 0, num_bytes - FRAME_HEADER_SIZE);
        assert(chunks@ == data@.subrange(FRAME_HEADER_SIZE as int, num_bytes as int));
        Ok(FrameReader { frame, rest: chunks })
    }

    /// Length of the whole frame in bytes, as its header declares it.
    pub fn size(&self) -> (n: u32)
        ensures
            n == self.frame.num_bytes,
    {
        self.frame.num_bytes
    }

    /// A walker over the chunks of this frame, at the first chunk.
    pub fn chunks(&self) -> (it: ChunkIterator<'a>)
        ensures
            it.ptr@ == self.rest@,
            it.remaining == self.frame.num_chunks,
            it.chunks() == self@.chunks(),
    {
        ChunkIterator { ptr: self.rest, remaining: self.frame.num_chunks as usize }
    }
}

/// The frames that a walker yields from `s` when `n` frames are declared: it
/// stops at the first frame that cannot be decoded, and after `n` frames.
pub open spec fn frames_of(s: Seq<u8>, n: nat) -> Seq<FrameView>
    decreases n,
{
    if n == 0 {
        Seq::empty()
    } else {
        match frame_result(s) {
            Err(_) => Seq::empty(),
            Ok(f) => seq![f] + frames_of(s.skip(f.frame.num_bytes as int), (n - 1) as nat),
        }
    }
}

/// No frame among the `n` declared ones is cut short or malformed: each can be
/// decoded where the one before it ends.
pub open spec fn frames_intact(s: Seq<u8>, n: nat) -> bool
    decreases n,
{
    n == 0 || match frame_result(s) {
        Err(_) => false,
        Ok(f) => frames_intact(s.skip(f.frame.num_bytes as int), (n - 1) as nat),
    }
}

/// A walker never yields more frames than are declared.
pub proof fn lemma_frames_bounded(s: Seq<u8>, n: nat)
    ensures
        frames_of(s, n).len() <= n,
    decreases n,
{
    if n > 0 {
        if let Ok(f) = frame_result(s) {
            lemma_frames_bounded(s.skip(f.frame.num_bytes as int), (n - 1) as nat);
        }
    }
}

/// A walker yields every declared frame exactly when none of them is cut short
/// or malformed.
pub proof fn lemma_frames_complete(s: Seq<u8>, n: nat)
    ensures
        frames_of(s, n).len() == n <==> frames_intact(s, n),
    decreases n,
{
    if n > 0 {
        if let Ok(f) = frame_result(s) {
            lemma_frames_complete(s.skip(f.frame.num_bytes as int), (n - 1) as nat);
        }
    }
}

/// A cursor over the frames of a document: the bytes from the next frame on,
/// and how many frames are still declared.
#[derive(Debug, Clone, Copy)]
pub struct FrameListIterator<'a> {
    /// The bytes from the start of the next frame on.
    pub rest: &'a [u8],
    /// Number of declared frames not yet yielded.
    pub remaining: u16,
}

impl<'a> FrameListIterator<'a> {
    /// The frames that this walker has yet to yield.
    pub open spec fn frames(&self) -> Seq<FrameView> {
        frames_of(self.rest@, self.remaining as nat)
    }

    /// Yields the next frame and steps over it, by the length that the frame
    /// declares.
    ///
    /// Yields `None`, and stays where it is, once every declared frame has
    /// been yielded or the next frame cannot be decoded.
    pub fn next(&mut self) -> (r: Option<FrameReader<'a>>)
        ensures
            match r {
                Some(f) => {
                    &&& old(self).remaining > 0
                    &&& frame_result(old(self).rest@) == Ok::<FrameView, FrameParseError>(f@)
                    &&& final(self).rest@ == old(self).rest@.skip(f.frame.num_bytes as int)
                    &&& final(self).remaining == old(self).remaining - 1
                    &&& old(self).frames() == seq![f@] + final(self).frames()
                },
                None => {
                    &&& old(self).remaining == 0 || frame_result(old(self).rest@) is Err
                    &&& *final(self) == *old(self)
                    &&& old(self).frames() == Seq::<FrameView>::empty()
                },
            },
    {
        if self.remaining == 0 {
            return None;
        }
        let fr = match FrameReader::new(self.rest) {
            Ok(fr) => fr,
            Err(_) => { return None; },
        };
        let frame_size = fr.size() as usize;
        self.rest = slice_subrange(self.rest, frame_size, self.rest.len());
        self.remaining = self.remaining - 1;
        Some(fr)
    }

    /// Walks to the end and gathers the frames on the way.
    pub fn collect(self) -> (v: Vec<FrameReader<'a>>)
        ensures
            v@.len() == self.frames().len(),
            forall|i: int| 0 <= i < v@.len() ==> (#[trigger] v@[i])@ == self.frames()[i],
            v@.len() <= self.remaining,
    {
        let mut it = self;
        let mut v: Vec<FrameReader<'a>> = Vec::new();
        loop
            invariant
                self.frames().len() == v@.len() + it.frames().len(),
                forall|i: int| 0 <= i < v@.len() ==> (#[trigger] v@[i])@ == self.frames()[i],
                forall|i: int|
                    0 <= i < it.frames().len() ==> #[trigger] it.frames()[i] == self.frames()[v@.len()
                        + i],
            ensures
                it.frames().len() == 0,
            decreases it.remaining,
        {
            let ghost before = it.frames();
            let ghost done = v@.len() as int;
            match it.next() {
                None => { break ; },
                Some(f) => {
                    v.push(f);
                    proof {
                        assert(before[0] == f@);
                        assert forall|i: int| 0 <= i < it.frames().len() implies #[trigger] it.frames()[i]
                            == self.frames()[done + 1 + i] by {
                            assert(it.frames()[i] == before[i + 1]);
                        }
                    }
                },
            }
        }
        proof {
            lemma_frames_bounded(self.rest@, self.remaining as nat);
        }
        v
    }
}

} // verus!
