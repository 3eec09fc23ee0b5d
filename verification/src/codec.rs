//! A frame decoder that can be fed a connection's bytes in pieces of any size.

use crate::error::Error;
use crate::frame::{decode, spec_decode, Decoded, DecodedView, Frame, FrameType, FrameView, HEADER_LEN};
use vstd::prelude::*;

verus! {

/// The payload limit of a codec that was given none: 256 KiB.
pub const DEFAULT_MAX_FRAME_SIZE: u32 = 262144;

/// Buffers received bytes and cuts them into frames.
#[derive(Clone, Debug, PartialEq, Eq)]
pub struct FrameCodec {
    /// The most payload bytes that a data frame may declare.
    pub max_frame_size: u32,
    /// Bytes received and not yet decoded.
    pub buffer: Vec<u8>,
}

/// What a [`FrameCodec`] holds, as mathematical values.
pub struct FrameCodecView {
    pub max_frame_size: u32,
    pub buffer: Seq<u8>,
}

impl View for FrameCodec {
    type V = FrameCodecView;

    open spec fn view(&self) -> FrameCodecView {
        FrameCodecView { max_frame_size: self.max_frame_size, buffer: self.buffer@ }
    }
}

impl FrameCodecView {
    /// The codec after `bytes` have been received.
    pub open spec fn fed(self, bytes: Seq<u8>) -> FrameCodecView {
        FrameCodecView { max_frame_size: self.max_frame_size, buffer: self.buffer + bytes }
    }

    /// What the next call of [`FrameCodec::decode_next`] finds.
    pub open spec fn front(self) -> DecodedView {
        spec_decode(self.buffer, self.max_frame_size)
    }

    /// The codec after the next call of [`FrameCodec::decode_next`]: a whole
    /// frame at the front is taken off the buffer, anything else stays.
    pub open spec fn advanced(self) -> FrameCodecView {
        match self.front() {
            DecodedView::Frame(_, n) => FrameCodecView {
                max_frame_size: self.max_frame_size,
                buffer: self.buffer.subrange(n as int, self.buffer.len() as int),
            },
            _ => self,
        }
    }
}

impl Default for FrameCodec {
    fn default() -> (c: FrameCodec)
        ensures
            c@ == (FrameCodecView {
                max_frame_size: DEFAULT_MAX_FRAME_SIZE,
                buffer: Seq::empty(),
            }),
    {
        FrameCodec { max_frame_size: DEFAULT_MAX_FRAME_SIZE, buffer: Vec::new() }
    }
}

impl FrameCodec {
    /// The same codec with another payload limit.
    pub fn max_frame_size(self, size: u32) -> (c: FrameCodec)
        ensures
            c@ == (FrameCodecView { max_frame_size: size, buffer: self@.buffer }),
    {
        FrameCodec { max_frame_size: size, buffer: self.buffer }
    }

    /// The number of bytes received and not yet decoded.
    pub fn buffered(&self) -> (n: usize)
        ensures
            n == self@.buffer.len(),
    {
        self.buffer.len()
    }

    /// Takes in bytes read from the connection.
    pub fn feed(&mut self, bytes: &[u8])
        ensures
            final(self)@ == old(self)@.fed(bytes@),
    {
        self.buffer.extend_from_slice(bytes);
        assert(self.buffer@ =~= old(self).buffer@ + bytes@);
    }

    /// Takes the next whole frame off the buffered bytes.
    ///
    /// `Ok(None)` says that the frame at the front is not all there yet; the
    /// buffer then stays as it is, and so it does when the front is invalid.
    pub fn decode_next(&mut self) -> (r: Result<Option<Frame>, Error>)
        ensures
            final(self)@ == old(self)@.advanced(),
            match old(self)@.front() {
                DecodedView::Frame(f, _) => r matches Ok(Some(fr)) && fr@ == f,
                DecodedView::NeedMoreData => r matches Ok(None),
                DecodedView::ProtocolError => r == Err::<Option<Frame>, Error>(
                    Error::ProtocolError,
                ),
            },
    {
        match decode(self.buffer.as_slice(), self.max_frame_size) {
            Decoded::Frame(frame, used) => {
                let rest = self.buffer.split_off(used);
                self.buffer = rest;
                Ok(Some(frame))
            },
            Decoded::NeedMoreData => Ok(None),
            Decoded::ProtocolError => Err(Error::ProtocolError),
        }
    }
}

/// Receiving bytes in two pieces leaves the codec as receiving them in one.
pub proof fn lemma_feed_in_pieces(c: FrameCodecView, a: Seq<u8>, b: Seq<u8>)
    ensures
        c.fed(a).fed(b) == c.fed(a + b),
{
    assert((c.buffer + a) + b =~= c.buffer + (a + b));
}

/// A frame that is cut short is waited for, not refused: every proper prefix
/// of the wire form of a well-formed frame within the payload limit decodes
/// to "need more data".
pub proof fn lemma_prefix_needs_more(f: FrameView, k: int, max_frame_size: u32)
    requires
        f.wf(),
        f.ty == FrameType::Data ==> f.length <= max_frame_size,
        0 <= k < f.encoding().len(),
    ensures
        spec_decode(f.encoding().subrange(0, k), max_frame_size) == DecodedView::NeedMoreData,
{
    crate::frame::lemma_decode_encode(f, Seq::empty(), max_frame_size);
    let whole = f.encoding();
    let part = whole.subrange(0, k);
    assert(whole + Seq::<u8>::empty() =~= whole);
    assert(f.header().len() == HEADER_LEN);
    if k >= HEADER_LEN {
        assert(forall|i: int| 0 <= i < HEADER_LEN ==> part[i] == whole[i]);
    }
}

/// A frame that arrives byte by byte comes out once its last byte is in:
/// with the wire form of a well-formed frame in an otherwise empty buffer,
/// the codec finds that frame and is left with an empty buffer.
pub proof fn lemma_whole_frame_comes_out(f: FrameView, max_frame_size: u32)
    requires
        f.wf(),
        f.ty == FrameType::Data ==> f.length <= max_frame_size,
    ensures
        ({
            let c = FrameCodecView { max_frame_size, buffer: f.encoding() };
            &&& c.front() == DecodedView::Frame(f, f.encoding().len())
            &&& c.advanced().buffer == Seq::<u8>::empty()
        }),
{
    crate::frame::lemma_decode_encode(f, Seq::empty(), max_frame_size);
    assert(f.encoding() + Seq::<u8>::empty() =~= f.encoding());
    let c = FrameCodecView { max_frame_size, buffer: f.encoding() };
    assert(c.advanced().buffer =~= Seq::<u8>::empty());
}

} // verus!
