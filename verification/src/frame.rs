//! Wire frames and their binary form.
//!
//! A frame header is ten bytes: the stream id (four bytes, big endian), the
//! frame type (one byte), the flags (one byte) and the length field (four
//! bytes, big endian). Only data frames carry a payload, of exactly `length`
//! bytes, right behind the header.

use vstd::arithmetic::div_mod::lemma_fundamental_div_mod_converse;
use vstd::prelude::*;
use vstd::slice::{slice_subrange, slice_to_vec};

verus! {

/// Number of bytes in a frame header.
pub const HEADER_LEN: usize = 10;

/// Wire bit of the SYN flag.
pub const FLAG_SYN: u8 = 1;

/// Wire bit of the ACK flag.
pub const FLAG_ACK: u8 = 2;

/// Wire bit of the FIN flag.
pub const FLAG_FIN: u8 = 4;

/// Wire bit of the RST flag.
pub const FLAG_RST: u8 = 8;

/// The kind of a frame.
#[derive(Clone, Copy, Debug, PartialEq, Eq, Structural)]
pub enum FrameType {
    /// Carries payload bytes of a stream.
    Data,
    /// Grants the peer more send credit on a stream.
    WindowUpdate,
    /// Measures liveness; the length field is an opaque nonce.
    Ping,
    /// Announces that the sender will take no new streams.
    GoAway,
}

impl FrameType {
    /// The byte that stands for this type on the wire.
    pub open spec fn spec_code(self) -> u8 {
        match self {
            FrameType::Data => 0,
            FrameType::WindowUpdate => 1,
            FrameType::Ping => 2,
            FrameType::GoAway => 3,
        }
    }

    /// The type that a wire byte stands for, if any.
    pub open spec fn spec_from_code(code: u8) -> Option<FrameType> {
        if code == 0 {
            Some(FrameType::Data)
        } else if code == 1 {
            Some(FrameType::WindowUpdate)
        } else if code == 2 {
            Some(FrameType::Ping)
        } else if code == 3 {
            Some(FrameType::GoAway)
        } else {
            None
        }
    }

    /// The byte that stands for this type on the wire.
    pub fn code(self) -> (c: u8)
        ensures
            c == self.spec_code(),
    {
        match self {
            FrameType::Data => 0,
            FrameType::WindowUpdate => 1,
            FrameType::Ping => 2,
            FrameType::GoAway => 3,
        }
    }

    /// Reads a type from its wire byte; `None` for a byte that names no type.
    pub fn from_code(code: u8) -> (t: Option<FrameType>)
        ensures
            t == Self::spec_from_code(code),
    {
        if code == 0 {
            Some(FrameType::Data)
        } else if code == 1 {
            Some(FrameType::WindowUpdate)
        } else if code == 2 {
            Some(FrameType::Ping)
        } else if code == 3 {
            Some(FrameType::GoAway)
        } else {
            None
        }
    }
}

/// The set of flags on a frame.
#[derive(Clone, Copy, Debug, PartialEq, Eq, Structural)]
pub struct Flags {
    /// Opens a stream (or asks for a ping reply).
    pub syn: bool,
    /// Acknowledges an open (or answers a ping).
    pub ack: bool,
    /// Half-closes the sender's direction.
    pub fin: bool,
    /// Resets the stream at once.
    pub rst: bool,
}

impl Flags {
    /// The wire byte of a flag set: the sum of the bits of the flags in it.
    pub open spec fn spec_bits(self) -> u8 {
        ((if self.syn { 1int } else { 0int }) + (if self.ack { 2int } else { 0int }) + (if self.fin {
            4int
        } else {
            0int
        }) + (if self.rst { 8int } else { 0int })) as u8
    }

    /// The flag set of a wire byte; `None` where a bit outside the four flags is set.
    pub open spec fn spec_from_bits(bits: u8) -> Option<Flags> {
        if bits >= 16 {
            None
        } else {
            Some(
                Flags {
                    syn: bits % 2 == 1,
                    ack: (bits / 2) % 2 == 1,
                    fin: (bits / 4) % 2 == 1,
                    rst: (bits / 8) % 2 == 1,
                },
            )
        }
    }

    /// Whether this flag set may stand on a frame of type `ty`.
    ///
    /// Data and window-update frames take any flags but SYN together with
    /// ACK. A ping is either a request (SYN alone) or a reply (ACK alone). A
    /// go-away carries no flag.
    pub open spec fn spec_valid_for(self, ty: FrameType) -> bool {
        match ty {
            FrameType::Data | FrameType::WindowUpdate => !(self.syn && self.ack),
            FrameType::Ping => (self.syn != self.ack) && !self.fin && !self.rst,
            FrameType::GoAway => !self.syn && !self.ack && !self.fin && !self.rst,
        }
    }

    /// The empty flag set.
    pub fn none() -> (f: Flags)
        ensures
            f == (Flags { syn: false, ack: false, fin: false, rst: false }),
    {
        Flags { syn: false, ack: false, fin: false, rst: false }
    }

    /// SYN alone.
    pub fn syn() -> (f: Flags)
        ensures
            f == (Flags { syn: true, ack: false, fin: false, rst: false }),
    {
        Flags { syn: true, ack: false, fin: false, rst: false }
    }

    /// ACK alone.
    pub fn ack() -> (f: Flags)
        ensures
            f == (Flags { syn: false, ack: true, fin: false, rst: false }),
    {
        Flags { syn: false, ack: true, fin: false, rst: false }
    }

    /// FIN alone.
    pub fn fin() -> (f: Flags)
        ensures
            f == (Flags { syn: false, ack: false, fin: true, rst: false }),
    {
        Flags { syn: false, ack: false, fin: true, rst: false }
    }

    /// RST alone.
    pub fn rst() -> (f: Flags)
        ensures
            f == (Flags { syn: false, ack: false, fin: false, rst: true }),
    {
        Flags { syn: false, ack: false, fin: false, rst: true }
    }

    /// The wire byte of this flag set.
    pub fn bits(self) -> (b: u8)
        ensures
            b == self.spec_bits(),
            b < 16,
    {
        let mut b: u8 = 0;
        if self.syn {
            b = b + FLAG_SYN;
        }
        if self.ack {
            b = b + FLAG_ACK;
        }
        if self.fin {
            b = b + FLAG_FIN;
        }
        if self.rst {
            b = b + FLAG_RST;
        }
        b
    }

    /// Reads a flag set from its wire byte; `None` where an unknown bit is set.
    pub fn from_bits(bits: u8) -> (f: Option<Flags>)
        ensures
            f == Self::spec_from_bits(bits),
    {
        if bits >= 16 {
            None
        } else {
            Some(
                Flags {
                    syn: bits % 2 == 1,
                    ack: (bits / 2) % 2 == 1,
                    fin: (bits / 4) % 2 == 1,
                    rst: (bits / 8) % 2 == 1,
                },
            )
        }
    }

    /// Whether this flag set may stand on a frame of type `ty`.
    pub fn valid_for(self, ty: FrameType) -> (ok: bool)
        ensures
            ok == self.spec_valid_for(ty),
    {
        match ty {
            FrameType::Data | FrameType::WindowUpdate => !(self.syn && self.ack),
            FrameType::Ping => (self.syn != self.ack) && !self.fin && !self.rst,
            FrameType::GoAway => !self.syn && !self.ack && !self.fin && !self.rst,
        }
    }
}

/// Reading the byte of a flag set gives the flag set back.
pub proof fn lemma_flags_bits_roundtrip(f: Flags)
    ensures
        f.spec_bits() < 16,
        Flags::spec_from_bits(f.spec_bits()) == Some(f),
{
}

/// Reading the byte of a frame type gives the type back.
pub proof fn lemma_type_code_roundtrip(t: FrameType)
    ensures
        FrameType::spec_from_code(t.spec_code()) == Some(t),
{
}

/// The four bytes of `x`, most significant first.
pub open spec fn spec_be32(x: u32) -> Seq<u8> {
    seq![
        (x / 0x100_0000) as u8,
        ((x / 0x1_0000) % 256) as u8,
        ((x / 0x100) % 256) as u8,
        (x % 256) as u8,
    ]
}

/// The number whose big-endian bytes are `b0 b1 b2 b3`.
pub open spec fn spec_from_be32(b0: u8, b1: u8, b2: u8, b3: u8) -> u32 {
    (b0 * 0x100_0000 + b1 * 0x1_0000 + b2 * 0x100 + b3) as u32
}

/// Reading the big-endian bytes of a number gives the number back.
pub proof fn lemma_be32_roundtrip(x: u32)
    ensures
        spec_be32(x).len() == 4,
        spec_from_be32(spec_be32(x)[0], spec_be32(x)[1], spec_be32(x)[2], spec_be32(x)[3]) == x,
{
}

/// Writing the number read from four bytes gives the four bytes back.
pub proof fn lemma_be32_bytes_roundtrip(b0: u8, b1: u8, b2: u8, b3: u8)
    ensures
        spec_be32(spec_from_be32(b0, b1, b2, b3)) == seq![b0, b1, b2, b3],
{
    let x: int = b0 * 0x100_0000 + b1 * 0x1_0000 + b2 * 0x100 + b3;
    lemma_fundamental_div_mod_converse(x, 0x100_0000, b0 as int, b1 * 0x1_0000 + b2 * 0x100 + b3);
    lemma_fundamental_div_mod_converse(x, 0x1_0000, b0 * 0x100 + b1, b2 * 0x100 + b3);
    lemma_fundamental_div_mod_converse(b0 * 0x100 + b1, 0x100, b0 as int, b1 as int);
    lemma_fundamental_div_mod_converse(x, 0x100, b0 * 0x1_0000 + b1 * 0x100 + b2, b3 as int);
    lemma_fundamental_div_mod_converse(
        b0 * 0x1_0000 + b1 * 0x100 + b2,
        0x100,
        b0 * 0x100 + b1,
        b2 as int,
    );
    assert(spec_be32(spec_from_be32(b0, b1, b2, b3)) =~= seq![b0, b1, b2, b3]);
}

/// Appends the big-endian bytes of `x` to `out`.
fn put_be32(out: &mut Vec<u8>, x: u32)
    ensures
        final(out)@ == old(out)@ + spec_be32(x),
{
    out.push((x / 0x100_0000) as u8);
    out.push(((x / 0x1_0000) % 256) as u8);
    out.push(((x / 0x100) % 256) as u8);
    out.push((x % 256) as u8);
    assert(out@ =~= old(out)@ + spec_be32(x));
}

/// Reads a big-endian number from the four bytes of `buf` that start at `at`.
fn get_be32(buf: &[u8], at: usize) -> (x: u32)
    requires
        at + 4 <= buf@.len(),
    ensures
        x == spec_from_be32(buf@[at as int], buf@[at + 1], buf@[at + 2], buf@[at + 3]),
{
    let b0: u32 = buf[at] as u32;
    let b1: u32 = buf[at + 1] as u32;
    let b2: u32 = buf[at + 2] as u32;
    let b3: u32 = buf[at + 3] as u32;
    b0 * 0x100_0000 + b1 * 0x1_0000 + b2 * 0x100 + b3
}

/// A wire frame.
#[derive(Clone, Debug, PartialEq, Eq)]
pub struct Frame {
    /// The stream that the frame belongs to; 0 for the connection itself.
    pub stream_id: u32,
    /// The kind of frame.
    pub ty: FrameType,
    /// The flags on the frame.
    pub flags: Flags,
    /// Payload length of a data frame; credit of a window update; nonce of a
    /// ping; reason of a go-away.
    pub length: u32,
    /// The payload; empty on every frame but a data frame.
    pub payload: Vec<u8>,
}

/// What a [`Frame`] holds, as mathematical values.
pub struct FrameView {
    pub stream_id: u32,
    pub ty: FrameType,
    pub flags: Flags,
    pub length: u32,
    pub payload: Seq<u8>,
}

impl View for Frame {
    type V = FrameView;

    open spec fn view(&self) -> FrameView {
        FrameView {
            stream_id: self.stream_id,
            ty: self.ty,
            flags: self.flags,
            length: self.length,
            payload: self.payload@,
        }
    }
}

impl FrameView {
    /// A frame is well formed when its flags fit its type and its payload
    /// fits its length field: a data frame carries exactly `length` bytes,
    /// any other frame none.
    pub open spec fn wf(self) -> bool {
        &&& self.flags.spec_valid_for(self.ty)
        &&& self.ty == FrameType::Data ==> self.payload.len() == self.length
        &&& self.ty != FrameType::Data ==> self.payload.len() == 0
    }

    /// The ten header bytes of the frame.
    pub open spec fn header(self) -> Seq<u8> {
        spec_be32(self.stream_id) + seq![self.ty.spec_code(), self.flags.spec_bits()] + spec_be32(
            self.length,
        )
    }

    /// The bytes of the frame on the wire: header, then payload.
    pub open spec fn encoding(self) -> Seq<u8> {
        self.header() + self.payload
    }
}

/// The outcome of decoding the front of a byte buffer, as mathematical values.
pub enum DecodedView {
    /// A whole frame stands at the front; the number is how many bytes it takes.
    Frame(FrameView, nat),
    /// The buffer ends before the frame at its front does.
    NeedMoreData,
    /// The header at the front is malformed or declares too long a payload.
    ProtocolError,
}

/// The outcome of decoding the front of a byte buffer.
#[derive(Clone, Debug, PartialEq, Eq)]
pub enum Decoded {
    /// A whole frame stands at the front; the number is how many bytes it takes.
    Frame(Frame, usize),
    /// The buffer ends before the frame at its front does.
    NeedMoreData,
    /// The header at the front is malformed or declares too long a payload.
    ProtocolError,
}

impl View for Decoded {
    type V = DecodedView;

    open spec fn view(&self) -> DecodedView {
        match self {
            Decoded::Frame(f, n) => DecodedView::Frame(f@, *n as nat),
            Decoded::NeedMoreData => DecodedView::NeedMoreData,
            Decoded::ProtocolError => DecodedView::ProtocolError,
        }
    }
}

/// What decoding the front of `buf` gives when data frames may carry at most
/// `max_frame_size` bytes.
///
/// Fewer than ten bytes cannot hold a header. A header with an unknown type,
/// an unknown flag bit or flags that do not fit the type is malformed, and so
/// is a data frame that declares more than `max_frame_size` bytes. A data
/// frame is whole once all of its payload is there; any other frame is its
/// header alone.
pub open spec fn spec_decode(buf: Seq<u8>, max_frame_size: u32) -> DecodedView {
    if buf.len() < HEADER_LEN {
        DecodedView::NeedMoreData
    } else {
        let stream_id = spec_from_be32(buf[0], buf[1], buf[2], buf[3]);
        let length = spec_from_be32(buf[6], buf[7], buf[8], buf[9]);
        match (FrameType::spec_from_code(buf[4]), Flags::spec_from_bits(buf[5])) {
            (Some(ty), Some(flags)) => {
                if !flags.spec_valid_for(ty) {
                    DecodedView::ProtocolError
                } else if ty != FrameType::Data {
                    DecodedView::Frame(
                        FrameView { stream_id, ty, flags, length, payload: Seq::empty() },
                        HEADER_LEN as nat,
                    )
                } else if length > max_frame_size {
                    DecodedView::ProtocolError
                } else if buf.len() < HEADER_LEN + length {
                    DecodedView::NeedMoreData
                } else {
                    DecodedView::Frame(
                        FrameView {
                            stream_id,
                            ty,
                            flags,
                            length,
                            payload: buf.subrange(HEADER_LEN as int, HEADER_LEN + length),
                        },
                        (HEADER_LEN + length) as nat,
                    )
                }
            },
            _ => DecodedView::ProtocolError,
        }
    }
}

impl Frame {
    /// Whether the frame is well formed (see [`FrameView::wf`]).
    pub fn is_well_formed(&self) -> (ok: bool)
        ensures
            ok == self@.wf(),
    {
        if !self.flags.valid_for(self.ty) {
            return false;
        }
        match self.ty {
            FrameType::Data => self.length as usize == self.payload.len(),
            _ => self.payload.len() == 0,
        }
    }

    /// A data frame for `stream_id` that carries `payload`.
    ///
    /// `None` where the flags hold SYN together with ACK, or the payload is
    /// too long for the length field.
    pub fn new_data(stream_id: u32, flags: Flags, payload: Vec<u8>) -> (f: Option<Frame>)
        ensures
            f is Some <==> flags.spec_valid_for(FrameType::Data) && payload@.len() <= u32::MAX,
            f matches Some(fr) ==> fr@ == (FrameView {
                stream_id,
                ty: FrameType::Data,
                flags,
                length: payload@.len() as u32,
                payload: payload@,
            }) && fr@.wf(),
    {
        if !flags.valid_for(FrameType::Data) || payload.len() > u32::MAX as usize {
            return None;
        }
        let length: u32 = payload.len() as u32;
        Some(Frame { stream_id, ty: FrameType::Data, flags, length, payload })
    }

    /// A window update for `stream_id` that grants `credit` bytes.
    ///
    /// `None` where the flags hold SYN together with ACK.
    pub fn new_window_update(stream_id: u32, flags: Flags, credit: u32) -> (f: Option<Frame>)
        ensures
            f is Some <==> flags.spec_valid_for(FrameType::WindowUpdate),
            f matches Some(fr) ==> fr@ == (FrameView {
                stream_id,
                ty: FrameType::WindowUpdate,
                flags,
                length: credit,
                payload: Seq::empty(),
            }) && fr@.wf(),
    {
        if !flags.valid_for(FrameType::WindowUpdate) {
            return None;
        }
        Some(
            Frame {
                stream_id,
                ty: FrameType::WindowUpdate,
                flags,
                length: credit,
                payload: Vec::new(),
            },
        )
    }

    /// A ping with the given nonce: a request, or the reply to one.
    pub fn new_ping(reply: bool, nonce: u32) -> (f: Frame)
        ensures
            f@ == (FrameView {
                stream_id: 0,
                ty: FrameType::Ping,
                flags: Flags { syn: !reply, ack: reply, fin: false, rst: false },
                length: nonce,
                payload: Seq::empty(),
            }),
            f@.wf(),
    {
        Frame {
            stream_id: 0,
            ty: FrameType::Ping,
            flags: Flags { syn: !reply, ack: reply, fin: false, rst: false },
            length: nonce,
            payload: Vec::new(),
        }
    }

    /// A go-away with the given reason code.
    pub fn new_go_away(reason: u32) -> (f: Frame)
        ensures
            f@ == (FrameView {
                stream_id: 0,
                ty: FrameType::GoAway,
                flags: Flags { syn: false, ack: false, fin: false, rst: false },
                length: reason,
                payload: Seq::empty(),
            }),
            f@.wf(),
    {
        Frame {
            stream_id: 0,
            ty: FrameType::GoAway,
            flags: Flags::none(),
            length: reason,
            payload: Vec::new(),
        }
    }

    /// Appends the wire form of the frame to `out`.
    pub fn encode_into(&self, out: &mut Vec<u8>)
        requires
            self@.wf(),
        ensures
            final(out)@ == old(out)@ + self@.encoding(),
    {
        put_be32(out, self.stream_id);
        out.push(self.ty.code());
        out.push(self.flags.bits());
        put_be32(out, self.length);
        out.extend_from_slice(self.payload.as_slice());
        assert(out@ =~= old(out)@ + self@.encoding());
    }

    /// The wire form of the frame.
    pub fn encode(&self) -> (out: Vec<u8>)
        requires
            self@.wf(),
        ensures
            out@ == self@.encoding(),
    {
        let mut out: Vec<u8> = Vec::new();
        self.encode_into(&mut out);
        assert(out@ =~= self@.encoding());
        out
    }
}

/// Decodes the frame at the front of `buf`, where data frames may carry at
/// most `max_frame_size` bytes.
pub fn decode(buf: &[u8], max_frame_size: u32) -> (r: Decoded)
    ensures
        r@ == spec_decode(buf@, max_frame_size),
{
    if buf.len() < HEADER_LEN {
        return Decoded::NeedMoreData;
    }
    let stream_id: u32 = get_be32(buf, 0);
    let length: u32 = get_be32(buf, 6);
    let ty = match FrameType::from_code(buf[4]) {
        Some(t) => t,
        None => {
            return Decoded::ProtocolError;
        },
    };
    let flags = match Flags::from_bits(buf[5]) {
        Some(f) => f,
        None => {
            return Decoded::ProtocolError;
        },
    };
    if !flags.valid_for(ty) {
        return Decoded::ProtocolError;
    }
    match ty {
        FrameType::Data => {
            if length > max_frame_size {
                return Decoded::ProtocolError;
            }
            let body: usize = length as usize;
            if buf.len() - HEADER_LEN < body {
                return Decoded::NeedMoreData;
            }
            let payload = slice_to_vec(slice_subrange(buf, HEADER_LEN, HEADER_LEN + body));
            Decoded::Frame(Frame { stream_id, ty, flags, length, payload }, HEADER_LEN + body)
        },
        _ => Decoded::Frame(
            Frame { stream_id, ty, flags, length, payload: Vec::new() },
            HEADER_LEN,
        ),
    }
}

/// Decoding the wire form of a well-formed frame gives that frame back and
/// takes exactly its bytes, whatever follows them in the buffer, as long as a
/// data frame's payload is within the limit.
pub proof fn lemma_decode_encode(f: FrameView, rest: Seq<u8>, max_frame_size: u32)
    requires
        f.wf(),
        f.ty == FrameType::Data ==> f.length <= max_frame_size,
    ensures
        spec_decode(f.encoding() + rest, max_frame_size) == DecodedView::Frame(
            f,
            f.encoding().len(),
        ),
{
    let buf = f.encoding() + rest;
    lemma_be32_roundtrip(f.stream_id);
    lemma_be32_roundtrip(f.length);
    lemma_flags_bits_roundtrip(f.flags);
    lemma_type_code_roundtrip(f.ty);
    assert(f.header().len() == HEADER_LEN);
    assert(buf[0] == spec_be32(f.stream_id)[0]);
    assert(buf[1] == spec_be32(f.stream_id)[1]);
    assert(buf[2] == spec_be32(f.stream_id)[2]);
    assert(buf[3] == spec_be32(f.stream_id)[3]);
    assert(buf[4] == f.ty.spec_code());
    assert(buf[5] == f.flags.spec_bits());
    assert(buf[6] == spec_be32(f.length)[0]);
    assert(buf[7] == spec_be32(f.length)[1]);
    assert(buf[8] == spec_be32(f.length)[2]);
    assert(buf[9] == spec_be32(f.length)[3]);
    if f.ty == FrameType::Data {
        assert(buf.subrange(HEADER_LEN as int, HEADER_LEN + f.length) =~= f.payload);
    } else {
        assert(f.payload =~= Seq::empty());
    }
}

/// Whatever decodes to a frame is the wire form of that frame: the frame is
/// well formed, within the payload limit, and the bytes taken are exactly its
/// encoding.
pub proof fn lemma_decode_is_inverse(buf: Seq<u8>, max_frame_size: u32)
    requires
        spec_decode(buf, max_frame_size) is Frame,
    ensures
        ({
            let f = spec_decode(buf, max_frame_size)->Frame_0;
            let n = spec_decode(buf, max_frame_size)->Frame_1;
            &&& f.wf()
            &&& f.ty == FrameType::Data ==> f.length <= max_frame_size
            &&& n <= buf.len()
            &&& buf.subrange(0, n as int) == f.encoding()
        }),
{
    let f = spec_decode(buf, max_frame_size)->Frame_0;
    let n = spec_decode(buf, max_frame_size)->Frame_1;
    lemma_be32_bytes_roundtrip(buf[0], buf[1], buf[2], buf[3]);
    lemma_be32_bytes_roundtrip(buf[6], buf[7], buf[8], buf[9]);
    assert(f.ty.spec_code() == buf[4]);
    assert(f.flags.spec_bits() == buf[5]);
    assert(buf.subrange(0, n as int) =~= f.encoding());
}

} // verus!
