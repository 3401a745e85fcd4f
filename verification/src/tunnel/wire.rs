//! The wire format of a message: one frame, bit for bit.
//!
//! A frame is a leading marker, the kind, the two identifiers, the size, the
//! payload and a trailing marker; integers are big-endian. [`frame_of`] says
//! what is written and [`parse_frame`] what is accepted; [`encode`] and
//! [`decode`] compute them.

use vstd::prelude::*;
use vstd::slice::{slice_subrange, slice_to_vec};

use crate::tunnel::message::{Msg, MsgKind, MsgView};

verus! {

/// The value of the leading marker.
pub const MSG_MAGIC_BEGIN: u16 = 0x414e;

/// The value of the trailing marker.
pub const MSG_MAGIC_END: u16 = 0x5444;

/// The largest kind code that is accepted when a frame is read.
pub const MAX_WIRE_KIND: u8 = 0x7;

/// The bytes of a frame in front of its payload.
pub const HEADER_LEN: usize = 11;

/// Why bytes are not a frame.
#[derive(Clone, Copy, Debug, PartialEq, Eq, Structural)]
pub enum FrameError {
    /// The bytes end before the field does.
    Truncated,
    /// A marker does not hold its value.
    BadMarker { expected: u16, found: u16 },
    /// The kind byte is none that may arrive.
    InvalidKind { code: u8 },
}

/// The two bytes of a 16-bit number, most significant first.
pub open spec fn be16(x: u16) -> Seq<u8> {
    seq![(x / 0x100) as u8, (x % 0x100) as u8]
}

/// The four bytes of a 32-bit number, most significant first.
pub open spec fn be32(x: u32) -> Seq<u8> {
    seq![
        (x / 0x100_0000) as u8,
        (x / 0x1_0000 % 0x100) as u8,
        (x / 0x100 % 0x100) as u8,
        (x % 0x100) as u8,
    ]
}

/// The 16-bit number whose big-endian bytes stand at `at` and `at + 1`.
pub open spec fn u16_at(b: Seq<u8>, at: int) -> u16 {
    (b[at] * 0x100 + b[at + 1]) as u16
}

/// The 32-bit number whose big-endian bytes stand at `at` to `at + 3`.
pub open spec fn u32_at(b: Seq<u8>, at: int) -> u32 {
    (b[at] * 0x100_0000 + b[at + 1] * 0x1_0000 + b[at + 2] * 0x100 + b[at + 3]) as u32
}

/// The bytes of a frame in front of its payload: the leading marker, the
/// kind, the two identifiers and the size.
pub open spec fn header_of(m: MsgView) -> Seq<u8> {
    be16(MSG_MAGIC_BEGIN) + seq![m.kind.code()] + be16(m.channel_id) + be16(m.client_id) + be32(
        m.size,
    )
}

/// The payload as it is written: nothing at all where the declared size is
/// zero.
pub open spec fn payload_of(m: MsgView) -> Seq<u8> {
    if m.size != 0 {
        m.data
    } else {
        Seq::<u8>::empty()
    }
}

/// The frame that carries a message. The size field is written as the
/// message declares it.
pub open spec fn frame_of(m: MsgView) -> Seq<u8> {
    header_of(m) + payload_of(m) + be16(MSG_MAGIC_END)
}

/// The message at the front of `b` and the number of bytes it takes, or the
/// first reason, in reading order, why there is none.
pub open spec fn parse_frame(b: Seq<u8>) -> Result<(MsgView, nat), FrameError> {
    if b.len() < 2 {
        Err(FrameError::Truncated)
    } else if u16_at(b, 0) != MSG_MAGIC_BEGIN {
        Err(FrameError::BadMarker { expected: MSG_MAGIC_BEGIN, found: u16_at(b, 0) })
    } else if b.len() < 3 {
        Err(FrameError::Truncated)
    } else if b[2] > MAX_WIRE_KIND {
        Err(FrameError::InvalidKind { code: b[2] })
    } else if b.len() < HEADER_LEN {
        Err(FrameError::Truncated)
    } else {
        let size = u32_at(b, 7);
        let end = HEADER_LEN + size;
        if b.len() < end + 2 {
            Err(FrameError::Truncated)
        } else if u16_at(b, end) != MSG_MAGIC_END {
            Err(FrameError::BadMarker { expected: MSG_MAGIC_END, found: u16_at(b, end) })
        } else {
            Ok(
                (
                    MsgView {
                        kind: MsgKind::of_code(b[2]),
                        channel_id: u16_at(b, 3),
                        client_id: u16_at(b, 5),
                        size,
                        data: b.subrange(HEADER_LEN as int, end),
                    },
                    (end + 2) as nat,
                ),
            )
        }
    }
}

/// What reading a 16-bit number from the front of `b` gives. A `number`
/// other than zero is the value that must be found there.
pub open spec fn checked_u16(b: Seq<u8>, number: u16) -> Result<u16, FrameError> {
    if b.len() < 2 {
        Err(FrameError::Truncated)
    } else if number != 0 && u16_at(b, 0) != number {
        Err(FrameError::BadMarker { expected: number, found: u16_at(b, 0) })
    } else {
        Ok(u16_at(b, 0))
    }
}

/// What reading a 32-bit number from the front of `b` gives.
pub open spec fn checked_u32(b: Seq<u8>) -> Result<u32, FrameError> {
    if b.len() < 4 {
        Err(FrameError::Truncated)
    } else {
        Ok(u32_at(b, 0))
    }
}

/// What reading a kind from the front of `b` gives.
pub open spec fn checked_kind(b: Seq<u8>) -> Result<MsgKind, FrameError> {
    if b.len() < 1 {
        Err(FrameError::Truncated)
    } else if b[0] > MAX_WIRE_KIND {
        Err(FrameError::InvalidKind { code: b[0] })
    } else {
        Ok(MsgKind::of_code(b[0]))
    }
}

/// Reads a big-endian 16-bit number from the front of `buf` and, where
/// `number` is not zero, checks that it is `number`.
pub fn read_u16_number(buf: &[u8], number: u16) -> (r: Result<u16, FrameError>)
    ensures
        r == checked_u16(buf@, number),
{
    if buf.len() < 2 {
        return Err(FrameError::Truncated);
    }
    let retnum: u16 = buf[0] as u16 * 0x100 + buf[1] as u16;
    if number != 0 && retnum != number {
        return Err(FrameError::BadMarker { expected: number, found: retnum });
    }
    Ok(retnum)
}

/// Reads a big-endian 32-bit number from the front of `buf`.
pub fn read_u32_number(buf: &[u8]) -> (r: Result<u32, FrameError>)
    ensures
        r == checked_u32(buf@),
{
    if buf.len() < 4 {
        return Err(FrameError::Truncated);
    }
    let value: u32 = buf[0] as u32 * 0x100_0000 + buf[1] as u32 * 0x1_0000 + buf[2] as u32 * 0x100
        + buf[3] as u32;
    Ok(value)
}

/// Reads the kind from the front of `buf`. Only the codes up to
/// [`MAX_WIRE_KIND`] are accepted.
pub fn read_kind(buf: &[u8]) -> (r: Result<MsgKind, FrameError>)
    ensures
        r == checked_kind(buf@),
{
    if buf.len() < 1 {
        return Err(FrameError::Truncated);
    }
    if buf[0] > MAX_WIRE_KIND {
        return Err(FrameError::InvalidKind { code: buf[0] });
    }
    Ok(MsgKind::from_u8(buf[0]))
}

fn put_u16(out: &mut Vec<u8>, x: u16)
    ensures
        final(out)@ == old(out)@ + be16(x),
{
    out.push((x / 0x100) as u8);
    out.push((x % 0x100) as u8);
    assert(out@ =~= old(out)@ + be16(x));
}

fn put_u32(out: &mut Vec<u8>, x: u32)
    ensures
        final(out)@ == old(out)@ + be32(x),
{
    out.push((x / 0x100_0000) as u8);
    out.push((x / 0x1_0000 % 0x100) as u8);
    out.push((x / 0x100 % 0x100) as u8);
    out.push((x % 0x100) as u8);
    assert(out@ =~= old(out)@ + be32(x));
}

/// Writes a message as one frame.
pub fn encode(msg: &Msg) -> (bytes: Vec<u8>)
    ensures
        bytes@ == frame_of(msg@),
{
    let mut out: Vec<u8> = Vec::new();
    put_u16(&mut out, MSG_MAGIC_BEGIN);
    out.push(MsgKind::to_u8(&msg.kind));
    put_u16(&mut out, msg.channel_id);
    put_u16(&mut out, msg.client_id);
    put_u32(&mut out, msg.size);
    if msg.size != 0 {
        out.extend_from_slice(msg.data.as_slice());
    }
    put_u16(&mut out, MSG_MAGIC_END);
    assert(out@ =~= frame_of(msg@));
    out
}

/// Reads one frame from the front of `bytes`.
///
/// Returns the message and the number of bytes that the frame takes; what
/// follows them is not looked at. The fields are checked in the order in
/// which they stand, and the first failure is the error.
pub fn decode(bytes: &[u8]) -> (r: Result<(Msg, usize), FrameError>)
    ensures
        match r {
            Ok((msg, used)) => parse_frame(bytes@) == Ok::<(MsgView, nat), FrameError>(
                (msg@, used as nat),
            ),
            Err(e) => parse_frame(bytes@) == Err::<(MsgView, nat), FrameError>(e),
        },
{
    let len: usize = bytes.len();
    if let Err(e) = read_u16_number(bytes, MSG_MAGIC_BEGIN) {
        return Err(e);
    }
    if len < 3 {
        return Err(FrameError::Truncated);
    }
    let kind = match read_kind(slice_subrange(bytes, 2, 3)) {
        Ok(kind) => kind,
        Err(e) => {
            return Err(e);
        },
    };
    if len < HEADER_LEN {
        return Err(FrameError::Truncated);
    }
    let channel_id: u16 = match read_u16_number(slice_subrange(bytes, 3, 5), 0) {
        Ok(id) => id,
        Err(e) => {
            return Err(e);
        },
    };
    let client_id: u16 = match read_u16_number(slice_subrange(bytes, 5, 7), 0) {
        Ok(id) => id,
        Err(e) => {
            return Err(e);
        },
    };
    let size: u32 = match read_u32_number(slice_subrange(bytes, 7, HEADER_LEN)) {
        Ok(size) => size,
        Err(e) => {
            return Err(e);
        },
    };
    let rest: usize = len - HEADER_LEN;
    let wanted: usize = size as usize;
    if rest < wanted || rest - wanted < 2 {
        return Err(FrameError::Truncated);
    }
    let end: usize = HEADER_LEN + wanted;
    if let Err(e) = read_u16_number(slice_subrange(bytes, end, end + 2), MSG_MAGIC_END) {
        return Err(e);
    }
    let data = slice_to_vec(slice_subrange(bytes, HEADER_LEN, end));
    Ok((Msg { kind, channel_id, client_id, size, data }, end + 2))
}

/// A 16-bit number is read back from its two bytes.
proof fn lemma_u16_at(b: Seq<u8>, at: int, x: u16)
    requires
        0 <= at,
        at + 2 <= b.len(),
        b[at] == be16(x)[0],
        b[at + 1] == be16(x)[1],
    ensures
        u16_at(b, at) == x,
{
    let hi = x / 0x100;
    let lo = x % 0x100;
    assert(hi < 0x100 && lo < 0x100 && hi * 0x100 + lo == x);
    assert(be16(x)[0] == hi as u8);
    assert(be16(x)[1] == lo as u8);
}

/// A 32-bit number is read back from its four bytes.
proof fn lemma_u32_at(b: Seq<u8>, at: int, x: u32)
    requires
        0 <= at,
        at + 4 <= b.len(),
        b[at] == be32(x)[0],
        b[at + 1] == be32(x)[1],
        b[at + 2] == be32(x)[2],
        b[at + 3] == be32(x)[3],
    ensures
        u32_at(b, at) == x,
{
    let b0 = x / 0x100_0000;
    let b1 = x / 0x1_0000 % 0x100;
    let b2 = x / 0x100 % 0x100;
    let b3 = x % 0x100;
    assert(b0 < 0x100 && b1 < 0x100 && b2 < 0x100 && b3 < 0x100);
    assert(b0 * 0x100_0000 + b1 * 0x1_0000 + b2 * 0x100 + b3 == x);
    assert(be32(x)[0] == b0 as u8);
    assert(be32(x)[1] == b1 as u8);
    assert(be32(x)[2] == b2 as u8);
    assert(be32(x)[3] == b3 as u8);
}

/// Two bytes that differ from those of `x` in one place do not read as `x`.
proof fn lemma_u16_at_differs(b: Seq<u8>, at: int, x: u16)
    requires
        0 <= at,
        at + 2 <= b.len(),
        b[at] != be16(x)[0] || b[at + 1] != be16(x)[1],
    ensures
        u16_at(b, at) != x,
{
    let hi = x / 0x100;
    let lo = x % 0x100;
    assert(hi < 0x100 && lo < 0x100 && hi * 0x100 + lo == x);
    assert(be16(x)[0] == hi as u8);
    assert(be16(x)[1] == lo as u8);
}

/// Where each field stands in a frame.
proof fn lemma_frame_layout(m: MsgView)
    ensures
        ({
            let f = frame_of(m);
            let n = payload_of(m).len();
            &&& f.len() == HEADER_LEN + n + 2
            &&& f[0] == be16(MSG_MAGIC_BEGIN)[0]
            &&& f[1] == be16(MSG_MAGIC_BEGIN)[1]
            &&& f[2] == m.kind.code()
            &&& f[3] == be16(m.channel_id)[0]
            &&& f[4] == be16(m.channel_id)[1]
            &&& f[5] == be16(m.client_id)[0]
            &&& f[6] == be16(m.client_id)[1]
            &&& f[7] == be32(m.size)[0]
            &&& f[8] == be32(m.size)[1]
            &&& f[9] == be32(m.size)[2]
            &&& f[10] == be32(m.size)[3]
            &&& f.subrange(HEADER_LEN as int, HEADER_LEN + n) == payload_of(m)
            &&& f[HEADER_LEN + n] == be16(MSG_MAGIC_END)[0]
            &&& f[HEADER_LEN + n + 1] == be16(MSG_MAGIC_END)[1]
        }),
{
    let h = header_of(m);
    let f = frame_of(m);
    let n = payload_of(m).len();
    assert(h.len() == HEADER_LEN);
    assert(h =~= seq![
        be16(MSG_MAGIC_BEGIN)[0],
        be16(MSG_MAGIC_BEGIN)[1],
        m.kind.code(),
        be16(m.channel_id)[0],
        be16(m.channel_id)[1],
        be16(m.client_id)[0],
        be16(m.client_id)[1],
        be32(m.size)[0],
        be32(m.size)[1],
        be32(m.size)[2],
        be32(m.size)[3],
    ]);
    assert(forall|i: int| 0 <= i < HEADER_LEN ==> f[i] == h[i]);
    assert(f.subrange(HEADER_LEN as int, HEADER_LEN + n) =~= payload_of(m));
}

/// Where each field of a frame stands when anything follows the frame.
proof fn lemma_parse_fields(m: MsgView, b: Seq<u8>)
    requires
        m.wf(),
        b.len() >= frame_of(m).len(),
        forall|i: int| 0 <= i < frame_of(m).len() - 2 ==> b[i] == frame_of(m)[i],
    ensures
        frame_of(m).len() == HEADER_LEN + m.size + 2,
        u16_at(b, 0) == MSG_MAGIC_BEGIN,
        b[2] == m.kind.code(),
        u16_at(b, 3) == m.channel_id,
        u16_at(b, 5) == m.client_id,
        u32_at(b, 7) == m.size,
        b.subrange(HEADER_LEN as int, HEADER_LEN + m.size) == m.data,
{
    let f = frame_of(m);
    lemma_frame_layout(m);
    lemma_u16_at(b, 0, MSG_MAGIC_BEGIN);
    lemma_u16_at(b, 3, m.channel_id);
    lemma_u16_at(b, 5, m.client_id);
    lemma_u32_at(b, 7, m.size);
    assert(payload_of(m) =~= m.data);
    assert(b.subrange(HEADER_LEN as int, HEADER_LEN + m.size) =~= f.subrange(
        HEADER_LEN as int,
        HEADER_LEN + m.size,
    ));
}

/// The length of a frame: the header, the payload where the size is not
/// zero, and the trailing marker.
pub proof fn lemma_frame_len(m: MsgView)
    ensures
        frame_of(m).len() == HEADER_LEN + payload_of(m).len() + 2,
        m.wf() ==> frame_of(m).len() == HEADER_LEN + m.size + 2,
{
}

/// Reading undoes writing: a well-formed message whose kind may arrive is
/// read back from its own frame, field for field, and the frame is exactly
/// what is consumed. Bytes that follow the frame do not matter. A message
/// with no payload comes back with an empty one.
pub proof fn lemma_decode_encode(m: MsgView, rest: Seq<u8>)
    requires
        m.wf(),
        m.kind.code() <= MAX_WIRE_KIND,
    ensures
        parse_frame(frame_of(m) + rest) == Ok::<(MsgView, nat), FrameError>(
            (m, frame_of(m).len()),
        ),
{
    let f = frame_of(m);
    let b = f + rest;
    let end = HEADER_LEN + m.size;
    lemma_frame_layout(m);
    assert(forall|i: int| 0 <= i < f.len() ==> b[i] == f[i]);
    lemma_parse_fields(m, b);
    lemma_u16_at(b, end, MSG_MAGIC_END);
    assert(MsgKind::of_code(m.kind.code()) == m.kind);
}

/// A frame with a damaged marker is refused: change any one of the two
/// leading or the two trailing bytes of a valid frame, and no message is read
/// from it, whatever bytes follow. The error names the marker that was
/// expected; nothing behind the damage is taken for a frame.
pub proof fn lemma_corrupt_marker_rejected(m: MsgView, rest: Seq<u8>, i: int, byte: u8)
    requires
        m.wf(),
        m.kind.code() <= MAX_WIRE_KIND,
        i == 0 || i == 1 || i == frame_of(m).len() - 2 || i == frame_of(m).len() - 1,
        byte != frame_of(m)[i],
    ensures
        parse_frame(frame_of(m).update(i, byte) + rest) matches Err(
            FrameError::BadMarker { expected, found },
        ) && expected == (if i < 2 {
            MSG_MAGIC_BEGIN
        } else {
            MSG_MAGIC_END
        }) && found != expected,
{
    let f = frame_of(m);
    let g = f.update(i, byte);
    let b = g + rest;
    let end = HEADER_LEN + m.size;
    lemma_frame_layout(m);
    assert(forall|j: int| 0 <= j < f.len() ==> b[j] == g[j]);
    assert(b[i] == byte);
    if i < 2 {
        lemma_u16_at_differs(b, 0, MSG_MAGIC_BEGIN);
    } else {
        lemma_parse_fields(m, b);
        lemma_u16_at_differs(b, end, MSG_MAGIC_END);
    }
}

/// A kind byte above [`MAX_WIRE_KIND`] is refused as soon as it is read: the
/// bytes behind a good leading marker are no frame, whatever else they hold.
/// This holds of `0xA` too, the code of `ChannelUnsubscribeAll`.
pub proof fn lemma_kind_out_of_range_rejected(b: Seq<u8>)
    requires
        b.len() >= 3,
        u16_at(b, 0) == MSG_MAGIC_BEGIN,
        b[2] > MAX_WIRE_KIND,
    ensures
        parse_frame(b) == Err::<(MsgView, nat), FrameError>(FrameError::InvalidKind { code: b[2] }),
{
}

/// The two kinds that exist only in memory can be written but not read: the
/// frame of such a message is refused for its kind.
pub proof fn lemma_local_kind_not_read_back(m: MsgView, rest: Seq<u8>)
    requires
        m.kind == MsgKind::ChannelUnsubscribeAll || m.kind == MsgKind::Unknown,
    ensures
        parse_frame(frame_of(m) + rest) == Err::<(MsgView, nat), FrameError>(
            FrameError::InvalidKind { code: m.kind.code() },
        ),
{
    let f = frame_of(m);
    let b = f + rest;
    lemma_frame_layout(m);
    assert(forall|i: int| 0 <= i < f.len() ==> b[i] == f[i]);
    lemma_u16_at(b, 0, MSG_MAGIC_BEGIN);
}

} // verus!
