//! Reading one frame from a stream, field by field.
//!
//! A [`FrameReader`] keeps the bytes that were read so far. It says how many
//! bytes the next read must bring, which is never more than one field, and it
//! judges what it holds after each read: a marker or a kind that is wrong is
//! reported as soon as its bytes are there, before anything behind it is
//! asked for.

use vstd::prelude::*;
use vstd::slice::slice_subrange;

use crate::tunnel::message::{Msg, MsgView};
use crate::tunnel::wire::{
    decode, frame_of, lemma_decode_encode, lemma_frame_len, parse_frame, read_u32_number, u16_at,
    u32_at, FrameError, HEADER_LEN, MAX_WIRE_KIND,
};

verus! {

/// The number of bytes that complete the field in which `b` ends, where `b`
/// is the beginning of something that can still become a frame; 0 where `b`
/// holds a frame or can never become one.
pub open spec fn missing(b: Seq<u8>) -> nat {
    let len = b.len();
    if parse_frame(b) != Err::<(MsgView, nat), FrameError>(FrameError::Truncated) {
        0
    } else if len < 2 {
        (2 - len) as nat
    } else if len < 3 {
        1
    } else if len < 5 {
        (5 - len) as nat
    } else if len < 7 {
        (7 - len) as nat
    } else if len < HEADER_LEN {
        (HEADER_LEN - len) as nat
    } else if len < HEADER_LEN + u32_at(b, 7) {
        (HEADER_LEN + u32_at(b, 7) - len) as nat
    } else {
        (HEADER_LEN + u32_at(b, 7) + 2 - len) as nat
    }
}

/// The bytes of one frame as far as they have been read.
pub struct FrameReader {
    buf: Vec<u8>,
}

impl View for FrameReader {
    type V = Seq<u8>;

    closed spec fn view(&self) -> Seq<u8> {
        self.buf@
    }
}

impl FrameReader {
    /// A reader that has read nothing.
    pub fn new() -> (reader: Self)
        ensures
            reader@ == Seq::<u8>::empty(),
    {
        FrameReader { buf: Vec::new() }
    }

    /// The number of bytes that the next read must bring.
    pub fn needed(&self) -> (n: usize)
        ensures
            n == missing(self@),
    {
        let len: usize = self.buf.len();
        match decode(self.buf.as_slice()) {
            Err(FrameError::Truncated) => {
                if len < 2 {
                    2 - len
                } else if len < 3 {
                    1
                } else if len < 5 {
                    5 - len
                } else if len < 7 {
                    7 - len
                } else if len < HEADER_LEN {
                    HEADER_LEN - len
                } else {
                    let size: usize = match read_u32_number(
                        slice_subrange(self.buf.as_slice(), 7, HEADER_LEN),
                    ) {
                        Ok(size) => size as usize,
                        Err(_) => 0,
                    };
                    let past: usize = len - HEADER_LEN;
                    if past < size {
                        size - past
                    } else {
                        2 - (past - size)
                    }
                }
            },
            _ => 0,
        }
    }

    /// Takes the bytes of one read and judges what has been read so far.
    ///
    /// `Ok(Some(..))` is the message, once the whole frame is there;
    /// `Ok(None)` asks for more; an error is final.
    pub fn feed(&mut self, chunk: &[u8]) -> (r: Result<Option<Msg>, FrameError>)
        ensures
            final(self)@ == old(self)@ + chunk@,
            match parse_frame(final(self)@) {
                Ok((m, _)) => r matches Ok(Some(msg)) && msg@ == m,
                Err(FrameError::Truncated) => r == Ok::<Option<Msg>, FrameError>(None),
                Err(e) => r == Err::<Option<Msg>, FrameError>(e),
            },
    {
        self.buf.extend_from_slice(chunk);
        assert(self.buf@ =~= old(self).buf@ + chunk@);
        match decode(self.buf.as_slice()) {
            Ok((msg, _)) => Ok(Some(msg)),
            Err(FrameError::Truncated) => Ok(None),
            Err(e) => Err(e),
        }
    }
}

/// While a frame is incomplete, a read is asked for, and it ends with the
/// field: it never reaches into the next one.
pub proof fn lemma_missing_positive(b: Seq<u8>)
    requires
        parse_frame(b) == Err::<(MsgView, nat), FrameError>(FrameError::Truncated),
    ensures
        missing(b) > 0,
        b.len() < HEADER_LEN ==> missing(b) <= 4,
{
}

/// What was judged once stays judged: when the bytes read so far hold a
/// frame, or are refused for a marker or a kind, no bytes that follow change
/// the message or the error. After an error, in particular, nothing further
/// down the stream is taken for the start of a frame.
pub proof fn lemma_judgement_is_final(b: Seq<u8>, more: Seq<u8>)
    requires
        parse_frame(b) != Err::<(MsgView, nat), FrameError>(FrameError::Truncated),
    ensures
        parse_frame(b + more) == parse_frame(b),
        missing(b + more) == 0,
{
    let c = b + more;
    assert(forall|i: int| 0 <= i < b.len() ==> c[i] == b[i]);
    if b.len() >= HEADER_LEN {
        let end = HEADER_LEN + u32_at(b, 7);
        if b.len() >= end + 2 {
            assert(c.subrange(HEADER_LEN as int, end) =~= b.subrange(HEADER_LEN as int, end));
        }
    }
}

/// A proper beginning of a frame is incomplete, never wrong.
proof fn lemma_prefix_truncated(f: Seq<u8>, k: int)
    requires
        parse_frame(f) matches Ok((_, used)) && used == f.len(),
        0 <= k < f.len(),
    ensures
        parse_frame(f.take(k)) == Err::<(MsgView, nat), FrameError>(FrameError::Truncated),
{
    let p = f.take(k);
    assert(forall|i: int| 0 <= i < k ==> p[i] == f[i]);
    if k >= 2 {
        assert(u16_at(p, 0) == u16_at(f, 0));
    }
    if k >= HEADER_LEN {
        assert(u32_at(p, 7) == u32_at(f, 7));
    }
}

/// The reads that a frame is taken in: the marker, the kind, the two
/// identifiers, the size, the payload if there is one, and the marker, each
/// asked for only when all before it has been read.
pub proof fn lemma_read_schedule(m: MsgView)
    requires
        m.wf(),
        m.kind.code() <= MAX_WIRE_KIND,
    ensures
        ({
            let f = frame_of(m);
            let body = HEADER_LEN + m.size;
            &&& f.len() == body + 2
            &&& missing(f.take(0)) == 2
            &&& missing(f.take(2)) == 1
            &&& missing(f.take(3)) == 2
            &&& missing(f.take(5)) == 2
            &&& missing(f.take(7)) == 4
            &&& m.size != 0 ==> missing(f.take(HEADER_LEN as int)) == m.size
            &&& missing(f.take(body)) == 2
            &&& missing(f) == 0
        }),
{
    let f = frame_of(m);
    let body = HEADER_LEN + m.size;
    lemma_frame_len(m);
    lemma_decode_encode(m, Seq::<u8>::empty());
    assert(f + Seq::<u8>::empty() =~= f);
    assert(f.take(f.len() as int) =~= f);
    lemma_prefix_truncated(f, 0);
    lemma_prefix_truncated(f, 2);
    lemma_prefix_truncated(f, 3);
    lemma_prefix_truncated(f, 5);
    lemma_prefix_truncated(f, 7);
    lemma_prefix_truncated(f, HEADER_LEN as int);
    lemma_prefix_truncated(f, body);
    assert(u32_at(f.take(HEADER_LEN as int), 7) == u32_at(f, 7));
    assert(u32_at(f.take(body), 7) == u32_at(f, 7));
}

} // verus!
