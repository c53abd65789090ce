//! Length-prefixed frames over a byte channel.
//!
//! A frame is a little-endian `u32` length, a kind byte and a payload; the
//! length counts the kind byte and the payload.

use vstd::prelude::*;
use crate::codec::{
    le_u32_bytes, le_u32_value, lemma_le_u32_decode_encode, u32_from_le_bytes, u32_to_le_bytes,
};

verus! {

/// The abstract state of a byte channel, for the contracts of `Read` and
/// `Write`. An implementation that is verified defines both functions; the
/// defaults name some value that nothing here knows.
pub trait ByteChannel {
    /// The bytes that reads on the channel will deliver before it ends or fails.
    closed spec fn spec_incoming(&self) -> Seq<u8> {
        arbitrary()
    }

    /// The bytes written to the channel.
    closed spec fn spec_outgoing(&self) -> Seq<u8> {
        arbitrary()
    }

    /// How many more bytes writes on the channel take before one fails;
    /// `None` where they never fail.
    closed spec fn spec_room(&self) -> Option<nat> {
        arbitrary()
    }
}

/// A channel with `room` left takes `n` more bytes before a write fails.
pub open spec fn has_room(room: Option<nat>, n: nat) -> bool {
    match room {
        None => true,
        Some(room) => n <= room,
    }
}

/// The room left after `n` bytes were taken out of `room`.
pub open spec fn room_after(room: Option<nat>, n: nat) -> Option<nat> {
    match room {
        None => None,
        Some(r) => Some((r - n) as nat),
    }
}

/// A source of bytes.
pub trait Read: ByteChannel {
    type Error;

    /// Fills `buf` with the next bytes of the channel. It fails exactly when
    /// the channel ends before `buf` is full; then it delivers nothing more.
    fn read_exact(&mut self, buf: &mut [u8]) -> (r: Result<(), Self::Error>)
        ensures
            final(buf)@.len() == old(buf)@.len(),
            final(self).spec_outgoing() == old(self).spec_outgoing(),
            final(self).spec_room() == old(self).spec_room(),
            (r is Ok) == (old(buf)@.len() <= old(self).spec_incoming().len()),
            r is Ok ==> {
                &&& final(buf)@ == old(self).spec_incoming().take(old(buf)@.len() as int)
                &&& final(self).spec_incoming() == old(self).spec_incoming().skip(
                    old(buf)@.len() as int,
                )
            },
            r is Err ==> final(self).spec_incoming() == Seq::<u8>::empty(),
    ;
}

/// A sink for bytes.
pub trait Write: ByteChannel {
    type Error;

    /// Writes all of `buf` to the channel. It fails exactly when the channel
    /// has no room for all of `buf`; then the channel has taken the bytes it
    /// had room for and takes no more.
    fn write_all(&mut self, buf: &[u8]) -> (r: Result<(), Self::Error>)
        ensures
            final(self).spec_incoming() == old(self).spec_incoming(),
            (r is Ok) == has_room(old(self).spec_room(), buf@.len()),
            r is Ok ==> {
                &&& final(self).spec_outgoing() == old(self).spec_outgoing() + buf@
                &&& final(self).spec_room() == room_after(old(self).spec_room(), buf@.len())
            },
            r is Err ==> {
                &&& final(self).spec_outgoing() == old(self).spec_outgoing() + buf@.take(
                    old(self).spec_room()->Some_0 as int,
                )
                &&& final(self).spec_room() == Some(0nat)
            },
    ;
}

/// The length word of a frame around `payload`: one more than the payload's
/// length, modulo 2^32.
pub open spec fn frame_len_word(payload: Seq<u8>) -> u32 {
    ((payload.len() + 1) % 0x1_0000_0000) as u32
}

/// The bytes of a frame of kind `kind` around `payload`.
pub open spec fn frame_bytes(kind: u8, payload: Seq<u8>) -> Seq<u8> {
    le_u32_bytes(frame_len_word(payload)) + seq![kind] + payload
}

/// The length a frame at the front of `incoming` declares.
pub open spec fn declared_len(incoming: Seq<u8>) -> int {
    le_u32_value(incoming.take(4))
}

/// The bytes left after the frame at the front of `incoming`.
pub open spec fn after_frame(incoming: Seq<u8>) -> Seq<u8> {
    incoming.skip(4 + declared_len(incoming))
}

/// Why a frame could not be read.
#[derive(Debug)]
pub enum ReadFrameError<E> {
    /// The channel failed or ended.
    Io(E),
    /// The declared length was zero or larger than the buffer; the frame was skipped.
    FrameTooLarge { declared: u32, max: usize },
}

/// Writes a frame of kind `kind` around `payload`.
pub fn write_frame<W: Write>(w: &mut W, kind: u8, payload: &[u8]) -> (r: Result<(), W::Error>)
    ensures
        final(w).spec_incoming() == old(w).spec_incoming(),
        (r is Ok) == has_room(old(w).spec_room(), frame_bytes(kind, payload@).len()),
        r is Ok ==> final(w).spec_outgoing() == old(w).spec_outgoing() + frame_bytes(
            kind,
            payload@,
        ),
        r is Ok ==> final(w).spec_room() == room_after(
            old(w).spec_room(),
            frame_bytes(kind, payload@).len(),
        ),
        r is Err ==> final(w).spec_outgoing() == old(w).spec_outgoing() + frame_bytes(
            kind,
            payload@,
        ).take(old(w).spec_room()->Some_0 as int),
        r is Err ==> final(w).spec_room() == Some(0nat),
{
    let len: u32 = (((payload.len() as u64) % 0x1_0000_0000 + 1) % 0x1_0000_0000) as u32;
    proof {
        let n = payload@.len() as int;
        assert(((n % 0x1_0000_0000) + 1) % 0x1_0000_0000 == (n + 1) % 0x1_0000_0000) by {
            vstd::arithmetic::div_mod::lemma_add_mod_noop(n, 1, 0x1_0000_0000);
        }
    }
    proof {
        lemma_le_u32_decode_encode(frame_len_word(payload@));
    }
    let ghost total = frame_bytes(kind, payload@).len();
    assert(total == 5 + payload@.len());
    let header = u32_to_le_bytes(len);
    w.write_all(&header)?;
    let kind_byte = [kind];
    w.write_all(&kind_byte)?;
    w.write_all(payload)?;
    assert(le_u32_bytes(len) + kind_byte@ + payload@ =~= frame_bytes(kind, payload@));
    Ok(())
}


/// Reads and discards `remaining` bytes, `buf.len()` bytes at a time. Stops
/// early where a read fails.
fn skip_bytes<R: Read>(r: &mut R, buf: &mut [u8], remaining: usize)
    requires
        old(buf)@.len() > 0 || remaining == 0,
    ensures
        final(buf)@.len() == old(buf)@.len(),
        final(r).spec_outgoing() == old(r).spec_outgoing(),
        final(r).spec_room() == old(r).spec_room(),
        remaining <= old(r).spec_incoming().len() ==> final(r).spec_incoming()
            == old(r).spec_incoming().skip(remaining as int),
        remaining > old(r).spec_incoming().len() ==> final(r).spec_incoming() == Seq::<u8>::empty(),
{
    let ghost start = r.spec_incoming();
    let ghost cap = buf@.len();
    let mut remaining = remaining;
    let ghost total = remaining as int;
    while remaining > 0
        invariant_except_break
            r.spec_incoming() == start.skip(total - remaining),
        invariant
            buf@.len() == cap,
            cap > 0 || total == 0,
            buf.len() == cap,
            r.spec_outgoing() == old(r).spec_outgoing(),
            r.spec_room() == old(r).spec_room(),
            start == old(r).spec_incoming(),
            0 <= remaining <= total,
            total - remaining <= start.len(),
        ensures
            buf@.len() == cap,
            r.spec_outgoing() == old(r).spec_outgoing(),
            r.spec_room() == old(r).spec_room(),
            total <= start.len() ==> r.spec_incoming() == start.skip(total),
            total > start.len() ==> r.spec_incoming() == Seq::<u8>::empty(),
        decreases remaining,
    {
        let chunk = if remaining < buf.len() { remaining } else { buf.len() };
        let ghost mid = r.spec_incoming();
        let (head, _) = buf.split_at_mut(chunk);
        if r.read_exact(head).is_err() {
            break;
        }
        remaining = remaining - chunk;
        assert(r.spec_incoming() =~= start.skip(total - remaining));
    }
}

/// Reads one frame into `buf` and returns its kind and payload, which stand
/// at the front of `buf` afterwards. A frame whose declared length is zero or
/// exceeds `buf` is read past and reported as `FrameTooLarge`, so that the
/// next frame can still be read.
pub fn read_frame<'buf, R: Read>(r: &mut R, buf: &'buf mut [u8]) -> (res: Result<
    (u8, &'buf [u8]),
    ReadFrameError<R::Error>,
>)
    requires
        old(buf)@.len() > 0 || old(r).spec_incoming().len() < 4 || declared_len(old(r).spec_incoming())
            == 0,
    ensures
        final(r).spec_outgoing() == old(r).spec_outgoing(),
        final(r).spec_room() == old(r).spec_room(),
        final(buf)@.len() == old(buf)@.len(),
        res matches Err(ReadFrameError::Io(_)) ==> final(r).spec_incoming() == Seq::<u8>::empty(),
        ({
            let incoming = old(r).spec_incoming();
            let cap = old(buf)@.len();
            let len = declared_len(incoming);
            if incoming.len() < 4 {
                res is Err && res->Err_0 is Io
            } else if len == 0 || len > cap {
                &&& res is Err
                &&& res->Err_0 == ReadFrameError::<R::Error>::FrameTooLarge {
                    declared: len as u32,
                    max: cap as usize,
                }
                &&& incoming.len() >= 4 + len ==> final(r).spec_incoming() == after_frame(incoming)
                &&& incoming.len() < 4 + len ==> final(r).spec_incoming() == Seq::<u8>::empty()
            } else if incoming.len() < 4 + len {
                res is Err && res->Err_0 is Io
            } else {
                &&& res is Ok
                &&& res->Ok_0.0 == incoming[4]
                &&& res->Ok_0.1@ == incoming.subrange(5, 4 + len)
                &&& final(r).spec_incoming() == after_frame(incoming)
                &&& final(buf)@.take(len) == incoming.subrange(4, 4 + len)
            }
        }),
{
    let ghost incoming = r.spec_incoming();
    let mut len_bytes = [0u8; 4];
    match r.read_exact(&mut len_bytes) {
        Ok(()) => {},
        Err(e) => {
            return Err(ReadFrameError::Io(e));
        },
    }
    let len = u32_from_le_bytes(&len_bytes);
    assert(len_bytes@.take(4) =~= incoming.take(4));
    if len == 0 || len as usize > buf.len() {
        skip_bytes(r, buf, len as usize);
        return Err(ReadFrameError::FrameTooLarge { declared: len, max: buf.len() });
    }
    let n = len as usize;
    let ghost mid = r.spec_incoming();
    let (head, _) = buf.split_at_mut(n);
    match r.read_exact(head) {
        Ok(()) => {},
        Err(e) => {
            return Err(ReadFrameError::Io(e));
        },
    }
    let frame: &'buf [u8] = buf;
    assert(frame@.take(n as int) =~= mid.take(n as int));
    let kind = frame[0];
    let payload = &frame[1..n];
    assert(payload@ =~= incoming.subrange(5, 4 + len));
    Ok((kind, payload))
}


/// The bytes of a frame, followed by anything, declare the frame's length and
/// hold its kind and payload; what follows the frame is left over.
proof fn lemma_frame_layout(kind: u8, payload: Seq<u8>, rest: Seq<u8>)
    requires
        payload.len() + 1 < 0x1_0000_0000,
    ensures
        ({
            let incoming = frame_bytes(kind, payload) + rest;
            &&& incoming.len() >= 4 + declared_len(incoming)
            &&& declared_len(incoming) == payload.len() + 1
            &&& incoming[4] == kind
            &&& incoming.subrange(5, 4 + declared_len(incoming)) == payload
            &&& after_frame(incoming) == rest
        }),
{
    let incoming = frame_bytes(kind, payload) + rest;
    let word = frame_len_word(payload);
    assert(word == payload.len() + 1);
    lemma_le_u32_decode_encode(word);
    assert(incoming.take(4) =~= le_u32_bytes(word));
    assert(incoming.subrange(5, 5 + payload.len() as int) =~= payload);
    assert(incoming.skip(5 + payload.len() as int) =~= rest);
}

/// Reading back what `write_frame` wrote gives the same kind and payload and
/// leaves the channel at the next frame, whenever the frame fits the buffer.
pub proof fn lemma_frame_roundtrip(kind: u8, payload: Seq<u8>, rest: Seq<u8>, capacity: nat)
    requires
        payload.len() + 1 <= capacity,
        payload.len() + 1 < 0x1_0000_0000,
    ensures
        ({
            let incoming = frame_bytes(kind, payload) + rest;
            &&& incoming.len() >= 4 + declared_len(incoming)
            &&& 0 < declared_len(incoming) <= capacity
            &&& incoming[4] == kind
            &&& incoming.subrange(5, 4 + declared_len(incoming)) == payload
            &&& after_frame(incoming) == rest
        }),
{
    lemma_frame_layout(kind, payload, rest);
}

/// A frame larger than the buffer is reported as too large with its declared
/// length, and reading past it leaves the channel at the next frame.
pub proof fn lemma_oversized_frame_resync(kind: u8, payload: Seq<u8>, rest: Seq<u8>, capacity: nat)
    requires
        payload.len() + 1 > capacity,
        payload.len() + 1 < 0x1_0000_0000,
    ensures
        ({
            let incoming = frame_bytes(kind, payload) + rest;
            &&& incoming.len() >= 4 + declared_len(incoming)
            &&& declared_len(incoming) == payload.len() + 1
            &&& declared_len(incoming) > capacity
            &&& after_frame(incoming) == rest
        }),
{
    lemma_frame_layout(kind, payload, rest);
}

/// Writing a frame is writing its length word, its kind byte and its
/// payload one after another, stopping at the first write that fails: the
/// frame fits exactly when each part fits in the room the parts before it
/// left, and what a channel takes of the frame is what it takes of the parts
/// in turn.
pub proof fn lemma_frame_written_in_parts(room: Option<nat>, kind: u8, payload: Seq<u8>)
    ensures
        ({
            let header = le_u32_bytes(frame_len_word(payload));
            let frame = frame_bytes(kind, payload);
            let after_header = room_after(room, 4);
            let after_kind = room_after(room, 5);
            &&& frame == header + seq![kind] + payload
            &&& header.len() == 4
            &&& has_room(room, frame.len()) == (has_room(room, 4) && has_room(after_header, 1)
                && has_room(after_kind, payload.len()))
            &&& !has_room(room, 4) ==> frame.take(room->Some_0 as int) == header.take(
                room->Some_0 as int,
            )
            &&& has_room(room, 4) && !has_room(after_header, 1) ==> frame.take(room->Some_0 as int)
                == header
            &&& has_room(room, 5) && !has_room(after_kind, payload.len()) ==> frame.take(
                room->Some_0 as int,
            ) == header + seq![kind] + payload.take(after_kind->Some_0 as int)
        }),
{
    let header = le_u32_bytes(frame_len_word(payload));
    lemma_le_u32_decode_encode(frame_len_word(payload));
    let frame = frame_bytes(kind, payload);
    match room {
        None => {},
        Some(r) => {
            if r < 4 {
                assert(frame.take(r as int) =~= header.take(r as int));
            } else if r < 5 {
                assert(frame.take(r as int) =~= header);
            } else if r < 5 + payload.len() {
                assert(frame.take(r as int) =~= header + seq![kind] + payload.take(r - 5));
            }
        },
    }
}

} // verus!
