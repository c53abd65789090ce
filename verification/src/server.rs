//! The token side of the protocol: answering requests that arrive framed on
//! a byte channel.

use vstd::prelude::*;
use crate::codec::{lemma_le_u32_decode_encode, lemma_le_u32_encode_decode};
use crate::frame::{
    after_frame, declared_len, frame_bytes, frame_len_word, has_room, read_frame, room_after, write_frame, Read, ReadFrameError, Write,
};
use crate::wire::{command_byte, dispatch, dispatched, status_byte, Command, SigningBackend, Status};

verus! {

/// What came of serving one request.
#[derive(Debug)]
pub enum ServeStep<E> {
    /// The request was answered with `status` and `len` bytes of data.
    Served { status: Status, len: usize },
    /// A frame too large for the request buffer was read past and dropped.
    Dropped { declared: u32, max: usize },
    /// No request could be read: the channel failed or ended.
    ReadFailed(E),
    /// The answer could not be written.
    WriteFailed(E),
}

/// Reads one request frame, has `backend` handle it and writes the response
/// frame: the status byte as the frame's kind and the response data as its
/// payload.
pub fn serve_request<E, S: Read<Error = E> + Write<Error = E>, B: SigningBackend>(
    stream: &mut S,
    backend: &mut B,
    request_buf: &mut [u8],
    response_buf: &mut [u8],
) -> (r: ServeStep<E>)
    requires
        old(request_buf)@.len() > 0 || old(stream).spec_incoming().len() < 4 || declared_len(
            old(stream).spec_incoming(),
        ) == 0,
    ensures
        final(request_buf)@.len() == old(request_buf)@.len(),
        final(response_buf)@.len() == old(response_buf)@.len(),
        ({
            let incoming = old(stream).spec_incoming();
            let cap = old(request_buf)@.len();
            let len = declared_len(incoming);
            if incoming.len() < 4 || (0 < len <= cap && incoming.len() < 4 + len) {
                &&& r is ReadFailed
                &&& final(stream).spec_outgoing() == old(stream).spec_outgoing()
                &&& final(stream).spec_incoming() == Seq::<u8>::empty()
                &&& final(stream).spec_room() == old(stream).spec_room()
                &&& *final(backend) == *old(backend)
                &&& final(response_buf)@ == old(response_buf)@
            } else if len == 0 || len > cap {
                &&& r matches ServeStep::Dropped { declared, max } && declared == len && max == old(request_buf).len()
                &&& final(stream).spec_outgoing() == old(stream).spec_outgoing()
                &&& final(stream).spec_room() == old(stream).spec_room()
                &&& final(response_buf)@ == old(response_buf)@
                &&& incoming.len() < 4 + len ==> final(stream).spec_incoming() == Seq::<u8>::empty()
                &&& *final(backend) == *old(backend)
                &&& incoming.len() >= 4 + len ==> final(stream).spec_incoming() == after_frame(incoming)
            } else {
                &&& final(stream).spec_incoming() == after_frame(incoming)
                &&& r is Served || r is WriteFailed
                &&& r is WriteFailed ==> exists|s: Status, n: usize| #![trigger dispatched(
                        incoming[4],
                        incoming.subrange(5, 4 + len),
                        *old(backend),
                        *final(backend),
                        old(response_buf)@,
                        final(response_buf)@,
                        s,
                        n,
                    )]
                    dispatched(
                        incoming[4],
                        incoming.subrange(5, 4 + len),
                        *old(backend),
                        *final(backend),
                        old(response_buf)@,
                        final(response_buf)@,
                        s,
                        n,
                    ) && !has_room(old(stream).spec_room(), (5 + n) as nat)
                        && final(stream).spec_outgoing() == old(stream).spec_outgoing() + frame_bytes(
                        status_byte(s),
                        final(response_buf)@.take(n as int),
                    ).take(old(stream).spec_room()->Some_0 as int)
                &&& r matches ServeStep::Served { status, len: n } ==> {
                    &&& has_room(old(stream).spec_room(), (5 + n) as nat)
                    &&& dispatched(
                        incoming[4],
                        incoming.subrange(5, 4 + len),
                        *old(backend),
                        *final(backend),
                        old(response_buf)@,
                        final(response_buf)@,
                        status,
                        n,
                    )
                    &&& final(stream).spec_outgoing() == old(stream).spec_outgoing() + frame_bytes(
                        status_byte(status),
                        final(response_buf)@.take(n as int),
                    )
                    &&& final(stream).spec_room() == room_after(old(stream).spec_room(), (5 + n) as nat)
                }
            }
        }),
{
    proof {
        if stream.spec_incoming().len() >= 4 {
            lemma_le_u32_encode_decode(stream.spec_incoming().take(4));
        }
    }
    let (command, payload) = match read_frame(stream, request_buf) {
        Ok(frame) => frame,
        Err(ReadFrameError::Io(e)) => {
            return ServeStep::ReadFailed(e);
        },
        Err(ReadFrameError::FrameTooLarge { declared, max }) => {
            return ServeStep::Dropped { declared, max };
        },
    };
    let (status, len) = dispatch(command, payload, backend, response_buf);
    let response = &response_buf[0..len];
    match write_frame(stream, status.into(), response) {
        Ok(()) => ServeStep::Served { status, len },
        Err(e) => ServeStep::WriteFailed(e),
    }
}

/// Size of the buffer a token reads a request frame into: the kind byte, the
/// object handle and a message of up to 1 MiB.
pub const REQUEST_BUF_LEN: usize = 1 + 4 + 1024 * 1024;

/// Size of the buffer a token writes response data into.
pub const RESPONSE_BUF_LEN: usize = 65536;

/// The requests, kind and payload, that the frames in `incoming` carry, in
/// order, for a request buffer of `cap` bytes. Frames declaring a length of
/// zero or above `cap` carry none; the list ends where the bytes end or a
/// frame is cut short.
pub open spec fn requests(incoming: Seq<u8>, cap: nat) -> Seq<(u8, Seq<u8>)>
    decreases incoming.len(),
{
    if incoming.len() < 4 || incoming.len() < 4 + declared_len(incoming) {
        Seq::empty()
    } else {
        let len = declared_len(incoming);
        if len == 0 || len > cap {
            requests(after_frame(incoming), cap)
        } else {
            seq![(incoming[4], incoming.subrange(5, 4 + len))] + requests(after_frame(incoming), cap)
        }
    }
}

/// One request answered while serving a connection: the status and length
/// that `dispatch` returned, and the backend and the response buffer before
/// and after.
pub struct Reply<B> {
    pub status: Status,
    pub len: usize,
    pub backend_before: B,
    pub backend_after: B,
    pub buf_before: Seq<u8>,
    pub buf_after: Seq<u8>,
}

/// The reply frame of `reply`.
pub open spec fn reply_frame<B>(reply: Reply<B>) -> Seq<u8> {
    frame_bytes(status_byte(reply.status), reply.buf_after.take(reply.len as int))
}

/// The bytes of the reply frames of `t`, in order.
pub open spec fn reply_bytes<B>(t: Seq<Reply<B>>) -> Seq<u8>
    decreases t.len(),
{
    if t.len() == 0 {
        Seq::empty()
    } else {
        reply_bytes(t.drop_last()) + reply_frame(t.last())
    }
}

/// The backend after the replies `t`, starting from `b0`.
pub open spec fn backend_after<B>(b0: B, t: Seq<Reply<B>>) -> B {
    if t.len() == 0 {
        b0
    } else {
        t.last().backend_after
    }
}

/// `t` answers the first `t.len()` of `reqs`, in order, each as `dispatch`
/// answers it, starting from backend `b0` and a response buffer of `cap`
/// bytes, each reply starting from the backend and buffer the one before
/// left.
pub open spec fn answered_in_order<B: SigningBackend>(
    reqs: Seq<(u8, Seq<u8>)>,
    b0: B,
    cap: nat,
    t: Seq<Reply<B>>,
) -> bool {
    &&& t.len() <= reqs.len()
    &&& forall|i: int|
        0 <= i < t.len() ==> dispatched(
            reqs[i].0,
            reqs[i].1,
            #[trigger] t[i].backend_before,
            t[i].backend_after,
            t[i].buf_before,
            t[i].buf_after,
            t[i].status,
            t[i].len,
        )
    &&& forall|i: int|
        0 < i < t.len() ==> #[trigger] t[i].backend_before == t[i - 1].backend_after && t[i].buf_before
            == t[i - 1].buf_after
    &&& t.len() > 0 ==> t[0].backend_before == b0 && t[0].buf_before.len() == cap
}

/// What serving a connection from `incoming` with backend `b0` came to:
/// `t` answers the connection's requests in order, the backend is the one the
/// last answer left, and the bytes written are the reply frames: all of them
/// where the connection ended on a read, or all but the last and as much of
/// the last as the channel took where a reply could not be written.
pub open spec fn served_connection<B: SigningBackend, E>(
    incoming: Seq<u8>,
    room: Option<nat>,
    b0: B,
    b1: B,
    written: Seq<u8>,
    end: ServeStep<E>,
    t: Seq<Reply<B>>,
) -> bool {
    let reqs = requests(incoming, REQUEST_BUF_LEN as nat);
    &&& answered_in_order(reqs, b0, RESPONSE_BUF_LEN as nat, t)
    &&& b1 == backend_after(b0, t)
    &&& match end {
        ServeStep::ReadFailed(_) => t.len() == reqs.len() && written == reply_bytes(t),
        ServeStep::WriteFailed(_) => {
            let done = reply_bytes(t.drop_last());
            let left = room_after(room, done.len());
            &&& t.len() >= 1
            &&& has_room(room, done.len())
            &&& !has_room(left, reply_frame(t.last()).len())
            &&& written == done + reply_frame(t.last()).take(left->Some_0 as int)
        },
        _ => false,
    }
}

/// How `requests` unfolds over the frame at the front of `incoming`.
proof fn lemma_requests_unfold(incoming: Seq<u8>, cap: nat)
    ensures
        incoming.len() < 4 ==> requests(incoming, cap) == Seq::<(u8, Seq<u8>)>::empty(),
        incoming.len() >= 4 ==> declared_len(incoming) >= 0,
        incoming.len() >= 4 && incoming.len() < 4 + declared_len(incoming) ==> requests(incoming, cap)
            == Seq::<(u8, Seq<u8>)>::empty(),
        incoming.len() >= 4 && incoming.len() >= 4 + declared_len(incoming) ==> {
            &&& after_frame(incoming).len() < incoming.len()
            &&& (declared_len(incoming) == 0 || declared_len(incoming) > cap) ==> requests(incoming, cap)
                == requests(after_frame(incoming), cap)
            &&& (0 < declared_len(incoming) <= cap) ==> requests(incoming, cap) == seq![
                (incoming[4], incoming.subrange(5, 4 + declared_len(incoming))),
            ] + requests(after_frame(incoming), cap)
        },
{
    if incoming.len() >= 4 {
        lemma_le_u32_encode_decode(incoming.take(4));
    }
}

/// A sequence whose tail from `k` on is `x` followed by `rest` holds `x` at
/// `k`, and `rest` from `k + 1` on.
proof fn lemma_skip_front<A>(s: Seq<A>, k: int, x: A, rest: Seq<A>)
    requires
        0 <= k <= s.len(),
        s.skip(k) == seq![x] + rest,
    ensures
        k < s.len(),
        s[k] == x,
        s.skip(k + 1) == rest,
{
    assert(s.skip(k).len() == 1 + rest.len());
    assert(s.skip(k)[0] == x);
    assert(s.skip(k + 1) =~= s.skip(k).skip(1));
    assert((seq![x] + rest).skip(1) =~= rest);
}

/// Answering one more request, from where the last answer left off, keeps the
/// answers in order, and its reply frame follows the others.
proof fn lemma_answer_one_more<B: SigningBackend>(
    reqs: Seq<(u8, Seq<u8>)>,
    b0: B,
    cap: nat,
    t: Seq<Reply<B>>,
    reply: Reply<B>,
)
    requires
        answered_in_order(reqs, b0, cap, t),
        t.len() < reqs.len(),
        dispatched(
            reqs[t.len() as int].0,
            reqs[t.len() as int].1,
            reply.backend_before,
            reply.backend_after,
            reply.buf_before,
            reply.buf_after,
            reply.status,
            reply.len,
        ),
        reply.backend_before == backend_after(b0, t),
        reply.buf_before.len() == cap,
        t.len() > 0 ==> reply.buf_before == t.last().buf_after,
    ensures
        answered_in_order(reqs, b0, cap, t.push(reply)),
        backend_after(b0, t.push(reply)) == reply.backend_after,
        reply_bytes(t.push(reply)) == reply_bytes(t) + reply_frame(reply),
        reply_frame(reply).len() == 5 + reply.len,
{
    let t2 = t.push(reply);
    assert(t2.drop_last() =~= t);
    assert forall|i: int| 0 <= i < t2.len() implies dispatched(
        reqs[i].0,
        reqs[i].1,
        #[trigger] t2[i].backend_before,
        t2[i].backend_after,
        t2[i].buf_before,
        t2[i].buf_after,
        t2[i].status,
        t2[i].len,
    ) by {
        if i < t.len() {
            assert(t2[i] == t[i]);
        }
    }
    assert forall|i: int| 0 < i < t2.len() implies #[trigger] t2[i].backend_before == t2[i - 1].backend_after
        && t2[i].buf_before == t2[i - 1].buf_after by {
        if i < t.len() {
            assert(t2[i] == t[i]);
            assert(t[i].backend_before == t[i - 1].backend_after);
        }
    }
    lemma_le_u32_decode_encode(frame_len_word(reply.buf_after.take(reply.len as int)));
}

/// Room taken in two steps is room taken at once.
proof fn lemma_room_twice(room: Option<nat>, a: nat, b: nat)
    requires
        has_room(room, a),
        has_room(room_after(room, a), b),
    ensures
        has_room(room, a + b),
        room_after(room_after(room, a), b) == room_after(room, a + b),
{
}

/// Serves requests on `stream` until a read or a write fails: each request
/// frame is answered by `dispatch` with one reply frame, and a frame too
/// large for the request buffer gets no reply. Returns the dropped frames'
/// declared lengths with the buffer size, and the step that ended the
/// connection.
pub fn handle_connection<E, S: Read<Error = E> + Write<Error = E>, B: SigningBackend>(
    stream: &mut S,
    backend: &mut B,
) -> (r: (Vec<(u32, usize)>, ServeStep<E>))
    ensures
        r.1 is ReadFailed || r.1 is WriteFailed,
        forall|i: int|
            0 <= i < r.0@.len() ==> (#[trigger] r.0@[i]).1 == REQUEST_BUF_LEN && (r.0@[i].0 == 0
                || r.0@[i].0 > REQUEST_BUF_LEN),
        exists|t: Seq<Reply<B>>|
            #[trigger] served_connection(
                old(stream).spec_incoming(),
                old(stream).spec_room(),
                *old(backend),
                *final(backend),
                final(stream).spec_outgoing().skip(old(stream).spec_outgoing().len() as int),
                r.1,
                t,
            ),
        final(stream).spec_outgoing().take(old(stream).spec_outgoing().len() as int) == old(
            stream,
        ).spec_outgoing(),
{
    let mut request_buf: Vec<u8> = vec![0u8; REQUEST_BUF_LEN];
    let mut response_buf: Vec<u8> = vec![0u8; RESPONSE_BUF_LEN];
    let mut dropped: Vec<(u32, usize)> = Vec::new();
    let ghost incoming0 = stream.spec_incoming();
    let ghost room0 = stream.spec_room();
    let ghost out0 = stream.spec_outgoing();
    let ghost b0 = *backend;
    let ghost reqs = requests(incoming0, REQUEST_BUF_LEN as nat);
    let ghost mut t: Seq<Reply<B>> = Seq::empty();
    loop
        invariant
            request_buf@.len() == REQUEST_BUF_LEN,
            response_buf@.len() == RESPONSE_BUF_LEN,
            incoming0 == old(stream).spec_incoming(),
            room0 == old(stream).spec_room(),
            out0 == old(stream).spec_outgoing(),
            b0 == *old(backend),
            reqs == requests(incoming0, REQUEST_BUF_LEN as nat),
            t.len() <= reqs.len(),
            reqs.skip(t.len() as int) == requests(stream.spec_incoming(), REQUEST_BUF_LEN as nat),
            answered_in_order(reqs, b0, RESPONSE_BUF_LEN as nat, t),
            *backend == backend_after(b0, t),
            t.len() > 0 ==> response_buf@ == t.last().buf_after,
            stream.spec_outgoing() == out0 + reply_bytes(t),
            has_room(room0, reply_bytes(t).len()),
            stream.spec_room() == room_after(room0, reply_bytes(t).len()),
            forall|i: int|
                0 <= i < dropped@.len() ==> (#[trigger] dropped@[i]).1 == REQUEST_BUF_LEN && (
                dropped@[i].0 == 0 || dropped@[i].0 > REQUEST_BUF_LEN),
        decreases stream.spec_incoming().len(),
    {
        let ghost inc = stream.spec_incoming();
        let ghost bb = *backend;
        let ghost rb = response_buf@;
        let ghost done = reply_bytes(t);
        proof {
            lemma_requests_unfold(inc, REQUEST_BUF_LEN as nat);
        }
        let step = serve_request(stream, backend, request_buf.as_mut_slice(), response_buf.as_mut_slice());
        match step {
            ServeStep::Served { status, len } => {
                proof {
                    let reply = Reply {
                        status,
                        len,
                        backend_before: bb,
                        backend_after: *backend,
                        buf_before: rb,
                        buf_after: response_buf@,
                    };
                    lemma_skip_front(
                        reqs,
                        t.len() as int,
                        (inc[4], inc.subrange(5, 4 + declared_len(inc))),
                        requests(after_frame(inc), REQUEST_BUF_LEN as nat),
                    );
                    lemma_answer_one_more(reqs, b0, RESPONSE_BUF_LEN as nat, t, reply);
                    lemma_room_twice(room0, done.len(), (5 + len) as nat);
                    t = t.push(reply);
                }
            },
            ServeStep::Dropped { declared, max } => {
                dropped.push((declared, max));
            },
            ServeStep::ReadFailed(e) => {
                proof {
                    assert(stream.spec_outgoing().skip(out0.len() as int) =~= reply_bytes(t));
                    assert(stream.spec_outgoing().take(out0.len() as int) =~= out0);
                    assert(served_connection(
                        incoming0,
                        room0,
                        b0,
                        *backend,
                        stream.spec_outgoing().skip(out0.len() as int),
                        ServeStep::<E>::ReadFailed(e),
                        t,
                    ));
                }
                return (dropped, ServeStep::ReadFailed(e));
            },
            ServeStep::WriteFailed(e) => {
                proof {
                    let (s, n) = choose|s: Status, n: usize|
                        dispatched(
                            inc[4],
                            inc.subrange(5, 4 + declared_len(inc)),
                            bb,
                            *backend,
                            rb,
                            response_buf@,
                            s,
                            n,
                        ) && !has_room(room_after(room0, done.len()), (5 + n) as nat)
                            && stream.spec_outgoing() == out0 + done + frame_bytes(
                            status_byte(s),
                            response_buf@.take(n as int),
                        ).take(room_after(room0, done.len())->Some_0 as int);
                    let reply = Reply {
                        status: s,
                        len: n,
                        backend_before: bb,
                        backend_after: *backend,
                        buf_before: rb,
                        buf_after: response_buf@,
                    };
                    lemma_skip_front(
                        reqs,
                        t.len() as int,
                        (inc[4], inc.subrange(5, 4 + declared_len(inc))),
                        requests(after_frame(inc), REQUEST_BUF_LEN as nat),
                    );
                    lemma_answer_one_more(reqs, b0, RESPONSE_BUF_LEN as nat, t, reply);
                    let t2 = t.push(reply);
                    assert(t2.drop_last() =~= t);
                    assert(stream.spec_outgoing().skip(out0.len() as int) =~= done + reply_frame(reply).take(
                        room_after(room0, done.len())->Some_0 as int,
                    ));
                    assert(stream.spec_outgoing().take(out0.len() as int) =~= out0);
                    assert(served_connection(
                        incoming0,
                        room0,
                        b0,
                        *backend,
                        stream.spec_outgoing().skip(out0.len() as int),
                        ServeStep::<E>::WriteFailed(e),
                        t2,
                    ));
                }
                return (dropped, ServeStep::WriteFailed(e));
            },
        }
    }
}

/// Whether a request is one the hardware token signals on its LEDs: signing
/// and key generation.
pub fn shows_activity(command: u8) -> (r: bool)
    ensures
        r == (command == command_byte(Command::Sign) || command == command_byte(Command::GenerateKeypair)),
{
    command == u8::from(Command::Sign) || command == u8::from(Command::GenerateKeypair)
}

/// The light a hardware token shows once a request it signals is answered.
#[derive(Debug, Clone, Copy, PartialEq, Eq, Structural)]
pub enum Signal {
    /// The request succeeded: the green light flashes.
    Success,
    /// The request failed: the red light stays on.
    Failure,
}

/// The light to show after answering request `command` with `status`; `None`
/// for a request the token does not signal.
pub fn completion_signal(command: u8, status: Status) -> (r: Option<Signal>)
    ensures
        r == (if !(command == command_byte(Command::Sign) || command == command_byte(Command::GenerateKeypair)) {
            None
        } else if status == Status::Success {
            Some(Signal::Success)
        } else {
            Some(Signal::Failure)
        }),
{
    if !shows_activity(command) {
        return None;
    }
    match status {
        Status::Success => Some(Signal::Success),
        _ => Some(Signal::Failure),
    }
}

} // verus!
