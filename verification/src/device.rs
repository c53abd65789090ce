//! The host side of the token protocol: a client that sends requests over a
//! byte channel and checks the responses.

use vstd::prelude::*;
use vstd::utf8::{valid_utf8, decode_utf8};
use crate::codec::{le_u32_bytes, u32_to_le_bytes};
use crate::frame::{
    after_frame, declared_len, frame_bytes, has_room, lemma_frame_roundtrip, read_frame, room_after,
    write_frame, ByteChannel, Read, ReadFrameError, Write,
};
use crate::wire::{command_byte, dispatched, status_byte, Command, SigningBackend, Status, FIXED_OBJECT_HANDLE};

verus! {

/// Size of the buffer a response frame is read into.
pub const RESPONSE_BUF_LEN: usize = 65536;

/// Why a request to the device failed.
#[derive(Debug)]
pub enum DeviceError<E> {
    /// Sending the request failed.
    WriteFailed(E),
    /// Receiving the response failed.
    ReadFailed(ReadFrameError<E>),
    /// The device answered with a status other than success.
    Status { command: Command, status: u8 },
    /// A `GetInfo` response shorter than its header.
    ResponseTooShort,
    /// A `GetInfo` response shorter than the name it announces.
    ResponseTruncated,
    /// A parameter set name that is not UTF-8; the name's bytes.
    InvalidName(Vec<u8>),
}

/// A connection to a token over a byte channel.
pub struct DeviceConnection<C> {
    connection: C,
}

/// A complete response frame that fits the response buffer stands at the
/// front of `incoming`.
pub open spec fn response_ready(incoming: Seq<u8>) -> bool {
    &&& incoming.len() >= 4
    &&& 0 < declared_len(incoming) <= RESPONSE_BUF_LEN
    &&& incoming.len() >= 4 + declared_len(incoming)
}

/// The status byte of the response frame at the front of `incoming`.
pub open spec fn response_status(incoming: Seq<u8>) -> u8 {
    incoming[4]
}

/// The payload of the response frame at the front of `incoming`.
pub open spec fn response_payload(incoming: Seq<u8>) -> Seq<u8> {
    incoming.subrange(5, 4 + declared_len(incoming))
}

/// A channel with `room` left takes the whole request frame of kind
/// `command` around `payload`.
pub open spec fn sends(room: Option<nat>, command: u8, payload: Seq<u8>) -> bool {
    has_room(room, frame_bytes(command, payload).len())
}

/// What a channel with `room` left takes of the request frame of kind
/// `command` around `payload`: all of it, or as much as it has room for.
pub open spec fn sent_bytes(room: Option<nat>, command: u8, payload: Seq<u8>) -> Seq<u8> {
    if sends(room, command, payload) {
        frame_bytes(command, payload)
    } else {
        frame_bytes(command, payload).take(room->Some_0 as int)
    }
}

/// The channel went from `before` to `after` by sending a frame of kind
/// `command` around `payload` and receiving the response frame that stood at
/// the front of its incoming bytes.
pub open spec fn exchanged<C: ByteChannel>(before: C, after: C, command: u8, payload: Seq<u8>) -> bool {
    &&& sends(before.spec_room(), command, payload)
    &&& after.spec_outgoing() == before.spec_outgoing() + frame_bytes(command, payload)
    &&& after.spec_room() == room_after(before.spec_room(), frame_bytes(command, payload).len())
    &&& response_ready(before.spec_incoming())
    &&& after.spec_incoming() == after_frame(before.spec_incoming())
}

/// A failed exchange of a request frame of kind `command` around `payload`,
/// on a channel with `incoming` bytes to read and `room` left: the channel
/// had no room for the request, or no fitting response frame stood at the
/// front of the incoming bytes.
pub open spec fn exchange_failed<E>(
    incoming: Seq<u8>,
    room: Option<nat>,
    command: u8,
    payload: Seq<u8>,
    e: DeviceError<E>,
) -> bool {
    match e {
        DeviceError::WriteFailed(_) => !sends(room, command, payload),
        DeviceError::ReadFailed(ReadFrameError::Io(_)) => {
            &&& sends(room, command, payload)
            &&& !response_ready(incoming)
            &&& !(incoming.len() >= 4 && (declared_len(incoming) == 0 || declared_len(incoming)
                > RESPONSE_BUF_LEN))
        },
        DeviceError::ReadFailed(ReadFrameError::FrameTooLarge { declared, max }) => {
            &&& sends(room, command, payload)
            &&& incoming.len() >= 4
            &&& declared == declared_len(incoming)
            &&& max == RESPONSE_BUF_LEN
            &&& (declared == 0 || declared > RESPONSE_BUF_LEN)
        },
        _ => false,
    }
}

/// A request of `command` around `payload` failed with `e`: the exchange
/// failed, or the device answered with a status other than success.
pub open spec fn reply_failed<E>(
    incoming: Seq<u8>,
    room: Option<nat>,
    command: Command,
    payload: Seq<u8>,
    e: DeviceError<E>,
) -> bool {
    ||| exchange_failed(incoming, room, command_byte(command), payload, e)
    ||| {
        &&& sends(room, command_byte(command), payload)
        &&& response_ready(incoming)
        &&& e matches DeviceError::Status { command: c, status: s }
        &&& c == command
        &&& s == response_status(incoming)
        &&& s != 0
    }
}

/// The name bytes a `GetInfo` response payload announces, if it holds them.
pub open spec fn info_name_bytes(payload: Seq<u8>) -> Option<Seq<u8>> {
    if payload.len() < 2 || payload.len() < 2 + payload[1] {
        None
    } else {
        Some(payload.subrange(2, 2 + payload[1]))
    }
}

/// A `GetInfo` response frame that names a parameter set in UTF-8 stands at
/// the front of `incoming`.
pub open spec fn info_ok(incoming: Seq<u8>) -> bool {
    &&& response_ready(incoming)
    &&& response_status(incoming) == 0
    &&& info_name_bytes(response_payload(incoming)) is Some
    &&& valid_utf8(info_name_bytes(response_payload(incoming))->Some_0)
}

/// The name bytes of the `GetInfo` response frame at the front of `incoming`.
pub open spec fn info_name(incoming: Seq<u8>) -> Seq<u8> {
    info_name_bytes(response_payload(incoming))->Some_0
}

/// A `GetInfo` request failed with `e`: the exchange failed, or the device
/// answered with an error status, with a payload too short for its header or
/// for the name it announces, or with a name that is not UTF-8.
pub open spec fn info_failed<E>(incoming: Seq<u8>, room: Option<nat>, e: DeviceError<E>) -> bool {
    let status = response_status(incoming);
    let payload = response_payload(incoming);
    let name = info_name_bytes(payload);
    ||| exchange_failed(incoming, room, 1, Seq::empty(), e)
    ||| sends(room, 1, Seq::empty()) && response_ready(incoming) && match e {
        DeviceError::Status { command, status: s } => command == Command::GetInfo && s == status && s
            != 0,
        DeviceError::ResponseTooShort => status == 0 && payload.len() < 2,
        DeviceError::ResponseTruncated => status == 0 && payload.len() >= 2 && payload.len() < 2
            + payload[1],
        DeviceError::InvalidName(bytes) => {
            &&& status == 0
            &&& name is Some
            &&& bytes@ == name->Some_0
            &&& !valid_utf8(name->Some_0)
        },
        _ => false,
    }
}

/// A successful response frame stands at the front of `incoming`.
pub open spec fn response_ok(incoming: Seq<u8>) -> bool {
    response_ready(incoming) && response_status(incoming) == 0
}

/// The payload of a `Sign` request: the fixed handle, then the message.
pub open spec fn sign_request(message: Seq<u8>) -> Seq<u8> {
    le_u32_bytes(FIXED_OBJECT_HANDLE) + message
}

/// A `GetInfo` request answered by a token's `dispatch`, and sent back as the
/// token frames its replies, reads on the host as a successful response that
/// names the backend's parameter set; followed by anything, it leaves that
/// behind. With the contract of `get_info`, the host then gets the name.
pub proof fn lemma_info_round_trip<B: SigningBackend>(
    backend: B,
    backend2: B,
    before: Seq<u8>,
    after: Seq<u8>,
    status: Status,
    len: usize,
    rest: Seq<u8>,
)
    requires
        dispatched(command_byte(Command::GetInfo), Seq::empty(), backend, backend2, before, after, status, len),
        backend.spec_name_bytes().len() <= 255,
        2 + backend.spec_name_bytes().len() <= before.len(),
    ensures
        ({
            let name = backend.spec_name_bytes();
            let incoming = frame_bytes(status_byte(status), after.take(len as int)) + rest;
            &&& response_ready(incoming)
            &&& response_status(incoming) == 0
            &&& info_name_bytes(response_payload(incoming)) == Some(name)
            &&& after_frame(incoming) == rest
            &&& valid_utf8(name) ==> info_ok(incoming) && info_name(incoming) == name
        }),
{
    let name = backend.spec_name_bytes();
    let data = seq![1u8, name.len() as u8] + name;
    assert(after.take(len as int) =~= data);
    lemma_frame_roundtrip(status_byte(status), data, rest, RESPONSE_BUF_LEN as nat);
    let incoming = frame_bytes(status_byte(status), data) + rest;
    assert(response_payload(incoming) =~= data);
    assert(data.subrange(2, 2 + data[1]) =~= name);
}

/// A `Sign` request carries handle 1, little-endian, and then the whole
/// message.
pub proof fn lemma_sign_request_carries_message(message: Seq<u8>)
    ensures
        sign_request(message).len() == 4 + message.len(),
        sign_request(message).take(4) == seq![1u8, 0u8, 0u8, 0u8],
        sign_request(message).skip(4) == message,
{
    assert(sign_request(message).take(4) =~= seq![1u8, 0u8, 0u8, 0u8]);
    assert(sign_request(message).skip(4) =~= message);
}

/// A `Sign` request for `message`, answered by a token's `dispatch`, has the
/// backend sign exactly `message`: it succeeds where the backend signs it,
/// and then the answer is the backend's signature of it.
pub proof fn lemma_sign_request_signs_message<B: SigningBackend>(
    message: Seq<u8>,
    backend: B,
    backend2: B,
    before: Seq<u8>,
    after: Seq<u8>,
    status: Status,
    len: usize,
)
    requires
        dispatched(4, sign_request(message), backend, backend2, before, after, status, len),
    ensures
        (status == Status::Success) == backend.spec_sign_ok(message, before.len()),
        status == Status::Success ==> backend.spec_signs(message, after.take(len as int)),
        status != Status::Success ==> status == Status::SigningFailed && len == 0,
{
    lemma_sign_request_carries_message(message);
    assert(sign_request(message).take(4) =~= seq![1u8, 0u8, 0u8, 0u8]);
}

/// Interprets `bytes` as UTF-8 text: a wrapper of `std::str::from_utf8`,
/// trusted to succeed exactly on valid UTF-8 and to give the decoded text.
#[verifier::external_body]
fn str_from_utf8(bytes: &[u8]) -> (r: Option<&str>)
    ensures
        r is Some <==> valid_utf8(bytes@),
        r matches Some(s) ==> s@ == decode_utf8(bytes@),
{
    std::str::from_utf8(bytes).ok()
}

impl<C> DeviceConnection<C> {
    /// The channel the connection talks over.
    pub closed spec fn channel(&self) -> C {
        self.connection
    }

    /// A connection over `connection`.
    pub fn new(connection: C) -> (d: Self)
        ensures
            d.channel() == connection,
    {
        DeviceConnection { connection }
    }

    /// The channel the connection talked over, given back.
    pub fn into_channel(self) -> (c: C)
        ensures
            c == self.channel(),
    {
        self.connection
    }
}

impl<E, C: Read<Error = E> + Write<Error = E>> DeviceConnection<C> {
    /// Sends one request frame and reads one response frame.
    fn request(&mut self, command: Command, payload: &[u8]) -> (r: Result<(u8, Vec<u8>), DeviceError<E>>)
        ensures
            r matches Ok((status, response)) ==> {
                &&& exchanged(old(self).channel(), final(self).channel(), command_byte(command), payload@)
                &&& status == response_status(old(self).channel().spec_incoming())
                &&& response@ == response_payload(old(self).channel().spec_incoming())
            },
            r is Err ==> exchange_failed(
                old(self).channel().spec_incoming(),
                old(self).channel().spec_room(),
                command_byte(command),
                payload@,
                r->Err_0,
            ),
            r matches Err(DeviceError::WriteFailed(_)) ==> final(self).channel().spec_incoming()
                == old(self).channel().spec_incoming(),
            final(self).channel().spec_outgoing() == old(self).channel().spec_outgoing() + sent_bytes(
                old(self).channel().spec_room(),
                command_byte(command),
                payload@,
            ),
    {
        match write_frame(&mut self.connection, command.into(), payload) {
            Ok(()) => {},
            Err(e) => {
                return Err(DeviceError::WriteFailed(e));
            },
        }
        let mut buf = vec![0u8; RESPONSE_BUF_LEN];
        match read_frame(&mut self.connection, buf.as_mut_slice()) {
            Ok((status, response)) => Ok((status, vstd::slice::slice_to_vec(response))),
            Err(e) => Err(DeviceError::ReadFailed(e)),
        }
    }

    /// Asks the device for its parameter set name.
    pub fn get_info(&mut self) -> (r: Result<String, DeviceError<E>>)
        ensures
            ({
                let incoming = old(self).channel().spec_incoming();
                let room = old(self).channel().spec_room();
                let name = info_name_bytes(response_payload(incoming));
                match r {
                    Ok(s) => {
                        &&& exchanged(old(self).channel(), final(self).channel(), 1, Seq::empty())
                        &&& response_status(incoming) == 0
                        &&& name is Some
                        &&& valid_utf8(name->Some_0)
                        &&& s@ == decode_utf8(name->Some_0)
                    },
                    Err(e) => {
                        &&& info_failed(incoming, room, e)
                        &&& sends(room, 1, Seq::empty()) && response_ready(incoming) ==> exchanged(
                            old(self).channel(),
                            final(self).channel(),
                            1,
                            Seq::empty(),
                        )
                    },
                }
            }),
            r matches Err(DeviceError::WriteFailed(_)) ==> final(self).channel().spec_incoming()
                == old(self).channel().spec_incoming(),
            final(self).channel().spec_outgoing() == old(self).channel().spec_outgoing() + sent_bytes(
                old(self).channel().spec_room(),
                1,
                Seq::empty(),
            ),
    {
        let empty: [u8; 0] = [];
        let (status, payload) = self.request(Command::GetInfo, &empty)?;
        if status != 0 {
            return Err(DeviceError::Status { command: Command::GetInfo, status });
        }
        if payload.len() < 2 {
            return Err(DeviceError::ResponseTooShort);
        }
        let name_len = payload[1] as usize;
        if payload.len() < 2 + name_len {
            return Err(DeviceError::ResponseTruncated);
        }
        let name_bytes = vstd::slice::slice_subrange(payload.as_slice(), 2, 2 + name_len);
        match str_from_utf8(name_bytes) {
            Some(name) => Ok(name.to_owned()),
            None => Err(DeviceError::InvalidName(vstd::slice::slice_to_vec(name_bytes))),
        }
    }

    /// Asks the device for the public key of object `handle`.
    pub fn get_public_key(&mut self, handle: u32) -> (r: Result<Vec<u8>, DeviceError<E>>)
        ensures
            ({
                let incoming = old(self).channel().spec_incoming();
                let room = old(self).channel().spec_room();
                match r {
                    Ok(response) => {
                        &&& exchanged(old(self).channel(), final(self).channel(), 3, le_u32_bytes(handle))
                        &&& response_status(incoming) == 0
                        &&& response@ == response_payload(incoming)
                    },
                    Err(e) => {
                        &&& reply_failed(incoming, room, Command::GetPublicKey, le_u32_bytes(handle), e)
                        &&& sends(room, 3, le_u32_bytes(handle)) && response_ready(incoming) ==> exchanged(
                            old(self).channel(),
                            final(self).channel(),
                            3,
                            le_u32_bytes(handle),
                        )
                    },
                }
            }),
            r matches Err(DeviceError::WriteFailed(_)) ==> final(self).channel().spec_incoming()
                == old(self).channel().spec_incoming(),
            final(self).channel().spec_outgoing() == old(self).channel().spec_outgoing() + sent_bytes(
                old(self).channel().spec_room(),
                3,
                le_u32_bytes(handle),
            ),
    {
        let request = u32_to_le_bytes(handle);
        let (status, payload) = self.request(Command::GetPublicKey, &request)?;
        if status != 0 {
            return Err(DeviceError::Status { command: Command::GetPublicKey, status });
        }
        Ok(payload)
    }

    /// Asks the device to sign `message` with the key of the fixed object.
    pub fn sign(&mut self, message: &[u8]) -> (r: Result<Vec<u8>, DeviceError<E>>)
        ensures
            ({
                let incoming = old(self).channel().spec_incoming();
                let room = old(self).channel().spec_room();
                match r {
                    Ok(response) => {
                        &&& exchanged(old(self).channel(), final(self).channel(), 4, sign_request(message@))
                        &&& response_status(incoming) == 0
                        &&& response@ == response_payload(incoming)
                    },
                    Err(e) => {
                        &&& reply_failed(incoming, room, Command::Sign, sign_request(message@), e)
                        &&& sends(room, 4, sign_request(message@)) && response_ready(incoming) ==> exchanged(
                            old(self).channel(),
                            final(self).channel(),
                            4,
                            sign_request(message@),
                        )
                    },
                }
            }),
            r matches Err(DeviceError::WriteFailed(_)) ==> final(self).channel().spec_incoming()
                == old(self).channel().spec_incoming(),
            final(self).channel().spec_outgoing() == old(self).channel().spec_outgoing() + sent_bytes(
                old(self).channel().spec_room(),
                4,
                sign_request(message@),
            ),
    {
        let handle = u32_to_le_bytes(FIXED_OBJECT_HANDLE);
        let mut payload: Vec<u8> = Vec::new();
        payload.extend_from_slice(&handle);
        payload.extend_from_slice(message);
        assert(payload@ =~= sign_request(message@));
        let (status, response) = self.request(Command::Sign, payload.as_slice())?;
        if status != 0 {
            return Err(DeviceError::Status { command: Command::Sign, status });
        }
        Ok(response)
    }
}

} // verus!
