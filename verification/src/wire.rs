//! The request/response protocol spoken between a host and a signing token.

use vstd::prelude::*;
use vstd::string::StringSliceAdditionalSpecFns;
use vstd::std_specs::convert::{FromSpecImpl, TryFromSpecImpl};
use core::convert::TryFrom;
use crate::codec::{le_u32_bytes, le_u32_value, u32_from_le_bytes, u32_to_le_bytes};

verus! {

/// Version of the protocol reported by `GetInfo`.
pub const PROTOCOL_VERSION: u8 = 1;

/// The handle of the single key object a token exposes.
pub const FIXED_OBJECT_HANDLE: u32 = 1;

/// Bytes in front of a frame's payload: the length word and the kind byte.
pub const HEADER_LEN: usize = 5;

/// A request a host can send to a token.
#[derive(Debug, Clone, Copy, PartialEq, Eq, Structural)]
pub enum Command {
    GetInfo,
    ListObjects,
    GetPublicKey,
    Sign,
    GenerateKeypair,
    DeleteObject,
}

/// The wire byte of a command.
pub open spec fn command_byte(c: Command) -> u8 {
    match c {
        Command::GetInfo => 1,
        Command::ListObjects => 2,
        Command::GetPublicKey => 3,
        Command::Sign => 4,
        Command::GenerateKeypair => 5,
        Command::DeleteObject => 6,
    }
}

/// The command a wire byte names, if any.
pub open spec fn command_of(byte: u8) -> Option<Command> {
    if byte == 1 {
        Some(Command::GetInfo)
    } else if byte == 2 {
        Some(Command::ListObjects)
    } else if byte == 3 {
        Some(Command::GetPublicKey)
    } else if byte == 4 {
        Some(Command::Sign)
    } else if byte == 5 {
        Some(Command::GenerateKeypair)
    } else if byte == 6 {
        Some(Command::DeleteObject)
    } else {
        None
    }
}

impl TryFrom<u8> for Command {
    type Error = ();

    fn try_from(byte: u8) -> (r: Result<Command, ()>) {
        match byte {
            1 => Ok(Command::GetInfo),
            2 => Ok(Command::ListObjects),
            3 => Ok(Command::GetPublicKey),
            4 => Ok(Command::Sign),
            5 => Ok(Command::GenerateKeypair),
            6 => Ok(Command::DeleteObject),
            _ => Err(()),
        }
    }
}

impl TryFromSpecImpl<u8> for Command {
    open spec fn obeys_try_from_spec() -> bool {
        true
    }

    open spec fn try_from_spec(byte: u8) -> Result<Command, ()> {
        match command_of(byte) {
            Some(c) => Ok(c),
            None => Err(()),
        }
    }
}

impl From<Command> for u8 {
    fn from(command: Command) -> (r: u8) {
        match command {
            Command::GetInfo => 1,
            Command::ListObjects => 2,
            Command::GetPublicKey => 3,
            Command::Sign => 4,
            Command::GenerateKeypair => 5,
            Command::DeleteObject => 6,
        }
    }
}

impl FromSpecImpl<Command> for u8 {
    open spec fn obeys_from_spec() -> bool {
        true
    }

    open spec fn from_spec(command: Command) -> u8 {
        command_byte(command)
    }
}

/// The outcome a token reports for a request.
#[derive(Debug, Clone, Copy, PartialEq, Eq, Structural)]
pub enum Status {
    Success,
    UnknownCommand,
    BadRequest,
    NotFound,
    SigningFailed,
    NotImplemented,
    BufferTooSmall,
}

/// The wire byte of a status.
pub open spec fn status_byte(s: Status) -> u8 {
    match s {
        Status::Success => 0,
        Status::UnknownCommand => 1,
        Status::BadRequest => 2,
        Status::NotFound => 3,
        Status::SigningFailed => 4,
        Status::NotImplemented => 5,
        Status::BufferTooSmall => 6,
    }
}

impl From<Status> for u8 {
    fn from(status: Status) -> (r: u8) {
        match status {
            Status::Success => 0,
            Status::UnknownCommand => 1,
            Status::BadRequest => 2,
            Status::NotFound => 3,
            Status::SigningFailed => 4,
            Status::NotImplemented => 5,
            Status::BufferTooSmall => 6,
        }
    }
}

impl FromSpecImpl<Status> for u8 {
    open spec fn obeys_from_spec() -> bool {
        true
    }

    open spec fn from_spec(status: Status) -> u8 {
        status_byte(status)
    }
}

/// Each command byte names back the command it encodes, and no other byte names it.
pub proof fn lemma_command_byte_roundtrip(c: Command, byte: u8)
    ensures
        command_of(command_byte(c)) == Some(c),
        command_of(byte) == Some(c) ==> byte == command_byte(c),
{
}


/// What a token computes with: a parameter set name, a key pair, a signer.
///
/// Implementations describe themselves to the verifier through the three
/// specification functions; `dispatch` relies on nothing else. An
/// implementation that is verified defines them; the defaults name some value
/// that nothing here knows.
pub trait SigningBackend: Sized {
    /// The UTF-8 bytes of the parameter set name.
    closed spec fn spec_name_bytes(&self) -> Seq<u8> {
        arbitrary()
    }

    /// The bytes of the current public key.
    closed spec fn spec_public_key(&self) -> Seq<u8> {
        arbitrary()
    }

    /// Whether `signature` is a signature this backend produces over `message`.
    closed spec fn spec_signs(&self, message: Seq<u8>, signature: Seq<u8>) -> bool {
        arbitrary()
    }

    /// Whether the backend signs `message` into a buffer of `capacity` bytes.
    closed spec fn spec_sign_ok(&self, message: Seq<u8>, capacity: nat) -> bool {
        arbitrary()
    }

    /// Whether the backend generates a fresh key pair when asked.
    closed spec fn spec_keygen_ok(&self) -> bool {
        arbitrary()
    }

    /// The parameter set name, such as `192f`.
    fn param_set_name(&self) -> (name: &str)
        ensures
            name.spec_bytes() == self.spec_name_bytes(),
    ;

    /// The current public key.
    fn public_key(&self) -> (key: &[u8])
        ensures
            key@ == self.spec_public_key(),
    ;

    /// Signs `message` into the front of `out` and returns the signature's
    /// length; fails exactly where `spec_sign_ok` says.
    fn sign(&self, message: &[u8], out: &mut [u8]) -> (r: Result<usize, ()>)
        ensures
            final(out)@.len() == old(out)@.len(),
            (r is Ok) == self.spec_sign_ok(message@, old(out)@.len()),
            r matches Ok(n) ==> n <= old(out)@.len() && self.spec_signs(
                message@,
                final(out)@.take(n as int),
            ),
    ;

    /// Replaces the key pair by a fresh one; false, with the backend left as
    /// it was, where the backend cannot.
    fn generate_keypair(&mut self) -> (generated: bool)
        ensures
            generated == old(self).spec_keygen_ok(),
            !generated ==> *final(self) == *old(self),
    ;
}

/// The object handle at the front of a request payload, if the payload holds one.
pub open spec fn spec_read_handle(payload: Seq<u8>) -> Option<u32> {
    if payload.len() >= 4 {
        Some(le_u32_value(payload.take(4)) as u32)
    } else {
        None
    }
}

/// Reads the little-endian object handle at the front of a request payload.
pub fn read_handle(payload: &[u8]) -> (r: Option<u32>)
    ensures
        r == spec_read_handle(payload@),
{
    if payload.len() < 4 {
        return None;
    }
    Some(u32_from_le_bytes(payload))
}

/// Writes `src` into `dst` from position `at` on.
pub fn copy_into(dst: &mut [u8], at: usize, src: &[u8])
    requires
        at + src@.len() <= old(dst)@.len(),
    ensures
        final(dst)@ == old(dst)@.take(at as int) + src@ + old(dst)@.skip(at + src@.len()),
{
    let ghost orig = dst@;
    let mut i: usize = 0;
    while i < src.len()
        invariant
            at + src@.len() <= orig.len(),
            i <= src@.len(),
            dst@.len() == orig.len(),
            dst.len() == orig.len(),
            forall|k: int| 0 <= k < at ==> dst@[k] == orig[k],
            forall|k: int| 0 <= k < i ==> dst@[at + k] == src@[k],
            forall|k: int| at + i <= k < orig.len() ==> dst@[k] == orig[k],
        decreases src@.len() - i,
    {
        dst[at + i] = src[i];
        i = i + 1;
    }
    assert(dst@ =~= orig.take(at as int) + src@ + orig.skip(at + src@.len()));
}


/// Reply to a request for the public key: the key, where it fits.
pub open spec fn key_reply(key: Seq<u8>, capacity: nat) -> (Status, Seq<u8>) {
    if capacity < key.len() {
        (Status::BufferTooSmall, Seq::empty())
    } else {
        (Status::Success, key)
    }
}

/// Reply to `GetInfo`: the protocol version, the name's length and the name.
pub open spec fn info_reply(name: Seq<u8>, capacity: nat) -> (Status, Seq<u8>) {
    if capacity < 2 + name.len() || name.len() > 255 {
        (Status::BufferTooSmall, Seq::empty())
    } else {
        (Status::Success, seq![PROTOCOL_VERSION, name.len() as u8] + name)
    }
}

/// Reply to `ListObjects`: a count of one and the fixed handle.
pub open spec fn objects_reply(capacity: nat) -> (Status, Seq<u8>) {
    if capacity < 5 {
        (Status::BufferTooSmall, Seq::empty())
    } else {
        (Status::Success, seq![1u8] + le_u32_bytes(FIXED_OBJECT_HANDLE))
    }
}

/// The reply to a request wherever the backend's signer and key generator do
/// not decide it; `None` where they do.
pub open spec fn fixed_reply(
    command: u8,
    payload: Seq<u8>,
    name: Seq<u8>,
    key: Seq<u8>,
    capacity: nat,
) -> Option<(Status, Seq<u8>)> {
    match command_of(command) {
        None => Some((Status::UnknownCommand, Seq::empty())),
        Some(Command::GetInfo) => Some(info_reply(name, capacity)),
        Some(Command::ListObjects) => Some(objects_reply(capacity)),
        Some(Command::GetPublicKey) => match spec_read_handle(payload) {
            None => Some((Status::BadRequest, Seq::empty())),
            Some(h) => if h != FIXED_OBJECT_HANDLE {
                Some((Status::NotFound, Seq::empty()))
            } else {
                Some(key_reply(key, capacity))
            },
        },
        Some(Command::Sign) => match spec_read_handle(payload) {
            None => Some((Status::BadRequest, Seq::empty())),
            Some(h) => if h != FIXED_OBJECT_HANDLE {
                Some((Status::NotFound, Seq::empty()))
            } else {
                None
            },
        },
        Some(Command::GenerateKeypair) => None,
        Some(Command::DeleteObject) => Some((Status::NotImplemented, Seq::empty())),
    }
}

/// `data` written over the front of `buf`.
pub open spec fn written_over(buf: Seq<u8>, data: Seq<u8>) -> Seq<u8> {
    data + buf.skip(data.len() as int)
}

/// The outcome of handling request `command` with payload `payload`:
/// `backend` became `backend2`, the response buffer went from `before` to
/// `after`, and the status `status` with `len` bytes of response data was
/// returned.
pub open spec fn dispatched<B: SigningBackend>(
    command: u8,
    payload: Seq<u8>,
    backend: B,
    backend2: B,
    before: Seq<u8>,
    after: Seq<u8>,
    status: Status,
    len: usize,
) -> bool {
    &&& after.len() == before.len()
    &&& len <= before.len()
    &&& match fixed_reply(
        command,
        payload,
        backend.spec_name_bytes(),
        backend.spec_public_key(),
        before.len(),
    ) {
        Some((s, data)) => {
            &&& status == s
            &&& len == data.len()
            &&& after == written_over(before, data)
            &&& backend2 == backend
        },
        None => command_of(command) == Some(Command::Sign) && {
            &&& backend2 == backend
            &&& (status == Status::Success) == backend.spec_sign_ok(payload.skip(4), before.len())
            &&& status == Status::Success ==> backend.spec_signs(
                payload.skip(4),
                after.take(len as int),
            )
            &&& status != Status::Success ==> status == Status::SigningFailed && len == 0
        } || command_of(command) == Some(Command::GenerateKeypair) && if !backend.spec_keygen_ok() {
            &&& status == Status::NotImplemented
            &&& len == 0
            &&& after == before
            &&& backend2 == backend
        } else {
            let (s, data) = key_reply(backend2.spec_public_key(), before.len());
            &&& status == s
            &&& len == data.len()
            &&& after == written_over(before, data)
        },
    }
}

/// The wire bytes of the protocol. Commands: GetInfo 1, ListObjects 2,
/// GetPublicKey 3, Sign 4, GenerateKeypair 5, DeleteObject 6, and no other
/// byte names a command. Statuses: Success 0, UnknownCommand 1, BadRequest 2,
/// NotFound 3, SigningFailed 4, NotImplemented 5, BufferTooSmall 6.
pub proof fn lemma_wire_bytes(byte: u8)
    ensures
        command_byte(Command::GetInfo) == 1,
        command_byte(Command::ListObjects) == 2,
        command_byte(Command::GetPublicKey) == 3,
        command_byte(Command::Sign) == 4,
        command_byte(Command::GenerateKeypair) == 5,
        command_byte(Command::DeleteObject) == 6,
        (command_of(byte) == Some(Command::GetInfo)) == (byte == 1),
        (command_of(byte) == Some(Command::ListObjects)) == (byte == 2),
        (command_of(byte) == Some(Command::GetPublicKey)) == (byte == 3),
        (command_of(byte) == Some(Command::Sign)) == (byte == 4),
        (command_of(byte) == Some(Command::GenerateKeypair)) == (byte == 5),
        (command_of(byte) == Some(Command::DeleteObject)) == (byte == 6),
        (command_of(byte) is None) == (byte == 0 || byte > 6),
        status_byte(Status::Success) == 0,
        status_byte(Status::UnknownCommand) == 1,
        status_byte(Status::BadRequest) == 2,
        status_byte(Status::NotFound) == 3,
        status_byte(Status::SigningFailed) == 4,
        status_byte(Status::NotImplemented) == 5,
        status_byte(Status::BufferTooSmall) == 6,
{
}

/// A request with byte 2 (ListObjects) is answered, where the buffer holds
/// five bytes, with one object: the count 1, then handle 1 in little-endian
/// order; the backend is left as it was.
pub proof fn lemma_list_objects_answer<B: SigningBackend>(
    payload: Seq<u8>,
    backend: B,
    backend2: B,
    before: Seq<u8>,
    after: Seq<u8>,
    status: Status,
    len: usize,
)
    requires
        dispatched(2, payload, backend, backend2, before, after, status, len),
        before.len() >= 5,
    ensures
        status == Status::Success,
        len == 5,
        after.take(5) == seq![1u8, 1u8, 0u8, 0u8, 0u8],
        backend2 == backend,
{
    assert(after.take(5) =~= seq![1u8, 1u8, 0u8, 0u8, 0u8]);
}

/// A request with byte 6 (DeleteObject) is answered NotImplemented with no
/// data, and one with byte 0 or above 6 as an unknown command with no data;
/// neither touches the buffer or the backend.
pub proof fn lemma_refused_requests<B: SigningBackend>(
    command: u8,
    payload: Seq<u8>,
    backend: B,
    backend2: B,
    before: Seq<u8>,
    after: Seq<u8>,
    status: Status,
    len: usize,
)
    requires
        dispatched(command, payload, backend, backend2, before, after, status, len),
        command == 0 || command >= 6,
    ensures
        status == (if command == 6 { Status::NotImplemented } else { Status::UnknownCommand }),
        len == 0,
        after == before,
        backend2 == backend,
{
    assert(written_over(before, Seq::empty()) =~= before);
}

/// A successful `GenerateKeypair` or `GetPublicKey` answer is exactly the
/// backend's public key after the request, and nothing else.
pub proof fn lemma_key_replies_carry_only_the_public_key<B: SigningBackend>(
    command: u8,
    payload: Seq<u8>,
    backend: B,
    backend2: B,
    before: Seq<u8>,
    after: Seq<u8>,
    len: usize,
)
    requires
        command == command_byte(Command::GenerateKeypair) || command == command_byte(Command::GetPublicKey),
        dispatched(command, payload, backend, backend2, before, after, Status::Success, len),
    ensures
        after.take(len as int) == backend2.spec_public_key(),
        len == backend2.spec_public_key().len(),
{
    let data = if command == command_byte(Command::GenerateKeypair) {
        backend2.spec_public_key()
    } else {
        backend.spec_public_key()
    };
    assert(after.take(len as int) =~= data);
}

/// Handles one request: runs `command_byte` against `backend` and writes the
/// response data to the front of `response_buf`. Returns the status and the
/// length of the response data.
pub fn dispatch<B: SigningBackend>(
    command_byte: u8,
    request_payload: &[u8],
    backend: &mut B,
    response_buf: &mut [u8],
) -> (r: (Status, usize))
    ensures
        dispatched(
            command_byte,
            request_payload@,
            *old(backend),
            *final(backend),
            old(response_buf)@,
            final(response_buf)@,
            r.0,
            r.1,
        ),
{
    let command = match Command::try_from(command_byte) {
        Ok(c) => c,
        Err(()) => {
            assert(response_buf@ =~= written_over(response_buf@, Seq::empty()));
            return (Status::UnknownCommand, 0);
        },
    };
    let ghost before = response_buf@;
    assert(before =~= written_over(before, Seq::empty()));
    match command {
        Command::GetInfo => {
            let name = backend.param_set_name().as_bytes();
            if name.len() > 255 || response_buf.len() < 2 + name.len() {
                return (Status::BufferTooSmall, 0);
            }
            response_buf[0] = PROTOCOL_VERSION;
            response_buf[1] = name.len() as u8;
            copy_into(response_buf, 2, name);
            assert(response_buf@ =~= written_over(
                before,
                seq![PROTOCOL_VERSION, name.len() as u8] + name@,
            ));
            (Status::Success, 2 + name.len())
        },
        Command::ListObjects => {
            if response_buf.len() < 5 {
                return (Status::BufferTooSmall, 0);
            }
            response_buf[0] = 1;
            let handle = u32_to_le_bytes(FIXED_OBJECT_HANDLE);
            copy_into(response_buf, 1, &handle);
            assert(response_buf@ =~= written_over(before, seq![1u8] + le_u32_bytes(FIXED_OBJECT_HANDLE)));
            (Status::Success, 5)
        },
        Command::GetPublicKey => {
            let handle = match read_handle(request_payload) {
                Some(h) => h,
                None => {
                    return (Status::BadRequest, 0);
                },
            };
            if handle != FIXED_OBJECT_HANDLE {
                return (Status::NotFound, 0);
            }
            let pk = backend.public_key();
            if response_buf.len() < pk.len() {
                return (Status::BufferTooSmall, 0);
            }
            copy_into(response_buf, 0, pk);
            assert(response_buf@ =~= written_over(before, pk@));
            (Status::Success, pk.len())
        },
        Command::Sign => {
            let handle = match read_handle(request_payload) {
                Some(h) => h,
                None => {
                    return (Status::BadRequest, 0);
                },
            };
            if handle != FIXED_OBJECT_HANDLE {
                return (Status::NotFound, 0);
            }
            let message = &request_payload[4..request_payload.len()];
            assert(message@ =~= request_payload@.skip(4));
            match backend.sign(message, response_buf) {
                Ok(written) => (Status::Success, written),
                Err(()) => (Status::SigningFailed, 0),
            }
        },
        Command::GenerateKeypair => {
            if !backend.generate_keypair() {
                return (Status::NotImplemented, 0);
            }
            let pk = backend.public_key();
            if response_buf.len() < pk.len() {
                return (Status::BufferTooSmall, 0);
            }
            copy_into(response_buf, 0, pk);
            assert(response_buf@ =~= written_over(before, pk@));
            (Status::Success, pk.len())
        },
        Command::DeleteObject => (Status::NotImplemented, 0),
    }
}

} // verus!
