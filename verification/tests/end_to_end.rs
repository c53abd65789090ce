use std::collections::VecDeque;
use std::io::Cursor;

use pqc_hsm::dev_backend::{DevBackend, DevBackendError};
use pqc_hsm::device::{DeviceConnection, DeviceError};
use pqc_hsm::frame::{read_frame, write_frame, ByteChannel, Read, ReadFrameError, Write};
use pqc_hsm::params::ParamSet;
use pqc_hsm::pkcs11::{
    CKM_SLH_DSA_SHA2_VENDOR, CKO_PRIVATE_KEY, CKO_PUBLIC_KEY, CKR_OK, CKR_OPERATION_NOT_INITIALIZED,
    CKR_SESSION_HANDLE_INVALID, PRIVATE_KEY_HANDLE, PUBLIC_KEY_HANDLE,
};
use pqc_hsm::server::{
    completion_signal, handle_connection, serve_request, shows_activity, ServeStep, Signal, REQUEST_BUF_LEN,
};
use pqc_hsm::state::{ProviderError, ProviderState, SignOutcome};
use pqc_hsm::wire::{dispatch, Command, SigningBackend, Status};
use slh_dsa::signature::Verifier;

/// One side of a request: the bytes to read come from `input`, written bytes go to `output`.
struct Duplex {
    input: Cursor<Vec<u8>>,
    output: Vec<u8>,
}

impl ByteChannel for Duplex {}

impl Read for Duplex {
    type Error = std::io::Error;

    fn read_exact(&mut self, buf: &mut [u8]) -> Result<(), Self::Error> {
        std::io::Read::read_exact(&mut self.input, buf)
    }
}

impl Write for Duplex {
    type Error = std::io::Error;

    fn write_all(&mut self, buf: &[u8]) -> Result<(), Self::Error> {
        self.output.extend_from_slice(buf);
        Ok(())
    }
}

/// A channel to a software token: every complete request frame written to it
/// is served at once, and the response becomes readable.
struct TokenLink {
    backend: DevBackend,
    requests: Vec<u8>,
    responses: VecDeque<u8>,
}

impl TokenLink {
    fn pump(&mut self) {
        while self.requests.len() >= 4 {
            let len = u32::from_le_bytes(self.requests[..4].try_into().unwrap()) as usize;
            if self.requests.len() < 4 + len {
                return;
            }
            let frame: Vec<u8> = self.requests.drain(..4 + len).collect();
            let mut side = Duplex { input: Cursor::new(frame), output: Vec::new() };
            let mut request_buf = vec![0u8; 4096];
            let mut response_buf = vec![0u8; 65536];
            let step = serve_request(&mut side, &mut self.backend, &mut request_buf, &mut response_buf);
            assert!(matches!(step, ServeStep::Served { .. }));
            self.responses.extend(side.output);
        }
    }
}

impl ByteChannel for TokenLink {}

impl Read for TokenLink {
    type Error = std::io::Error;

    fn read_exact(&mut self, buf: &mut [u8]) -> Result<(), Self::Error> {
        if self.responses.len() < buf.len() {
            return Err(std::io::ErrorKind::UnexpectedEof.into());
        }
        for b in buf.iter_mut() {
            *b = self.responses.pop_front().unwrap();
        }
        Ok(())
    }
}

impl Write for TokenLink {
    type Error = std::io::Error;

    fn write_all(&mut self, buf: &[u8]) -> Result<(), Self::Error> {
        self.requests.extend_from_slice(buf);
        self.pump();
        Ok(())
    }
}

fn fresh_backend(name: &str, sk_len: usize, pk_len: usize) -> DevBackend {
    let mut backend = DevBackend::from_key_files(name, &vec![0u8; sk_len], &vec![0u8; pk_len]).unwrap();
    assert!(backend.generate_keypair());
    backend
}

#[test]
fn key_files_are_checked() {
    assert_eq!(
        DevBackend::from_key_files("512x", &[0u8; 64], &[0u8; 32]).err(),
        Some(DevBackendError::UnknownParameterSet("512x".to_string()))
    );
    assert_eq!(
        DevBackend::from_key_files("128f", &[0u8; 63], &[0u8; 32]).err(),
        Some(DevBackendError::InvalidSecretKey(ParamSet::Sha2_128f))
    );
    let backend = DevBackend::from_key_files("256s", &[7u8; 128], &[5u8; 64]).unwrap();
    assert_eq!(backend.param_set_name(), "256s");
    assert_eq!(backend.public_key(), &[5u8; 64][..]);
}

#[test]
fn generated_public_key_is_the_tail_of_the_secret_key() {
    let backend = fresh_backend("128f", 64, 32);
    let pk = backend.public_key().to_vec();
    assert_eq!(pk.len(), 32);
    assert_ne!(pk, vec![0u8; 32]);
}

#[test]
fn software_signatures_verify_under_the_public_key() {
    let backend = fresh_backend("128f", 64, 32);
    let message = b"hello from pqc-dev-hsm";
    let mut out = vec![0u8; 17088];
    let n = backend.sign(message, &mut out).unwrap();
    assert_eq!(n, 17088);
    let vk = slh_dsa::VerifyingKey::<slh_dsa::Sha2_128f>::try_from(backend.public_key()).unwrap();
    let sig = slh_dsa::Signature::<slh_dsa::Sha2_128f>::try_from(&out[..n]).unwrap();
    assert!(vk.verify(message, &sig).is_ok());
    assert!(vk.verify(b"another message", &sig).is_err());

    let mut small = vec![0u8; 100];
    assert!(backend.sign(message, &mut small).is_err());
}

#[test]
fn dispatch_signs_with_the_software_backend() {
    let mut backend = fresh_backend("128f", 64, 32);
    let mut request = 1u32.to_le_bytes().to_vec();
    request.extend_from_slice(b"payload");
    let mut out = vec![0u8; 65536];
    let (status, len) = dispatch(u8::from(Command::Sign), &request, &mut backend, &mut out);
    assert_eq!(status, Status::Success);
    assert_eq!(len, 17088);
    let vk = slh_dsa::VerifyingKey::<slh_dsa::Sha2_128f>::try_from(backend.public_key()).unwrap();
    let sig = slh_dsa::Signature::<slh_dsa::Sha2_128f>::try_from(&out[..len]).unwrap();
    assert!(vk.verify(b"payload", &sig).is_ok());

    let mut small = vec![0u8; 64];
    let (status, len) = dispatch(u8::from(Command::Sign), &request, &mut backend, &mut small);
    assert_eq!((status, len), (Status::SigningFailed, 0));
}

#[test]
fn server_answers_a_framed_request() {
    let mut backend = fresh_backend("128f", 64, 32);
    let mut request = Vec::new();
    let mut writer = Duplex { input: Cursor::new(Vec::new()), output: Vec::new() };
    write_frame(&mut writer, u8::from(Command::GetInfo), &[]).unwrap();
    request.extend(writer.output);

    let mut side = Duplex { input: Cursor::new(request), output: Vec::new() };
    let mut request_buf = vec![0u8; 16];
    let mut response_buf = vec![0u8; 64];
    match serve_request(&mut side, &mut backend, &mut request_buf, &mut response_buf) {
        ServeStep::Served { status, len } => {
            assert_eq!(status, Status::Success);
            assert_eq!(len, 6);
        }
        other => panic!("unexpected step {:?}", other),
    }
    let mut reader = Duplex { input: Cursor::new(side.output), output: Vec::new() };
    let mut buf = [0u8; 64];
    let (kind, payload) = read_frame(&mut reader, &mut buf).unwrap();
    assert_eq!(kind, 0);
    assert_eq!(payload, &[1, 4, b'1', b'2', b'8', b'f']);

    let mut empty = Duplex { input: Cursor::new(Vec::new()), output: Vec::new() };
    assert!(matches!(
        serve_request(&mut empty, &mut backend, &mut request_buf, &mut response_buf),
        ServeStep::ReadFailed(_)
    ));
}

#[test]
fn server_drops_oversized_requests() {
    let mut backend = fresh_backend("128f", 64, 32);
    let mut writer = Duplex { input: Cursor::new(Vec::new()), output: Vec::new() };
    write_frame(&mut writer, u8::from(Command::Sign), &[0u8; 40]).unwrap();
    write_frame(&mut writer, u8::from(Command::ListObjects), &[]).unwrap();
    let mut side = Duplex { input: Cursor::new(writer.output), output: Vec::new() };
    let mut request_buf = vec![0u8; 16];
    let mut response_buf = vec![0u8; 64];
    assert!(matches!(
        serve_request(&mut side, &mut backend, &mut request_buf, &mut response_buf),
        ServeStep::Dropped { declared: 41, max: 16 }
    ));
    assert!(matches!(
        serve_request(&mut side, &mut backend, &mut request_buf, &mut response_buf),
        ServeStep::Served { status: Status::Success, len: 5 }
    ));
}

#[test]
fn only_signing_and_key_generation_show_activity() {
    assert!(shows_activity(4));
    assert!(shows_activity(5));
    for b in [0u8, 1, 2, 3, 6, 7, 255] {
        assert!(!shows_activity(b));
    }
}

#[test]
fn completion_light_follows_the_status() {
    assert_eq!(completion_signal(4, Status::Success), Some(Signal::Success));
    assert_eq!(completion_signal(5, Status::Success), Some(Signal::Success));
    assert_eq!(completion_signal(4, Status::SigningFailed), Some(Signal::Failure));
    assert_eq!(completion_signal(5, Status::NotImplemented), Some(Signal::Failure));
    assert_eq!(completion_signal(1, Status::Success), None);
    assert_eq!(completion_signal(3, Status::NotFound), None);
}

#[test]
fn device_client_reads_name_and_key() {
    let backend = fresh_backend("128f", 64, 32);
    let pk = backend.public_key().to_vec();
    let link = TokenLink { backend, requests: Vec::new(), responses: VecDeque::new() };
    let mut device = DeviceConnection::new(link);
    assert_eq!(device.get_info().unwrap(), "128f");
    assert_eq!(device.get_public_key(1).unwrap(), pk);
    match device.get_public_key(2) {
        Err(DeviceError::Status { command, status }) => {
            assert_eq!(command, Command::GetPublicKey);
            assert_eq!(status, u8::from(Status::NotFound));
        }
        other => panic!("unexpected {:?}", other.map(|v| v.len())),
    }
}

#[test]
fn sign_a_message_through_the_provider_against_a_software_token() {
    let backend = fresh_backend("128f", 64, 32);
    let pk = backend.public_key().to_vec();
    let link = TokenLink { backend, requests: Vec::new(), responses: VecDeque::new() };
    let mut state = ProviderState::new(link).ok().expect("handshake failed");
    assert_eq!(state.param_set_name, "128f");
    assert_eq!(state.public_key, pk);
    assert_eq!(state.signature_len, 17088);

    let session = state.sessions.open_session();
    assert_eq!(state.sessions.find_objects_init(session, Some(CKO_PRIVATE_KEY)), CKR_OK);
    assert_eq!(state.sessions.find_objects(session, 10), Ok(vec![PRIVATE_KEY_HANDLE]));
    assert_eq!(state.sessions.find_objects_init(session, Some(CKO_PUBLIC_KEY)), CKR_OK);
    assert_eq!(state.sessions.find_objects(session, 10), Ok(vec![PUBLIC_KEY_HANDLE]));

    let message = b"send a value over PKCS#11 and get a signature back";
    assert_eq!(state.sign(session, Some(17088), message), SignOutcome::Failed(CKR_OPERATION_NOT_INITIALIZED));
    assert_eq!(state.sessions.sign_init(session, CKM_SLH_DSA_SHA2_VENDOR, PRIVATE_KEY_HANDLE), CKR_OK);
    assert_eq!(state.sign_precheck(session, Some(100)), Some(SignOutcome::BufferTooSmall(17088)));
    assert_eq!(state.sign_precheck(session, Some(17088)), None);
    assert_eq!(state.sign(session, None, message), SignOutcome::Length(17088));
    assert_eq!(state.sign(session, Some(100), message), SignOutcome::BufferTooSmall(17088));
    let signature = match state.sign(session, Some(20000), message) {
        SignOutcome::Signature(sig) => sig,
        other => panic!("unexpected {:?}", other),
    };
    assert_eq!(signature.len(), 17088);
    assert_eq!(state.sign(session, Some(20000), message), SignOutcome::Failed(CKR_OPERATION_NOT_INITIALIZED));
    assert_eq!(state.sign(session + 1, Some(20000), message), SignOutcome::Failed(CKR_SESSION_HANDLE_INVALID));

    let vk = slh_dsa::VerifyingKey::<slh_dsa::Sha2_128f>::try_from(pk.as_slice()).unwrap();
    let sig = slh_dsa::Signature::<slh_dsa::Sha2_128f>::try_from(signature.as_slice()).unwrap();
    assert!(vk.verify(message, &sig).is_ok());

    let info = state.token_info();
    assert_eq!(info.model, b"slh-dsa-128f    ".to_vec());
    assert_eq!(info.session_count, 1);
    assert_eq!(info.label, b"pqc-dev-hsm                     ".to_vec());
}

#[test]
fn provider_refuses_an_unknown_parameter_set() {
    struct OddBackend;
    impl SigningBackend for OddBackend {
        fn param_set_name(&self) -> &str {
            "999x"
        }
        fn public_key(&self) -> &[u8] {
            &[1, 2]
        }
        fn sign(&self, _message: &[u8], _out: &mut [u8]) -> Result<usize, ()> {
            Err(())
        }
        fn generate_keypair(&mut self) -> bool {
            false
        }
    }
    // Serve the two handshake requests by hand.
    let mut responses = Vec::new();
    for command in [Command::GetInfo, Command::GetPublicKey] {
        let mut out = [0u8; 64];
        let payload = if command == Command::GetPublicKey { 1u32.to_le_bytes().to_vec() } else { vec![] };
        let (status, len) = dispatch(u8::from(command), &payload, &mut OddBackend, &mut out);
        let mut w = Duplex { input: Cursor::new(Vec::new()), output: Vec::new() };
        write_frame(&mut w, u8::from(status), &out[..len]).unwrap();
        responses.extend(w.output);
    }
    let channel = Duplex { input: Cursor::new(responses), output: Vec::new() };
    match ProviderState::new(channel) {
        Err(ProviderError::UnknownParameterSet(name)) => assert_eq!(name, "999x"),
        _ => panic!("expected an unknown parameter set"),
    }
}

/// A sink that takes a fixed number of bytes, then fails.
struct Bounded {
    room: usize,
    written: Vec<u8>,
}

impl ByteChannel for Bounded {}

impl Write for Bounded {
    type Error = ();

    fn write_all(&mut self, buf: &[u8]) -> Result<(), ()> {
        if buf.len() > self.room {
            self.written.extend_from_slice(&buf[..self.room]);
            self.room = 0;
            return Err(());
        }
        self.room -= buf.len();
        self.written.extend_from_slice(buf);
        Ok(())
    }
}

#[test]
fn write_frame_succeeds_exactly_when_the_frame_fits() {
    let mut sink = Bounded { room: 8, written: Vec::new() };
    assert!(write_frame(&mut sink, 4, &[1, 2, 3]).is_ok());
    assert_eq!(sink.written, vec![4, 0, 0, 0, 4, 1, 2, 3]);
    assert_eq!(sink.room, 0);

    let mut sink = Bounded { room: 7, written: Vec::new() };
    assert!(write_frame(&mut sink, 4, &[1, 2, 3]).is_err());
    assert_eq!(sink.written, vec![4, 0, 0, 0, 4, 1, 2]);
    assert_eq!(sink.room, 0);

    let mut sink = Bounded { room: 3, written: Vec::new() };
    assert!(write_frame(&mut sink, 4, &[]).is_err());
}

#[test]
fn empty_buffer_reads_report_instead_of_hanging() {
    let mut buf: [u8; 0] = [];
    let mut side = Duplex { input: Cursor::new(vec![1, 0]), output: Vec::new() };
    assert!(matches!(read_frame(&mut side, &mut buf), Err(ReadFrameError::Io(_))));

    let mut side = Duplex { input: Cursor::new(vec![0, 0, 0, 0, 9]), output: Vec::new() };
    assert!(matches!(
        read_frame(&mut side, &mut buf),
        Err(ReadFrameError::FrameTooLarge { declared: 0, max: 0 })
    ));
}

#[test]
fn read_frame_leaves_the_frame_at_the_front_of_the_buffer() {
    let mut buf = [0xEEu8; 8];
    let mut side = Duplex { input: Cursor::new(vec![3, 0, 0, 0, 4, 7, 8, 1]), output: Vec::new() };
    let (kind, payload) = read_frame(&mut side, &mut buf).unwrap();
    assert_eq!(kind, 4);
    assert_eq!(payload, &[7, 8]);
    assert_eq!(&buf[..3], &[4, 7, 8]);
}

#[test]
fn a_connection_gets_one_reply_per_request_in_order() {
    let mut backend = fresh_backend("128f", 64, 32);
    let mut writer = Duplex { input: Cursor::new(Vec::new()), output: Vec::new() };
    write_frame(&mut writer, u8::from(Command::GetInfo), &[]).unwrap();
    let mut input = writer.output.clone();
    input.extend_from_slice(&[0, 0, 0, 0]);
    writer.output.clear();
    write_frame(&mut writer, u8::from(Command::ListObjects), &[]).unwrap();
    write_frame(&mut writer, 9, &[]).unwrap();
    input.extend(writer.output);

    let mut side = Duplex { input: Cursor::new(input), output: Vec::new() };
    let (dropped, end) = handle_connection(&mut side, &mut backend);
    assert_eq!(dropped, vec![(0, REQUEST_BUF_LEN)]);
    assert!(matches!(end, ServeStep::ReadFailed(_)));

    let mut reader = Duplex { input: Cursor::new(side.output), output: Vec::new() };
    let mut buf = [0u8; 64];
    let (kind, payload) = read_frame(&mut reader, &mut buf).unwrap();
    assert_eq!((kind, payload.to_vec()), (0, vec![1, 4, b'1', b'2', b'8', b'f']));
    let (kind, payload) = read_frame(&mut reader, &mut buf).unwrap();
    assert_eq!((kind, payload.to_vec()), (0, vec![1, 1, 0, 0, 0]));
    let (kind, payload) = read_frame(&mut reader, &mut buf).unwrap();
    assert_eq!((kind, payload.to_vec()), (1, vec![]));
    assert!(read_frame(&mut reader, &mut buf).is_err());
}

#[test]
fn a_failed_get_info_sends_nothing_more_and_returns_the_channel() {
    let mut reply = Duplex { input: Cursor::new(Vec::new()), output: Vec::new() };
    write_frame(&mut reply, u8::from(Status::NotFound), &[]).unwrap();
    let channel = Duplex { input: Cursor::new(reply.output), output: Vec::new() };
    match ProviderState::new(channel) {
        Err(ProviderError::Device(DeviceError::Status { command, status }, channel)) => {
            assert_eq!(command, Command::GetInfo);
            assert_eq!(status, 3);
            assert_eq!(channel.output, vec![1, 0, 0, 0, 1]);
        }
        _ => panic!("expected a GetInfo status error"),
    }
}
