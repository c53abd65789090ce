use std::io::Cursor;

use pqc_hsm::frame::{read_frame, write_frame, ByteChannel, Read, ReadFrameError, Write};
use pqc_hsm::wire::{dispatch, Command, SigningBackend, Status, FIXED_OBJECT_HANDLE, PROTOCOL_VERSION};

struct MockBackend {
    param_set_name: &'static str,
    public_key: Vec<u8>,
    fail_signing: bool,
    supports_keygen: bool,
}

impl SigningBackend for MockBackend {
    fn param_set_name(&self) -> &str {
        self.param_set_name
    }

    fn public_key(&self) -> &[u8] {
        &self.public_key
    }

    fn sign(&self, message: &[u8], out: &mut [u8]) -> Result<usize, ()> {
        if self.fail_signing {
            return Err(());
        }
        let mut reversed = message.to_vec();
        reversed.reverse();
        if out.len() < reversed.len() {
            return Err(());
        }
        out[..reversed.len()].copy_from_slice(&reversed);
        Ok(reversed.len())
    }

    fn generate_keypair(&mut self) -> bool {
        if !self.supports_keygen {
            return false;
        }
        self.public_key = vec![0xAB; self.public_key.len()];
        true
    }
}

fn backend() -> MockBackend {
    MockBackend {
        param_set_name: "192f",
        public_key: vec![1, 2, 3, 4],
        fail_signing: false,
        supports_keygen: true,
    }
}

/// An in-memory byte stream: writes go to the current position, reads come from it.
struct Stream(Cursor<Vec<u8>>);

impl Stream {
    fn new() -> Self {
        Stream(Cursor::new(Vec::new()))
    }

    fn set_position(&mut self, pos: u64) {
        self.0.set_position(pos);
    }
}

impl ByteChannel for Stream {}

impl Read for Stream {
    type Error = std::io::Error;

    fn read_exact(&mut self, buf: &mut [u8]) -> Result<(), Self::Error> {
        std::io::Read::read_exact(&mut self.0, buf)
    }
}

impl Write for Stream {
    type Error = std::io::Error;

    fn write_all(&mut self, buf: &[u8]) -> Result<(), Self::Error> {
        std::io::Write::write_all(&mut self.0, buf)
    }
}

#[test]
fn get_info_reports_param_set_name() {
    let mut backend = backend();
    let mut out = [0u8; 64];
    let (status, len) = dispatch(u8::from(Command::GetInfo), &[], &mut backend, &mut out);
    assert_eq!(status, Status::Success);
    assert_eq!(out[0], PROTOCOL_VERSION);
    assert_eq!(out[1] as usize, "192f".len());
    assert_eq!(&out[2..len], b"192f");
}

#[test]
fn list_objects_reports_the_one_fixed_handle() {
    let mut backend = backend();
    let mut out = [0u8; 64];
    let (status, len) = dispatch(u8::from(Command::ListObjects), &[], &mut backend, &mut out);
    assert_eq!(status, Status::Success);
    assert_eq!(out[0], 1);
    assert_eq!(&out[1..len], FIXED_OBJECT_HANDLE.to_le_bytes());
}

#[test]
fn get_public_key_returns_the_key_for_the_fixed_handle() {
    let mut backend = backend();
    let mut out = [0u8; 64];
    let request = FIXED_OBJECT_HANDLE.to_le_bytes();
    let (status, len) = dispatch(u8::from(Command::GetPublicKey), &request, &mut backend, &mut out);
    assert_eq!(status, Status::Success);
    assert_eq!(&out[..len], backend.public_key());
}

#[test]
fn get_public_key_rejects_unknown_handle() {
    let mut backend = backend();
    let mut out = [0u8; 64];
    let request = 999u32.to_le_bytes();
    let (status, _) = dispatch(u8::from(Command::GetPublicKey), &request, &mut backend, &mut out);
    assert_eq!(status, Status::NotFound);
}

#[test]
fn sign_round_trips_through_the_backend() {
    let mut backend = backend();
    let mut out = [0u8; 64];
    let mut request = FIXED_OBJECT_HANDLE.to_le_bytes().to_vec();
    request.extend_from_slice(b"hello");
    let (status, len) = dispatch(u8::from(Command::Sign), &request, &mut backend, &mut out);
    assert_eq!(status, Status::Success);
    assert_eq!(&out[..len], b"olleh");
}

#[test]
fn sign_reports_backend_failure() {
    let mut backend = backend();
    backend.fail_signing = true;
    let mut out = [0u8; 64];
    let mut request = FIXED_OBJECT_HANDLE.to_le_bytes().to_vec();
    request.extend_from_slice(b"hello");
    let (status, _) = dispatch(u8::from(Command::Sign), &request, &mut backend, &mut out);
    assert_eq!(status, Status::SigningFailed);
}

#[test]
fn generate_keypair_never_returns_private_key_bytes() {
    let mut backend = backend();
    let mut out = [0u8; 64];
    let (status, len) = dispatch(u8::from(Command::GenerateKeypair), &[], &mut backend, &mut out);
    assert_eq!(status, Status::Success);
    // The response is exactly the new public key, nothing else.
    assert_eq!(len, backend.public_key().len());
    assert_eq!(&out[..len], backend.public_key());
}

#[test]
fn generate_keypair_not_implemented_when_backend_declines() {
    let mut backend = backend();
    backend.supports_keygen = false;
    let mut out = [0u8; 64];
    let (status, _) = dispatch(u8::from(Command::GenerateKeypair), &[], &mut backend, &mut out);
    assert_eq!(status, Status::NotImplemented);
}

#[test]
fn delete_object_is_not_implemented() {
    let mut backend = backend();
    let mut out = [0u8; 64];
    let request = FIXED_OBJECT_HANDLE.to_le_bytes();
    let (status, _) = dispatch(u8::from(Command::DeleteObject), &request, &mut backend, &mut out);
    assert_eq!(status, Status::NotImplemented);
}

#[test]
fn unknown_command_byte_is_rejected() {
    let mut backend = backend();
    let mut out = [0u8; 64];
    let (status, _) = dispatch(0xFF, &[], &mut backend, &mut out);
    assert_eq!(status, Status::UnknownCommand);
}

#[test]
fn frame_round_trips_over_a_byte_stream() {
    let mut stream = Stream::new();
    write_frame(&mut stream, u8::from(Command::Sign), b"payload").unwrap();

    stream.set_position(0);
    let mut buf = [0u8; 64];
    let (kind, payload) = read_frame(&mut stream, &mut buf).unwrap();
    assert_eq!(kind, u8::from(Command::Sign));
    assert_eq!(payload, b"payload");
}

#[test]
fn read_frame_rejects_a_frame_larger_than_the_buffer() {
    let mut stream = Stream::new();
    write_frame(&mut stream, u8::from(Command::Sign), &[0u8; 100]).unwrap();

    stream.set_position(0);
    let mut buf = [0u8; 16];
    let err = read_frame(&mut stream, &mut buf).unwrap_err();
    assert!(matches!(err, ReadFrameError::FrameTooLarge { .. }));
}

#[test]
fn read_frame_resyncs_after_an_oversized_frame() {
    let mut stream = Stream::new();
    write_frame(&mut stream, u8::from(Command::Sign), &[0u8; 100]).unwrap();
    write_frame(&mut stream, u8::from(Command::GetInfo), b"ok").unwrap();

    stream.set_position(0);
    let mut buf = [0u8; 16];
    assert!(matches!(
        read_frame(&mut stream, &mut buf),
        Err(ReadFrameError::FrameTooLarge { .. })
    ));

    let (kind, payload) = read_frame(&mut stream, &mut buf).unwrap();
    assert_eq!(kind, u8::from(Command::GetInfo));
    assert_eq!(payload, b"ok");
}
