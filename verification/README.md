# pqc_hsm

A development hardware security module for SLH-DSA (SPHINCS+) signatures:
a token that holds a key and signs, the length-prefixed protocol it speaks,
and a PKCS#11 provider that lets ordinary PKCS#11 applications use it.

The logic is written in Verus and proved against its contracts.

## Layout

- `src/codec.rs` – little-endian `u32` encoding and its laws.
- `src/frame.rs` – frames on a byte channel: `write_frame`, `read_frame`,
  and the laws that a frame reads back as written and that an oversized
  frame is skipped without losing the next one.
- `src/wire.rs` – commands, statuses and `dispatch`, which answers one
  request against a `SigningBackend`.
- `src/server.rs` – a token's serving loop: one reply per request frame, in
  order, and the token's activity lights.
- `src/dev_backend.rs` – the software backend over the `slh-dsa` crate.
- `src/params.rs` – the six parameter sets and their sizes.
- `src/device.rs` – the host side of the protocol.
- `src/endpoint.rs` – parsing `tcp://host:port` and `serial:<path>:<baud>`.
- `src/pkcs11.rs`, `src/attributes.rs`, `src/state.rs`, `src/provider.rs` –
  the PKCS#11 provider: key objects and their attributes, sessions, searches,
  signing, and the information functions.
- `app/` – what cannot be verified: the software token's `main` (files,
  environment, TCP), opening TCP and serial connections, and the C ABI of
  the PKCS#11 provider.
- `tests/` – tests of the library, including a complete exchange between
  the provider, the device client and a software token.
