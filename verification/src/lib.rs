//! Verified core of a PQC development HSM: the token wire protocol, its framing,
//! the host-side device client and the PKCS#11 provider logic.
#![allow(non_camel_case_types)]

pub mod codec;
pub mod wire;
pub mod frame;
pub mod device;
pub mod endpoint;
pub mod pkcs11;
pub mod attributes;
pub mod params;
pub mod state;
pub mod provider;
pub mod dev_backend;
pub mod server;
