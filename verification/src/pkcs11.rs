//! The PKCS#11 types and constants the provider uses, with the values the
//! PKCS#11 standard gives them on 64-bit Unix platforms.

use vstd::prelude::*;

verus! {

/// `CK_ULONG`: an unsigned long.
pub type CK_ULONG = u64;
/// `CK_RV`: a return value.
pub type CK_RV = u64;
/// `CK_BBOOL`: a one-byte boolean.
pub type CK_BBOOL = u8;
/// `CK_SLOT_ID`
pub type CK_SLOT_ID = u64;
/// `CK_SESSION_HANDLE`
pub type CK_SESSION_HANDLE = u64;
/// `CK_OBJECT_HANDLE`
pub type CK_OBJECT_HANDLE = u64;
/// `CK_OBJECT_CLASS`
pub type CK_OBJECT_CLASS = u64;
/// `CK_ATTRIBUTE_TYPE`
pub type CK_ATTRIBUTE_TYPE = u64;
/// `CK_KEY_TYPE`
pub type CK_KEY_TYPE = u64;
/// `CK_MECHANISM_TYPE`
pub type CK_MECHANISM_TYPE = u64;
/// `CK_FLAGS`
pub type CK_FLAGS = u64;

/// Bytes in a `CK_ULONG`.
pub const CK_ULONG_SIZE: u64 = 8;

pub const CK_TRUE: CK_BBOOL = 1;
pub const CK_FALSE: CK_BBOOL = 0;
pub const CK_EFFECTIVELY_INFINITE: CK_ULONG = 0;
/// A length that stands for "not available".
pub const CK_UNAVAILABLE_INFORMATION: CK_ULONG = 0xffff_ffff_ffff_ffff;

pub const CKA_CLASS: CK_ATTRIBUTE_TYPE = 0;
pub const CKA_TOKEN: CK_ATTRIBUTE_TYPE = 1;
pub const CKA_LABEL: CK_ATTRIBUTE_TYPE = 3;
pub const CKA_VALUE: CK_ATTRIBUTE_TYPE = 17;
pub const CKA_KEY_TYPE: CK_ATTRIBUTE_TYPE = 256;
pub const CKA_ID: CK_ATTRIBUTE_TYPE = 258;
pub const CKA_SIGN: CK_ATTRIBUTE_TYPE = 264;
pub const CKA_VERIFY: CK_ATTRIBUTE_TYPE = 266;

pub const CKO_PUBLIC_KEY: CK_OBJECT_CLASS = 2;
pub const CKO_PRIVATE_KEY: CK_OBJECT_CLASS = 3;

pub const CKK_VENDOR_DEFINED: CK_KEY_TYPE = 0x8000_0000;
pub const CKM_VENDOR_DEFINED: CK_MECHANISM_TYPE = 0x8000_0000;

pub const CKF_TOKEN_PRESENT: CK_FLAGS = 1;
pub const CKF_RNG: CK_FLAGS = 1;
pub const CKF_TOKEN_INITIALIZED: CK_FLAGS = 1024;
pub const CKF_SIGN: CK_FLAGS = 2048;

pub const CKR_OK: CK_RV = 0;
pub const CKR_SLOT_ID_INVALID: CK_RV = 3;
pub const CKR_GENERAL_ERROR: CK_RV = 5;
pub const CKR_ARGUMENTS_BAD: CK_RV = 7;
pub const CKR_ATTRIBUTE_SENSITIVE: CK_RV = 17;
pub const CKR_ATTRIBUTE_TYPE_INVALID: CK_RV = 18;
pub const CKR_DEVICE_ERROR: CK_RV = 48;
pub const CKR_FUNCTION_NOT_SUPPORTED: CK_RV = 84;
pub const CKR_KEY_HANDLE_INVALID: CK_RV = 96;
pub const CKR_MECHANISM_INVALID: CK_RV = 112;
pub const CKR_OPERATION_NOT_INITIALIZED: CK_RV = 145;
pub const CKR_SESSION_HANDLE_INVALID: CK_RV = 179;
pub const CKR_BUFFER_TOO_SMALL: CK_RV = 336;
pub const CKR_CRYPTOKI_NOT_INITIALIZED: CK_RV = 400;

/// The provider's one mechanism: SLH-DSA with SHA-2, vendor defined.
pub const CKM_SLH_DSA_SHA2_VENDOR: CK_MECHANISM_TYPE = 0x8000_0001;

/// The one slot.
pub const SLOT_ID: CK_SLOT_ID = 0;
/// The private key object.
pub const PRIVATE_KEY_HANDLE: CK_OBJECT_HANDLE = 1;
/// The public key object.
pub const PUBLIC_KEY_HANDLE: CK_OBJECT_HANDLE = 2;

} // verus!
