//! The PKCS#11 answers that do not depend on a session: library, slot, token
//! and mechanism information, and the length protocol of list queries.

use vstd::prelude::*;
use vstd::string::StringSliceAdditionalSpecFns;
use crate::pkcs11::{
    CK_EFFECTIVELY_INFINITE, CK_FLAGS, CK_MECHANISM_TYPE, CK_RV, CK_SLOT_ID, CK_ULONG,
    CK_UNAVAILABLE_INFORMATION, CKF_RNG, CKF_SIGN, CKF_TOKEN_INITIALIZED, CKF_TOKEN_PRESENT,
    CKM_SLH_DSA_SHA2_VENDOR, CKR_BUFFER_TOO_SMALL, CKR_MECHANISM_INVALID, CKR_OK,
    CKR_SLOT_ID_INVALID, SLOT_ID,
};
use crate::state::ProviderState;

verus! {

/// `s` cut or padded with spaces to `width` bytes.
pub open spec fn padded(s: Seq<u8>, width: nat) -> Seq<u8> {
    let k = if s.len() < width {
        s.len()
    } else {
        width
    };
    s.take(k as int) + Seq::new((width - k) as nat, |i: int| 32u8)
}

/// `bytes` cut or padded with spaces to `width` bytes.
pub fn pad_bytes(bytes: &[u8], width: usize) -> (r: Vec<u8>)
    ensures
        r@ == padded(bytes@, width as nat),
{
    let mut out: Vec<u8> = Vec::new();
    let k = if bytes.len() < width { bytes.len() } else { width };
    let mut i: usize = 0;
    while i < width
        invariant
            k <= width,
            k <= bytes@.len(),
            k == (if bytes@.len() < width { bytes@.len() } else { width as nat }),
            i <= width,
            out@.len() == i,
            forall|j: int| 0 <= j < i ==> out@[j] == padded(bytes@, width as nat)[j],
        decreases width - i,
    {
        let b = if i < k { bytes[i] } else { 32u8 };
        out.push(b);
        i = i + 1;
    }
    assert(out@ =~= padded(bytes@, width as nat));
    out
}

/// The UTF-8 bytes of `s` cut or padded with spaces to `width` bytes, as
/// PKCS#11 fixed-width text fields hold text.
pub fn pad_utf8(s: &str, width: usize) -> (r: Vec<u8>)
    ensures
        r@ == padded(s.spec_bytes(), width as nat),
{
    pad_bytes(s.as_bytes(), width)
}

/// A PKCS#11 version number.
#[derive(Debug, Clone, Copy, PartialEq, Eq)]
pub struct Version {
    pub major: u8,
    pub minor: u8,
}

/// What `C_GetInfo` reports.
#[derive(Debug, PartialEq, Eq)]
pub struct LibraryInfo {
    pub cryptoki_version: Version,
    pub manufacturer_id: Vec<u8>,
    pub flags: CK_FLAGS,
    pub library_description: Vec<u8>,
    pub library_version: Version,
}

/// What `C_GetSlotInfo` reports for the one slot.
#[derive(Debug, PartialEq, Eq)]
pub struct SlotInfo {
    pub slot_description: Vec<u8>,
    pub manufacturer_id: Vec<u8>,
    pub flags: CK_FLAGS,
    pub hardware_version: Version,
    pub firmware_version: Version,
}

/// What `C_GetTokenInfo` reports for the one token.
#[derive(Debug, PartialEq, Eq)]
pub struct TokenInfo {
    pub label: Vec<u8>,
    pub manufacturer_id: Vec<u8>,
    pub model: Vec<u8>,
    pub serial_number: Vec<u8>,
    pub flags: CK_FLAGS,
    pub max_session_count: CK_ULONG,
    pub session_count: CK_ULONG,
    pub max_rw_session_count: CK_ULONG,
    pub rw_session_count: CK_ULONG,
    pub max_pin_len: CK_ULONG,
    pub min_pin_len: CK_ULONG,
    pub total_public_memory: CK_ULONG,
    pub free_public_memory: CK_ULONG,
    pub total_private_memory: CK_ULONG,
    pub free_private_memory: CK_ULONG,
    pub hardware_version: Version,
    pub firmware_version: Version,
    pub utc_time: Vec<u8>,
}

/// What `C_GetMechanismInfo` reports for the one mechanism.
#[derive(Debug, Clone, Copy, PartialEq, Eq)]
pub struct MechanismInfo {
    pub min_key_size: CK_ULONG,
    pub max_key_size: CK_ULONG,
    pub flags: CK_FLAGS,
}

/// The answer to a query for a list of one entry (`C_GetSlotList`,
/// `C_GetMechanismList`): the return value, the count to report, and whether
/// the entry is to be written to the caller's list.
#[derive(Debug, Clone, Copy, PartialEq, Eq)]
pub struct ListAnswer {
    pub rv: CK_RV,
    pub count: CK_ULONG,
    pub write_entry: bool,
}

/// Answers a query for a list of one entry. `capacity` is the caller's list
/// length, `None` where the caller passed no list.
pub fn single_entry_list(capacity: Option<CK_ULONG>) -> (r: ListAnswer)
    ensures
        r.count == 1,
        capacity is None ==> r.rv == CKR_OK && !r.write_entry,
        capacity == Some(0u64) ==> r.rv == CKR_BUFFER_TOO_SMALL && !r.write_entry,
        (capacity matches Some(c) && c >= 1) ==> r.rv == CKR_OK && r.write_entry,
{
    match capacity {
        None => ListAnswer { rv: CKR_OK, count: 1, write_entry: false },
        Some(c) => {
            if c < 1 {
                ListAnswer { rv: CKR_BUFFER_TOO_SMALL, count: 1, write_entry: false }
            } else {
                ListAnswer { rv: CKR_OK, count: 1, write_entry: true }
            }
        },
    }
}

/// `CKR_OK` for the one slot, `CKR_SLOT_ID_INVALID` for any other.
pub fn check_slot(slot_id: CK_SLOT_ID) -> (rv: CK_RV)
    ensures
        rv == (if slot_id == SLOT_ID { CKR_OK } else { CKR_SLOT_ID_INVALID }),
{
    if slot_id != SLOT_ID {
        CKR_SLOT_ID_INVALID
    } else {
        CKR_OK
    }
}

/// `C_GetInfo`: the library's description.
pub fn library_info() -> (info: LibraryInfo)
    ensures
        info.cryptoki_version == (Version { major: 2, minor: 40 }),
        info.manufacturer_id@ == padded("PQC Dev HSM project".spec_bytes(), 32),
        info.flags == 0,
        info.library_description@ == padded("PQC Dev HSM PKCS#11 provider".spec_bytes(), 32),
        info.library_version == (Version { major: 0, minor: 1 }),
{
    LibraryInfo {
        cryptoki_version: Version { major: 2, minor: 40 },
        manufacturer_id: pad_utf8("PQC Dev HSM project", 32),
        flags: 0,
        library_description: pad_utf8("PQC Dev HSM PKCS#11 provider", 32),
        library_version: Version { major: 0, minor: 1 },
    }
}

/// `C_GetSlotInfo`: the slot's description, or `CKR_SLOT_ID_INVALID`.
pub fn slot_info(slot_id: CK_SLOT_ID) -> (r: Result<SlotInfo, CK_RV>)
    ensures
        slot_id != SLOT_ID ==> r == Err::<SlotInfo, CK_RV>(CKR_SLOT_ID_INVALID),
        slot_id == SLOT_ID ==> (r matches Ok(info) && {
            &&& info.slot_description@ == padded(
                "PQC Dev HSM: dev-signer/nano-signer over token-core".spec_bytes(),
                64,
            )
            &&& info.manufacturer_id@ == padded("PQC Dev HSM project".spec_bytes(), 32)
            &&& info.flags == CKF_TOKEN_PRESENT
            &&& info.hardware_version == (Version { major: 0, minor: 1 })
            &&& info.firmware_version == (Version { major: 0, minor: 1 })
        }),
{
    if slot_id != SLOT_ID {
        return Err(CKR_SLOT_ID_INVALID);
    }
    Ok(SlotInfo {
        slot_description: pad_utf8("PQC Dev HSM: dev-signer/nano-signer over token-core", 64),
        manufacturer_id: pad_utf8("PQC Dev HSM project", 32),
        flags: CKF_TOKEN_PRESENT,
        hardware_version: Version { major: 0, minor: 1 },
        firmware_version: Version { major: 0, minor: 1 },
    })
}

/// `C_GetMechanismInfo`: the one mechanism signs, with no key size bounds.
pub fn mechanism_info(slot_id: CK_SLOT_ID, mechanism_type: CK_MECHANISM_TYPE) -> (r: Result<MechanismInfo, CK_RV>)
    ensures
        slot_id != SLOT_ID ==> r == Err::<MechanismInfo, CK_RV>(CKR_SLOT_ID_INVALID),
        slot_id == SLOT_ID && mechanism_type != CKM_SLH_DSA_SHA2_VENDOR ==> r == Err::<
            MechanismInfo,
            CK_RV,
        >(CKR_MECHANISM_INVALID),
        slot_id == SLOT_ID && mechanism_type == CKM_SLH_DSA_SHA2_VENDOR ==> r == Ok::<
            MechanismInfo,
            CK_RV,
        >(MechanismInfo { min_key_size: 0, max_key_size: 0, flags: CKF_SIGN }),
{
    if slot_id != SLOT_ID {
        return Err(CKR_SLOT_ID_INVALID);
    }
    if mechanism_type != CKM_SLH_DSA_SHA2_VENDOR {
        return Err(CKR_MECHANISM_INVALID);
    }
    Ok(MechanismInfo { min_key_size: 0, max_key_size: 0, flags: CKF_SIGN })
}

/// The model text of the token: `slh-dsa-` and the parameter set name.
pub open spec fn model_text(name: Seq<u8>) -> Seq<u8> {
    "slh-dsa-".spec_bytes() + name
}

impl<C> ProviderState<C> {
    /// `C_GetTokenInfo`: the token's description, with the parameter set in
    /// its model and the open sessions counted.
    pub fn token_info(&self) -> (info: TokenInfo)
        ensures
            info.label@ == padded("pqc-dev-hsm".spec_bytes(), 32),
            info.manufacturer_id@ == padded("PQC Dev HSM project".spec_bytes(), 32),
            info.model@ == padded(model_text(vstd::utf8::encode_utf8(self.param_set_name@)), 16),
            info.serial_number@ == padded("0".spec_bytes(), 16),
            info.flags == CKF_RNG | CKF_TOKEN_INITIALIZED,
            info.max_session_count == CK_EFFECTIVELY_INFINITE,
            info.session_count == self.sessions.open@.len(),
            info.max_rw_session_count == CK_EFFECTIVELY_INFINITE,
            info.rw_session_count == self.sessions.open@.len(),
            info.max_pin_len == 0,
            info.min_pin_len == 0,
            info.total_public_memory == CK_UNAVAILABLE_INFORMATION,
            info.free_public_memory == CK_UNAVAILABLE_INFORMATION,
            info.total_private_memory == CK_UNAVAILABLE_INFORMATION,
            info.free_private_memory == CK_UNAVAILABLE_INFORMATION,
            info.hardware_version == (Version { major: 0, minor: 1 }),
            info.firmware_version == (Version { major: 0, minor: 1 }),
            info.utc_time@ == Seq::new(16, |i: int| 32u8),
    {
        let mut model: Vec<u8> = Vec::new();
        model.extend_from_slice("slh-dsa-".as_bytes());
        model.extend_from_slice(self.param_set_name.as_str().as_bytes());
        let count = self.sessions.count() as u64;
        let utc_time = pad_bytes(&[], 16);
        assert(utc_time@ =~= Seq::new(16, |i: int| 32u8));
        TokenInfo {
            label: pad_utf8("pqc-dev-hsm", 32),
            manufacturer_id: pad_utf8("PQC Dev HSM project", 32),
            model: pad_bytes(model.as_slice(), 16),
            serial_number: pad_utf8("0", 16),
            flags: CKF_RNG | CKF_TOKEN_INITIALIZED,
            max_session_count: CK_EFFECTIVELY_INFINITE,
            session_count: count,
            max_rw_session_count: CK_EFFECTIVELY_INFINITE,
            rw_session_count: count,
            max_pin_len: 0,
            min_pin_len: 0,
            total_public_memory: CK_UNAVAILABLE_INFORMATION,
            free_public_memory: CK_UNAVAILABLE_INFORMATION,
            total_private_memory: CK_UNAVAILABLE_INFORMATION,
            free_private_memory: CK_UNAVAILABLE_INFORMATION,
            hardware_version: Version { major: 0, minor: 1 },
            firmware_version: Version { major: 0, minor: 1 },
            utc_time,
        }
    }
}

} // verus!
