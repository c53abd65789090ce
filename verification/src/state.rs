//! The provider's state: the device, what it reported, and the open sessions
//! with their search and signing operations.

use vstd::prelude::*;
use std::collections::{HashMap, VecDeque};
use vstd::utf8::{decode_utf8, valid_utf8};
use vstd::string::StringSliceAdditionalSpecFns;
use crate::codec::le_u32_bytes;
use crate::device::{
    exchanged, info_failed, info_name, info_ok, reply_failed, response_ok, response_payload, sends, sent_bytes,
    sign_request, DeviceConnection, DeviceError,
};
use crate::frame::{after_frame, frame_bytes, room_after, ByteChannel, Read, Write};
use crate::wire::Command;
use crate::attributes::{class_filter, lemma_class_filter_first_class, TemplateEntry};
use crate::params::{signature_len_for, signature_len_named};
use crate::wire::FIXED_OBJECT_HANDLE;
use crate::pkcs11::{
    CK_MECHANISM_TYPE, CK_OBJECT_CLASS, CKR_DEVICE_ERROR, CK_OBJECT_HANDLE, CK_RV, CK_SESSION_HANDLE, CK_ULONG,
    CKM_SLH_DSA_SHA2_VENDOR, CKO_PRIVATE_KEY, CKO_PUBLIC_KEY, CKR_KEY_HANDLE_INVALID,
    CKR_MECHANISM_INVALID, CKR_OK, CKR_OPERATION_NOT_INITIALIZED, CKR_SESSION_HANDLE_INVALID,
    PRIVATE_KEY_HANDLE, PUBLIC_KEY_HANDLE,
};

verus! {

broadcast use vstd::std_specs::hash::group_hash_axioms;

/// What a session is doing.
pub struct SessionState {
    /// A signing operation has been initialised and not yet completed.
    pub sign_active: bool,
    /// The handles an object search has still to return.
    pub pending_find: Option<VecDeque<CK_OBJECT_HANDLE>>,
}

/// A session with no operation under way.
pub open spec fn idle_session(s: SessionState) -> bool {
    !s.sign_active && s.pending_find is None
}

impl Default for SessionState {
    fn default() -> (s: SessionState)
        ensures
            idle_session(s),
    {
        SessionState { sign_active: false, pending_find: None }
    }
}

/// The handles still pending in a session's search, empty where no search is under way.
pub open spec fn pending(s: SessionState) -> Seq<CK_OBJECT_HANDLE> {
    match s.pending_find {
        Some(q) => q@,
        None => Seq::empty(),
    }
}

/// The handles a search for objects of class `filter` finds; `None` finds both keys.
pub open spec fn search_result(filter: Option<CK_OBJECT_CLASS>) -> Seq<CK_OBJECT_HANDLE> {
    match filter {
        Some(c) => if c == CKO_PRIVATE_KEY {
            seq![PRIVATE_KEY_HANDLE]
        } else if c == CKO_PUBLIC_KEY {
            seq![PUBLIC_KEY_HANDLE]
        } else {
            Seq::empty()
        },
        None => seq![PRIVATE_KEY_HANDLE, PUBLIC_KEY_HANDLE],
    }
}

/// A search finds the private key (handle 1) for class 3, the public key
/// (handle 2) for class 2, nothing for any other class, and both keys, the
/// private one first, where the template names no class. So a template whose
/// first class entry names some other class finds nothing.
pub proof fn lemma_search_finds(c: CK_OBJECT_CLASS, rest: Seq<TemplateEntry>)
    ensures
        search_result(None) == seq![1u64, 2u64],
        c == 3 ==> search_result(Some(c)) == seq![1u64],
        c == 2 ==> search_result(Some(c)) == seq![2u64],
        c != 2 && c != 3 ==> search_result(Some(c)) == Seq::<CK_OBJECT_HANDLE>::empty(),
        c != 2 && c != 3 ==> search_result(
            class_filter(seq![TemplateEntry { attr_type: 0, ulong_value: Some(c) }] + rest),
        ) == Seq::<CK_OBJECT_HANDLE>::empty(),
{
    lemma_class_filter_first_class(TemplateEntry { attr_type: 0, ulong_value: Some(c) }, rest);
}

/// The sessions of a provider, and the handle the next session will get.
pub struct SessionTable {
    pub open: HashMap<CK_SESSION_HANDLE, SessionState>,
    pub next_session_handle: CK_SESSION_HANDLE,
}

impl SessionTable {
    /// Every open session's handle is positive and below the next handle.
    pub open spec fn wf(&self) -> bool {
        &&& self.next_session_handle >= 1
        &&& forall|h: CK_SESSION_HANDLE| #[trigger]
            self.open@.contains_key(h) ==> 1 <= h < self.next_session_handle
    }

    /// No session is open; the first will get handle 1.
    pub fn new() -> (s: SessionTable)
        ensures
            s.open@ == Map::<CK_SESSION_HANDLE, SessionState>::empty(),
            s.next_session_handle == 1,
            s.wf(),
    {
        SessionTable { open: HashMap::new(), next_session_handle: 1 }
    }

    /// The number of open sessions.
    pub fn count(&self) -> (n: usize)
        ensures
            n == self.open@.len(),
    {
        self.open.len()
    }

    /// Opens a session and returns its handle.
    pub fn open_session(&mut self) -> (handle: CK_SESSION_HANDLE)
        requires
            old(self).next_session_handle < u64::MAX,
        ensures
            handle == old(self).next_session_handle,
            final(self).next_session_handle == old(self).next_session_handle + 1,
            final(self).open@.dom() == old(self).open@.dom().insert(handle),
            idle_session(final(self).open@[handle]),
            forall|h: CK_SESSION_HANDLE| #[trigger]
                old(self).open@.contains_key(h) && h != handle ==> final(self).open@[h]
                    == old(self).open@[h],
            old(self).wf() ==> final(self).wf() && !old(self).open@.contains_key(handle),
    {
        let handle = self.next_session_handle;
        self.next_session_handle = self.next_session_handle + 1;
        self.open.insert(handle, SessionState::default());
        handle
    }

    /// Closes a session.
    pub fn close_session(&mut self, session: CK_SESSION_HANDLE) -> (rv: CK_RV)
        ensures
            final(self).next_session_handle == old(self).next_session_handle,
            old(self).open@.contains_key(session) ==> rv == CKR_OK && final(self).open@
                == old(self).open@.remove(session),
            !old(self).open@.contains_key(session) ==> rv == CKR_SESSION_HANDLE_INVALID
                && final(self).open@ == old(self).open@,
            old(self).wf() ==> final(self).wf(),
    {
        match self.open.remove(&session) {
            Some(_) => CKR_OK,
            None => CKR_SESSION_HANDLE_INVALID,
        }
    }

    /// `CKR_OK` for an open session, `CKR_SESSION_HANDLE_INVALID` otherwise.
    pub fn check_session(&self, session: CK_SESSION_HANDLE) -> (rv: CK_RV)
        ensures
            rv == (if self.open@.contains_key(session) {
                CKR_OK
            } else {
                CKR_SESSION_HANDLE_INVALID
            }),
    {
        if self.open.contains_key(&session) {
            CKR_OK
        } else {
            CKR_SESSION_HANDLE_INVALID
        }
    }

    /// Starts a search in `session` for the objects of class `filter`, or for
    /// all objects where there is no filter.
    pub fn find_objects_init(&mut self, session: CK_SESSION_HANDLE, filter: Option<CK_OBJECT_CLASS>) -> (rv: CK_RV)
        ensures
            final(self).next_session_handle == old(self).next_session_handle,
            final(self).open@.dom() == old(self).open@.dom(),
            old(self).open@.contains_key(session) ==> {
                &&& rv == CKR_OK
                &&& final(self).open@[session].pending_find is Some
                &&& pending(final(self).open@[session]) == search_result(filter)
                &&& final(self).open@[session].sign_active == old(self).open@[session].sign_active
            },
            !old(self).open@.contains_key(session) ==> rv == CKR_SESSION_HANDLE_INVALID,
            forall|h: CK_SESSION_HANDLE| #[trigger]
                old(self).open@.contains_key(h) && h != session ==> final(self).open@[h]
                    == old(self).open@[h],
            old(self).wf() ==> final(self).wf(),
    {
        let mut state = match self.open.remove(&session) {
            Some(s) => s,
            None => {
                return CKR_SESSION_HANDLE_INVALID;
            },
        };
        let mut handles: VecDeque<CK_OBJECT_HANDLE> = VecDeque::new();
        match filter {
            Some(class) => {
                if class == CKO_PRIVATE_KEY {
                    handles.push_back(PRIVATE_KEY_HANDLE);
                } else if class == CKO_PUBLIC_KEY {
                    handles.push_back(PUBLIC_KEY_HANDLE);
                }
            },
            None => {
                handles.push_back(PRIVATE_KEY_HANDLE);
                handles.push_back(PUBLIC_KEY_HANDLE);
            },
        }
        assert(handles@ =~= search_result(filter));
        state.pending_find = Some(handles);
        self.open.insert(session, state);
        CKR_OK
    }

    /// Returns up to `max_count` of the handles the search in `session` has
    /// still to return, in order, and drops them from the search.
    pub fn find_objects(&mut self, session: CK_SESSION_HANDLE, max_count: CK_ULONG) -> (r: Result<Vec<CK_OBJECT_HANDLE>, CK_RV>)
        ensures
            final(self).next_session_handle == old(self).next_session_handle,
            final(self).open@.dom() == old(self).open@.dom(),
            !old(self).open@.contains_key(session) ==> r == Err::<Vec<CK_OBJECT_HANDLE>, CK_RV>(
                CKR_SESSION_HANDLE_INVALID,
            ) && final(self).open@ == old(self).open@,
            old(self).open@.contains_key(session) && old(self).open@[session].pending_find is None
                ==> r == Err::<Vec<CK_OBJECT_HANDLE>, CK_RV>(CKR_OPERATION_NOT_INITIALIZED)
                && final(self).open@ == old(self).open@,
            old(self).open@.contains_key(session) && old(self).open@[session].pending_find is Some
                ==> {
                let before = pending(old(self).open@[session]);
                let n = if max_count < before.len() {
                    max_count as int
                } else {
                    before.len() as int
                };
                &&& r matches Ok(found) && found@ == before.take(n)
                &&& final(self).open@[session].pending_find is Some
                &&& pending(final(self).open@[session]) == before.skip(n)
                &&& final(self).open@[session].sign_active == old(self).open@[session].sign_active
            },
            forall|h: CK_SESSION_HANDLE| #[trigger]
                old(self).open@.contains_key(h) && h != session ==> final(self).open@[h]
                    == old(self).open@[h],
            old(self).wf() ==> final(self).wf(),
    {
        let mut state = match self.open.remove(&session) {
            Some(s) => s,
            None => {
                return Err(CKR_SESSION_HANDLE_INVALID);
            },
        };
        let mut queue = match state.pending_find {
            Some(q) => q,
            None => {
                self.open.insert(session, state);
                assert(self.open@ =~= old(self).open@);
                return Err(CKR_OPERATION_NOT_INITIALIZED);
            },
        };
        let ghost before = queue@;
        let mut found: Vec<CK_OBJECT_HANDLE> = Vec::new();
        while (found.len() as u64) < max_count
            invariant
                found@.len() <= before.len(),
                found@ == before.take(found@.len() as int),
                queue@ == before.skip(found@.len() as int),
                found@.len() <= max_count,
            ensures
                found@ == before.take(found@.len() as int),
                queue@ == before.skip(found@.len() as int),
                found@.len() == (if max_count < before.len() { max_count as int } else { before.len() as int }),
            decreases before.len() - found@.len(),
        {
            match queue.pop_front() {
                Some(handle) => {
                    found.push(handle);
                    assert(found@ =~= before.take(found@.len() as int));
                    assert(queue@ =~= before.skip(found@.len() as int));
                },
                None => {
                    break;
                },
            }
        }
        state.pending_find = Some(queue);
        self.open.insert(session, state);
        Ok(found)
    }

    /// Ends the search in `session`.
    pub fn find_objects_final(&mut self, session: CK_SESSION_HANDLE) -> (rv: CK_RV)
        ensures
            final(self).next_session_handle == old(self).next_session_handle,
            final(self).open@.dom() == old(self).open@.dom(),
            old(self).open@.contains_key(session) ==> {
                &&& rv == CKR_OK
                &&& final(self).open@[session].pending_find is None
                &&& final(self).open@[session].sign_active == old(self).open@[session].sign_active
            },
            !old(self).open@.contains_key(session) ==> rv == CKR_SESSION_HANDLE_INVALID,
            forall|h: CK_SESSION_HANDLE| #[trigger]
                old(self).open@.contains_key(h) && h != session ==> final(self).open@[h]
                    == old(self).open@[h],
            old(self).wf() ==> final(self).wf(),
    {
        let mut state = match self.open.remove(&session) {
            Some(s) => s,
            None => {
                return CKR_SESSION_HANDLE_INVALID;
            },
        };
        state.pending_find = None;
        self.open.insert(session, state);
        CKR_OK
    }

    /// Starts a signing operation in `session` with `mechanism` and `key`.
    pub fn sign_init(&mut self, session: CK_SESSION_HANDLE, mechanism: CK_MECHANISM_TYPE, key: CK_OBJECT_HANDLE) -> (rv: CK_RV)
        ensures
            final(self).next_session_handle == old(self).next_session_handle,
            final(self).open@.dom() == old(self).open@.dom(),
            mechanism != CKM_SLH_DSA_SHA2_VENDOR ==> rv == CKR_MECHANISM_INVALID
                && final(self).open@ == old(self).open@,
            mechanism == CKM_SLH_DSA_SHA2_VENDOR && key != PRIVATE_KEY_HANDLE ==> rv
                == CKR_KEY_HANDLE_INVALID && final(self).open@ == old(self).open@,
            mechanism == CKM_SLH_DSA_SHA2_VENDOR && key == PRIVATE_KEY_HANDLE
                && !old(self).open@.contains_key(session) ==> rv == CKR_SESSION_HANDLE_INVALID
                && final(self).open@ == old(self).open@,
            mechanism == CKM_SLH_DSA_SHA2_VENDOR && key == PRIVATE_KEY_HANDLE
                && old(self).open@.contains_key(session) ==> {
                &&& rv == CKR_OK
                &&& final(self).open@[session].sign_active
                &&& pending(final(self).open@[session]) == pending(old(self).open@[session])
                &&& final(self).open@[session].pending_find is Some
                    == old(self).open@[session].pending_find is Some
            },
            forall|h: CK_SESSION_HANDLE| #[trigger]
                old(self).open@.contains_key(h) && h != session ==> final(self).open@[h]
                    == old(self).open@[h],
            old(self).wf() ==> final(self).wf(),
    {
        if mechanism != CKM_SLH_DSA_SHA2_VENDOR {
            return CKR_MECHANISM_INVALID;
        }
        if key != PRIVATE_KEY_HANDLE {
            return CKR_KEY_HANDLE_INVALID;
        }
        let mut state = match self.open.remove(&session) {
            Some(s) => s,
            None => {
                return CKR_SESSION_HANDLE_INVALID;
            },
        };
        state.sign_active = true;
        self.open.insert(session, state);
        CKR_OK
    }
}


/// Why the provider could not start.
#[derive(Debug)]
pub enum ProviderError<E, C> {
    /// The device handshake failed; the channel is given back.
    Device(DeviceError<E>, C),
    /// The device reported a parameter set this provider does not know.
    UnknownParameterSet(String),
}

/// The state of the provider: the device, what it reported at start, and
/// the sessions.
pub struct ProviderState<C> {
    pub device: DeviceConnection<C>,
    pub param_set_name: String,
    pub public_key: Vec<u8>,
    pub signature_len: usize,
    pub sessions: SessionTable,
}

/// What `C_Sign` answers.
#[derive(Debug, PartialEq, Eq)]
pub enum SignOutcome {
    /// No output buffer was given: the length of a signature.
    Length(CK_ULONG),
    /// The output buffer is too small for a signature of this length.
    BufferTooSmall(CK_ULONG),
    /// The signature.
    Signature(Vec<u8>),
    /// The operation failed with this return value.
    Failed(CK_RV),
}

impl<E, C: Read<Error = E> + Write<Error = E>> ProviderState<C> {
    /// Starts a provider over `connection`: asks the device for its parameter
    /// set and its public key, and opens no session.
    pub fn new(connection: C) -> (r: Result<Self, ProviderError<E, C>>)
        ensures
            ({
                let first = connection.spec_incoming();
                let second = after_frame(first);
                let room = connection.spec_room();
                let key_request = le_u32_bytes(FIXED_OBJECT_HANDLE);
                let room2 = room_after(room, frame_bytes(1, Seq::empty()).len());
                let handshake_ok = sends(room, 1, Seq::empty()) && info_ok(first) && sends(room2, 3, key_request)
                    && response_ok(second);
                match r {
                    Ok(st) => {
                        &&& handshake_ok
                        &&& st.param_set_name@ == decode_utf8(info_name(first))
                        &&& st.public_key@ == response_payload(second)
                        &&& signature_len_named(info_name(first)) == Some(st.signature_len)
                        &&& st.device.channel().spec_outgoing() == connection.spec_outgoing()
                            + frame_bytes(1, Seq::empty()) + frame_bytes(3, le_u32_bytes(FIXED_OBJECT_HANDLE))
                        &&& st.device.channel().spec_incoming() == after_frame(second)
                        &&& st.sessions.open@ == Map::<CK_SESSION_HANDLE, SessionState>::empty()
                        &&& st.sessions.next_session_handle == 1
                        &&& st.sessions.wf()
                    },
                    Err(ProviderError::UnknownParameterSet(name)) => {
                        &&& handshake_ok
                        &&& name@ == decode_utf8(info_name(first))
                        &&& signature_len_named(info_name(first)) is None
                    },
                    Err(ProviderError::Device(e, c)) => {
                        ||| {
                            &&& info_failed(first, room, e)
                            &&& c.spec_outgoing() == connection.spec_outgoing() + sent_bytes(
                                room,
                                1,
                                Seq::empty(),
                            )
                        }
                        ||| {
                            &&& sends(room, 1, Seq::empty())
                            &&& info_ok(first)
                            &&& reply_failed(second, room2, Command::GetPublicKey, key_request, e)
                            &&& c.spec_outgoing() == connection.spec_outgoing() + frame_bytes(
                                1,
                                Seq::empty(),
                            ) + sent_bytes(room2, 3, key_request)
                        }
                    },
                }
            }),
    {
        let mut device = DeviceConnection::new(connection);
        let param_set_name = match device.get_info() {
            Ok(name) => name,
            Err(e) => {
                return Err(ProviderError::Device(e, device.into_channel()));
            },
        };
        let public_key = match device.get_public_key(FIXED_OBJECT_HANDLE) {
            Ok(key) => key,
            Err(e) => {
                return Err(ProviderError::Device(e, device.into_channel()));
            },
        };
        proof {
            vstd::utf8::decode_utf8_encode_utf8(info_name(connection.spec_incoming()));
        }
        let signature_len = match signature_len_for(param_set_name.as_str()) {
            Some(len) => len,
            None => {
                return Err(ProviderError::UnknownParameterSet(param_set_name));
            },
        };
        Ok(ProviderState { device, param_set_name, public_key, signature_len, sessions: SessionTable::new() })
    }

    /// What `C_Sign` in `session` answers before the device is asked: an
    /// unknown session, no signing operation, the signature length where no
    /// output buffer is given, or a buffer of `signature_capacity` bytes too
    /// small; `None` where the device is to sign.
    pub fn sign_precheck(&self, session: CK_SESSION_HANDLE, signature_capacity: Option<CK_ULONG>) -> (r: Option<
        SignOutcome,
    >)
        ensures
            ({
                let open = self.sessions.open@;
                let len = self.signature_len;
                if !open.contains_key(session) {
                    r == Some(SignOutcome::Failed(CKR_SESSION_HANDLE_INVALID))
                } else if !open[session].sign_active {
                    r == Some(SignOutcome::Failed(CKR_OPERATION_NOT_INITIALIZED))
                } else if signature_capacity is None {
                    r == Some(SignOutcome::Length(len as u64))
                } else if signature_capacity->Some_0 < len {
                    r == Some(SignOutcome::BufferTooSmall(len as u64))
                } else {
                    r is None
                }
            }),
    {
        let expected_len = match self.sessions.open.get(&session) {
            None => {
                return Some(SignOutcome::Failed(CKR_SESSION_HANDLE_INVALID));
            },
            Some(state) => {
                if !state.sign_active {
                    return Some(SignOutcome::Failed(CKR_OPERATION_NOT_INITIALIZED));
                }
                self.signature_len
            },
        };
        let have = match signature_capacity {
            None => {
                return Some(SignOutcome::Length(expected_len as u64));
            },
            Some(have) => have,
        };
        if have < expected_len as u64 {
            return Some(SignOutcome::BufferTooSmall(expected_len as u64));
        }
        None
    }

    /// `C_Sign` in `session`: reports the signature length where no output
    /// buffer is given or the buffer of `signature_capacity` bytes is too
    /// small; otherwise has the device sign `message`, checks the length of
    /// what it returns and ends the signing operation.
    pub fn sign(
        &mut self,
        session: CK_SESSION_HANDLE,
        signature_capacity: Option<CK_ULONG>,
        message: &[u8],
    ) -> (r: SignOutcome)
        ensures
            final(self).param_set_name == old(self).param_set_name,
            final(self).public_key == old(self).public_key,
            final(self).signature_len == old(self).signature_len,
            final(self).sessions.next_session_handle == old(self).sessions.next_session_handle,
            final(self).sessions.open@.dom() == old(self).sessions.open@.dom(),
            forall|h: CK_SESSION_HANDLE| #[trigger]
                old(self).sessions.open@.contains_key(h) && h != session ==> final(self).sessions.open@[h]
                    == old(self).sessions.open@[h],
            old(self).sessions.wf() ==> final(self).sessions.wf(),
            ({
                let open = old(self).sessions.open@;
                let len = old(self).signature_len;
                let incoming = old(self).device.channel().spec_incoming();
                let sent = sends(old(self).device.channel().spec_room(), 4, sign_request(message@));
                let device_ok = response_ok(incoming) && response_payload(incoming).len() == len;
                if !open.contains_key(session) {
                    r == SignOutcome::Failed(CKR_SESSION_HANDLE_INVALID) && final(self).device == old(self).device
                } else if !open[session].sign_active {
                    r == SignOutcome::Failed(CKR_OPERATION_NOT_INITIALIZED) && final(self).device == old(self).device
                        && final(self).sessions.open@ == open
                } else if signature_capacity is None {
                    r == SignOutcome::Length(len as u64) && final(self).device == old(self).device
                        && final(self).sessions.open@ == open
                } else if signature_capacity->Some_0 < len {
                    r == SignOutcome::BufferTooSmall(len as u64) && final(self).device == old(self).device
                        && final(self).sessions.open@ == open
                } else {
                    match r {
                        SignOutcome::Signature(sig) => {
                            &&& exchanged(old(self).device.channel(), final(self).device.channel(), 4, sign_request(message@))
                            &&& device_ok
                            &&& sig@ == response_payload(incoming)
                            &&& !final(self).sessions.open@[session].sign_active
                            &&& final(self).sessions.open@[session].pending_find == open[session].pending_find
                        },
                        SignOutcome::Failed(rv) => {
                            &&& rv == CKR_DEVICE_ERROR
                            &&& final(self).sessions.open@ == open
                            &&& !(sent && device_ok)
                        },
                        _ => false,
                    }
                }
            }),
    {
        match self.sign_precheck(session, signature_capacity) {
            Some(outcome) => {
                return outcome;
            },
            None => {},
        }
        let expected_len = self.signature_len;
        let sig = match self.device.sign(message) {
            Ok(sig) => sig,
            Err(_) => {
                return SignOutcome::Failed(CKR_DEVICE_ERROR);
            },
        };
        if sig.len() != expected_len {
            return SignOutcome::Failed(CKR_DEVICE_ERROR);
        }
        let mut state = match self.sessions.open.remove(&session) {
            Some(s) => s,
            None => {
                return SignOutcome::Failed(CKR_SESSION_HANDLE_INVALID);
            },
        };
        state.sign_active = false;
        self.sessions.open.insert(session, state);
        SignOutcome::Signature(sig)
    }
}

} // verus!
