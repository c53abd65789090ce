//! The software signing backend of the development token: SLH-DSA-SHA2 from
//! the `slh-dsa` crate, with the key pair held in memory.

use vstd::prelude::*;
use vstd::string::StringSliceAdditionalSpecFns;
use slh_dsa::signature::{Keypair, Signer};
use crate::params::{name_bytes, param_set_named, public_key_len, secret_key_len, signature_len, ParamSet};
use crate::wire::{copy_into, SigningBackend};

verus! {

/// The signature `slh_dsa::SigningKey::<Sha2_128s>` gives `message` (signing is deterministic).
pub uninterp spec fn slh_sign_sha2_128s(secret_key: Seq<u8>, message: Seq<u8>) -> Seq<u8>;

/// The signature `slh_dsa::SigningKey::<Sha2_128f>` gives `message` (signing is deterministic).
pub uninterp spec fn slh_sign_sha2_128f(secret_key: Seq<u8>, message: Seq<u8>) -> Seq<u8>;

/// The signature `slh_dsa::SigningKey::<Sha2_192s>` gives `message` (signing is deterministic).
pub uninterp spec fn slh_sign_sha2_192s(secret_key: Seq<u8>, message: Seq<u8>) -> Seq<u8>;

/// The signature `slh_dsa::SigningKey::<Sha2_192f>` gives `message` (signing is deterministic).
pub uninterp spec fn slh_sign_sha2_192f(secret_key: Seq<u8>, message: Seq<u8>) -> Seq<u8>;

/// The signature `slh_dsa::SigningKey::<Sha2_256s>` gives `message` (signing is deterministic).
pub uninterp spec fn slh_sign_sha2_256s(secret_key: Seq<u8>, message: Seq<u8>) -> Seq<u8>;

/// The signature `slh_dsa::SigningKey::<Sha2_256f>` gives `message` (signing is deterministic).
pub uninterp spec fn slh_sign_sha2_256f(secret_key: Seq<u8>, message: Seq<u8>) -> Seq<u8>;

/// The SLH-DSA signature of `message` under the encoded secret key `secret_key`.
pub open spec fn slh_signature(p: ParamSet, secret_key: Seq<u8>, message: Seq<u8>) -> Seq<u8> {
    match p {
        ParamSet::Sha2_128s => slh_sign_sha2_128s(secret_key, message),
        ParamSet::Sha2_128f => slh_sign_sha2_128f(secret_key, message),
        ParamSet::Sha2_192s => slh_sign_sha2_192s(secret_key, message),
        ParamSet::Sha2_192f => slh_sign_sha2_192f(secret_key, message),
        ParamSet::Sha2_256s => slh_sign_sha2_256s(secret_key, message),
        ParamSet::Sha2_256f => slh_sign_sha2_256f(secret_key, message),
    }
}

/// Signs with `slh_dsa::SigningKey::<Sha2_128s>`: decodes the secret key with
/// `TryFrom<&[u8]>` and signs with `Signer::try_sign`. Trusted: decoding
/// accepts every key of 64 bytes, signing with the empty context never fails,
/// and the signature has 7856 bytes.
#[verifier::external_body]
fn sign_sha2_128s(secret_key: &[u8], message: &[u8]) -> (r: Option<Vec<u8>>)
    requires
        secret_key@.len() == 64,
    ensures
        r is Some,
        r->Some_0@ == slh_sign_sha2_128s(secret_key@, message@),
        r->Some_0@.len() == 7856,
{
    let key = slh_dsa::SigningKey::<slh_dsa::Sha2_128s>::try_from(secret_key).ok()?;
    let signature = key.try_sign(message).ok()?;
    Some(signature.to_vec())
}

/// Signs with `slh_dsa::SigningKey::<Sha2_128f>`: decodes the secret key with
/// `TryFrom<&[u8]>` and signs with `Signer::try_sign`. Trusted: decoding
/// accepts every key of 64 bytes, signing with the empty context never fails,
/// and the signature has 17088 bytes.
#[verifier::external_body]
fn sign_sha2_128f(secret_key: &[u8], message: &[u8]) -> (r: Option<Vec<u8>>)
    requires
        secret_key@.len() == 64,
    ensures
        r is Some,
        r->Some_0@ == slh_sign_sha2_128f(secret_key@, message@),
        r->Some_0@.len() == 17088,
{
    let key = slh_dsa::SigningKey::<slh_dsa::Sha2_128f>::try_from(secret_key).ok()?;
    let signature = key.try_sign(message).ok()?;
    Some(signature.to_vec())
}

/// Signs with `slh_dsa::SigningKey::<Sha2_192s>`: decodes the secret key with
/// `TryFrom<&[u8]>` and signs with `Signer::try_sign`. Trusted: decoding
/// accepts every key of 96 bytes, signing with the empty context never fails,
/// and the signature has 16224 bytes.
#[verifier::external_body]
fn sign_sha2_192s(secret_key: &[u8], message: &[u8]) -> (r: Option<Vec<u8>>)
    requires
        secret_key@.len() == 96,
    ensures
        r is Some,
        r->Some_0@ == slh_sign_sha2_192s(secret_key@, message@),
        r->Some_0@.len() == 16224,
{
    let key = slh_dsa::SigningKey::<slh_dsa::Sha2_192s>::try_from(secret_key).ok()?;
    let signature = key.try_sign(message).ok()?;
    Some(signature.to_vec())
}

/// Signs with `slh_dsa::SigningKey::<Sha2_192f>`: decodes the secret key with
/// `TryFrom<&[u8]>` and signs with `Signer::try_sign`. Trusted: decoding
/// accepts every key of 96 bytes, signing with the empty context never fails,
/// and the signature has 35664 bytes.
#[verifier::external_body]
fn sign_sha2_192f(secret_key: &[u8], message: &[u8]) -> (r: Option<Vec<u8>>)
    requires
        secret_key@.len() == 96,
    ensures
        r is Some,
        r->Some_0@ == slh_sign_sha2_192f(secret_key@, message@),
        r->Some_0@.len() == 35664,
{
    let key = slh_dsa::SigningKey::<slh_dsa::Sha2_192f>::try_from(secret_key).ok()?;
    let signature = key.try_sign(message).ok()?;
    Some(signature.to_vec())
}

/// Signs with `slh_dsa::SigningKey::<Sha2_256s>`: decodes the secret key with
/// `TryFrom<&[u8]>` and signs with `Signer::try_sign`. Trusted: decoding
/// accepts every key of 128 bytes, signing with the empty context never fails,
/// and the signature has 29792 bytes.
#[verifier::external_body]
fn sign_sha2_256s(secret_key: &[u8], message: &[u8]) -> (r: Option<Vec<u8>>)
    requires
        secret_key@.len() == 128,
    ensures
        r is Some,
        r->Some_0@ == slh_sign_sha2_256s(secret_key@, message@),
        r->Some_0@.len() == 29792,
{
    let key = slh_dsa::SigningKey::<slh_dsa::Sha2_256s>::try_from(secret_key).ok()?;
    let signature = key.try_sign(message).ok()?;
    Some(signature.to_vec())
}

/// Signs with `slh_dsa::SigningKey::<Sha2_256f>`: decodes the secret key with
/// `TryFrom<&[u8]>` and signs with `Signer::try_sign`. Trusted: decoding
/// accepts every key of 128 bytes, signing with the empty context never fails,
/// and the signature has 49856 bytes.
#[verifier::external_body]
fn sign_sha2_256f(secret_key: &[u8], message: &[u8]) -> (r: Option<Vec<u8>>)
    requires
        secret_key@.len() == 128,
    ensures
        r is Some,
        r->Some_0@ == slh_sign_sha2_256f(secret_key@, message@),
        r->Some_0@.len() == 49856,
{
    let key = slh_dsa::SigningKey::<slh_dsa::Sha2_256f>::try_from(secret_key).ok()?;
    let signature = key.try_sign(message).ok()?;
    Some(signature.to_vec())
}

/// A fresh key pair from `slh_dsa::SigningKey::<Sha2_128s>::new` with the
/// operating system's random source, encoded with `to_bytes`. Trusted: the
/// secret key has 64 bytes and ends with the 32 bytes of the public key.
#[verifier::external_body]
fn generate_sha2_128s() -> (r: (Vec<u8>, Vec<u8>))
    ensures
        r.0@.len() == 64,
        r.1@ == r.0@.subrange(32, 64),
{
    let key = slh_dsa::SigningKey::<slh_dsa::Sha2_128s>::new(&mut rand_core::OsRng);
    (key.to_bytes().to_vec(), key.verifying_key().to_bytes().to_vec())
}

/// A fresh key pair from `slh_dsa::SigningKey::<Sha2_128f>::new` with the
/// operating system's random source, encoded with `to_bytes`. Trusted: the
/// secret key has 64 bytes and ends with the 32 bytes of the public key.
#[verifier::external_body]
fn generate_sha2_128f() -> (r: (Vec<u8>, Vec<u8>))
    ensures
        r.0@.len() == 64,
        r.1@ == r.0@.subrange(32, 64),
{
    let key = slh_dsa::SigningKey::<slh_dsa::Sha2_128f>::new(&mut rand_core::OsRng);
    (key.to_bytes().to_vec(), key.verifying_key().to_bytes().to_vec())
}

/// A fresh key pair from `slh_dsa::SigningKey::<Sha2_192s>::new` with the
/// operating system's random source, encoded with `to_bytes`. Trusted: the
/// secret key has 96 bytes and ends with the 48 bytes of the public key.
#[verifier::external_body]
fn generate_sha2_192s() -> (r: (Vec<u8>, Vec<u8>))
    ensures
        r.0@.len() == 96,
        r.1@ == r.0@.subrange(48, 96),
{
    let key = slh_dsa::SigningKey::<slh_dsa::Sha2_192s>::new(&mut rand_core::OsRng);
    (key.to_bytes().to_vec(), key.verifying_key().to_bytes().to_vec())
}

/// A fresh key pair from `slh_dsa::SigningKey::<Sha2_192f>::new` with the
/// operating system's random source, encoded with `to_bytes`. Trusted: the
/// secret key has 96 bytes and ends with the 48 bytes of the public key.
#[verifier::external_body]
fn generate_sha2_192f() -> (r: (Vec<u8>, Vec<u8>))
    ensures
        r.0@.len() == 96,
        r.1@ == r.0@.subrange(48, 96),
{
    let key = slh_dsa::SigningKey::<slh_dsa::Sha2_192f>::new(&mut rand_core::OsRng);
    (key.to_bytes().to_vec(), key.verifying_key().to_bytes().to_vec())
}

/// A fresh key pair from `slh_dsa::SigningKey::<Sha2_256s>::new` with the
/// operating system's random source, encoded with `to_bytes`. Trusted: the
/// secret key has 128 bytes and ends with the 64 bytes of the public key.
#[verifier::external_body]
fn generate_sha2_256s() -> (r: (Vec<u8>, Vec<u8>))
    ensures
        r.0@.len() == 128,
        r.1@ == r.0@.subrange(64, 128),
{
    let key = slh_dsa::SigningKey::<slh_dsa::Sha2_256s>::new(&mut rand_core::OsRng);
    (key.to_bytes().to_vec(), key.verifying_key().to_bytes().to_vec())
}

/// A fresh key pair from `slh_dsa::SigningKey::<Sha2_256f>::new` with the
/// operating system's random source, encoded with `to_bytes`. Trusted: the
/// secret key has 128 bytes and ends with the 64 bytes of the public key.
#[verifier::external_body]
fn generate_sha2_256f() -> (r: (Vec<u8>, Vec<u8>))
    ensures
        r.0@.len() == 128,
        r.1@ == r.0@.subrange(64, 128),
{
    let key = slh_dsa::SigningKey::<slh_dsa::Sha2_256f>::new(&mut rand_core::OsRng);
    (key.to_bytes().to_vec(), key.verifying_key().to_bytes().to_vec())
}


/// A software backend: a parameter set, an encoded secret key and the public
/// key it answers with.
pub struct DevBackend {
    param_set: ParamSet,
    secret_key: Vec<u8>,
    public_key: Vec<u8>,
}

/// Why a software backend could not be built from key files.
#[derive(Debug, PartialEq, Eq)]
pub enum DevBackendError {
    /// The parameter set name is not one of the six.
    UnknownParameterSet(String),
    /// The secret key is not a key of the parameter set.
    InvalidSecretKey(ParamSet),
}

impl DevBackend {
    /// The parameter set.
    pub closed spec fn spec_param_set(&self) -> ParamSet {
        self.param_set
    }

    /// The encoded secret key.
    pub closed spec fn spec_secret_key(&self) -> Seq<u8> {
        self.secret_key@
    }

    /// The secret key is one of the parameter set: `slh_dsa` decodes exactly
    /// the keys of `4n` bytes.
    pub closed spec fn wf(&self) -> bool {
        self.secret_key@.len() == secret_key_len(self.param_set)
    }

    /// A backend for the parameter set named `param_set_name` with the given
    /// secret and public keys, as read from the key files.
    pub fn from_key_files(param_set_name: &str, sec_key: &[u8], pub_key: &[u8]) -> (r: Result<DevBackend, DevBackendError>)
        ensures
            match param_set_named(param_set_name.spec_bytes()) {
                None => r matches Err(DevBackendError::UnknownParameterSet(name)) && name@ == param_set_name@,
                Some(p) => if sec_key@.len() != secret_key_len(p) {
                    r == Err::<DevBackend, DevBackendError>(DevBackendError::InvalidSecretKey(p))
                } else {
                    r matches Ok(b) && {
                        &&& b.wf()
                        &&& b.spec_param_set() == p
                        &&& b.spec_secret_key() == sec_key@
                        &&& b.spec_public_key() == pub_key@
                    }
                },
            },
    {
        let p = match ParamSet::from_name(param_set_name) {
            Some(p) => p,
            None => {
                return Err(DevBackendError::UnknownParameterSet(param_set_name.to_owned()));
            },
        };
        let expected: usize = match p {
            ParamSet::Sha2_128s | ParamSet::Sha2_128f => 64,
            ParamSet::Sha2_192s | ParamSet::Sha2_192f => 96,
            ParamSet::Sha2_256s | ParamSet::Sha2_256f => 128,
        };
        if sec_key.len() != expected {
            return Err(DevBackendError::InvalidSecretKey(p));
        }
        Ok(DevBackend {
            param_set: p,
            secret_key: vstd::slice::slice_to_vec(sec_key),
            public_key: vstd::slice::slice_to_vec(pub_key),
        })
    }
}

impl ParamSet {
    /// The short name of the parameter set, such as `192f`.
    pub fn name(&self) -> (name: &'static str)
        ensures
            name.spec_bytes() == name_bytes(*self),
    {
        match self {
            ParamSet::Sha2_128s => {
                proof {
                    reveal_strlit("128s");
                    vstd::utf8::is_ascii_chars_encode_utf8("128s"@);
                }
                assert("128s".spec_bytes() =~= name_bytes(*self));
                "128s"
            },
            ParamSet::Sha2_128f => {
                proof {
                    reveal_strlit("128f");
                    vstd::utf8::is_ascii_chars_encode_utf8("128f"@);
                }
                assert("128f".spec_bytes() =~= name_bytes(*self));
                "128f"
            },
            ParamSet::Sha2_192s => {
                proof {
                    reveal_strlit("192s");
                    vstd::utf8::is_ascii_chars_encode_utf8("192s"@);
                }
                assert("192s".spec_bytes() =~= name_bytes(*self));
                "192s"
            },
            ParamSet::Sha2_192f => {
                proof {
                    reveal_strlit("192f");
                    vstd::utf8::is_ascii_chars_encode_utf8("192f"@);
                }
                assert("192f".spec_bytes() =~= name_bytes(*self));
                "192f"
            },
            ParamSet::Sha2_256s => {
                proof {
                    reveal_strlit("256s");
                    vstd::utf8::is_ascii_chars_encode_utf8("256s"@);
                }
                assert("256s".spec_bytes() =~= name_bytes(*self));
                "256s"
            },
            ParamSet::Sha2_256f => {
                proof {
                    reveal_strlit("256f");
                    vstd::utf8::is_ascii_chars_encode_utf8("256f"@);
                }
                assert("256f".spec_bytes() =~= name_bytes(*self));
                "256f"
            },
        }
    }
}

impl SigningBackend for DevBackend {
    closed spec fn spec_name_bytes(&self) -> Seq<u8> {
        name_bytes(self.param_set)
    }

    closed spec fn spec_public_key(&self) -> Seq<u8> {
        self.public_key@
    }

    closed spec fn spec_signs(&self, message: Seq<u8>, signature: Seq<u8>) -> bool {
        self.wf() && signature == slh_signature(self.param_set, self.secret_key@, message)
    }

    closed spec fn spec_sign_ok(&self, message: Seq<u8>, capacity: nat) -> bool {
        self.wf() && signature_len(self.param_set) <= capacity
    }

    closed spec fn spec_keygen_ok(&self) -> bool {
        true
    }

    fn param_set_name(&self) -> (name: &str) {
        self.param_set.name()
    }

    fn public_key(&self) -> (key: &[u8]) {
        self.public_key.as_slice()
    }

    fn sign(&self, message: &[u8], out: &mut [u8]) -> (r: Result<usize, ()>)
        ensures
            r is Ok <==> self.wf() && signature_len(self.spec_param_set()) <= old(out)@.len(),
            r matches Ok(n) ==> n == signature_len(self.spec_param_set()),
    {
        if !self.secret_key_fits() {
            return Err(());
        }
        let sk = self.secret_key.as_slice();
        let signature = match self.param_set {
            ParamSet::Sha2_128s => sign_sha2_128s(sk, message),
            ParamSet::Sha2_128f => sign_sha2_128f(sk, message),
            ParamSet::Sha2_192s => sign_sha2_192s(sk, message),
            ParamSet::Sha2_192f => sign_sha2_192f(sk, message),
            ParamSet::Sha2_256s => sign_sha2_256s(sk, message),
            ParamSet::Sha2_256f => sign_sha2_256f(sk, message),
        };
        let signature = match signature {
            Some(s) => s,
            None => {
                return Err(());
            },
        };
        if out.len() < signature.len() {
            return Err(());
        }
        copy_into(out, 0, signature.as_slice());
        assert(out@.take(signature@.len() as int) =~= signature@);
        Ok(signature.len())
    }

    fn generate_keypair(&mut self) -> (generated: bool)
        ensures
            generated,
            final(self).wf(),
            final(self).spec_param_set() == old(self).spec_param_set(),
            final(self).spec_public_key() == final(self).spec_secret_key().subrange(
                public_key_len(final(self).spec_param_set()) as int,
                secret_key_len(final(self).spec_param_set()) as int,
            ),
    {
        let (secret_key, public_key) = match self.param_set {
            ParamSet::Sha2_128s => generate_sha2_128s(),
            ParamSet::Sha2_128f => generate_sha2_128f(),
            ParamSet::Sha2_192s => generate_sha2_192s(),
            ParamSet::Sha2_192f => generate_sha2_192f(),
            ParamSet::Sha2_256s => generate_sha2_256s(),
            ParamSet::Sha2_256f => generate_sha2_256f(),
        };
        self.secret_key = secret_key;
        self.public_key = public_key;
        true
    }
}

impl DevBackend {
    /// What the backend tells about itself: the name of its parameter set,
    /// that it signs with its secret key, that signing succeeds exactly where
    /// the key is one of the parameter set and the buffer holds a signature,
    /// and that it always generates a key pair when asked.
    pub proof fn lemma_backend_specs(&self)
        ensures
            self.spec_name_bytes() == name_bytes(self.spec_param_set()),
            forall|m: Seq<u8>, sig: Seq<u8>| #[trigger]
                self.spec_signs(m, sig) == (self.wf() && sig == slh_signature(
                    self.spec_param_set(),
                    self.spec_secret_key(),
                    m,
                )),
            forall|m: Seq<u8>, c: nat| #[trigger]
                self.spec_sign_ok(m, c) == (self.wf() && signature_len(self.spec_param_set()) <= c),
            self.spec_keygen_ok(),
    {
    }

    /// The secret key has the length of the parameter set's keys.
    fn secret_key_fits(&self) -> (r: bool)
        ensures
            r == self.wf(),
    {
        let expected: usize = match self.param_set {
            ParamSet::Sha2_128s | ParamSet::Sha2_128f => 64,
            ParamSet::Sha2_192s | ParamSet::Sha2_192f => 96,
            ParamSet::Sha2_256s | ParamSet::Sha2_256f => 128,
        };
        self.secret_key.len() == expected
    }
}

} // verus!
