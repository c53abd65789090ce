//! The six SLH-DSA-SHA2 parameter sets a token can run, by name.

use vstd::prelude::*;
use vstd::string::StringSliceAdditionalSpecFns;

verus! {

/// An SLH-DSA parameter set with SHA-2 (FIPS 205).
#[derive(Debug, Clone, Copy, PartialEq, Eq, Structural)]
pub enum ParamSet {
    Sha2_128s,
    Sha2_128f,
    Sha2_192s,
    Sha2_192f,
    Sha2_256s,
    Sha2_256f,
}

/// The short name of a parameter set, such as `192f`, as UTF-8 bytes.
pub open spec fn name_bytes(p: ParamSet) -> Seq<u8> {
    match p {
        ParamSet::Sha2_128s => seq![49u8, 50, 56, 115],
        ParamSet::Sha2_128f => seq![49u8, 50, 56, 102],
        ParamSet::Sha2_192s => seq![49u8, 57, 50, 115],
        ParamSet::Sha2_192f => seq![49u8, 57, 50, 102],
        ParamSet::Sha2_256s => seq![50u8, 53, 54, 115],
        ParamSet::Sha2_256f => seq![50u8, 53, 54, 102],
    }
}

/// The parameter set named by `name`, if any.
pub open spec fn param_set_named(name: Seq<u8>) -> Option<ParamSet> {
    if name == name_bytes(ParamSet::Sha2_128s) {
        Some(ParamSet::Sha2_128s)
    } else if name == name_bytes(ParamSet::Sha2_128f) {
        Some(ParamSet::Sha2_128f)
    } else if name == name_bytes(ParamSet::Sha2_192s) {
        Some(ParamSet::Sha2_192s)
    } else if name == name_bytes(ParamSet::Sha2_192f) {
        Some(ParamSet::Sha2_192f)
    } else if name == name_bytes(ParamSet::Sha2_256s) {
        Some(ParamSet::Sha2_256s)
    } else if name == name_bytes(ParamSet::Sha2_256f) {
        Some(ParamSet::Sha2_256f)
    } else {
        None
    }
}

/// The security parameter `n`: bytes per hash output.
pub open spec fn hash_len(p: ParamSet) -> nat {
    match p {
        ParamSet::Sha2_128s | ParamSet::Sha2_128f => 16,
        ParamSet::Sha2_192s | ParamSet::Sha2_192f => 24,
        ParamSet::Sha2_256s | ParamSet::Sha2_256f => 32,
    }
}

/// Length of an encoded signature.
pub open spec fn signature_len(p: ParamSet) -> usize {
    match p {
        ParamSet::Sha2_128s => 7856,
        ParamSet::Sha2_128f => 17088,
        ParamSet::Sha2_192s => 16224,
        ParamSet::Sha2_192f => 35664,
        ParamSet::Sha2_256s => 29792,
        ParamSet::Sha2_256f => 49856,
    }
}

/// Length of an encoded secret key: `4n`.
pub open spec fn secret_key_len(p: ParamSet) -> nat {
    4 * hash_len(p)
}

/// Length of an encoded public key: `2n`.
pub open spec fn public_key_len(p: ParamSet) -> nat {
    2 * hash_len(p)
}

/// Whether `a` and `b` hold the same bytes.
pub fn bytes_eq(a: &[u8], b: &[u8]) -> (r: bool)
    ensures
        r == (a@ == b@),
{
    if a.len() != b.len() {
        return false;
    }
    let mut i: usize = 0;
    while i < a.len()
        invariant
            a@.len() == b@.len(),
            i <= a@.len(),
            forall|j: int| 0 <= j < i ==> a@[j] == b@[j],
        decreases a@.len() - i,
    {
        if a[i] != b[i] {
            return false;
        }
        i = i + 1;
    }
    assert(a@ =~= b@);
    true
}

impl ParamSet {
    /// The parameter set a name such as `192f` stands for.
    pub fn from_name(name: &str) -> (r: Option<ParamSet>)
        ensures
            r == param_set_named(name.spec_bytes()),
    {
        let b = name.as_bytes();
        let small_128: [u8; 4] = [49, 50, 56, 115];
        let fast_128: [u8; 4] = [49, 50, 56, 102];
        let small_192: [u8; 4] = [49, 57, 50, 115];
        let fast_192: [u8; 4] = [49, 57, 50, 102];
        let small_256: [u8; 4] = [50, 53, 54, 115];
        let fast_256: [u8; 4] = [50, 53, 54, 102];
        assert(small_128@ =~= name_bytes(ParamSet::Sha2_128s));
        assert(fast_128@ =~= name_bytes(ParamSet::Sha2_128f));
        assert(small_192@ =~= name_bytes(ParamSet::Sha2_192s));
        assert(fast_192@ =~= name_bytes(ParamSet::Sha2_192f));
        assert(small_256@ =~= name_bytes(ParamSet::Sha2_256s));
        assert(fast_256@ =~= name_bytes(ParamSet::Sha2_256f));
        if bytes_eq(b, &small_128) {
            Some(ParamSet::Sha2_128s)
        } else if bytes_eq(b, &fast_128) {
            Some(ParamSet::Sha2_128f)
        } else if bytes_eq(b, &small_192) {
            Some(ParamSet::Sha2_192s)
        } else if bytes_eq(b, &fast_192) {
            Some(ParamSet::Sha2_192f)
        } else if bytes_eq(b, &small_256) {
            Some(ParamSet::Sha2_256s)
        } else if bytes_eq(b, &fast_256) {
            Some(ParamSet::Sha2_256f)
        } else {
            None
        }
    }

    /// Length of an encoded signature of this parameter set.
    pub fn signature_len(&self) -> (r: usize)
        ensures
            r == signature_len(*self),
    {
        match self {
            ParamSet::Sha2_128s => 7856,
            ParamSet::Sha2_128f => 17088,
            ParamSet::Sha2_192s => 16224,
            ParamSet::Sha2_192f => 35664,
            ParamSet::Sha2_256s => 29792,
            ParamSet::Sha2_256f => 49856,
        }
    }
}

/// The signature length of the parameter set a token reports by name.
pub open spec fn signature_len_named(name: Seq<u8>) -> Option<usize> {
    match param_set_named(name) {
        Some(p) => Some(signature_len(p)),
        None => None,
    }
}

/// The signature length of the parameter set named `param_set_name`; `None`
/// for a name that is not one of the six.
pub fn signature_len_for(param_set_name: &str) -> (r: Option<usize>)
    ensures
        r == signature_len_named(param_set_name.spec_bytes()),
{
    match ParamSet::from_name(param_set_name) {
        Some(p) => Some(p.signature_len()),
        None => None,
    }
}

} // verus!
