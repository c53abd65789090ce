//! The attributes of the provider's two key objects, and the PKCS#11
//! template logic that reads them.

use vstd::prelude::*;
use vstd::string::StringSliceAdditionalSpecFns;
use crate::pkcs11::{
    CK_ATTRIBUTE_TYPE, CK_BBOOL, CK_FALSE, CK_OBJECT_CLASS, CK_OBJECT_HANDLE, CK_RV, CK_TRUE,
    CK_ULONG, CK_ULONG_SIZE, CK_UNAVAILABLE_INFORMATION, CKA_CLASS, CKA_ID, CKA_KEY_TYPE,
    CKA_LABEL, CKA_SIGN, CKA_TOKEN, CKA_VALUE, CKA_VERIFY, CKK_VENDOR_DEFINED, CKO_PRIVATE_KEY,
    CKO_PUBLIC_KEY, CKR_ATTRIBUTE_SENSITIVE, CKR_ATTRIBUTE_TYPE_INVALID, CKR_BUFFER_TOO_SMALL,
    CKR_KEY_HANDLE_INVALID, CKR_OK, PRIVATE_KEY_HANDLE, PUBLIC_KEY_HANDLE,
};

verus! {

/// The label of both key objects: `pqc-dev-hsm-key`.
pub open spec fn key_label() -> Seq<u8> {
    seq![112u8, 113, 99, 45, 100, 101, 118, 45, 104, 115, 109, 45, 107, 101, 121]
}

/// The value of an attribute, typed as PKCS#11 types it.
#[derive(Debug, PartialEq, Eq)]
pub enum AttributeValue {
    /// A `CK_ULONG`, stored in the machine's byte order.
    Ulong(CK_ULONG),
    /// A `CK_BBOOL`.
    Bool(CK_BBOOL),
    /// A byte string.
    Bytes(Vec<u8>),
}

/// The number of bytes a value takes in a template buffer.
pub open spec fn value_len(v: AttributeValue) -> nat {
    match v {
        AttributeValue::Ulong(_) => CK_ULONG_SIZE as nat,
        AttributeValue::Bool(_) => 1,
        AttributeValue::Bytes(b) => b@.len(),
    }
}

/// One entry of a template: the attribute asked for and, where the caller
/// supplied a buffer, its length.
#[derive(Debug, Clone, Copy, PartialEq, Eq)]
pub struct AttributeRequest {
    pub attr_type: CK_ATTRIBUTE_TYPE,
    pub capacity: Option<CK_ULONG>,
}

/// The answer for one template entry: the length to report and, where the
/// value is to be copied into the caller's buffer, the value.
#[derive(Debug, PartialEq, Eq)]
pub struct AttributeAnswer {
    pub value_len: CK_ULONG,
    pub value: Option<AttributeValue>,
}

/// The error an attribute of `object` is refused with, if any.
pub open spec fn attribute_error(object: CK_OBJECT_HANDLE, t: CK_ATTRIBUTE_TYPE) -> Option<CK_RV> {
    if t == CKA_CLASS || t == CKA_KEY_TYPE || t == CKA_TOKEN || t == CKA_SIGN || t == CKA_VERIFY
        || t == CKA_LABEL || t == CKA_ID {
        None
    } else if t == CKA_VALUE {
        if object == PUBLIC_KEY_HANDLE {
            None
        } else {
            Some(CKR_ATTRIBUTE_SENSITIVE)
        }
    } else {
        Some(CKR_ATTRIBUTE_TYPE_INVALID)
    }
}

/// `v` is the value of attribute `t` of `object`, whose public key is `public_key`.
pub open spec fn is_attribute_value(
    v: AttributeValue,
    object: CK_OBJECT_HANDLE,
    public_key: Seq<u8>,
    t: CK_ATTRIBUTE_TYPE,
) -> bool {
    match v {
        AttributeValue::Ulong(n) => {
            ||| t == CKA_CLASS && n == (if object == PRIVATE_KEY_HANDLE {
                CKO_PRIVATE_KEY
            } else {
                CKO_PUBLIC_KEY
            })
            ||| t == CKA_KEY_TYPE && n == CKK_VENDOR_DEFINED
        },
        AttributeValue::Bool(b) => {
            ||| t == CKA_TOKEN && b == CK_TRUE
            ||| t == CKA_SIGN && b == (if object == PRIVATE_KEY_HANDLE {
                CK_TRUE
            } else {
                CK_FALSE
            })
            ||| t == CKA_VERIFY && b == (if object == PUBLIC_KEY_HANDLE {
                CK_TRUE
            } else {
                CK_FALSE
            })
        },
        AttributeValue::Bytes(bytes) => {
            ||| t == CKA_LABEL && bytes@ == key_label()
            ||| t == CKA_ID && bytes@ == seq![1u8]
            ||| t == CKA_VALUE && object == PUBLIC_KEY_HANDLE && bytes@ == public_key
        },
    }
}

/// The length of the value of an attribute that is not refused.
pub open spec fn attribute_len(public_key: Seq<u8>, t: CK_ATTRIBUTE_TYPE) -> nat {
    if t == CKA_CLASS || t == CKA_KEY_TYPE {
        CK_ULONG_SIZE as nat
    } else if t == CKA_LABEL {
        key_label().len()
    } else if t == CKA_VALUE {
        public_key.len()
    } else {
        1
    }
}

/// The error a template entry reports, if any.
pub open spec fn request_error(
    req: AttributeRequest,
    object: CK_OBJECT_HANDLE,
    public_key: Seq<u8>,
) -> Option<CK_RV> {
    match attribute_error(object, req.attr_type) {
        Some(e) => Some(e),
        None => match req.capacity {
            Some(c) => if c < attribute_len(public_key, req.attr_type) {
                Some(CKR_BUFFER_TOO_SMALL)
            } else {
                None
            },
            None => None,
        },
    }
}

/// The answer a template entry gets.
pub open spec fn answers(
    req: AttributeRequest,
    ans: AttributeAnswer,
    object: CK_OBJECT_HANDLE,
    public_key: Seq<u8>,
) -> bool {
    let len = attribute_len(public_key, req.attr_type);
    if request_error(req, object, public_key) is Some {
        ans.value_len == CK_UNAVAILABLE_INFORMATION && ans.value is None
    } else {
        &&& ans.value_len == len
        &&& match req.capacity {
            None => ans.value is None,
            Some(_) => ans.value matches Some(v) && value_len(v) == len && is_attribute_value(
                v,
                object,
                public_key,
                req.attr_type,
            ),
        }
    }
}

/// The private key's value is never disclosed: asking for it is refused as
/// sensitive, its length is reported unavailable and nothing is copied.
pub proof fn lemma_private_value_withheld(req: AttributeRequest, ans: AttributeAnswer, public_key: Seq<u8>)
    requires
        req.attr_type == CKA_VALUE,
        answers(req, ans, PRIVATE_KEY_HANDLE, public_key),
    ensures
        request_error(req, PRIVATE_KEY_HANDLE, public_key) == Some(CKR_ATTRIBUTE_SENSITIVE),
        ans.value is None,
        ans.value_len == CK_UNAVAILABLE_INFORMATION,
{
}

/// What an answered template entry holds, attribute by attribute: the class
/// of the key (private 3, public 2), the vendor-defined key type, that both
/// keys are token objects, that only the private key signs and only the
/// public key verifies, the label `pqc-dev-hsm-key`, the id `[1]`, and for
/// the public key its value. Nothing else is ever answered.
pub proof fn lemma_answered_values(
    req: AttributeRequest,
    ans: AttributeAnswer,
    object: CK_OBJECT_HANDLE,
    public_key: Seq<u8>,
)
    requires
        answers(req, ans, object, public_key),
        ans.value is Some,
    ensures
        ({
            let t = req.attr_type;
            let v = ans.value->Some_0;
            &&& t == 0 ==> v == AttributeValue::Ulong(if object == PRIVATE_KEY_HANDLE { 3 } else { 2 })
            &&& t == 0x100 ==> v == AttributeValue::Ulong(0x8000_0000)
            &&& t == 1 ==> v == AttributeValue::Bool(1)
            &&& t == 0x108 ==> v == AttributeValue::Bool(if object == PRIVATE_KEY_HANDLE { 1 } else { 0 })
            &&& t == 0x10A ==> v == AttributeValue::Bool(if object == PUBLIC_KEY_HANDLE { 1 } else { 0 })
            &&& t == 3 ==> (v matches AttributeValue::Bytes(b) && b@ == "pqc-dev-hsm-key".spec_bytes())
            &&& t == 0x102 ==> (v matches AttributeValue::Bytes(b) && b@ == seq![1u8])
            &&& t == 0x11 ==> object == PUBLIC_KEY_HANDLE && (v matches AttributeValue::Bytes(b) && b@
                == public_key)
            &&& t == 0 || t == 0x100 || t == 1 || t == 0x108 || t == 0x10A || t == 3 || t == 0x102 || t
                == 0x11
            &&& ans.value_len == value_len(v)
        }),
{
    reveal_strlit("pqc-dev-hsm-key");
    vstd::utf8::is_ascii_chars_encode_utf8("pqc-dev-hsm-key"@);
    assert("pqc-dev-hsm-key".spec_bytes() =~= key_label());
}

/// The return value for a whole template: the first error an entry
/// reports, or `CKR_OK`.
pub open spec fn template_result(
    reqs: Seq<AttributeRequest>,
    object: CK_OBJECT_HANDLE,
    public_key: Seq<u8>,
) -> CK_RV
    decreases reqs.len(),
{
    if reqs.len() == 0 {
        CKR_OK
    } else {
        let before = template_result(reqs.drop_last(), object, public_key);
        if before != CKR_OK {
            before
        } else {
            match request_error(reqs.last(), object, public_key) {
                Some(e) => e,
                None => CKR_OK,
            }
        }
    }
}

/// `CKR_OK` for the two key objects, `CKR_KEY_HANDLE_INVALID` for any other handle.
pub fn check_key_object(object: CK_OBJECT_HANDLE) -> (rv: CK_RV)
    ensures
        rv == (if object == PRIVATE_KEY_HANDLE || object == PUBLIC_KEY_HANDLE {
            CKR_OK
        } else {
            CKR_KEY_HANDLE_INVALID
        }),
{
    if object != PRIVATE_KEY_HANDLE && object != PUBLIC_KEY_HANDLE {
        CKR_KEY_HANDLE_INVALID
    } else {
        CKR_OK
    }
}

/// The value of attribute `t` of `object`, or the error it is refused with.
pub fn attribute_value(object: CK_OBJECT_HANDLE, public_key: &[u8], t: CK_ATTRIBUTE_TYPE) -> (r: Result<AttributeValue, CK_RV>)
    ensures
        match attribute_error(object, t) {
            Some(e) => r == Err::<AttributeValue, CK_RV>(e),
            None => r matches Ok(v) && is_attribute_value(v, object, public_key@, t) && value_len(v)
                == attribute_len(public_key@, t),
        },
{
    if t == CKA_CLASS {
        let class = if object == PRIVATE_KEY_HANDLE { CKO_PRIVATE_KEY } else { CKO_PUBLIC_KEY };
        Ok(AttributeValue::Ulong(class))
    } else if t == CKA_KEY_TYPE {
        Ok(AttributeValue::Ulong(CKK_VENDOR_DEFINED))
    } else if t == CKA_TOKEN {
        Ok(AttributeValue::Bool(CK_TRUE))
    } else if t == CKA_SIGN {
        Ok(AttributeValue::Bool(if object == PRIVATE_KEY_HANDLE { CK_TRUE } else { CK_FALSE }))
    } else if t == CKA_VERIFY {
        Ok(AttributeValue::Bool(if object == PUBLIC_KEY_HANDLE { CK_TRUE } else { CK_FALSE }))
    } else if t == CKA_LABEL {
        let label = vec![112u8, 113, 99, 45, 100, 101, 118, 45, 104, 115, 109, 45, 107, 101, 121];
        assert(label@ =~= key_label());
        Ok(AttributeValue::Bytes(label))
    } else if t == CKA_ID {
        let id = vec![1u8];
        assert(id@ =~= seq![1u8]);
        Ok(AttributeValue::Bytes(id))
    } else if t == CKA_VALUE && object == PUBLIC_KEY_HANDLE {
        Ok(AttributeValue::Bytes(vstd::slice::slice_to_vec(public_key)))
    } else if t == CKA_VALUE {
        Err(CKR_ATTRIBUTE_SENSITIVE)
    } else {
        Err(CKR_ATTRIBUTE_TYPE_INVALID)
    }
}

/// Answers a `C_GetAttributeValue` template for `object`: for each entry the
/// length to report and the value to copy, and for the whole template the
/// first error an entry reports.
pub fn get_attribute_values(
    object: CK_OBJECT_HANDLE,
    public_key: &[u8],
    attrs: &[AttributeRequest],
) -> (r: (CK_RV, Vec<AttributeAnswer>))
    ensures
        r.0 == template_result(attrs@, object, public_key@),
        r.1@.len() == attrs@.len(),
        forall|i: int| 0 <= i < attrs@.len() ==> answers(#[trigger] attrs@[i], r.1@[i], object, public_key@),
{
    let mut overall: CK_RV = CKR_OK;
    let mut out: Vec<AttributeAnswer> = Vec::new();
    let mut i: usize = 0;
    while i < attrs.len()
        invariant
            i <= attrs@.len(),
            out@.len() == i,
            overall == template_result(attrs@.take(i as int), object, public_key@),
            forall|j: int| 0 <= j < i ==> answers(#[trigger] attrs@[j], out@[j], object, public_key@),
        decreases attrs@.len() - i,
    {
        let req = attrs[i];
        assert(attrs@.take(i + 1).drop_last() =~= attrs@.take(i as int));
        let answer = match attribute_value(object, public_key, req.attr_type) {
            Err(e) => {
                if overall == CKR_OK {
                    overall = e;
                }
                AttributeAnswer { value_len: CK_UNAVAILABLE_INFORMATION, value: None }
            },
            Ok(v) => {
                let len: u64 = match &v {
                    AttributeValue::Ulong(_) => CK_ULONG_SIZE,
                    AttributeValue::Bool(_) => 1,
                    AttributeValue::Bytes(b) => b.len() as u64,
                };
                match req.capacity {
                    None => AttributeAnswer { value_len: len, value: None },
                    Some(c) => {
                        if c < len {
                            if overall == CKR_OK {
                                overall = CKR_BUFFER_TOO_SMALL;
                            }
                            AttributeAnswer { value_len: CK_UNAVAILABLE_INFORMATION, value: None }
                        } else {
                            AttributeAnswer { value_len: len, value: Some(v) }
                        }
                    },
                }
            },
        };
        out.push(answer);
        i = i + 1;
    }
    assert(attrs@.take(attrs@.len() as int) =~= attrs@);
    (overall, out)
}

/// A template entry as `C_FindObjectsInit` reads it: the attribute type and,
/// where the entry holds a `CK_ULONG`-sized value, that value.
#[derive(Debug, Clone, Copy, PartialEq, Eq)]
pub struct TemplateEntry {
    pub attr_type: CK_ATTRIBUTE_TYPE,
    pub ulong_value: Option<CK_ULONG>,
}

/// The object class a search template asks for: the value of its first
/// `CKA_CLASS` entry that holds one.
pub open spec fn class_filter(attrs: Seq<TemplateEntry>) -> Option<CK_OBJECT_CLASS>
    decreases attrs.len(),
{
    if attrs.len() == 0 {
        None
    } else if attrs[0].attr_type == CKA_CLASS && attrs[0].ulong_value is Some {
        attrs[0].ulong_value
    } else {
        class_filter(attrs.skip(1))
    }
}

/// The first entry of a template that names a class with a value decides the
/// filter, whatever the class; an entry that does not is passed over; an
/// empty template has no filter.
pub proof fn lemma_class_filter_first_class(e: TemplateEntry, rest: Seq<TemplateEntry>)
    ensures
        e.attr_type == 0 && e.ulong_value is Some ==> class_filter(seq![e] + rest) == e.ulong_value,
        !(e.attr_type == 0 && e.ulong_value is Some) ==> class_filter(seq![e] + rest) == class_filter(
            rest,
        ),
        class_filter(Seq::<TemplateEntry>::empty()) == None::<CK_OBJECT_CLASS>,
{
    assert((seq![e] + rest).skip(1) =~= rest);
}

/// The object class a search template asks for, if it names one.
pub fn find_class_filter(attrs: &[TemplateEntry]) -> (r: Option<CK_OBJECT_CLASS>)
    ensures
        r == class_filter(attrs@),
{
    let mut i: usize = 0;
    assert(attrs@.skip(0) =~= attrs@);
    while i < attrs.len()
        invariant
            i <= attrs@.len(),
            class_filter(attrs@) == class_filter(attrs@.skip(i as int)),
        decreases attrs@.len() - i,
    {
        assert(attrs@.skip(i as int).skip(1) =~= attrs@.skip(i + 1));
        let entry = attrs[i];
        if entry.attr_type == CKA_CLASS {
            if let Some(class) = entry.ulong_value {
                return Some(class);
            }
        }
        i = i + 1;
    }
    assert(attrs@.skip(i as int) =~= Seq::<TemplateEntry>::empty());
    None
}

} // verus!
