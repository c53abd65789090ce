use pqc_hsm::attributes::{
    find_class_filter, get_attribute_values, AttributeAnswer, AttributeRequest, AttributeValue, TemplateEntry,
};
use pqc_hsm::endpoint::{parse_endpoint, parse_u32, Endpoint, EndpointError};
use pqc_hsm::params::{signature_len_for, ParamSet};
use pqc_hsm::pkcs11::{
    CKA_CLASS, CKA_ID, CKA_KEY_TYPE, CKA_LABEL, CKA_SIGN, CKA_TOKEN, CKA_VALUE, CKA_VERIFY, CKK_VENDOR_DEFINED,
    CKM_SLH_DSA_SHA2_VENDOR, CKO_PRIVATE_KEY, CKO_PUBLIC_KEY, CKR_ATTRIBUTE_SENSITIVE, CKR_ATTRIBUTE_TYPE_INVALID,
    CKR_BUFFER_TOO_SMALL, CKR_KEY_HANDLE_INVALID, CKR_MECHANISM_INVALID, CKR_OK, CKR_OPERATION_NOT_INITIALIZED,
    CKR_SESSION_HANDLE_INVALID, CKR_SLOT_ID_INVALID, CK_UNAVAILABLE_INFORMATION, PRIVATE_KEY_HANDLE,
    PUBLIC_KEY_HANDLE, SLOT_ID,
};
use pqc_hsm::provider::{
    check_slot, library_info, mechanism_info, pad_bytes, pad_utf8, single_entry_list, slot_info, Version,
};
use pqc_hsm::state::SessionTable;
use pqc_hsm::pkcs11 as ours;

#[test]
fn signature_lengths_follow_the_parameter_set() {
    assert_eq!(signature_len_for("128s"), Some(7856));
    assert_eq!(signature_len_for("128f"), Some(17088));
    assert_eq!(signature_len_for("192s"), Some(16224));
    assert_eq!(signature_len_for("192f"), Some(35664));
    assert_eq!(signature_len_for("256s"), Some(29792));
    assert_eq!(signature_len_for("256f"), Some(49856));
    assert_eq!(signature_len_for("192"), None);
    assert_eq!(signature_len_for("192f "), None);
    assert_eq!(signature_len_for(""), None);
}

#[test]
fn parameter_set_names_round_trip() {
    for p in [
        ParamSet::Sha2_128s,
        ParamSet::Sha2_128f,
        ParamSet::Sha2_192s,
        ParamSet::Sha2_192f,
        ParamSet::Sha2_256s,
        ParamSet::Sha2_256f,
    ] {
        assert_eq!(ParamSet::from_name(p.name()), Some(p));
    }
    assert_eq!(ParamSet::Sha2_192f.name(), "192f");
}

#[test]
fn tcp_endpoint_keeps_the_address() {
    assert_eq!(
        parse_endpoint("tcp://127.0.0.1:7878"),
        Ok(Endpoint::Tcp { address: "127.0.0.1:7878".to_string() })
    );
}

#[test]
fn serial_endpoint_splits_at_the_last_colon() {
    assert_eq!(
        parse_endpoint("serial:/dev/cu.usbmodem1101:115200"),
        Ok(Endpoint::Serial { path: "/dev/cu.usbmodem1101".to_string(), baud: 115200 })
    );
    assert_eq!(
        parse_endpoint("serial:COM3:x:9600"),
        Ok(Endpoint::Serial { path: "COM3:x".to_string(), baud: 9600 })
    );
}

#[test]
fn serial_endpoint_errors() {
    assert_eq!(
        parse_endpoint("serial:/dev/ttyUSB0"),
        Err(EndpointError::MissingBaud { rest: "/dev/ttyUSB0".to_string() })
    );
    assert_eq!(
        parse_endpoint("serial:/dev/ttyUSB0:fast"),
        Err(EndpointError::InvalidBaud { baud: "fast".to_string() })
    );
    assert_eq!(
        parse_endpoint("http://example"),
        Err(EndpointError::UnknownScheme { endpoint: "http://example".to_string() })
    );
}

#[test]
fn baud_rates_parse_as_std_parses_them() {
    for text in ["0", "115200", "+9600", "4294967295", "4294967296", "", "+", "-1", "12a", " 1", "007"] {
        assert_eq!(parse_u32(text), text.parse::<u32>().ok(), "text {:?}", text);
    }
}

#[test]
fn class_filter_takes_the_first_class_entry_with_a_value() {
    let template = [
        TemplateEntry { attr_type: CKA_LABEL, ulong_value: Some(7) },
        TemplateEntry { attr_type: CKA_CLASS, ulong_value: None },
        TemplateEntry { attr_type: CKA_CLASS, ulong_value: Some(CKO_PUBLIC_KEY) },
        TemplateEntry { attr_type: CKA_CLASS, ulong_value: Some(CKO_PRIVATE_KEY) },
    ];
    assert_eq!(find_class_filter(&template), Some(CKO_PUBLIC_KEY));
    assert_eq!(find_class_filter(&template[..2]), None);
    assert_eq!(find_class_filter(&[]), None);
}

fn request(attr_type: u64, capacity: Option<u64>) -> AttributeRequest {
    AttributeRequest { attr_type, capacity }
}

#[test]
fn public_key_attributes_are_reported() {
    let pk = [9u8, 8, 7];
    let (rv, answers) = get_attribute_values(
        PUBLIC_KEY_HANDLE,
        &pk,
        &[
            request(CKA_CLASS, Some(8)),
            request(CKA_KEY_TYPE, Some(8)),
            request(CKA_TOKEN, Some(1)),
            request(CKA_SIGN, Some(1)),
            request(CKA_VERIFY, Some(1)),
            request(CKA_LABEL, Some(64)),
            request(CKA_ID, Some(1)),
            request(CKA_VALUE, Some(3)),
        ],
    );
    assert_eq!(rv, CKR_OK);
    assert_eq!(answers[0], AttributeAnswer { value_len: 8, value: Some(AttributeValue::Ulong(CKO_PUBLIC_KEY)) });
    assert_eq!(answers[1], AttributeAnswer { value_len: 8, value: Some(AttributeValue::Ulong(CKK_VENDOR_DEFINED)) });
    assert_eq!(answers[2], AttributeAnswer { value_len: 1, value: Some(AttributeValue::Bool(1)) });
    assert_eq!(answers[3], AttributeAnswer { value_len: 1, value: Some(AttributeValue::Bool(0)) });
    assert_eq!(answers[4], AttributeAnswer { value_len: 1, value: Some(AttributeValue::Bool(1)) });
    assert_eq!(
        answers[5],
        AttributeAnswer { value_len: 15, value: Some(AttributeValue::Bytes(b"pqc-dev-hsm-key".to_vec())) }
    );
    assert_eq!(answers[6], AttributeAnswer { value_len: 1, value: Some(AttributeValue::Bytes(vec![1])) });
    assert_eq!(answers[7], AttributeAnswer { value_len: 3, value: Some(AttributeValue::Bytes(pk.to_vec())) });
}

#[test]
fn private_key_value_is_sensitive() {
    let (rv, answers) = get_attribute_values(
        PRIVATE_KEY_HANDLE,
        &[1, 2, 3],
        &[request(CKA_CLASS, Some(8)), request(CKA_VALUE, Some(100)), request(CKA_SIGN, Some(1))],
    );
    assert_eq!(rv, CKR_ATTRIBUTE_SENSITIVE);
    assert_eq!(answers[0].value, Some(AttributeValue::Ulong(CKO_PRIVATE_KEY)));
    assert_eq!(answers[1], AttributeAnswer { value_len: CK_UNAVAILABLE_INFORMATION, value: None });
    assert_eq!(answers[2].value, Some(AttributeValue::Bool(1)));
}

#[test]
fn first_error_of_a_template_wins_and_lengths_are_reported_without_buffers() {
    let (rv, answers) = get_attribute_values(
        PUBLIC_KEY_HANDLE,
        &[1, 2, 3, 4],
        &[request(CKA_VALUE, None), request(0x1234, Some(8)), request(CKA_LABEL, Some(3))],
    );
    assert_eq!(rv, CKR_ATTRIBUTE_TYPE_INVALID);
    assert_eq!(answers[0], AttributeAnswer { value_len: 4, value: None });
    assert_eq!(answers[1], AttributeAnswer { value_len: CK_UNAVAILABLE_INFORMATION, value: None });
    assert_eq!(answers[2], AttributeAnswer { value_len: CK_UNAVAILABLE_INFORMATION, value: None });

    let (rv, _) = get_attribute_values(PUBLIC_KEY_HANDLE, &[1, 2, 3, 4], &[request(CKA_LABEL, Some(3))]);
    assert_eq!(rv, CKR_BUFFER_TOO_SMALL);
}

#[test]
fn sessions_get_fresh_handles() {
    let mut sessions = SessionTable::new();
    let a = sessions.open_session();
    let b = sessions.open_session();
    assert_eq!((a, b), (1, 2));
    assert_eq!(sessions.count(), 2);
    assert_eq!(sessions.close_session(a), CKR_OK);
    assert_eq!(sessions.close_session(a), CKR_SESSION_HANDLE_INVALID);
    let c = sessions.open_session();
    assert_eq!(c, 3);
    assert_eq!(sessions.check_session(b), CKR_OK);
    assert_eq!(sessions.check_session(a), CKR_SESSION_HANDLE_INVALID);
}

#[test]
fn searches_return_the_objects_of_the_class_in_batches() {
    let mut sessions = SessionTable::new();
    let s = sessions.open_session();
    assert_eq!(sessions.find_objects(s, 10), Err(CKR_OPERATION_NOT_INITIALIZED));
    assert_eq!(sessions.find_objects_init(s, None), CKR_OK);
    assert_eq!(sessions.find_objects(s, 1), Ok(vec![PRIVATE_KEY_HANDLE]));
    assert_eq!(sessions.find_objects(s, 5), Ok(vec![PUBLIC_KEY_HANDLE]));
    assert_eq!(sessions.find_objects(s, 5), Ok(vec![]));
    assert_eq!(sessions.find_objects_final(s), CKR_OK);
    assert_eq!(sessions.find_objects(s, 5), Err(CKR_OPERATION_NOT_INITIALIZED));

    assert_eq!(sessions.find_objects_init(s, Some(CKO_PRIVATE_KEY)), CKR_OK);
    assert_eq!(sessions.find_objects(s, 5), Ok(vec![PRIVATE_KEY_HANDLE]));
    assert_eq!(sessions.find_objects_init(s, Some(CKO_PUBLIC_KEY)), CKR_OK);
    assert_eq!(sessions.find_objects(s, 5), Ok(vec![PUBLIC_KEY_HANDLE]));
    assert_eq!(sessions.find_objects_init(s, Some(99)), CKR_OK);
    assert_eq!(sessions.find_objects(s, 5), Ok(vec![]));
    assert_eq!(sessions.find_objects_init(77, None), CKR_SESSION_HANDLE_INVALID);
    assert_eq!(sessions.find_objects(77, 1), Err(CKR_SESSION_HANDLE_INVALID));
}

#[test]
fn sign_init_checks_mechanism_key_and_session() {
    let mut sessions = SessionTable::new();
    let s = sessions.open_session();
    assert_eq!(sessions.sign_init(s, 0x1234, PRIVATE_KEY_HANDLE), CKR_MECHANISM_INVALID);
    assert_eq!(sessions.sign_init(s, CKM_SLH_DSA_SHA2_VENDOR, PUBLIC_KEY_HANDLE), CKR_KEY_HANDLE_INVALID);
    assert_eq!(sessions.sign_init(s + 1, CKM_SLH_DSA_SHA2_VENDOR, PRIVATE_KEY_HANDLE), CKR_SESSION_HANDLE_INVALID);
    assert_eq!(sessions.sign_init(s, CKM_SLH_DSA_SHA2_VENDOR, PRIVATE_KEY_HANDLE), CKR_OK);
    assert!(sessions.open[&s].sign_active);
}

#[test]
fn list_queries_report_one_entry() {
    let a = single_entry_list(None);
    assert_eq!((a.rv, a.count, a.write_entry), (CKR_OK, 1, false));
    let a = single_entry_list(Some(0));
    assert_eq!((a.rv, a.count, a.write_entry), (CKR_BUFFER_TOO_SMALL, 1, false));
    let a = single_entry_list(Some(4));
    assert_eq!((a.rv, a.count, a.write_entry), (CKR_OK, 1, true));
}

#[test]
fn slot_and_mechanism_checks() {
    assert_eq!(check_slot(SLOT_ID), CKR_OK);
    assert_eq!(check_slot(1), CKR_SLOT_ID_INVALID);
    assert_eq!(slot_info(1).unwrap_err(), CKR_SLOT_ID_INVALID);
    let info = slot_info(SLOT_ID).unwrap();
    assert_eq!(info.slot_description.len(), 64);
    assert!(info.slot_description.starts_with(b"PQC Dev HSM: dev-signer/nano-signer over token-core "));
    assert_eq!(mechanism_info(SLOT_ID, 0x1234).unwrap_err(), CKR_MECHANISM_INVALID);
    assert_eq!(mechanism_info(3, CKM_SLH_DSA_SHA2_VENDOR).unwrap_err(), CKR_SLOT_ID_INVALID);
    assert_eq!(mechanism_info(SLOT_ID, CKM_SLH_DSA_SHA2_VENDOR).unwrap().flags, 2048);
    assert_eq!(CKM_SLH_DSA_SHA2_VENDOR, 0x8000_0001);
}

#[test]
fn library_info_is_padded_text() {
    let info = library_info();
    assert_eq!(info.cryptoki_version, Version { major: 2, minor: 40 });
    assert_eq!(info.manufacturer_id, b"PQC Dev HSM project             ".to_vec());
    assert_eq!(info.library_description, b"PQC Dev HSM PKCS#11 provider    ".to_vec());
    assert_eq!(info.library_version, Version { major: 0, minor: 1 });
}

#[test]
fn padding_cuts_and_fills() {
    assert_eq!(pad_bytes(b"abc", 5), b"abc  ".to_vec());
    assert_eq!(pad_bytes(b"abcdef", 4), b"abcd".to_vec());
    assert_eq!(pad_utf8("", 2), b"  ".to_vec());
}

#[test]
fn constants_match_cryptoki_sys() {
    assert_eq!(ours::CKA_CLASS, cryptoki_sys::CKA_CLASS);
    assert_eq!(ours::CKA_TOKEN, cryptoki_sys::CKA_TOKEN);
    assert_eq!(ours::CKA_LABEL, cryptoki_sys::CKA_LABEL);
    assert_eq!(ours::CKA_VALUE, cryptoki_sys::CKA_VALUE);
    assert_eq!(ours::CKA_KEY_TYPE, cryptoki_sys::CKA_KEY_TYPE);
    assert_eq!(ours::CKA_ID, cryptoki_sys::CKA_ID);
    assert_eq!(ours::CKA_SIGN, cryptoki_sys::CKA_SIGN);
    assert_eq!(ours::CKA_VERIFY, cryptoki_sys::CKA_VERIFY);
    assert_eq!(ours::CKO_PUBLIC_KEY, cryptoki_sys::CKO_PUBLIC_KEY);
    assert_eq!(ours::CKO_PRIVATE_KEY, cryptoki_sys::CKO_PRIVATE_KEY);
    assert_eq!(ours::CKK_VENDOR_DEFINED, cryptoki_sys::CKK_VENDOR_DEFINED);
    assert_eq!(ours::CKM_VENDOR_DEFINED, cryptoki_sys::CKM_VENDOR_DEFINED);
    assert_eq!(ours::CKM_SLH_DSA_SHA2_VENDOR, cryptoki_sys::CKM_VENDOR_DEFINED + 1);
    assert_eq!(ours::CKF_TOKEN_PRESENT, cryptoki_sys::CKF_TOKEN_PRESENT);
    assert_eq!(ours::CKF_RNG, cryptoki_sys::CKF_RNG);
    assert_eq!(ours::CKF_TOKEN_INITIALIZED, cryptoki_sys::CKF_TOKEN_INITIALIZED);
    assert_eq!(ours::CKF_SIGN, cryptoki_sys::CKF_SIGN);
    assert_eq!(ours::CKR_OK, cryptoki_sys::CKR_OK);
    assert_eq!(ours::CKR_SLOT_ID_INVALID, cryptoki_sys::CKR_SLOT_ID_INVALID);
    assert_eq!(ours::CKR_GENERAL_ERROR, cryptoki_sys::CKR_GENERAL_ERROR);
    assert_eq!(ours::CKR_ARGUMENTS_BAD, cryptoki_sys::CKR_ARGUMENTS_BAD);
    assert_eq!(ours::CKR_ATTRIBUTE_SENSITIVE, cryptoki_sys::CKR_ATTRIBUTE_SENSITIVE);
    assert_eq!(ours::CKR_ATTRIBUTE_TYPE_INVALID, cryptoki_sys::CKR_ATTRIBUTE_TYPE_INVALID);
    assert_eq!(ours::CKR_DEVICE_ERROR, cryptoki_sys::CKR_DEVICE_ERROR);
    assert_eq!(ours::CKR_FUNCTION_NOT_SUPPORTED, cryptoki_sys::CKR_FUNCTION_NOT_SUPPORTED);
    assert_eq!(ours::CKR_KEY_HANDLE_INVALID, cryptoki_sys::CKR_KEY_HANDLE_INVALID);
    assert_eq!(ours::CKR_MECHANISM_INVALID, cryptoki_sys::CKR_MECHANISM_INVALID);
    assert_eq!(ours::CKR_OPERATION_NOT_INITIALIZED, cryptoki_sys::CKR_OPERATION_NOT_INITIALIZED);
    assert_eq!(ours::CKR_SESSION_HANDLE_INVALID, cryptoki_sys::CKR_SESSION_HANDLE_INVALID);
    assert_eq!(ours::CKR_BUFFER_TOO_SMALL, cryptoki_sys::CKR_BUFFER_TOO_SMALL);
    assert_eq!(ours::CKR_CRYPTOKI_NOT_INITIALIZED, cryptoki_sys::CKR_CRYPTOKI_NOT_INITIALIZED);
    assert_eq!(ours::CK_TRUE, cryptoki_sys::CK_TRUE);
    assert_eq!(ours::CK_FALSE, cryptoki_sys::CK_FALSE);
    assert_eq!(ours::CK_EFFECTIVELY_INFINITE, cryptoki_sys::CK_EFFECTIVELY_INFINITE);
    assert_eq!(ours::CK_UNAVAILABLE_INFORMATION, cryptoki_sys::CK_ULONG::MAX);
    assert_eq!(ours::CK_ULONG_SIZE as usize, std::mem::size_of::<cryptoki_sys::CK_ULONG>());
}
