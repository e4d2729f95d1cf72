use yubikey_piv::apdu::{Apdu, Response};
use yubikey_piv::error::Error;
use yubikey_piv::status::StatusWords;
use yubikey_piv::tlv::Tlv;

#[test]
fn tlv_round_trip_all_length_forms() {
    for tag in [0x7cu8, 0x82, 0x81, 0x85, 0x53, 0x5c] {
        for len in [0usize, 1, 127, 128, 255, 256, 65535] {
            let value: Vec<u8> = (0..len).map(|i| (i % 251) as u8).collect();
            let enc = Tlv::encode(tag, &value);
            let header = if len < 128 { 1 } else if len < 256 { 2 } else { 3 };
            assert_eq!(enc.len(), 1 + header + len);
            let (tlv, rest) = Tlv::parse(&enc).unwrap();
            assert_eq!(tlv.tag, tag);
            assert_eq!(tlv.value, value);
            assert!(rest.is_empty());
        }
    }
}

#[test]
fn tlv_length_form_bytes() {
    assert_eq!(Tlv::encode(0x53, &[]), vec![0x53, 0x00]);
    assert_eq!(Tlv::encode(0x53, &[9; 127])[..2], [0x53, 0x7f]);
    assert_eq!(Tlv::encode(0x53, &[9; 128])[..3], [0x53, 0x81, 0x80]);
    assert_eq!(Tlv::encode(0x53, &[9; 255])[..3], [0x53, 0x81, 0xff]);
    assert_eq!(Tlv::encode(0x53, &[9; 256])[..4], [0x53, 0x82, 0x01, 0x00]);
    assert_eq!(Tlv::encode(0x53, &vec![9; 65535])[..4], [0x53, 0x82, 0xff, 0xff]);
}

#[test]
fn tlv_parse_reports_trailing_bytes() {
    let (tlv, rest) = Tlv::parse(&[0x82, 0x02, 0xaa, 0xbb, 0x01, 0x02]).unwrap();
    assert_eq!(tlv.tag, 0x82);
    assert_eq!(tlv.value, vec![0xaa, 0xbb]);
    assert_eq!(rest, vec![0x01, 0x02]);
}

#[test]
fn tlv_parse_rejects_short_or_malformed() {
    assert_eq!(Tlv::parse(&[]).unwrap_err(), Error::ParseError);
    assert_eq!(Tlv::parse(&[0x53]).unwrap_err(), Error::ParseError);
    assert_eq!(Tlv::parse(&[0x53, 0x03, 0x01, 0x02]).unwrap_err(), Error::ParseError);
    assert_eq!(Tlv::parse(&[0x53, 0x81]).unwrap_err(), Error::ParseError);
    assert_eq!(Tlv::parse(&[0x53, 0x82, 0x01]).unwrap_err(), Error::ParseError);
    assert_eq!(Tlv::parse(&[0x53, 0x82, 0x01, 0x00, 0x00]).unwrap_err(), Error::ParseError);
    assert_eq!(Tlv::parse(&[0x53, 0x83, 0x00, 0x00, 0x01]).unwrap_err(), Error::ParseError);
}

#[test]
fn status_classification() {
    assert_eq!(StatusWords::from_code(0x9000), StatusWords::Success);
    assert_eq!(StatusWords::from_code(0x6110), StatusWords::BytesRemaining { len: 0x10 });
    assert_eq!(StatusWords::from_code(0x63c5), StatusWords::VerifyFailError { tries: 5 });
    assert_eq!(StatusWords::from_code(0x6983), StatusWords::AuthBlockedError);
    assert_eq!(StatusWords::from_code(0x6982), StatusWords::SecurityStatusError);
    assert_eq!(StatusWords::from_code(0x6a88), StatusWords::NotFoundError);
    assert_eq!(StatusWords::from_code(0x6a80), StatusWords::Other(0x6a80));
    for code in [0x9000u16, 0x61ff, 0x6100, 0x63c0, 0x63cf, 0x6983, 0x6982, 0x6a88, 0x6d00, 0] {
        assert_eq!(StatusWords::from_code(code).code(), code);
    }
    assert!(StatusWords::Success.is_success());
    assert!(!StatusWords::AuthBlockedError.is_success());
}

#[test]
fn apdu_serialization() {
    let a = Apdu { cla: 0x10, ins: 0xdb, p1: 0x3f, p2: 0xff, data: vec![1, 2, 3] };
    assert_eq!(a.to_bytes(), vec![0x10, 0xdb, 0x3f, 0xff, 3, 1, 2, 3]);
    assert_eq!(Apdu::new(0xc0).to_bytes(), vec![0, 0xc0, 0, 0, 0]);
}

#[test]
fn response_splits_status() {
    let r = Response::from_bytes(vec![0xaa, 0xbb, 0x90, 0x00]);
    assert_eq!(r.code, 0x9000);
    assert_eq!(r.data, vec![0xaa, 0xbb]);
    assert!(r.is_success());
    let r = Response::from_bytes(vec![0x63, 0xc2]);
    assert_eq!(r.status_words(), StatusWords::VerifyFailError { tries: 2 });
    assert!(r.data.is_empty());
    let r = Response::from_bytes(vec![0x90]);
    assert_eq!(r.code, 0);
    assert!(r.data.is_empty());
}

#[test]
fn apdu_wipe_empties_payload() {
    let mut a = Apdu { cla: 0, ins: 0x20, p1: 0, p2: 0x80, data: vec![0x31, 0x32, 0xff] };
    a.wipe();
    assert!(a.data.is_empty());
    assert_eq!((a.cla, a.ins, a.p1, a.p2), (0, 0x20, 0, 0x80));
}
