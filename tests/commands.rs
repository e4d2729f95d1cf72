use yubikey_piv::apdu::{Apdu, Response};
use yubikey_piv::chain::{Transfer, TransferStep};
use yubikey_piv::commands::{
    authenticated_request, authenticated_result, change_ref_request, change_ref_result, check_success,
    fetch_object_request, fetch_object_result, get_version_frame, save_object_request, save_object_result,
    select_application_frame, set_mgm_key_frame, verify_pin_frame, verify_pin_result, version_from_response,
    AlgorithmId, ChangeRefAction, MgmKey, SlotId, Version, CB_OBJ_MAX,
};
use yubikey_piv::error::Error;
use yubikey_piv::serial::{Serial, SerialQuery, SerialStep};
use yubikey_piv::tlv::Tlv;

fn ok(data: Vec<u8>) -> Response {
    Response { code: 0x9000, data }
}

/// Sends all fragments with success answers and returns the payload sent.
fn send_all(t: &mut Transfer, first: Apdu) -> (Vec<u8>, Response) {
    let mut payload = first.data.clone();
    loop {
        match t.receive(ok(vec![])) {
            TransferStep::Send(a) => payload.extend_from_slice(&a.data),
            TransferStep::Finished(r) => return (payload, r),
            TransferStep::Failed(e) => panic!("failed: {:?}", e),
        }
    }
}

#[test]
fn select_application_frame_bytes() {
    let a = select_application_frame();
    assert_eq!(a.to_bytes(), vec![0x00, 0xa4, 0x04, 0x00, 0x05, 0xa0, 0x00, 0x00, 0x03, 0x08]);
    assert_eq!(check_success(0x9000), Ok(()));
    assert_eq!(check_success(0x6a82), Err(Error::GenericError));
}

#[test]
fn version_parsing() {
    assert_eq!(get_version_frame().ins, 0xfd);
    assert_eq!(version_from_response(&ok(vec![5, 4, 3])), Ok(Version { major: 5, minor: 4, patch: 3 }));
    assert_eq!(version_from_response(&ok(vec![5, 4])), Err(Error::SizeError));
    assert_eq!(version_from_response(&Response { code: 0x6d00, data: vec![5, 4, 3] }), Err(Error::GenericError));
}

#[test]
fn verify_pin_payloads() {
    let empty = verify_pin_frame(&[]).unwrap();
    assert!(empty.data.is_empty());
    assert_eq!((empty.ins, empty.p1, empty.p2), (0x20, 0x00, 0x80));
    let a = verify_pin_frame(b"123456").unwrap();
    assert_eq!(a.data, vec![0x31, 0x32, 0x33, 0x34, 0x35, 0x36, 0xff, 0xff]);
    let a = verify_pin_frame(b"1").unwrap();
    assert_eq!(a.data, vec![0x31, 0xff, 0xff, 0xff, 0xff, 0xff, 0xff, 0xff]);
    let a = verify_pin_frame(b"12345678").unwrap();
    assert_eq!(a.data, b"12345678".to_vec());
    assert_eq!(verify_pin_frame(b"123456789").unwrap_err(), Error::SizeError);
}

#[test]
fn verify_pin_statuses() {
    assert_eq!(verify_pin_result(0x9000), Ok(()));
    assert_eq!(verify_pin_result(0x6983), Err(Error::WrongPin { tries: 0 }));
    assert_eq!(verify_pin_result(0x63c5), Err(Error::WrongPin { tries: 5 }));
    assert_eq!(verify_pin_result(0x63c0), Err(Error::WrongPin { tries: 0 }));
    assert_eq!(verify_pin_result(0x6a80), Err(Error::GenericError));
}

#[test]
fn change_ref_payload_and_statuses() {
    let (mut t, first) = change_ref_request(ChangeRefAction::ChangePin, b"123456", b"654321").unwrap();
    assert_eq!((first.cla, first.ins, first.p1, first.p2), (0, 0x24, 0, 0x80));
    let (payload, _) = send_all(&mut t, first);
    let mut expected = b"123456".to_vec();
    expected.extend_from_slice(&[0xff, 0xff]);
    expected.extend_from_slice(b"654321");
    expected.extend_from_slice(&[0xff, 0xff]);
    assert_eq!(payload, expected);

    let (_, a) = change_ref_request(ChangeRefAction::ChangePuk, b"12345678", b"87654321").unwrap();
    assert_eq!((a.ins, a.p2), (0x24, 0x81));
    let (_, a) = change_ref_request(ChangeRefAction::UnblockPin, b"12345678", b"1234").unwrap();
    assert_eq!((a.ins, a.p2), (0x2c, 0x80));

    assert!(matches!(change_ref_request(ChangeRefAction::ChangePin, b"123456789", b"1"), Err(Error::SizeError)));
    assert!(matches!(change_ref_request(ChangeRefAction::ChangePin, b"1", b"123456789"), Err(Error::SizeError)));

    assert_eq!(change_ref_result(0x9000), Ok(()));
    assert_eq!(change_ref_result(0x6983), Err(Error::PinLocked));
    assert_eq!(change_ref_result(0x63c2), Err(Error::WrongPin { tries: 2 }));
    assert_eq!(change_ref_result(0x6700), Err(Error::GenericError));
}

#[test]
fn management_key_frame() {
    let key: Vec<u8> = (1..=24).collect();
    let k = MgmKey::from_bytes(&key).unwrap();
    let a = set_mgm_key_frame(&k, false);
    assert_eq!((a.cla, a.ins, a.p1, a.p2), (0, 0xff, 0xff, 0xff));
    let mut expected = vec![0x03, 0x9b, 24];
    expected.extend_from_slice(&key);
    assert_eq!(a.data, expected);
    assert_eq!(set_mgm_key_frame(&k, true).p2, 0xfe);
    k.erase();
    assert!(matches!(MgmKey::from_bytes(&[0u8; 23]), Err(Error::SizeError)));
    assert!(matches!(MgmKey::from_bytes(&[0u8; 25]), Err(Error::SizeError)));
}

/// A card that stores what PUT DATA sends and answers GET DATA with it.
fn store_and_fetch(id: u32, data: &[u8]) -> Result<Vec<u8>, Error> {
    let (mut t, first) = save_object_request(id, data)?;
    let (payload, end) = send_all(&mut t, first);
    save_object_result(end.code)?;
    let (addr, stored) = Tlv::parse(&payload).unwrap();
    assert_eq!(addr.tag, 0x5c);
    assert_eq!(addr.value, vec![(id >> 16) as u8, (id >> 8) as u8, id as u8]);

    let (mut t, first) = fetch_object_request(id);
    assert_eq!((first.ins, first.p1, first.p2), (0xcb, 0x3f, 0xff));
    assert_eq!(first.data, Tlv::encode(0x5c, &addr.value));
    match t.receive(ok(stored)) {
        TransferStep::Finished(r) => fetch_object_result(&r),
        _ => panic!("fetch did not finish"),
    }
}

#[test]
fn object_round_trip() {
    for len in [0usize, 1, 127, 128, 255, 256, 1000, CB_OBJ_MAX] {
        let data: Vec<u8> = (0..len).map(|i| (i * 7 % 256) as u8).collect();
        assert_eq!(store_and_fetch(0x5fc105, &data), Ok(data));
    }
}

#[test]
fn object_too_large_is_refused() {
    let data = vec![0u8; CB_OBJ_MAX + 1];
    assert!(matches!(save_object_request(0x5fc105, &data), Err(Error::SizeError)));
}

#[test]
fn object_statuses() {
    assert_eq!(save_object_result(0x6982), Err(Error::AuthenticationError));
    assert_eq!(save_object_result(0x6a80), Err(Error::GenericError));
    assert_eq!(fetch_object_result(&Response { code: 0x6a88, data: vec![] }), Err(Error::NotFound));
    assert_eq!(fetch_object_result(&Response { code: 0x6f00, data: vec![] }), Err(Error::GenericError));
    assert_eq!(fetch_object_result(&ok(vec![0x53, 0x01, 0xaa, 0x00])), Err(Error::SizeError));
    assert_eq!(fetch_object_result(&ok(vec![0x53, 0x05, 0xaa])), Err(Error::ParseError));
}

#[test]
fn authenticated_input_validation() {
    let s = SlotId::Signature;
    assert!(matches!(authenticated_request(&[0; 255], AlgorithmId::Rsa2048, s, false), Err(Error::SizeError)));
    assert!(matches!(authenticated_request(&[0; 257], AlgorithmId::Rsa2048, s, false), Err(Error::SizeError)));
    assert!(authenticated_request(&[0; 256], AlgorithmId::Rsa2048, s, false).is_ok());
    assert!(matches!(authenticated_request(&[0; 127], AlgorithmId::Rsa1024, s, false), Err(Error::SizeError)));
    assert!(authenticated_request(&[0; 128], AlgorithmId::Rsa1024, s, true).is_ok());
    assert!(matches!(authenticated_request(&[0; 64], AlgorithmId::EccP256, s, true), Err(Error::SizeError)));
    assert!(matches!(authenticated_request(&[0; 66], AlgorithmId::EccP256, s, true), Err(Error::SizeError)));
    assert!(authenticated_request(&[0; 65], AlgorithmId::EccP256, s, true).is_ok());
    assert!(authenticated_request(&[0; 32], AlgorithmId::EccP256, s, false).is_ok());
    assert!(matches!(authenticated_request(&[0; 33], AlgorithmId::EccP256, s, false), Err(Error::SizeError)));
    assert!(authenticated_request(&[0; 48], AlgorithmId::EccP384, s, false).is_ok());
    assert!(matches!(authenticated_request(&[0; 49], AlgorithmId::EccP384, s, false), Err(Error::SizeError)));
    assert!(authenticated_request(&[0; 97], AlgorithmId::EccP384, s, true).is_ok());
}

#[test]
fn authenticated_payload_layout() {
    let input = vec![0x11u8; 32];
    let (mut t, first) = authenticated_request(&input, AlgorithmId::EccP256, SlotId::Authentication, false).unwrap();
    assert_eq!((first.cla, first.ins, first.p1, first.p2), (0, 0x87, 0x11, 0x9a));
    let (payload, _) = send_all(&mut t, first);
    let mut expected = vec![0x7c, 36, 0x82, 0x00, 0x81, 32];
    expected.extend_from_slice(&input);
    assert_eq!(payload, expected);

    let point = vec![0x04u8; 65];
    let (mut t, first) = authenticated_request(&point, AlgorithmId::EccP256, SlotId::KeyManagement, true).unwrap();
    assert_eq!(first.p2, 0x9d);
    let (payload, _) = send_all(&mut t, first);
    assert_eq!(payload[..6], [0x7c, 69, 0x82, 0x00, 0x85, 65]);

    let digest = vec![0x22u8; 256];
    let (mut t, first) = authenticated_request(&digest, AlgorithmId::Rsa2048, SlotId::Signature, false).unwrap();
    assert_eq!(first.cla, 0x10);
    let (payload, _) = send_all(&mut t, first);
    assert_eq!(payload[..8], [0x7c, 0x82, 0x01, 0x06, 0x82, 0x00, 0x81, 0x82]);
    assert_eq!(payload.len(), 4 + 2 + 4 + 256);
}

#[test]
fn authenticated_response_parsing() {
    assert_eq!(authenticated_result(&ok(vec![0x7c, 0x04, 0x82, 0x02, 0xde, 0xad])), Ok(vec![0xde, 0xad]));
    assert_eq!(authenticated_result(&ok(vec![0x7d, 0x04, 0x82, 0x02, 0xde, 0xad])), Err(Error::ParseError));
    assert_eq!(authenticated_result(&ok(vec![0x7c, 0x04, 0x83, 0x02, 0xde, 0xad])), Err(Error::ParseError));
    assert_eq!(authenticated_result(&ok(vec![0x7c, 0x09, 0x82])), Err(Error::ParseError));
    assert_eq!(authenticated_result(&Response { code: 0x6982, data: vec![] }), Err(Error::AuthenticationError));
    assert_eq!(authenticated_result(&Response { code: 0x6a80, data: vec![] }), Err(Error::GenericError));
}

fn run_serial(major: u8, replies: Vec<Response>) -> (Vec<Apdu>, Option<Result<Serial, Error>>) {
    let (mut q, first) = SerialQuery::start(Version { major, minor: 0, patch: 0 });
    let mut sent = vec![first];
    for r in replies {
        match q.receive(r) {
            SerialStep::Send(a) => sent.push(a),
            SerialStep::Finished(res) => return (sent, Some(res)),
        }
    }
    (sent, None)
}

#[test]
fn serial_legacy_path_uses_three_frames() {
    let (sent, res) = run_serial(4, vec![ok(vec![]), ok(vec![0x00, 0x5a, 0x3c, 0x01]), ok(vec![])]);
    assert_eq!(sent.len(), 3);
    assert_eq!(sent[0].to_bytes(), vec![0, 0xa4, 0x04, 0, 7, 0xa0, 0x00, 0x00, 0x05, 0x27, 0x20, 0x01]);
    assert_eq!((sent[1].ins, sent[1].p1), (0x01, 0x10));
    assert_eq!(sent[2].to_bytes(), vec![0, 0xa4, 0x04, 0, 5, 0xa0, 0x00, 0x00, 0x03, 0x08]);
    assert_eq!(res, Some(Ok(Serial(0x005a3c01))));
}

#[test]
fn serial_modern_path_uses_one_frame() {
    let (sent, res) = run_serial(5, vec![ok(vec![0x01, 0x02, 0x03, 0x04])]);
    assert_eq!(sent.len(), 1);
    assert_eq!(sent[0].ins, 0xf8);
    assert_eq!(res, Some(Ok(Serial(0x01020304))));
}

#[test]
fn serial_failures() {
    let (sent, res) = run_serial(4, vec![ok(vec![]), Response { code: 0x6d00, data: vec![] }, ok(vec![])]);
    assert_eq!(sent.len(), 2);
    assert_eq!(res, Some(Err(Error::GenericError)));
    let (sent, res) = run_serial(3, vec![Response { code: 0x6a82, data: vec![] }]);
    assert_eq!(sent.len(), 1);
    assert_eq!(res, Some(Err(Error::GenericError)));
    let (_, res) = run_serial(5, vec![ok(vec![1, 2, 3])]);
    assert_eq!(res, Some(Err(Error::SizeError)));
}
