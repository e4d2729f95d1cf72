//! Command handlers: each builds the frames of one command and interprets the
//! card's answer. The caller transmits the frames (directly, or through a
//! [`Transfer`] where the payload may need chaining).
use vstd::prelude::*;

use crate::apdu::{Apdu, ApduView, Response};
use crate::chain::{chain_frames, started, Template, Transfer};
use crate::error::Error;
use crate::status::{status_of, StatusWords};
use crate::bytes::append_bytes;
use crate::tlv::{tlv_bytes, Tlv};

verus! {

pub const INS_VERIFY: u8 = 0x20;
pub const INS_CHANGE_REFERENCE: u8 = 0x24;
pub const INS_RESET_RETRY: u8 = 0x2c;
pub const INS_AUTHENTICATE: u8 = 0x87;
pub const INS_SELECT_APPLICATION: u8 = 0xa4;
pub const INS_GET_DATA: u8 = 0xcb;
pub const INS_PUT_DATA: u8 = 0xdb;
pub const INS_SET_MGM_KEY: u8 = 0xff;
pub const INS_GET_VERSION: u8 = 0xfd;
pub const INS_GET_SERIAL: u8 = 0xf8;
pub const INS_LEGACY_SERIAL: u8 = 0x01;

/// Longest PIN or PUK.
pub const CB_PIN_MAX: usize = 8;
/// Largest encoded object command payload.
pub const CB_BUF_MAX: usize = 3072;
/// Largest raw object content.
pub const CB_OBJ_MAX: usize = 3063;
/// Management-key algorithm identifier (triple DES).
pub const ALGO_3DES: u8 = 0x03;
/// Key reference of the card management key.
pub const KEY_CARDMGM: u8 = 0x9b;
/// Length of a triple-DES management key.
pub const DES_LEN_3DES: usize = 24;
/// Key reference of the PIN.
pub const KEY_PIN: u8 = 0x80;
/// Key reference of the PUK.
pub const KEY_PUK: u8 = 0x81;
/// Tag of the object addressing field.
pub const TAG_OBJ_ID: u8 = 0x5c;
/// Tag wrapping an object's content.
pub const TAG_OBJ_DATA: u8 = 0x53;
/// Size ceiling of responses to commands that take a PIN or store an object.
pub const SHORT_OUT_MAX: usize = 255;

/// Identifier of the PIV application.
pub open spec fn piv_aid() -> Seq<u8> {
    seq![0xa0u8, 0x00, 0x00, 0x03, 0x08]
}

/// Identifier of the legacy management application.
pub open spec fn yk_aid() -> Seq<u8> {
    seq![0xa0u8, 0x00, 0x00, 0x05, 0x27, 0x20, 0x01]
}

pub fn piv_aid_bytes() -> (r: Vec<u8>)
    ensures
        r@ == piv_aid(),
{
    let r = vec![0xa0u8, 0x00, 0x00, 0x03, 0x08];
    proof {
        assert(r@ =~= piv_aid());
    }
    r
}

pub fn yk_aid_bytes() -> (r: Vec<u8>)
    ensures
        r@ == yk_aid(),
{
    let r = vec![0xa0u8, 0x00, 0x00, 0x05, 0x27, 0x20, 0x01];
    proof {
        assert(r@ =~= yk_aid());
    }
    r
}

/// The frame that selects the application with identifier `aid`.
pub open spec fn select_frame(aid: Seq<u8>) -> ApduView {
    ApduView { cla: 0, ins: INS_SELECT_APPLICATION, p1: 0x04, p2: 0, data: aid }
}

/// `Ok` on the success code, else a generic failure.
pub open spec fn success_outcome(code: u16) -> Result<(), Error> {
    if code == 0x9000 { Ok(()) } else { Err(Error::GenericError) }
}

/// Maps a status to the outcome of a command that needs only success.
pub fn check_success(code: u16) -> (r: Result<(), Error>)
    ensures
        r == success_outcome(code),
{
    if code == 0x9000 { Ok(()) } else { Err(Error::GenericError) }
}

/// The frame that selects the PIV application.
pub fn select_application_frame() -> (r: Apdu)
    ensures
        r@ == select_frame(piv_aid()),
{
    Apdu { cla: 0, ins: INS_SELECT_APPLICATION, p1: 0x04, p2: 0, data: piv_aid_bytes() }
}

/// Version of the PIV application.
#[derive(Clone, Copy, Debug, PartialEq, Eq, Structural)]
pub struct Version {
    pub major: u8,
    pub minor: u8,
    pub patch: u8,
}

pub open spec fn version_outcome(code: u16, data: Seq<u8>) -> Result<Version, Error> {
    if code != 0x9000 {
        Err(Error::GenericError)
    } else if data.len() < 3 {
        Err(Error::SizeError)
    } else {
        Ok(Version { major: data[0], minor: data[1], patch: data[2] })
    }
}

/// The frame that asks for the application's version.
pub fn get_version_frame() -> (r: Apdu)
    ensures
        r@ == (ApduView { cla: 0, ins: INS_GET_VERSION, p1: 0, p2: 0, data: Seq::empty() }),
{
    Apdu::new(INS_GET_VERSION)
}

/// Reads the version from the answer to the version frame.
pub fn version_from_response(resp: &Response) -> (r: Result<Version, Error>)
    ensures
        r == version_outcome(resp.code, resp.data@),
{
    if resp.code != 0x9000 {
        Err(Error::GenericError)
    } else if resp.data.len() < 3 {
        Err(Error::SizeError)
    } else {
        Ok(Version { major: resp.data[0], minor: resp.data[1], patch: resp.data[2] })
    }
}

/// A PIN or PUK as sent: the secret left-aligned in 8 bytes, the rest `0xFF`.
pub open spec fn pin_field(pin: Seq<u8>) -> Seq<u8> {
    pin + Seq::new((8 - pin.len()) as nat, |_i: int| 0xffu8)
}

/// Appends the padded form of `pin` to `out`.
fn push_pin_field(out: &mut Vec<u8>, pin: &[u8])
    requires
        pin@.len() <= CB_PIN_MAX,
    ensures
        final(out)@ == old(out)@ + pin_field(pin@),
{
    append_bytes(out, pin);
    let mut i: usize = pin.len();
    while i < CB_PIN_MAX
        invariant
            pin@.len() <= i <= CB_PIN_MAX,
            out@ == old(out)@ + pin@ + Seq::new((i - pin@.len()) as nat, |_i: int| 0xffu8),
        decreases CB_PIN_MAX - i,
    {
        out.push(0xff);
        i = i + 1;
        proof {
            assert(out@ =~= old(out)@ + pin@ + Seq::new((i - pin@.len()) as nat, |_i: int| 0xffu8));
        }
    }
    proof {
        assert(final(out)@ =~= old(out)@ + pin_field(pin@));
    }
}

/// The PIN verification frame: no payload at all for an empty PIN (a query
/// of the retry counter), else the padded PIN.
pub open spec fn verify_pin_apdu(pin: Seq<u8>) -> ApduView {
    ApduView {
        cla: 0,
        ins: INS_VERIFY,
        p1: 0,
        p2: KEY_PIN,
        data: if pin.len() == 0 { Seq::empty() } else { pin_field(pin) },
    }
}

/// Outcome of PIN verification by status.
pub open spec fn verify_pin_outcome(code: u16) -> Result<(), Error> {
    match status_of(code) {
        StatusWords::Success => Ok(()),
        StatusWords::AuthBlockedError => Err(Error::WrongPin { tries: 0 }),
        StatusWords::VerifyFailError { tries } => Err(Error::WrongPin { tries }),
        _ => Err(Error::GenericError),
    }
}

/// Builds the PIN verification frame; a PIN longer than 8 bytes is refused.
pub fn verify_pin_frame(pin: &[u8]) -> (r: Result<Apdu, Error>)
    ensures
        pin@.len() > CB_PIN_MAX ==> r == Err::<Apdu, Error>(Error::SizeError),
        pin@.len() <= CB_PIN_MAX ==> (r matches Ok(a) && a@ == verify_pin_apdu(pin@)),
{
    if pin.len() > CB_PIN_MAX {
        return Err(Error::SizeError);
    }
    let mut data: Vec<u8> = Vec::new();
    if pin.len() > 0 {
        push_pin_field(&mut data, pin);
    }
    proof {
        assert(data@ =~= verify_pin_apdu(pin@).data);
    }
    Ok(Apdu { cla: 0, ins: INS_VERIFY, p1: 0, p2: KEY_PIN, data })
}

/// Maps the status of a PIN verification.
pub fn verify_pin_result(code: u16) -> (r: Result<(), Error>)
    ensures
        r == verify_pin_outcome(code),
{
    match StatusWords::from_code(code) {
        StatusWords::Success => Ok(()),
        StatusWords::AuthBlockedError => Err(Error::WrongPin { tries: 0 }),
        StatusWords::VerifyFailError { tries } => Err(Error::WrongPin { tries }),
        _ => Err(Error::GenericError),
    }
}

/// Which secret a reference change acts on.
#[derive(Clone, Copy, Debug, PartialEq, Eq, Structural)]
pub enum ChangeRefAction {
    ChangePin,
    ChangePuk,
    UnblockPin,
}

pub open spec fn change_ref_template(action: ChangeRefAction) -> Template {
    match action {
        ChangeRefAction::ChangePin => Template { cla: 0, ins: INS_CHANGE_REFERENCE, p1: 0, p2: KEY_PIN },
        ChangeRefAction::ChangePuk => Template { cla: 0, ins: INS_CHANGE_REFERENCE, p1: 0, p2: KEY_PUK },
        ChangeRefAction::UnblockPin => Template { cla: 0, ins: INS_RESET_RETRY, p1: 0, p2: KEY_PIN },
    }
}

/// Outcome of a reference change by status.
pub open spec fn change_ref_outcome(code: u16) -> Result<(), Error> {
    match status_of(code) {
        StatusWords::Success => Ok(()),
        StatusWords::AuthBlockedError => Err(Error::PinLocked),
        StatusWords::VerifyFailError { tries } => Err(Error::WrongPin { tries }),
        _ => Err(Error::GenericError),
    }
}

/// Starts a change of PIN or PUK, or an unblock of the PIN: the payload is
/// the current and the new secret, each padded to 8 bytes. A secret longer
/// than 8 bytes is refused before anything is built.
pub fn change_ref_request(action: ChangeRefAction, current: &[u8], new: &[u8]) -> (r: Result<(Transfer, Apdu), Error>)
    ensures
        current@.len() > CB_PIN_MAX || new@.len() > CB_PIN_MAX ==> r matches Err(Error::SizeError),
        current@.len() <= CB_PIN_MAX && new@.len() <= CB_PIN_MAX ==> (r matches Ok((t, a))
            && t.wf()
            && t@ == started(change_ref_template(action), pin_field(current@) + pin_field(new@), SHORT_OUT_MAX as nat)
            && a@ == chain_frames(change_ref_template(action), pin_field(current@) + pin_field(new@))[0]
            && a.data@.len() <= 255),
{
    if current.len() > CB_PIN_MAX || new.len() > CB_PIN_MAX {
        return Err(Error::SizeError);
    }
    let templ = match action {
        ChangeRefAction::ChangePin => Template { cla: 0, ins: INS_CHANGE_REFERENCE, p1: 0, p2: KEY_PIN },
        ChangeRefAction::ChangePuk => Template { cla: 0, ins: INS_CHANGE_REFERENCE, p1: 0, p2: KEY_PUK },
        ChangeRefAction::UnblockPin => Template { cla: 0, ins: INS_RESET_RETRY, p1: 0, p2: KEY_PIN },
    };
    let mut data: Vec<u8> = Vec::new();
    push_pin_field(&mut data, current);
    push_pin_field(&mut data, new);
    proof {
        assert(data@ =~= pin_field(current@) + pin_field(new@));
    }
    Ok(Transfer::new(templ, data, SHORT_OUT_MAX))
}

/// Maps the status of a reference change.
pub fn change_ref_result(code: u16) -> (r: Result<(), Error>)
    ensures
        r == change_ref_outcome(code),
{
    match StatusWords::from_code(code) {
        StatusWords::Success => Ok(()),
        StatusWords::AuthBlockedError => Err(Error::PinLocked),
        StatusWords::VerifyFailError { tries } => Err(Error::WrongPin { tries }),
        _ => Err(Error::GenericError),
    }
}

/// A triple-DES management key: always 24 bytes.
#[derive(Debug)]
pub struct MgmKey {
    bytes: Vec<u8>,
}

impl View for MgmKey {
    type V = Seq<u8>;

    closed spec fn view(&self) -> Seq<u8> {
        self.bytes@
    }
}

impl MgmKey {
    #[verifier::type_invariant]
    spec fn inv(&self) -> bool {
        self.bytes@.len() == DES_LEN_3DES
    }

    /// A key from its raw bytes; any length but 24 is refused.
    pub fn from_bytes(bytes: &[u8]) -> (r: Result<MgmKey, Error>)
        ensures
            bytes@.len() != DES_LEN_3DES ==> r matches Err(Error::SizeError),
            bytes@.len() == DES_LEN_3DES ==> (r matches Ok(k) && k@ == bytes@),
    {
        if bytes.len() != DES_LEN_3DES {
            return Err(Error::SizeError);
        }
        let v = crate::bytes::copy_range(bytes, 0, bytes.len());
        proof {
            assert(v@ =~= bytes@);
        }
        Ok(MgmKey { bytes: v })
    }

    /// Overwrites the key with zeroes and releases it.
    pub fn erase(self) {
        let mut b = self.bytes;
        crate::bytes::zeroize_bytes(&mut b);
    }
}

/// The frame that installs a management key; the second parameter asks for
/// touch confirmation on later use of the key.
pub open spec fn set_mgm_key_apdu(key: Seq<u8>, require_touch: bool) -> ApduView {
    ApduView {
        cla: 0,
        ins: INS_SET_MGM_KEY,
        p1: 0xff,
        p2: if require_touch { 0xfe } else { 0xff },
        data: seq![ALGO_3DES, KEY_CARDMGM, DES_LEN_3DES as u8] + key,
    }
}

/// Builds the frame that installs `new_key`.
pub fn set_mgm_key_frame(new_key: &MgmKey, require_touch: bool) -> (r: Apdu)
    ensures
        r@ == set_mgm_key_apdu(new_key@, require_touch),
        r.data@.len() == 27,
{
    proof {
        use_type_invariant(new_key);
    }
    let p2: u8 = if require_touch { 0xfe } else { 0xff };
    let mut data: Vec<u8> = Vec::with_capacity(DES_LEN_3DES + 3);
    data.push(ALGO_3DES);
    data.push(KEY_CARDMGM);
    data.push(DES_LEN_3DES as u8);
    append_bytes(&mut data, new_key.bytes.as_slice());
    proof {
        assert(data@ =~= set_mgm_key_apdu(new_key@, require_touch).data);
    }
    Apdu { cla: 0, ins: INS_SET_MGM_KEY, p1: 0xff, p2, data }
}

/// The addressing field of object `id`: its three low bytes, big-endian,
/// under the addressing tag.
pub open spec fn object_address(id: u32) -> Seq<u8> {
    tlv_bytes(TAG_OBJ_ID, seq![(id / 65536 % 256) as u8, (id / 256 % 256) as u8, (id % 256) as u8])
}

fn push_object_address(out: &mut Vec<u8>, id: u32)
    ensures
        final(out)@ == old(out)@ + object_address(id),
{
    let id3 = [(id / 65536 % 256) as u8, (id / 256 % 256) as u8, (id % 256) as u8];
    proof {
        assert(id3@ =~= seq![(id / 65536 % 256) as u8, (id / 256 % 256) as u8, (id % 256) as u8]);
    }
    Tlv::write(out, TAG_OBJ_ID, id3.as_slice());
}

pub open spec fn get_data_template() -> Template {
    Template { cla: 0, ins: INS_GET_DATA, p1: 0x3f, p2: 0xff }
}

pub open spec fn put_data_template() -> Template {
    Template { cla: 0, ins: INS_PUT_DATA, p1: 0x3f, p2: 0xff }
}

/// Starts the fetch of object `id`, with the object buffer size as ceiling.
pub fn fetch_object_request(id: u32) -> (r: (Transfer, Apdu))
    ensures
        r.0.wf(),
        r.0@ == started(get_data_template(), object_address(id), CB_BUF_MAX as nat),
        r.1@ == chain_frames(get_data_template(), object_address(id))[0],
        r.1.data@.len() <= 255,
{
    let mut data: Vec<u8> = Vec::new();
    push_object_address(&mut data, id);
    proof {
        assert(data@ =~= object_address(id));
    }
    Transfer::new(Template { cla: 0, ins: INS_GET_DATA, p1: 0x3f, p2: 0xff }, data, CB_BUF_MAX)
}

/// Outcome of a fetch: the value of the one node that the answer holds.
pub open spec fn fetch_outcome(code: u16, data: Seq<u8>) -> Result<Seq<u8>, Error> {
    if code != 0x9000 {
        if code == 0x6a88 { Err(Error::NotFound) } else { Err(Error::GenericError) }
    } else {
        match crate::tlv::tlv_parse(data) {
            None => Err(Error::ParseError),
            Some((_tag, value, rest)) => if rest.len() > 0 { Err(Error::SizeError) } else { Ok(value) },
        }
    }
}

/// Interprets the end of a fetch.
pub fn fetch_object_result(resp: &Response) -> (r: Result<Vec<u8>, Error>)
    ensures
        match fetch_outcome(resp.code, resp.data@) {
            Ok(v) => r matches Ok(b) && b@ == v,
            Err(e) => r == Err::<Vec<u8>, Error>(e),
        },
{
    if resp.code != 0x9000 {
        if resp.code == 0x6a88 {
            return Err(Error::NotFound);
        } else {
            return Err(Error::GenericError);
        }
    }
    let (tlv, rest) = Tlv::parse(resp.data.as_slice())?;
    if rest.len() > 0 {
        return Err(Error::SizeError);
    }
    Ok(tlv.value)
}

/// Payload of an object store: addressing field, then the content under the
/// object data tag.
pub open spec fn save_payload(id: u32, data: Seq<u8>) -> Seq<u8> {
    object_address(id) + tlv_bytes(TAG_OBJ_DATA, data)
}

/// Outcome of an object store by status.
pub open spec fn save_outcome(code: u16) -> Result<(), Error> {
    if code == 0x9000 {
        Ok(())
    } else if code == 0x6982 {
        Err(Error::AuthenticationError)
    } else {
        Err(Error::GenericError)
    }
}

/// Starts storing `data` as object `id`; content over the object ceiling is
/// refused before anything is built.
pub fn save_object_request(id: u32, data: &[u8]) -> (r: Result<(Transfer, Apdu), Error>)
    ensures
        data@.len() > CB_OBJ_MAX ==> r matches Err(Error::SizeError),
        data@.len() <= CB_OBJ_MAX ==> (r matches Ok((t, a))
            && t.wf()
            && t@ == started(put_data_template(), save_payload(id, data@), SHORT_OUT_MAX as nat)
            && a@ == chain_frames(put_data_template(), save_payload(id, data@))[0]
            && a.data@.len() <= 255
            && save_payload(id, data@).len() <= CB_BUF_MAX),
{
    if data.len() > CB_OBJ_MAX {
        return Err(Error::SizeError);
    }
    let mut buf: Vec<u8> = Vec::new();
    push_object_address(&mut buf, id);
    Tlv::write(&mut buf, TAG_OBJ_DATA, data);
    proof {
        assert(buf@ =~= save_payload(id, data@));
    }
    Ok(Transfer::new(Template { cla: 0, ins: INS_PUT_DATA, p1: 0x3f, p2: 0xff }, buf, SHORT_OUT_MAX))
}

/// Maps the status of an object store.
pub fn save_object_result(code: u16) -> (r: Result<(), Error>)
    ensures
        r == save_outcome(code),
{
    if code == 0x9000 {
        Ok(())
    } else if code == 0x6982 {
        Err(Error::AuthenticationError)
    } else {
        Err(Error::GenericError)
    }
}

/// Storing any content within the object ceiling builds a payload within the
/// buffer ceiling, and a card that answers a fetch with the stored data node
/// gives back exactly that content.
pub proof fn lemma_object_round_trip(id: u32, data: Seq<u8>)
    requires
        data.len() <= CB_OBJ_MAX,
    ensures
        save_payload(id, data).len() <= CB_BUF_MAX,
        save_payload(id, data).subrange(object_address(id).len() as int, save_payload(id, data).len() as int)
            == tlv_bytes(TAG_OBJ_DATA, data),
        fetch_outcome(0x9000, tlv_bytes(TAG_OBJ_DATA, data)) == Ok::<Seq<u8>, Error>(data),
{
    crate::tlv::lemma_tlv_round_trip(TAG_OBJ_DATA, data);
    let p = save_payload(id, data);
    assert(p.subrange(object_address(id).len() as int, p.len() as int) =~= tlv_bytes(TAG_OBJ_DATA, data));
}

/// Key algorithms of the authenticated operations.
#[derive(Clone, Copy, Debug, PartialEq, Eq, Structural)]
pub enum AlgorithmId {
    Rsa1024,
    Rsa2048,
    EccP256,
    EccP384,
}

pub open spec fn algorithm_byte(a: AlgorithmId) -> u8 {
    match a {
        AlgorithmId::Rsa1024 => 0x06,
        AlgorithmId::Rsa2048 => 0x07,
        AlgorithmId::EccP256 => 0x11,
        AlgorithmId::EccP384 => 0x14,
    }
}

impl AlgorithmId {
    pub fn to_u8(&self) -> (r: u8)
        ensures
            r == algorithm_byte(*self),
    {
        match *self {
            AlgorithmId::Rsa1024 => 0x06,
            AlgorithmId::Rsa2048 => 0x07,
            AlgorithmId::EccP256 => 0x11,
            AlgorithmId::EccP384 => 0x14,
        }
    }
}

/// Key slots; a retired slot carries its key reference byte.
#[derive(Clone, Copy, Debug, PartialEq, Eq, Structural)]
pub enum SlotId {
    Authentication,
    Signature,
    KeyManagement,
    CardAuthentication,
    Retired(u8),
    Attestation,
}

pub open spec fn slot_byte(s: SlotId) -> u8 {
    match s {
        SlotId::Authentication => 0x9a,
        SlotId::Signature => 0x9c,
        SlotId::KeyManagement => 0x9d,
        SlotId::CardAuthentication => 0x9e,
        SlotId::Retired(b) => b,
        SlotId::Attestation => 0xf9,
    }
}

impl SlotId {
    pub fn to_u8(&self) -> (r: u8)
        ensures
            r == slot_byte(*self),
    {
        match *self {
            SlotId::Authentication => 0x9a,
            SlotId::Signature => 0x9c,
            SlotId::KeyManagement => 0x9d,
            SlotId::CardAuthentication => 0x9e,
            SlotId::Retired(b) => b,
            SlotId::Attestation => 0xf9,
        }
    }
}

/// Whether an input of `len` bytes fits the operation: an RSA input is
/// exactly the key's length; an elliptic-curve signature input is at most the
/// curve's byte length, and a decipher input an uncompressed point.
pub open spec fn auth_input_ok(a: AlgorithmId, decipher: bool, len: nat) -> bool {
    match a {
        AlgorithmId::Rsa1024 => len == 128,
        AlgorithmId::Rsa2048 => len == 256,
        AlgorithmId::EccP256 => if decipher { len == 65 } else { len <= 32 },
        AlgorithmId::EccP384 => if decipher { len == 97 } else { len <= 48 },
    }
}

/// Tag of the input node: `0x85` for an elliptic-curve decipher, else `0x81`.
pub open spec fn auth_data_tag(a: AlgorithmId, decipher: bool) -> u8 {
    if decipher && (a == AlgorithmId::EccP256 || a == AlgorithmId::EccP384) { 0x85 } else { 0x81 }
}

/// Payload of an authenticated operation: under tag `0x7c`, an empty
/// `0x82` node followed by the input node.
pub open spec fn auth_payload(a: AlgorithmId, decipher: bool, input: Seq<u8>) -> Seq<u8> {
    tlv_bytes(0x7c, tlv_bytes(0x82, Seq::empty()) + tlv_bytes(auth_data_tag(a, decipher), input))
}

pub open spec fn auth_template(a: AlgorithmId, slot: SlotId) -> Template {
    Template { cla: 0, ins: INS_AUTHENTICATE, p1: algorithm_byte(a), p2: slot_byte(slot) }
}

/// Size ceiling of the answer to an authenticated operation.
pub const AUTH_OUT_MAX: usize = 1024;

/// Starts a signature or decipher operation with the key in `slot`; an input
/// whose length does not fit the algorithm is refused before anything is built.
pub fn authenticated_request(input: &[u8], algorithm: AlgorithmId, slot: SlotId, decipher: bool) -> (r: Result<(Transfer, Apdu), Error>)
    ensures
        !auth_input_ok(algorithm, decipher, input@.len()) ==> r matches Err(Error::SizeError),
        auth_input_ok(algorithm, decipher, input@.len()) ==> (r matches Ok((t, a))
            && t.wf()
            && t@ == started(auth_template(algorithm, slot), auth_payload(algorithm, decipher, input@), AUTH_OUT_MAX as nat)
            && a@ == chain_frames(auth_template(algorithm, slot), auth_payload(algorithm, decipher, input@))[0]
            && a.data@.len() <= 255),
{
    let len = input.len();
    let ok = match algorithm {
        AlgorithmId::Rsa1024 => len == 128,
        AlgorithmId::Rsa2048 => len == 256,
        AlgorithmId::EccP256 => if decipher { len == 65 } else { len <= 32 },
        AlgorithmId::EccP384 => if decipher { len == 97 } else { len <= 48 },
    };
    if !ok {
        return Err(Error::SizeError);
    }
    let is_ecc = matches!(algorithm, AlgorithmId::EccP256) || matches!(algorithm, AlgorithmId::EccP384);
    let tag: u8 = if decipher && is_ecc { 0x85 } else { 0x81 };
    let empty: Vec<u8> = Vec::new();
    let mut inner: Vec<u8> = Vec::new();
    Tlv::write(&mut inner, 0x82, empty.as_slice());
    Tlv::write(&mut inner, tag, input);
    proof {
        assert(inner@ =~= tlv_bytes(0x82, Seq::empty()) + tlv_bytes(auth_data_tag(algorithm, decipher), input@));
    }
    let outer = Tlv::encode(0x7c, inner.as_slice());
    let templ = Template { cla: 0, ins: INS_AUTHENTICATE, p1: algorithm.to_u8(), p2: slot.to_u8() };
    Ok(Transfer::new(templ, outer, AUTH_OUT_MAX))
}

/// Outcome of an authenticated operation: the value of the `0x82` node inside
/// the `0x7c` node of the answer.
pub open spec fn auth_outcome(code: u16, data: Seq<u8>) -> Result<Seq<u8>, Error> {
    if code != 0x9000 {
        if code == 0x6982 { Err(Error::AuthenticationError) } else { Err(Error::GenericError) }
    } else {
        match crate::tlv::tlv_parse(data) {
            None => Err(Error::ParseError),
            Some((tag, value, _rest)) => if tag != 0x7c {
                Err(Error::ParseError)
            } else {
                match crate::tlv::tlv_parse(value) {
                    None => Err(Error::ParseError),
                    Some((tag2, value2, _rest2)) => if tag2 != 0x82 { Err(Error::ParseError) } else { Ok(value2) },
                }
            },
        }
    }
}

/// Interprets the end of an authenticated operation: the signature or the
/// shared secret.
pub fn authenticated_result(resp: &Response) -> (r: Result<Vec<u8>, Error>)
    ensures
        match auth_outcome(resp.code, resp.data@) {
            Ok(v) => r matches Ok(b) && b@ == v,
            Err(e) => r == Err::<Vec<u8>, Error>(e),
        },
{
    if resp.code != 0x9000 {
        if resp.code == 0x6982 {
            return Err(Error::AuthenticationError);
        } else {
            return Err(Error::GenericError);
        }
    }
    let (outer, _rest) = Tlv::parse(resp.data.as_slice())?;
    if outer.tag != 0x7c {
        return Err(Error::ParseError);
    }
    let (inner, _rest2) = Tlv::parse(outer.value.as_slice())?;
    if inner.tag != 0x82 {
        return Err(Error::ParseError);
    }
    Ok(inner.value)
}

/// A PIN query (empty input) sends no payload; a PIN of 1 to 8 bytes sends
/// exactly 8 bytes: the PIN left-aligned, then `0xFF` filler.
pub proof fn lemma_pin_frame(pin: Seq<u8>)
    requires
        pin.len() <= CB_PIN_MAX,
    ensures
        pin.len() == 0 ==> verify_pin_apdu(pin).data.len() == 0,
        pin.len() > 0 ==> verify_pin_apdu(pin).data.len() == 8,
        pin.len() > 0 ==> forall|i: int| 0 <= i < 8 ==>
            #[trigger] verify_pin_apdu(pin).data[i] == (if i < pin.len() { pin[i] } else { 0xffu8 }),
{
}

} // verus!
