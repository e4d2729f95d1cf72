//! Single command frames and the card's raw responses.
use vstd::prelude::*;

use crate::status::{status_of, StatusWords};

verus! {

/// Largest payload of one physical frame.
pub const FRAME_DATA_MAX: usize = 255;

/// Mathematical value of a command frame.
pub struct ApduView {
    pub cla: u8,
    pub ins: u8,
    pub p1: u8,
    pub p2: u8,
    pub data: Seq<u8>,
}

/// One command frame: class, instruction, two parameters and a payload.
#[derive(Debug)]
pub struct Apdu {
    pub cla: u8,
    pub ins: u8,
    pub p1: u8,
    pub p2: u8,
    pub data: Vec<u8>,
}

impl View for Apdu {
    type V = ApduView;

    open spec fn view(&self) -> ApduView {
        ApduView { cla: self.cla, ins: self.ins, p1: self.p1, p2: self.p2, data: self.data@ }
    }
}

/// Wire form of a frame: header, payload length, payload.
pub open spec fn apdu_bytes(a: ApduView) -> Seq<u8> {
    seq![a.cla, a.ins, a.p1, a.p2, a.data.len() as u8] + a.data
}

impl Apdu {
    /// A frame with class 0, both parameters 0 and no payload.
    pub fn new(ins: u8) -> (r: Apdu)
        ensures
            r@ == (ApduView { cla: 0, ins, p1: 0, p2: 0, data: Seq::empty() }),
    {
        Apdu { cla: 0, ins, p1: 0, p2: 0, data: Vec::new() }
    }

    /// Serializes the frame for transmission.
    pub fn to_bytes(&self) -> (r: Vec<u8>)
        requires
            self.data@.len() <= FRAME_DATA_MAX,
        ensures
            r@ == apdu_bytes(self@),
    {
        let mut r: Vec<u8> = Vec::with_capacity(5 + self.data.len());
        r.push(self.cla);
        r.push(self.ins);
        r.push(self.p1);
        r.push(self.p2);
        r.push(self.data.len() as u8);
        crate::bytes::append_bytes(&mut r, self.data.as_slice());
        proof {
            assert(r@ =~= apdu_bytes(self@));
        }
        r
    }

    /// Overwrites the payload with zeroes and empties it; the header stays.
    pub fn wipe(&mut self)
        ensures
            final(self)@.data.len() == 0,
            final(self).cla == old(self).cla,
            final(self).ins == old(self).ins,
            final(self).p1 == old(self).p1,
            final(self).p2 == old(self).p2,
    {
        crate::bytes::zeroize_bytes(&mut self.data);
    }
}

/// A response: the status code and the payload before it.
#[derive(Debug)]
pub struct Response {
    pub code: u16,
    pub data: Vec<u8>,
}

impl Response {
    /// Splits a raw reply into payload and trailing status code. A reply
    /// shorter than two bytes carries no status: code 0, empty payload.
    pub fn from_bytes(raw: Vec<u8>) -> (r: Response)
        ensures
            raw@.len() < 2 ==> r.code == 0 && r.data@.len() == 0,
            raw@.len() >= 2 ==> r.code == raw@[raw@.len() - 2] as nat * 256 + raw@[raw@.len() - 1] as nat
                && r.data@ == raw@.subrange(0, raw@.len() - 2),
    {
        let n = raw.len();
        if n < 2 {
            return Response { code: 0, data: Vec::new() };
        }
        let code: u16 = raw[n - 2] as u16 * 256 + raw[n - 1] as u16;
        let data = crate::bytes::copy_range(raw.as_slice(), 0, n - 2);
        Response { code, data }
    }

    /// The outcome that the status code stands for.
    pub fn status_words(&self) -> (r: StatusWords)
        ensures
            r == status_of(self.code),
    {
        StatusWords::from_code(self.code)
    }

    pub fn is_success(&self) -> (r: bool)
        ensures
            r == (self.code == 0x9000),
    {
        self.code == 0x9000
    }
}

} // verus!
