//! Retrieval of the device serial number, whose frames depend on the
//! application's major version.
use vstd::prelude::*;

use crate::apdu::{Apdu, ApduView, Response};
use crate::commands::{
    piv_aid, piv_aid_bytes, select_frame, yk_aid, yk_aid_bytes, Version, INS_GET_SERIAL,
    INS_LEGACY_SERIAL, INS_SELECT_APPLICATION,
};
use crate::error::Error;

verus! {

/// A device serial number.
#[derive(Clone, Copy, Debug, PartialEq, Eq, Structural)]
pub struct Serial(pub u32);

/// The serial number read from the first four payload bytes, big-endian.
pub open spec fn serial_outcome(data: Seq<u8>) -> Result<Serial, Error> {
    if data.len() < 4 {
        Err(Error::SizeError)
    } else {
        Ok(Serial((data[0] as nat * 16777216 + data[1] as nat * 65536 + data[2] as nat * 256 + data[3] as nat) as u32))
    }
}

pub open spec fn legacy_serial_frame() -> ApduView {
    ApduView { cla: 0, ins: INS_LEGACY_SERIAL, p1: 0x10, p2: 0, data: Seq::empty() }
}

pub open spec fn get_serial_frame() -> ApduView {
    ApduView { cla: 0, ins: INS_GET_SERIAL, p1: 0, p2: 0, data: Seq::empty() }
}

/// The frames of a serial query, in order: before major version 5, select the
/// legacy application, read the serial there and reselect the PIV
/// application; from version 5 on, one dedicated command.
pub open spec fn serial_frames(major: u8) -> Seq<ApduView> {
    if major < 5 {
        seq![select_frame(yk_aid()), legacy_serial_frame(), select_frame(piv_aid())]
    } else {
        seq![get_serial_frame()]
    }
}

#[derive(Clone, Copy, Debug, PartialEq, Eq, Structural)]
pub enum SerialStage {
    /// Waiting for the answer to selecting the legacy application.
    SelectLegacy,
    /// Waiting for the legacy serial number.
    ReadLegacy,
    /// Waiting for the answer to reselecting the PIV application.
    Reselect,
    /// Waiting for the answer to the dedicated command.
    ReadSerial,
    Done,
}

/// Mathematical state of a serial query: its stage and the payload of the
/// legacy serial read, once it came.
pub struct SerialQueryView {
    pub stage: SerialStage,
    pub data: Seq<u8>,
}

pub enum SerialStepView {
    Send(ApduView),
    Finished(Result<Serial, Error>),
}

/// The state in which a query starts for a given major version.
pub open spec fn serial_start(major: u8) -> SerialQueryView {
    SerialQueryView {
        stage: if major < 5 { SerialStage::SelectLegacy } else { SerialStage::ReadSerial },
        data: Seq::empty(),
    }
}

/// One step of a serial query: any status but success ends it with a generic
/// failure; otherwise the next frame of the sequence is sent, and the last
/// answer yields the serial.
pub open spec fn serial_step(v: SerialQueryView, code: u16, data: Seq<u8>) -> (SerialQueryView, SerialStepView) {
    let done = SerialQueryView { stage: SerialStage::Done, ..v };
    if v.stage == SerialStage::Done {
        (v, SerialStepView::Finished(Err(Error::GenericError)))
    } else if code != 0x9000 {
        (done, SerialStepView::Finished(Err(Error::GenericError)))
    } else {
        match v.stage {
            SerialStage::SelectLegacy => (SerialQueryView { stage: SerialStage::ReadLegacy, ..v }, SerialStepView::Send(serial_frames(0)[1])),
            SerialStage::ReadLegacy => (SerialQueryView { stage: SerialStage::Reselect, data }, SerialStepView::Send(serial_frames(0)[2])),
            SerialStage::Reselect => (done, SerialStepView::Finished(serial_outcome(v.data))),
            _ => (done, SerialStepView::Finished(serial_outcome(data))),
        }
    }
}

/// The actions of a query in state `v` given the responses `resps` in turn,
/// up to its end.
pub open spec fn serial_run(v: SerialQueryView, resps: Seq<(u16, Seq<u8>)>) -> Seq<SerialStepView>
    decreases resps.len(),
{
    if resps.len() == 0 || v.stage == SerialStage::Done {
        Seq::empty()
    } else {
        let (next, action) = serial_step(v, resps[0].0, resps[0].1);
        seq![action] + serial_run(next, resps.drop_first())
    }
}

/// A serial query in progress.
pub struct SerialQuery {
    stage: SerialStage,
    data: Vec<u8>,
}

impl View for SerialQuery {
    type V = SerialQueryView;

    closed spec fn view(&self) -> SerialQueryView {
        SerialQueryView { stage: self.stage, data: self.data@ }
    }
}

pub enum SerialStep {
    Send(Apdu),
    Finished(Result<Serial, Error>),
}

impl View for SerialStep {
    type V = SerialStepView;

    open spec fn view(&self) -> SerialStepView {
        match self {
            SerialStep::Send(a) => SerialStepView::Send(a@),
            SerialStep::Finished(r) => SerialStepView::Finished(*r),
        }
    }
}

fn serial_from(data: &Vec<u8>) -> (r: Result<Serial, Error>)
    ensures
        r == serial_outcome(data@),
{
    if data.len() < 4 {
        return Err(Error::SizeError);
    }
    let v: u32 = (data[0] as u32) * 16777216 + (data[1] as u32) * 65536 + (data[2] as u32) * 256 + data[3] as u32;
    Ok(Serial(v))
}

fn select_apdu(legacy: bool) -> (r: Apdu)
    ensures
        r@ == select_frame(if legacy { yk_aid() } else { piv_aid() }),
{
    let data = if legacy { yk_aid_bytes() } else { piv_aid_bytes() };
    Apdu { cla: 0, ins: INS_SELECT_APPLICATION, p1: 0x04, p2: 0, data }
}

impl SerialQuery {
    /// Starts a serial query for a device with `version`; returns it with the
    /// first frame.
    pub fn start(version: Version) -> (r: (SerialQuery, Apdu))
        ensures
            r.0@ == serial_start(version.major),
            r.1@ == serial_frames(version.major)[0],
    {
        if version.major < 5 {
            (SerialQuery { stage: SerialStage::SelectLegacy, data: Vec::new() }, select_apdu(true))
        } else {
            (SerialQuery { stage: SerialStage::ReadSerial, data: Vec::new() }, Apdu { cla: 0, ins: INS_GET_SERIAL, p1: 0, p2: 0, data: Vec::new() })
        }
    }

    pub fn is_done(&self) -> (r: bool)
        ensures
            r == (self@.stage == SerialStage::Done),
    {
        matches!(self.stage, SerialStage::Done)
    }

    /// Takes the card's answer to the frame last sent and decides the next
    /// step.
    pub fn receive(&mut self, resp: Response) -> (r: SerialStep)
        requires
            old(self)@.stage != SerialStage::Done,
        ensures
            (final(self)@, r@) == serial_step(old(self)@, resp.code, resp.data@),
    {
        if resp.code != 0x9000 {
            self.stage = SerialStage::Done;
            return SerialStep::Finished(Err(Error::GenericError));
        }
        match self.stage {
            SerialStage::SelectLegacy => {
                self.stage = SerialStage::ReadLegacy;
                SerialStep::Send(Apdu { cla: 0, ins: INS_LEGACY_SERIAL, p1: 0x10, p2: 0, data: Vec::new() })
            },
            SerialStage::ReadLegacy => {
                self.stage = SerialStage::Reselect;
                self.data = resp.data;
                SerialStep::Send(select_apdu(false))
            },
            SerialStage::Reselect => {
                self.stage = SerialStage::Done;
                SerialStep::Finished(serial_from(&self.data))
            },
            _ => {
                self.stage = SerialStage::Done;
                SerialStep::Finished(serial_from(&resp.data))
            },
        }
    }
}

/// When every answer is a success, a query issues exactly the frames of
/// `serial_frames` in order (three before major version 5, else one): the
/// first when it starts, each next one after an answer, and then ends.
pub proof fn lemma_serial_frames(major: u8, resps: Seq<(u16, Seq<u8>)>)
    requires
        resps.len() == serial_frames(major).len(),
        forall|i: int| 0 <= i < resps.len() ==> #[trigger] resps[i].0 == 0x9000,
    ensures
        serial_frames(major).len() == (if major < 5 { 3nat } else { 1nat }),
        serial_run(serial_start(major), resps).len() == resps.len(),
        forall|i: int| 0 <= i < resps.len() - 1 ==>
            #[trigger] serial_run(serial_start(major), resps)[i] == SerialStepView::Send(serial_frames(major)[i + 1]),
        serial_run(serial_start(major), resps).last() is Finished,
{
    reveal_with_fuel(serial_run, 4);
    let s0 = serial_start(major);
    assert(resps[0].0 == 0x9000);
    if major < 5 {
        assert(resps[1].0 == 0x9000);
        assert(resps[2].0 == 0x9000);
        let r1 = resps.drop_first();
        let r2 = r1.drop_first();
        let r3 = r2.drop_first();
        assert(r1[0] == resps[1]);
        assert(r2[0] == resps[2]);
        assert(r3.len() == 0);
        let (s1, a0) = serial_step(s0, resps[0].0, resps[0].1);
        let (s2, a1) = serial_step(s1, resps[1].0, resps[1].1);
        let (s3, a2) = serial_step(s2, resps[2].0, resps[2].1);
        assert(serial_run(s2, r2) == seq![a2] + serial_run(s3, r3));
        assert(serial_run(s1, r1) == seq![a1] + serial_run(s2, r2));
        assert(serial_run(s0, resps) =~= seq![a0, a1, a2]);
    } else {
        assert(resps.drop_first().len() == 0);
        assert(serial_run(s0, resps) =~= seq![serial_step(s0, resps[0].0, resps[0].1).1]);
    }
}

} // verus!
