//! Chaining of long payloads over bounded frames, and draining of continued
//! responses, as a state machine driven by the card's responses.
use vstd::prelude::*;

use crate::apdu::{Apdu, ApduView, Response, FRAME_DATA_MAX};
use crate::error::Error;
use crate::status::more_data;
use crate::bytes::copy_range;

verus! {

/// Class byte of every fragment but the last of a chained command.
pub const CHAIN_CLA: u8 = 0x10;

/// Instruction that asks the card for the next part of a response.
pub const INS_GET_RESPONSE: u8 = 0xc0;

/// Class, instruction and parameters that every frame of a transfer takes.
#[derive(Clone, Copy, Debug, PartialEq, Eq, Structural)]
pub struct Template {
    pub cla: u8,
    pub ins: u8,
    pub p1: u8,
    pub p2: u8,
}

/// The frame that carries `input[start..]`, at most 255 bytes of it: with the
/// continuation class while more bytes follow, else with the template's own.
pub open spec fn frame_at(t: Template, input: Seq<u8>, start: nat) -> ApduView {
    if start + 255 < input.len() {
        ApduView { cla: CHAIN_CLA, ins: t.ins, p1: t.p1, p2: t.p2, data: input.subrange(start as int, start + 255int) }
    } else {
        ApduView { cla: t.cla, ins: t.ins, p1: t.p1, p2: t.p2, data: input.subrange(start as int, input.len() as int) }
    }
}

/// Number of fragments for a payload of `len` bytes (one for an empty one).
pub open spec fn fragment_count(len: nat) -> nat {
    if len == 0 { 1 } else { ((len - 1) as nat / 255) + 1 }
}

/// The outbound frames of a transfer, in send order.
pub open spec fn chain_frames(t: Template, input: Seq<u8>) -> Seq<ApduView> {
    Seq::new(fragment_count(input.len()), |k: int| frame_at(t, input, (255 * k) as nat))
}

/// The frame that asks for more response bytes.
pub open spec fn get_response_frame() -> ApduView {
    ApduView { cla: 0, ins: INS_GET_RESPONSE, p1: 0, p2: 0, data: Seq::empty() }
}

#[derive(Clone, Copy, Debug, PartialEq, Eq, Structural)]
pub enum Phase {
    /// Fragments of the command are being sent.
    Sending,
    /// The command is sent; further response parts are being fetched.
    Draining,
    /// The transfer has ended.
    Done,
}

/// Mathematical state of a transfer.
pub struct TransferView {
    pub templ: Template,
    pub input: Seq<u8>,
    /// Start of the fragment last sent.
    pub offset: nat,
    pub max_out: nat,
    /// Response bytes gathered so far.
    pub out: Seq<u8>,
    pub phase: Phase,
}

/// What the caller does next.
pub enum StepView {
    /// Transmit this frame and report the response.
    Send(ApduView),
    /// The transfer ended with this status code and payload.
    Finished(u16, Seq<u8>),
    /// The transfer failed locally.
    Failed(Error),
}

pub open spec fn transfer_wf(s: TransferView) -> bool {
    &&& s.offset % 255 == 0
    &&& s.offset <= s.input.len()
    &&& (s.phase == Phase::Draining ==> s.offset + 255 >= s.input.len())
}

pub open spec fn is_failure(code: u16) -> bool {
    code != 0x9000 && !more_data(code)
}

/// One step of a transfer: the state after the response `(code, data)` and
/// what to do next. A failure status ends the transfer with that status
/// (keeping the bytes gathered while sending, none while draining); output
/// that would pass `max_out` fails it with a size error; otherwise the payload
/// is gathered, the next fragment is sent, then more response parts are asked
/// for while the status says that more are available.
pub open spec fn transfer_step(s: TransferView, code: u16, data: Seq<u8>) -> (TransferView, StepView) {
    let done = TransferView { phase: Phase::Done, ..s };
    let out = s.out + data;
    match s.phase {
        Phase::Sending => {
            if is_failure(code) {
                (done, StepView::Finished(code, s.out))
            } else if s.out.len() + data.len() > s.max_out {
                (done, StepView::Failed(Error::SizeError))
            } else if s.offset + 255 < s.input.len() {
                let next = (s.offset + 255) as nat;
                (TransferView { offset: next, out, ..s }, StepView::Send(frame_at(s.templ, s.input, next)))
            } else if more_data(code) {
                (TransferView { out, phase: Phase::Draining, ..s }, StepView::Send(get_response_frame()))
            } else {
                (TransferView { out, phase: Phase::Done, ..s }, StepView::Finished(code, out))
            }
        },
        Phase::Draining => {
            if is_failure(code) {
                (done, StepView::Finished(code, Seq::empty()))
            } else if s.out.len() + data.len() > s.max_out {
                (done, StepView::Failed(Error::SizeError))
            } else if more_data(code) {
                (TransferView { out, ..s }, StepView::Send(get_response_frame()))
            } else {
                (TransferView { out, phase: Phase::Done, ..s }, StepView::Finished(code, out))
            }
        },
        Phase::Done => (s, StepView::Failed(Error::GenericError)),
    }
}

/// The state of a transfer of `input` before any response.
pub open spec fn started(templ: Template, input: Seq<u8>, max_out: nat) -> TransferView {
    TransferView { templ, input, offset: 0, max_out, out: Seq::empty(), phase: Phase::Sending }
}

/// A transfer in progress.
pub struct Transfer {
    templ: Template,
    input: Vec<u8>,
    offset: usize,
    max_out: usize,
    out: Vec<u8>,
    phase: Phase,
}

impl View for Transfer {
    type V = TransferView;

    closed spec fn view(&self) -> TransferView {
        TransferView {
            templ: self.templ,
            input: self.input@,
            offset: self.offset as nat,
            max_out: self.max_out as nat,
            out: self.out@,
            phase: self.phase,
        }
    }
}

/// What to do after a response.
#[derive(Debug)]
pub enum TransferStep {
    Send(Apdu),
    Finished(Response),
    Failed(Error),
}

impl View for TransferStep {
    type V = StepView;

    open spec fn view(&self) -> StepView {
        match self {
            TransferStep::Send(a) => StepView::Send(a@),
            TransferStep::Finished(r) => StepView::Finished(r.code, r.data@),
            TransferStep::Failed(e) => StepView::Failed(*e),
        }
    }
}

/// Builds the frame that carries `input[start..]`.
fn make_frame(t: Template, input: &Vec<u8>, start: usize) -> (r: Apdu)
    requires
        start <= input@.len(),
    ensures
        r@ == frame_at(t, input@, start as nat),
        r.data@.len() <= FRAME_DATA_MAX,
{
    if input.len() - start > FRAME_DATA_MAX {
        let data = copy_range(input.as_slice(), start, start + FRAME_DATA_MAX);
        Apdu { cla: CHAIN_CLA, ins: t.ins, p1: t.p1, p2: t.p2, data }
    } else {
        let data = copy_range(input.as_slice(), start, input.len());
        Apdu { cla: t.cla, ins: t.ins, p1: t.p1, p2: t.p2, data }
    }
}

/// Builds the frame that asks for more response bytes.
pub fn get_response() -> (r: Apdu)
    ensures
        r@ == get_response_frame(),
{
    Apdu::new(INS_GET_RESPONSE)
}

impl Transfer {
    pub closed spec fn wf(&self) -> bool {
        transfer_wf(self@)
    }

    /// Starts a transfer of `input` with the frame template `templ`, gathering
    /// at most `max_out` response bytes; returns it with the first frame.
    pub fn new(templ: Template, input: Vec<u8>, max_out: usize) -> (r: (Transfer, Apdu))
        ensures
            r.0.wf(),
            r.0@ == started(templ, input@, max_out as nat),
            r.1@ == chain_frames(templ, input@)[0],
            r.1.data@.len() <= FRAME_DATA_MAX,
    {
        let frame = make_frame(templ, &input, 0);
        (Transfer { templ, input, offset: 0, max_out, out: Vec::new(), phase: Phase::Sending }, frame)
    }

    /// Overwrites the payload and the gathered output with zeroes and ends
    /// the transfer.
    pub fn wipe(&mut self)
        ensures
            final(self).wf(),
            final(self)@.input.len() == 0,
            final(self)@.out.len() == 0,
            final(self)@.offset == 0,
            final(self)@.phase == Phase::Done,
    {
        crate::bytes::zeroize_bytes(&mut self.input);
        crate::bytes::zeroize_bytes(&mut self.out);
        self.offset = 0;
        self.phase = Phase::Done;
    }

    pub fn is_done(&self) -> (r: bool)
        ensures
            r == (self@.phase == Phase::Done),
    {
        matches!(self.phase, Phase::Done)
    }

    /// Takes the card's response to the frame last sent and decides the next
    /// step.
    pub fn receive(&mut self, resp: Response) -> (r: TransferStep)
        requires
            old(self).wf(),
            old(self)@.phase != Phase::Done,
        ensures
            final(self).wf(),
            (final(self)@, r@) == transfer_step(old(self)@, resp.code, resp.data@),
            r matches TransferStep::Send(a) ==> a.data@.len() <= FRAME_DATA_MAX,
    {
        let failed = resp.code != 0x9000 && resp.code / 256 != 0x61;
        let more = resp.code / 256 == 0x61;
        if matches!(self.phase, Phase::Sending) {
            if failed {
                self.phase = Phase::Done;
                let out = copy_range(self.out.as_slice(), 0, self.out.len());
                proof {
                    assert(out@ =~= old(self)@.out);
                }
                return TransferStep::Finished(Response { code: resp.code, data: out });
            }
            if resp.data.len() > self.max_out || self.out.len() > self.max_out - resp.data.len() {
                self.phase = Phase::Done;
                return TransferStep::Failed(Error::SizeError);
            }
            crate::bytes::append_bytes(&mut self.out, resp.data.as_slice());
            if self.input.len() - self.offset > FRAME_DATA_MAX {
                self.offset = self.offset + FRAME_DATA_MAX;
                let frame = make_frame(self.templ, &self.input, self.offset);
                TransferStep::Send(frame)
            } else if more {
                self.phase = Phase::Draining;
                TransferStep::Send(get_response())
            } else {
                self.phase = Phase::Done;
                let out = copy_range(self.out.as_slice(), 0, self.out.len());
                proof {
                    assert(out@ =~= self.out@);
                }
                TransferStep::Finished(Response { code: resp.code, data: out })
            }
        } else {
            if failed {
                self.phase = Phase::Done;
                return TransferStep::Finished(Response { code: resp.code, data: Vec::new() });
            }
            if resp.data.len() > self.max_out || self.out.len() > self.max_out - resp.data.len() {
                self.phase = Phase::Done;
                return TransferStep::Failed(Error::SizeError);
            }
            crate::bytes::append_bytes(&mut self.out, resp.data.as_slice());
            if more {
                TransferStep::Send(get_response())
            } else {
                self.phase = Phase::Done;
                let out = copy_range(self.out.as_slice(), 0, self.out.len());
                proof {
                    assert(out@ =~= self.out@);
                }
                TransferStep::Finished(Response { code: resp.code, data: out })
            }
        }
    }
}


/// The actions of a transfer started in state `s` when the card gives the
/// responses `resps` (status code, payload) in turn, up to its end.
pub open spec fn run(s: TransferView, resps: Seq<(u16, Seq<u8>)>) -> Seq<StepView>
    decreases resps.len(),
{
    if resps.len() == 0 || s.phase == Phase::Done {
        Seq::empty()
    } else {
        let (next, action) = transfer_step(s, resps[0].0, resps[0].1);
        seq![action] + run(next, resps.drop_first())
    }
}

/// The payloads of a sequence of responses, in arrival order.
pub open spec fn payloads(resps: Seq<(u16, Seq<u8>)>) -> Seq<Seq<u8>> {
    resps.map_values(|r: (u16, Seq<u8>)| r.1)
}

proof fn lemma_fragment_bounds(len: nat, k: nat)
    requires
        k < fragment_count(len),
    ensures
        255 * k <= len,
        k + 1 < fragment_count(len) ==> 255 * k + 255 < len,
        k + 1 == fragment_count(len) ==> 255 * k + 255 >= len,
{
    if len > 0 {
        let q = (len - 1) as nat / 255;
        assert(255 * q <= len - 1 && len - 1 < 255 * q + 255);
        assert(255 * k <= 255 * q) by (nonlinear_arith)
            requires
                k <= q,
        ;
        if k + 1 < fragment_count(len) {
            assert(255 * k + 255 <= 255 * q) by (nonlinear_arith)
                requires
                    k + 1 <= q,
            ;
        }
    }
}

proof fn lemma_flatten_from(t: Template, input: Seq<u8>, k: nat)
    requires
        k <= fragment_count(input.len()),
    ensures
        Seq::new((fragment_count(input.len()) - k) as nat, |j: int| frame_at(t, input, (255 * (k + j)) as nat).data).flatten()
            == (if k < fragment_count(input.len()) { input.subrange(255 * k as int, input.len() as int) } else { Seq::empty() }),
    decreases fragment_count(input.len()) - k,
{
    let n = fragment_count(input.len());
    let d = Seq::new((n - k) as nat, |j: int| frame_at(t, input, (255 * (k + j)) as nat).data);
    if k < n {
        lemma_fragment_bounds(input.len(), k);
        lemma_flatten_from(t, input, k + 1);
        let d1 = Seq::new((n - (k + 1)) as nat, |j: int| frame_at(t, input, (255 * (k + 1 + j)) as nat).data);
        assert(d.drop_first() =~= d1) by {
            assert forall|j: int| 0 <= j < d1.len() implies d.drop_first()[j] == d1[j] by {
                assert(255 * (k + (j + 1)) == 255 * (k + 1 + j)) by (nonlinear_arith);
            }
        }
        assert(d.first() == frame_at(t, input, (255 * k) as nat).data);
        if k + 1 < n {
            lemma_fragment_bounds(input.len(), k + 1);
            assert(255 * (k + 1) == 255 * k + 255);
            assert(d.flatten() =~= input.subrange(255 * k as int, input.len() as int));
        } else {
            assert(d1.len() == 0);
            assert(d.flatten() =~= input.subrange(255 * k as int, input.len() as int));
        }
    } else {
        assert(d.len() == 0);
    }
}

/// A payload of `L` bytes goes out in `ceil(L / 255)` fragments (one for an
/// empty payload) of at most 255 bytes; their payloads concatenated in send
/// order give the input back; every fragment but the last carries the
/// continuation class and the last the template's own; all carry the
/// template's instruction and parameters.
pub proof fn lemma_chain_fragments(t: Template, input: Seq<u8>)
    ensures
        input.len() == 0 ==> chain_frames(t, input).len() == 1,
        input.len() > 0 ==> (chain_frames(t, input).len() - 1) * 255 < input.len() <= chain_frames(t, input).len() * 255,
        chain_frames(t, input).map_values(|a: ApduView| a.data).flatten() == input,
        forall|k: int| 0 <= k < chain_frames(t, input).len() - 1 ==> (#[trigger] chain_frames(t, input)[k]).cla == CHAIN_CLA,
        chain_frames(t, input).last().cla == t.cla,
        forall|k: int| 0 <= k < chain_frames(t, input).len() ==> {
            let f = #[trigger] chain_frames(t, input)[k];
            f.ins == t.ins && f.p1 == t.p1 && f.p2 == t.p2 && f.data.len() <= 255
        },
{
    let f = chain_frames(t, input);
    let n = fragment_count(input.len());
    if input.len() > 0 {
        let q = (input.len() - 1) as nat / 255;
        assert(255 * q <= input.len() - 1 && input.len() - 1 < 255 * q + 255);
    }
    lemma_flatten_from(t, input, 0);
    assert(f.map_values(|a: ApduView| a.data) =~= Seq::new((n - 0) as nat, |j: int| frame_at(t, input, (255 * (0 + j)) as nat).data));
    assert(input.subrange(0, input.len() as int) =~= input);
    assert forall|k: int| 0 <= k < f.len() - 1 implies (#[trigger] f[k]).cla == CHAIN_CLA by {
        lemma_fragment_bounds(input.len(), k as nat);
    }
    lemma_fragment_bounds(input.len(), (n - 1) as nat);
    assert forall|k: int| 0 <= k < f.len() implies {
        let g = #[trigger] f[k];
        g.ins == t.ins && g.p1 == t.p1 && g.p2 == t.p2 && g.data.len() <= 255
    } by {
        lemma_fragment_bounds(input.len(), k as nat);
    }
}

/// Every step of the sending phase that is not the last sends the next
/// fragment of `chain_frames` after a response that is neither a failure nor
/// over the ceiling.
pub proof fn lemma_sending_follows_chain(s: TransferView, code: u16, data: Seq<u8>, k: nat)
    requires
        transfer_wf(s),
        s.phase == Phase::Sending,
        s.offset == 255 * k,
        k + 1 < fragment_count(s.input.len()),
        !is_failure(code),
        s.out.len() + data.len() <= s.max_out,
    ensures
        transfer_step(s, code, data).1 == StepView::Send(chain_frames(s.templ, s.input)[k + 1int]),
        transfer_step(s, code, data).0.out == s.out + data,
{
    lemma_fragment_bounds(s.input.len(), k);
    assert(255 * (k + 1) == 255 * k + 255);
}

proof fn lemma_drain(s: TransferView, resps: Seq<(u16, Seq<u8>)>)
    requires
        s.phase == Phase::Draining,
        resps.len() >= 1,
        forall|i: int| 0 <= i < resps.len() - 1 ==> more_data(#[trigger] resps[i].0),
        !more_data(resps.last().0),
        s.out.len() + payloads(resps).flatten().len() <= s.max_out,
    ensures
        run(s, resps).len() == resps.len(),
        forall|i: int| 0 <= i < resps.len() - 1 ==> #[trigger] run(s, resps)[i] == StepView::Send(get_response_frame()),
        run(s, resps).last() == (if resps.last().0 == 0x9000 {
            StepView::Finished(0x9000, s.out + payloads(resps).flatten())
        } else {
            StepView::Finished(resps.last().0, Seq::empty())
        }),
    decreases resps.len(),
{
    let rest = resps.drop_first();
    let (next, action) = transfer_step(s, resps[0].0, resps[0].1);
    assert(payloads(resps).first() == resps[0].1);
    assert(payloads(resps).drop_first() =~= payloads(rest));
    if resps.len() == 1 {
        assert(payloads(rest).len() == 0);
        assert(payloads(resps).flatten() =~= resps[0].1);
        assert(run(next, rest) == Seq::<StepView>::empty());
    } else {
        assert(more_data(resps[0].0));
        assert(next.out == s.out + resps[0].1);
        assert forall|i: int| 0 <= i < rest.len() - 1 implies more_data(#[trigger] rest[i].0) by {
            assert(rest[i] == resps[i + 1]);
        }
        lemma_drain(next, rest);
        assert(next.out + payloads(rest).flatten() =~= s.out + payloads(resps).flatten());
        assert forall|i: int| 0 <= i < resps.len() - 1 implies #[trigger] run(s, resps)[i] == StepView::Send(get_response_frame()) by {
            if i > 0 {
                assert(run(s, resps)[i] == run(next, rest)[i - 1]);
            }
        }
    }
}

/// Once the last fragment is sent, when the first `N` responses say that more
/// data is available and the next does not, exactly `N` frames asking for more
/// are sent and the transfer then ends with the last status; on success its
/// output is everything gathered before plus all payloads in arrival order.
pub proof fn lemma_continuation(s: TransferView, resps: Seq<(u16, Seq<u8>)>)
    requires
        transfer_wf(s),
        s.phase == Phase::Sending,
        s.offset + 255 >= s.input.len(),
        resps.len() >= 1,
        forall|i: int| 0 <= i < resps.len() - 1 ==> more_data(#[trigger] resps[i].0),
        !more_data(resps.last().0),
        s.out.len() + payloads(resps).flatten().len() <= s.max_out,
    ensures
        run(s, resps).len() == resps.len(),
        forall|i: int| 0 <= i < resps.len() - 1 ==> #[trigger] run(s, resps)[i] == StepView::Send(get_response_frame()),
        run(s, resps).last() matches StepView::Finished(c, _) && c == resps.last().0,
        resps.last().0 == 0x9000 ==> run(s, resps).last() == StepView::Finished(0x9000, s.out + payloads(resps).flatten()),
{
    let rest = resps.drop_first();
    let (next, action) = transfer_step(s, resps[0].0, resps[0].1);
    assert(payloads(resps).first() == resps[0].1);
    assert(payloads(resps).drop_first() =~= payloads(rest));
    if resps.len() == 1 {
        assert(payloads(rest).len() == 0);
        assert(payloads(resps).flatten() =~= resps[0].1);
        assert(run(next, rest) == Seq::<StepView>::empty());
    } else {
        assert(more_data(resps[0].0));
        assert forall|i: int| 0 <= i < rest.len() - 1 implies more_data(#[trigger] rest[i].0) by {
            assert(rest[i] == resps[i + 1]);
        }
        lemma_drain(next, rest);
        assert(next.out + payloads(rest).flatten() =~= s.out + payloads(resps).flatten());
        assert forall|i: int| 0 <= i < resps.len() - 1 implies #[trigger] run(s, resps)[i] == StepView::Send(get_response_frame()) by {
            if i > 0 {
                assert(run(s, resps)[i] == run(next, rest)[i - 1]);
            }
        }
    }
}

/// When a response that is not a failure would take the gathered output past
/// the ceiling, in either phase, the transfer fails with a size error and
/// sends nothing more, whatever the card would answer next.
pub proof fn lemma_size_ceiling(s: TransferView, resps: Seq<(u16, Seq<u8>)>)
    requires
        s.phase != Phase::Done,
        resps.len() >= 1,
        !is_failure(resps[0].0),
        s.out.len() + resps[0].1.len() > s.max_out,
    ensures
        run(s, resps) == seq![StepView::Failed(Error::SizeError)],
{
    let (next, action) = transfer_step(s, resps[0].0, resps[0].1);
    assert(next.phase == Phase::Done);
    assert(run(next, resps.drop_first()) == Seq::<StepView>::empty());
    assert(run(s, resps) =~= seq![StepView::Failed(Error::SizeError)]);
}

} // verus!
