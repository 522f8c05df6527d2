//! The body flow-control loop, as a state machine: the driver performs each
//! action and hands back what came of it.

use vstd::prelude::*;
use crate::chunk::bytes_of;
use crate::error::{EngineFailure, SendRequestError};

verus! {

/// Where the loop stands.
#[derive(Clone, Copy, Debug, PartialEq, Eq, Structural)]
pub enum SendPhase {
    /// Waiting for the next chunk of the body.
    Fetching,
    /// Waiting for the peer to grant capacity for the buffered bytes.
    AwaitingCapacity,
    /// A data frame is being sent.
    SendingData,
    /// The empty end-of-stream frame is being sent.
    SendingEnd,
    Done,
    Failed,
}

/// What came of the last action.
pub enum SendEvent {
    /// The producer yielded a chunk.
    Chunk(bytes::Bytes),
    /// The producer failed.
    ChunkFailed,
    /// The producer is exhausted.
    BodyEnd,
    /// The peer granted this much capacity.
    Granted(usize),
    /// No more capacity will come.
    CapacityClosed,
    /// Waiting for capacity failed.
    CapacityFailed(EngineFailure),
    /// The frame was sent.
    Sent,
    /// Sending the frame failed.
    SendFailed(EngineFailure),
}

/// What the driver does next.
pub enum SendAction {
    /// Ask the producer for the next chunk.
    PullChunk,
    /// Reserve this much capacity and wait for a grant.
    AwaitCapacity(usize),
    /// Send these bytes as a data frame that does not end the stream.
    SendData(bytes::Bytes),
    /// Send an empty frame that ends the stream.
    SendEnd,
    /// Stop; when `release_reservation` holds, first set the reservation to zero.
    Finish(bool),
    /// Stop with this error.
    Abort(SendRequestError),
}

pub enum SendEventView {
    Chunk(Seq<u8>),
    ChunkFailed,
    BodyEnd,
    Granted(nat),
    CapacityClosed,
    CapacityFailed(EngineFailure),
    Sent,
    SendFailed(EngineFailure),
}

pub enum SendActionView {
    PullChunk,
    AwaitCapacity(nat),
    SendData(Seq<u8>),
    SendEnd,
    Finish(bool),
    Abort(SendRequestError),
}

pub struct SenderView {
    pub phase: SendPhase,
    /// The bytes of the current chunk that are not yet sent.
    pub pending: Seq<u8>,
    /// The end-of-stream frame has been handed out.
    pub end_sent: bool,
}

impl View for SendEvent {
    type V = SendEventView;

    open spec fn view(&self) -> SendEventView {
        match self {
            SendEvent::Chunk(b) => SendEventView::Chunk(bytes_of(*b)),
            SendEvent::ChunkFailed => SendEventView::ChunkFailed,
            SendEvent::BodyEnd => SendEventView::BodyEnd,
            SendEvent::Granted(n) => SendEventView::Granted(*n as nat),
            SendEvent::CapacityClosed => SendEventView::CapacityClosed,
            SendEvent::CapacityFailed(e) => SendEventView::CapacityFailed(*e),
            SendEvent::Sent => SendEventView::Sent,
            SendEvent::SendFailed(e) => SendEventView::SendFailed(*e),
        }
    }
}

impl View for SendAction {
    type V = SendActionView;

    open spec fn view(&self) -> SendActionView {
        match self {
            SendAction::PullChunk => SendActionView::PullChunk,
            SendAction::AwaitCapacity(n) => SendActionView::AwaitCapacity(*n as nat),
            SendAction::SendData(b) => SendActionView::SendData(bytes_of(*b)),
            SendAction::SendEnd => SendActionView::SendEnd,
            SendAction::Finish(r) => SendActionView::Finish(*r),
            SendAction::Abort(e) => SendActionView::Abort(*e),
        }
    }
}

/// The error that an engine failure surfaces as.
pub open spec fn engine_error(e: EngineFailure) -> SendRequestError {
    if e.is_io {
        SendRequestError::Io
    } else {
        SendRequestError::Protocol
    }
}

/// The events that answer the action pending in phase `p`.
pub open spec fn expects(p: SendPhase, e: SendEventView) -> bool {
    match p {
        SendPhase::Fetching => e is Chunk || e is ChunkFailed || e is BodyEnd,
        SendPhase::AwaitingCapacity => e is Granted || e is CapacityClosed || e is CapacityFailed,
        SendPhase::SendingData | SendPhase::SendingEnd => e is Sent || e is SendFailed,
        SendPhase::Done | SendPhase::Failed => false,
    }
}

pub open spec fn at(phase: SendPhase, pending: Seq<u8>, end_sent: bool) -> SenderView {
    SenderView { phase, pending, end_sent }
}

/// One step of the loop: the next state and the next action.
pub open spec fn send_step(s: SenderView, e: SendEventView) -> (SenderView, SendActionView) {
    match (s.phase, e) {
        (SendPhase::Fetching, SendEventView::Chunk(c)) => (
            at(SendPhase::AwaitingCapacity, c, s.end_sent),
            SendActionView::AwaitCapacity(c.len()),
        ),
        (SendPhase::Fetching, SendEventView::BodyEnd) => (
            at(SendPhase::SendingEnd, seq![], true),
            SendActionView::SendEnd,
        ),
        (SendPhase::AwaitingCapacity, SendEventView::Granted(n)) => if n == 0 {
            (at(SendPhase::Done, s.pending, s.end_sent), SendActionView::Finish(false))
        } else {
            let k = if n < s.pending.len() {
                n as int
            } else {
                s.pending.len() as int
            };
            (
                at(SendPhase::SendingData, s.pending.skip(k), s.end_sent),
                SendActionView::SendData(s.pending.take(k)),
            )
        },
        (SendPhase::AwaitingCapacity, SendEventView::CapacityClosed) => (
            at(SendPhase::Done, s.pending, s.end_sent),
            SendActionView::Finish(false),
        ),
        (SendPhase::AwaitingCapacity, SendEventView::CapacityFailed(f)) => (
            at(SendPhase::Failed, s.pending, s.end_sent),
            SendActionView::Abort(engine_error(f)),
        ),
        (SendPhase::SendingData, SendEventView::Sent) => if s.pending.len() > 0 {
            (
                at(SendPhase::AwaitingCapacity, s.pending, s.end_sent),
                SendActionView::AwaitCapacity(s.pending.len()),
            )
        } else {
            (at(SendPhase::Fetching, s.pending, s.end_sent), SendActionView::PullChunk)
        },
        (SendPhase::SendingEnd, SendEventView::Sent) => (
            at(SendPhase::Done, s.pending, s.end_sent),
            SendActionView::Finish(true),
        ),
        (_, SendEventView::SendFailed(f)) => (
            at(SendPhase::Failed, s.pending, s.end_sent),
            SendActionView::Abort(engine_error(f)),
        ),
        (_, SendEventView::ChunkFailed) => (
            at(SendPhase::Failed, s.pending, s.end_sent),
            SendActionView::Abort(SendRequestError::BodyProducer),
        ),
        _ => (s, SendActionView::Abort(SendRequestError::Protocol)),
    }
}

/// The state of one request's outbound body.
pub struct BodySender {
    phase: SendPhase,
    pending: bytes::Bytes,
    end_sent: bool,
}

impl View for BodySender {
    type V = SenderView;

    closed spec fn view(&self) -> SenderView {
        SenderView { phase: self.phase, pending: bytes_of(self.pending), end_sent: self.end_sent }
    }
}

/// The state in which every body starts: nothing buffered, nothing sent.
pub open spec fn initial_sender() -> SenderView {
    SenderView { phase: SendPhase::Fetching, pending: seq![], end_sent: false }
}

impl BodySender {
    /// A loop that starts by pulling the first chunk.
    pub fn new() -> (r: (BodySender, SendAction))
        ensures
            r.0@ == initial_sender(),
            r.1@ == SendActionView::PullChunk,
    {
        let pending = bytes::Bytes::new();
        let s = BodySender { phase: SendPhase::Fetching, pending, end_sent: false };
        assert(s@.pending =~= seq![]);
        (s, SendAction::PullChunk)
    }

    pub fn phase(&self) -> (r: SendPhase)
        ensures
            r == self@.phase,
    {
        self.phase
    }

    /// Takes what came of the last action and gives the next one.
    pub fn step(&mut self, ev: SendEvent) -> (a: SendAction)
        requires
            expects(old(self)@.phase, ev@),
        ensures
            (final(self)@, a@) == send_step(old(self)@, ev@),
    {
        match ev {
            SendEvent::Chunk(c) => {
                let n = c.len();
                self.pending = c;
                self.phase = SendPhase::AwaitingCapacity;
                SendAction::AwaitCapacity(n)
            },
            SendEvent::ChunkFailed => {
                self.phase = SendPhase::Failed;
                SendAction::Abort(SendRequestError::BodyProducer)
            },
            SendEvent::BodyEnd => {
                self.pending = bytes::Bytes::new();
                self.phase = SendPhase::SendingEnd;
                self.end_sent = true;
                assert(self@.pending =~= seq![]);
                SendAction::SendEnd
            },
            SendEvent::Granted(cap) => {
                if cap == 0 {
                    self.phase = SendPhase::Done;
                    SendAction::Finish(false)
                } else {
                    let len = self.pending.len();
                    let k = if cap < len {
                        cap
                    } else {
                        len
                    };
                    let frame = self.pending.split_to(k);
                    self.phase = SendPhase::SendingData;
                    SendAction::SendData(frame)
                }
            },
            SendEvent::CapacityClosed => {
                self.phase = SendPhase::Done;
                SendAction::Finish(false)
            },
            SendEvent::CapacityFailed(f) => {
                self.phase = SendPhase::Failed;
                SendAction::Abort(engine_failure_error(f))
            },
            SendEvent::Sent => {
                if self.phase == SendPhase::SendingEnd {
                    self.phase = SendPhase::Done;
                    SendAction::Finish(true)
                } else {
                    let rest = self.pending.len();
                    if rest > 0 {
                        self.phase = SendPhase::AwaitingCapacity;
                        SendAction::AwaitCapacity(rest)
                    } else {
                        self.phase = SendPhase::Fetching;
                        SendAction::PullChunk
                    }
                }
            },
            SendEvent::SendFailed(f) => {
                self.phase = SendPhase::Failed;
                SendAction::Abort(engine_failure_error(f))
            },
        }
    }
}

/// The error that an engine failure surfaces as.
pub fn engine_failure_error(f: EngineFailure) -> (r: SendRequestError)
    ensures
        r == engine_error(f),
{
    if f.is_io {
        SendRequestError::Io
    } else {
        SendRequestError::Protocol
    }
}

/// The state and the actions after the events `evs`, one step each.
pub open spec fn send_run(s: SenderView, evs: Seq<SendEventView>) -> (SenderView, Seq<SendActionView>)
    decreases evs.len(),
{
    if evs.len() == 0 {
        (s, seq![])
    } else {
        let (m, acts) = send_run(s, evs.drop_last());
        let (f, a) = send_step(m, evs.last());
        (f, acts.push(a))
    }
}

/// Each event answers the action pending when it comes.
pub open spec fn expects_all(s: SenderView, evs: Seq<SendEventView>) -> bool
    decreases evs.len(),
{
    if evs.len() == 0 {
        true
    } else {
        expects_all(s, evs.drop_last()) && expects(send_run(s, evs.drop_last()).0.phase, evs.last())
    }
}

/// How many end-of-stream frames `acts` sends.
pub open spec fn end_frames(acts: Seq<SendActionView>) -> nat
    decreases acts.len(),
{
    if acts.len() == 0 {
        0
    } else {
        end_frames(acts.drop_last()) + if acts.last() is SendEnd {
            1nat
        } else {
            0nat
        }
    }
}

/// A data frame is only sent in answer to a grant, and holds the front of
/// the pending bytes: as many as the grant allows, or all of them if fewer.
pub proof fn lemma_frame_within_grant(s: SenderView, e: SendEventView)
    requires
        expects(s.phase, e),
    ensures
        send_step(s, e).1 is SendData ==> {
            let frame = send_step(s, e).1->SendData_0;
            &&& e is Granted
            &&& frame.len() <= e->Granted_0
            &&& frame.len() == e->Granted_0 || frame.len() == s.pending.len()
            &&& frame == s.pending.take(frame.len() as int)
        },
{
}

/// From the start, every run sends at most one end-of-stream frame: it
/// answers the producer's exhaustion, nothing is sent after it, and a run
/// that finishes by releasing its reservation has sent exactly one.
pub proof fn lemma_single_end_frame(evs: Seq<SendEventView>)
    requires
        expects_all(initial_sender(), evs),
    ensures
        ({
            let (f, acts) = send_run(initial_sender(), evs);
            &&& end_frames(acts) == if f.end_sent {
                1nat
            } else {
                0nat
            }
            &&& forall|i: int| 0 <= i < acts.len() && (#[trigger] acts[i]) is SendEnd ==> evs[i] is BodyEnd
            &&& forall|i: int, j: int|
                0 <= i < j < acts.len() && (#[trigger] acts[i]) is SendEnd ==> !((#[trigger] acts[j]) is SendData)
                    && !(acts[j] is SendEnd)
            &&& acts.len() > 0 && acts.last() == SendActionView::Finish(true) ==> end_frames(acts) == 1
        }),
{
    lemma_run_invariant(evs);
}

/// The end flag is set exactly in the phases after the end-of-stream frame.
pub open spec fn sender_inv(s: SenderView) -> bool {
    &&& s.end_sent ==> (s.phase is SendingEnd || s.phase is Done || s.phase is Failed)
    &&& s.phase is SendingEnd ==> s.end_sent
}

proof fn lemma_run_invariant(evs: Seq<SendEventView>)
    requires
        expects_all(initial_sender(), evs),
    ensures
        ({
            let (f, acts) = send_run(initial_sender(), evs);
            &&& sender_inv(f)
            &&& acts.len() == evs.len()
            &&& end_frames(acts) == if f.end_sent {
                1nat
            } else {
                0nat
            }
            &&& forall|i: int| 0 <= i < acts.len() && (#[trigger] acts[i]) is SendEnd ==> evs[i] is BodyEnd
                && f.end_sent
            &&& forall|i: int, j: int|
                0 <= i < j < acts.len() && (#[trigger] acts[i]) is SendEnd ==> !((#[trigger] acts[j]) is SendData)
                    && !(acts[j] is SendEnd)
            &&& acts.len() > 0 && acts.last() == SendActionView::Finish(true) ==> end_frames(acts) == 1
        }),
    decreases evs.len(),
{
    if evs.len() > 0 {
        let pre = evs.drop_last();
        lemma_run_invariant(pre);
        let (m, a0) = send_run(initial_sender(), pre);
        let e = evs.last();
        let (f, x) = send_step(m, e);
        let acts = a0.push(x);
        assert(acts.drop_last() =~= a0);
        assert(send_run(initial_sender(), evs) == (f, acts));
        assert forall|i: int| 0 <= i < acts.len() && (#[trigger] acts[i]) is SendEnd implies evs[i]
            is BodyEnd && f.end_sent by {
            if i < a0.len() {
                assert(acts[i] == a0[i]);
                assert(evs[i] == pre[i]);
            }
        }
        assert forall|i: int, j: int|
            0 <= i < j < acts.len() && (#[trigger] acts[i]) is SendEnd implies !((#[trigger] acts[j]) is SendData)
                && !(acts[j] is SendEnd) by {
            assert(acts[i] == a0[i]);
            if j < a0.len() {
                assert(acts[j] == a0[j]);
            }
        }
    }
}

/// The bytes that the data frames of `acts` carry, in order.
pub open spec fn sent_bytes(acts: Seq<SendActionView>) -> Seq<u8>
    decreases acts.len(),
{
    if acts.len() == 0 {
        seq![]
    } else {
        sent_bytes(acts.drop_last()) + match acts.last() {
            SendActionView::SendData(f) => f,
            _ => seq![],
        }
    }
}

/// The bytes that the producer yielded in `evs`, in order.
pub open spec fn pulled_bytes(evs: Seq<SendEventView>) -> Seq<u8>
    decreases evs.len(),
{
    if evs.len() == 0 {
        seq![]
    } else {
        pulled_bytes(evs.drop_last()) + match evs.last() {
            SendEventView::Chunk(c) => c,
            _ => seq![],
        }
    }
}

/// The data frames carry the body's bytes in order, each byte once: what was
/// sent, followed by what is still pending, is what the producer yielded.
/// Once the body is exhausted, everything it yielded has been sent.
pub proof fn lemma_frames_carry_body(evs: Seq<SendEventView>)
    requires
        expects_all(initial_sender(), evs),
    ensures
        ({
            let (f, acts) = send_run(initial_sender(), evs);
            &&& sent_bytes(acts) + f.pending == pulled_bytes(evs)
            &&& f.end_sent ==> sent_bytes(acts) == pulled_bytes(evs)
        }),
    decreases evs.len(),
{
    lemma_pending_empty_between_chunks(evs);
    if evs.len() > 0 {
        let pre = evs.drop_last();
        lemma_frames_carry_body(pre);
        lemma_pending_empty_between_chunks(pre);
        let (m, a0) = send_run(initial_sender(), pre);
        let e = evs.last();
        let (f, x) = send_step(m, e);
        let acts = a0.push(x);
        assert(acts.drop_last() =~= a0);
        assert(send_run(initial_sender(), evs) == (f, acts));
        match e {
            SendEventView::Chunk(c) => {
                assert(sent_bytes(acts) =~= sent_bytes(a0));
                assert(pulled_bytes(evs) == pulled_bytes(pre) + c);
                assert(sent_bytes(acts) + f.pending =~= pulled_bytes(evs));
            },
            SendEventView::Granted(n) => {
                if n > 0 {
                    let k = x->SendData_0.len() as int;
                    assert(m.pending =~= m.pending.take(k) + m.pending.skip(k));
                    assert(sent_bytes(acts) + f.pending =~= pulled_bytes(evs));
                } else {
                    assert(sent_bytes(acts) =~= sent_bytes(a0));
                    assert(pulled_bytes(evs) =~= pulled_bytes(pre));
                }
            },
            _ => {
                assert(sent_bytes(acts) =~= sent_bytes(a0));
                assert(pulled_bytes(evs) =~= pulled_bytes(pre));
            },
        }
        if f.end_sent {
            assert(sent_bytes(acts) =~= sent_bytes(acts) + f.pending);
        }
    }
}

proof fn lemma_pending_empty_between_chunks(evs: Seq<SendEventView>)
    requires
        expects_all(initial_sender(), evs),
    ensures
        ({
            let f = send_run(initial_sender(), evs).0;
            &&& (f.phase is Fetching || f.end_sent) ==> f.pending.len() == 0
            &&& f.end_sent ==> (f.phase is SendingEnd || f.phase is Done || f.phase is Failed)
        }),
    decreases evs.len(),
{
    if evs.len() > 0 {
        lemma_pending_empty_between_chunks(evs.drop_last());
    }
}

} // verus!
