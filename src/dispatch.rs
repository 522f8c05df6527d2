//! One dispatch attempt: the wait for readiness, the opening of the stream,
//! the body phase and the response, with the pool guard resolved exactly
//! once on every path.

use vstd::prelude::*;
use crate::error::{EngineFailure, SendRequestError};
use crate::sender::{engine_error, engine_failure_error};

verus! {

/// The pool guard of the connection that the attempt checked out.
#[derive(Clone, Copy, Debug, PartialEq, Eq, Structural)]
pub enum GuardState {
    Held,
    /// Returned to the pool for reuse, with the time of the call.
    Released,
    /// Discarded as unhealthy.
    Closed,
}

#[derive(Clone, Copy, Debug, PartialEq, Eq, Structural)]
pub enum DispatchPhase {
    AwaitingReady,
    Opening,
    SendingBody,
    AwaitingResponse,
    Done,
    Failed,
}

/// What came of the last action.
#[derive(Clone, Copy, Debug, PartialEq, Eq, Structural)]
pub enum DispatchEvent {
    Ready,
    ReadyFailed(EngineFailure),
    Opened,
    OpenFailed(EngineFailure),
    BodySent,
    BodyFailed(SendRequestError),
    Responded,
    ResponseFailed(EngineFailure),
}

/// How the pool guard is resolved.
#[derive(Clone, Copy, Debug, PartialEq, Eq, Structural)]
pub enum GuardAction {
    Release,
    Close,
}

/// What the driver does next.
#[derive(Clone, Copy, Debug, PartialEq, Eq, Structural)]
pub enum DispatchAction {
    /// Wait until the connection accepts a new stream.
    AwaitReady,
    /// Open a stream with the request; the flag says that no body follows.
    OpenStream(bool),
    /// Run the body flow-control loop.
    SendBody,
    /// Wait for the response head.
    AwaitResponse,
    /// The response is in.
    Complete,
    /// Give up with this error.
    Fail(SendRequestError),
}

#[derive(Clone, Copy, Debug, PartialEq, Eq, Structural)]
pub struct DispatchView {
    pub phase: DispatchPhase,
    pub guard: GuardState,
    pub eof: bool,
}

/// The events that answer the action pending in phase `p`.
pub open spec fn dispatch_expects(p: DispatchPhase, e: DispatchEvent) -> bool {
    match p {
        DispatchPhase::AwaitingReady => e is Ready || e is ReadyFailed,
        DispatchPhase::Opening => e is Opened || e is OpenFailed,
        DispatchPhase::SendingBody => e is BodySent || e is BodyFailed,
        DispatchPhase::AwaitingResponse => e is Responded || e is ResponseFailed,
        DispatchPhase::Done | DispatchPhase::Failed => false,
    }
}

pub open spec fn moved(s: DispatchView, phase: DispatchPhase, guard: GuardState) -> DispatchView {
    DispatchView { phase, guard, eof: s.eof }
}

/// One step of a dispatch attempt: the next state, how the guard is
/// resolved in this step if it is, and the next action.
pub open spec fn dispatch_step(s: DispatchView, e: DispatchEvent) -> (
    DispatchView,
    Option<GuardAction>,
    DispatchAction,
) {
    match e {
        DispatchEvent::Ready => (
            moved(s, DispatchPhase::Opening, s.guard),
            None,
            DispatchAction::OpenStream(s.eof),
        ),
        DispatchEvent::ReadyFailed(f) => (
            moved(s, DispatchPhase::Failed, GuardState::Closed),
            Some(GuardAction::Close),
            DispatchAction::Fail(
                if f.is_io {
                    SendRequestError::Io
                } else {
                    SendRequestError::ConnectionNotReady
                },
            ),
        ),
        DispatchEvent::Opened => if s.eof {
            (
                moved(s, DispatchPhase::AwaitingResponse, GuardState::Released),
                Some(GuardAction::Release),
                DispatchAction::AwaitResponse,
            )
        } else {
            (
                moved(s, DispatchPhase::SendingBody, GuardState::Released),
                Some(GuardAction::Release),
                DispatchAction::SendBody,
            )
        },
        DispatchEvent::OpenFailed(f) => (
            moved(s, DispatchPhase::Failed, GuardState::Closed),
            Some(GuardAction::Close),
            DispatchAction::Fail(
                if f.is_io {
                    SendRequestError::Io
                } else {
                    SendRequestError::DispatchFailure
                },
            ),
        ),
        DispatchEvent::BodySent => (
            moved(s, DispatchPhase::AwaitingResponse, s.guard),
            None,
            DispatchAction::AwaitResponse,
        ),
        DispatchEvent::BodyFailed(err) => (
            moved(s, DispatchPhase::Failed, s.guard),
            None,
            DispatchAction::Fail(err),
        ),
        DispatchEvent::Responded => (
            moved(s, DispatchPhase::Done, s.guard),
            None,
            DispatchAction::Complete,
        ),
        DispatchEvent::ResponseFailed(f) => (
            moved(s, DispatchPhase::Failed, s.guard),
            None,
            DispatchAction::Fail(engine_error(f)),
        ),
    }
}

/// The state of one dispatch attempt.
pub struct Dispatch {
    phase: DispatchPhase,
    guard: GuardState,
    eof: bool,
}

impl View for Dispatch {
    type V = DispatchView;

    closed spec fn view(&self) -> DispatchView {
        DispatchView { phase: self.phase, guard: self.guard, eof: self.eof }
    }
}

/// An attempt before anything is done: the guard is held.
pub open spec fn initial_dispatch(eof: bool) -> DispatchView {
    DispatchView { phase: DispatchPhase::AwaitingReady, guard: GuardState::Held, eof }
}

impl Dispatch {
    /// An attempt for a request that has a body phase unless `eof`; it
    /// starts by waiting for readiness.
    pub fn new(eof: bool) -> (r: (Dispatch, DispatchAction))
        ensures
            r.0@ == initial_dispatch(eof),
            r.1 == DispatchAction::AwaitReady,
    {
        (Dispatch { phase: DispatchPhase::AwaitingReady, guard: GuardState::Held, eof }, DispatchAction::AwaitReady)
    }

    pub fn phase(&self) -> (r: DispatchPhase)
        ensures
            r == self@.phase,
    {
        self.phase
    }

    pub fn guard(&self) -> (r: GuardState)
        ensures
            r == self@.guard,
    {
        self.guard
    }

    /// Takes what came of the last action and gives the guard resolution,
    /// if this step makes one, and the next action.
    pub fn step(&mut self, ev: DispatchEvent) -> (r: (Option<GuardAction>, DispatchAction))
        requires
            dispatch_expects(old(self)@.phase, ev),
        ensures
            (final(self)@, r.0, r.1) == dispatch_step(old(self)@, ev),
    {
        match ev {
            DispatchEvent::Ready => {
                self.phase = DispatchPhase::Opening;
                (None, DispatchAction::OpenStream(self.eof))
            },
            DispatchEvent::ReadyFailed(f) => {
                self.phase = DispatchPhase::Failed;
                self.guard = GuardState::Closed;
                let err = if f.is_io {
                    SendRequestError::Io
                } else {
                    SendRequestError::ConnectionNotReady
                };
                (Some(GuardAction::Close), DispatchAction::Fail(err))
            },
            DispatchEvent::Opened => {
                self.guard = GuardState::Released;
                if self.eof {
                    self.phase = DispatchPhase::AwaitingResponse;
                    (Some(GuardAction::Release), DispatchAction::AwaitResponse)
                } else {
                    self.phase = DispatchPhase::SendingBody;
                    (Some(GuardAction::Release), DispatchAction::SendBody)
                }
            },
            DispatchEvent::OpenFailed(f) => {
                self.phase = DispatchPhase::Failed;
                self.guard = GuardState::Closed;
                let err = if f.is_io {
                    SendRequestError::Io
                } else {
                    SendRequestError::DispatchFailure
                };
                (Some(GuardAction::Close), DispatchAction::Fail(err))
            },
            DispatchEvent::BodySent => {
                self.phase = DispatchPhase::AwaitingResponse;
                (None, DispatchAction::AwaitResponse)
            },
            DispatchEvent::BodyFailed(err) => {
                self.phase = DispatchPhase::Failed;
                (None, DispatchAction::Fail(err))
            },
            DispatchEvent::Responded => {
                self.phase = DispatchPhase::Done;
                (None, DispatchAction::Complete)
            },
            DispatchEvent::ResponseFailed(f) => {
                self.phase = DispatchPhase::Failed;
                (None, DispatchAction::Fail(engine_failure_error(f)))
            },
        }
    }
}

/// The state and the guard resolutions and actions after the events `evs`.
pub open spec fn dispatch_run(s: DispatchView, evs: Seq<DispatchEvent>) -> (
    DispatchView,
    Seq<Option<GuardAction>>,
    Seq<DispatchAction>,
)
    decreases evs.len(),
{
    if evs.len() == 0 {
        (s, seq![], seq![])
    } else {
        let (m, gs, acts) = dispatch_run(s, evs.drop_last());
        let (f, g, a) = dispatch_step(m, evs.last());
        (f, gs.push(g), acts.push(a))
    }
}

/// Each event answers the action pending when it comes.
pub open spec fn dispatch_expects_all(s: DispatchView, evs: Seq<DispatchEvent>) -> bool
    decreases evs.len(),
{
    if evs.len() == 0 {
        true
    } else {
        dispatch_expects_all(s, evs.drop_last()) && dispatch_expects(
            dispatch_run(s, evs.drop_last()).0.phase,
            evs.last(),
        )
    }
}

/// How many times `gs` resolves the guard, by release or by close.
pub open spec fn resolutions(gs: Seq<Option<GuardAction>>) -> nat
    decreases gs.len(),
{
    if gs.len() == 0 {
        0
    } else {
        resolutions(gs.drop_last()) + if gs.last() is Some {
            1nat
        } else {
            0nat
        }
    }
}

/// On every path of a dispatch attempt the guard is resolved at most once,
/// and exactly once as soon as the stream is open or any step has failed:
/// an attempt that has ended, well or not, has released or closed it once.
/// A failure before the stream is open closes it; opening the stream
/// releases it at once.
pub proof fn lemma_guard_resolved_once(eof: bool, evs: Seq<DispatchEvent>)
    requires
        dispatch_expects_all(initial_dispatch(eof), evs),
    ensures
        ({
            let (f, gs, acts) = dispatch_run(initial_dispatch(eof), evs);
            &&& resolutions(gs) == if f.guard == GuardState::Held {
                0nat
            } else {
                1nat
            }
            &&& gs.len() == evs.len() && acts.len() == evs.len()
            &&& (f.phase is Done || f.phase is Failed) ==> resolutions(gs) == 1
            &&& (f.phase is AwaitingReady || f.phase is Opening) <==> f.guard == GuardState::Held
            &&& forall|i: int|
                0 <= i < evs.len() ==> ((#[trigger] gs[i]) == Some(GuardAction::Release) <==> evs[i]
                    is Opened)
            &&& forall|i: int|
                0 <= i < evs.len() ==> (gs[i] == Some(GuardAction::Close) <==> (#[trigger] evs[i]
                    is ReadyFailed || evs[i] is OpenFailed))
        }),
    decreases evs.len(),
{
    if evs.len() > 0 {
        let pre = evs.drop_last();
        lemma_guard_resolved_once(eof, pre);
        let (m, g0, a0) = dispatch_run(initial_dispatch(eof), pre);
        let (f, g, a) = dispatch_step(m, evs.last());
        let gs = g0.push(g);
        assert(gs.drop_last() =~= g0);
        assert(dispatch_run(initial_dispatch(eof), evs) == (f, gs, a0.push(a)));
        assert forall|i: int| 0 <= i < evs.len() implies ((#[trigger] gs[i]) == Some(
            GuardAction::Release,
        ) <==> evs[i] is Opened) by {
            if i < pre.len() {
                assert(gs[i] == g0[i]);
                assert(evs[i] == pre[i]);
            }
        }
        assert forall|i: int| 0 <= i < evs.len() implies (gs[i] == Some(GuardAction::Close) <==> (
        #[trigger] evs[i] is ReadyFailed || evs[i] is OpenFailed)) by {
            if i < pre.len() {
                assert(gs[i] == g0[i]);
                assert(evs[i] == pre[i]);
            }
        }
    }
}

/// The body of a response, as handed to the caller.
pub enum Payload<B> {
    Empty,
    Stream(B),
}

/// The response to a `HEAD` request carries no body, whatever frames the
/// peer sends; any other response hands on the stream's body.
pub fn response_payload<B>(head_req: bool, body: B) -> (p: Payload<B>)
    ensures
        head_req ==> p is Empty,
        !head_req ==> p == Payload::Stream(body),
{
    if head_req {
        Payload::Empty
    } else {
        Payload::Stream(body)
    }
}

/// The request's method is `HEAD`.
pub fn is_head_method(method: &String) -> (r: bool)
    ensures
        r == (method@ == "HEAD"@),
{
    let head = "HEAD".to_owned();
    *method == head
}

} // verus!
