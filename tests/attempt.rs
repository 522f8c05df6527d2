use h2dispatch::config::{handshake_settings, ConnectorConfig};
use h2dispatch::dispatch::{
    is_head_method, response_payload, Dispatch, DispatchAction, DispatchEvent, DispatchPhase,
    GuardAction, GuardState, Payload,
};
use h2dispatch::error::{EngineFailure, SendRequestError};

const IO: EngineFailure = EngineFailure { is_io: true };
const ENGINE: EngineFailure = EngineFailure { is_io: false };

#[test]
fn healthy_get_releases_on_open() {
    let (mut d, a) = Dispatch::new(true);
    assert_eq!(a, DispatchAction::AwaitReady);
    assert_eq!(d.guard(), GuardState::Held);
    assert_eq!(d.step(DispatchEvent::Ready), (None, DispatchAction::OpenStream(true)));
    assert_eq!(d.guard(), GuardState::Held);
    assert_eq!(
        d.step(DispatchEvent::Opened),
        (Some(GuardAction::Release), DispatchAction::AwaitResponse)
    );
    assert_eq!(d.guard(), GuardState::Released);
    assert_eq!(d.step(DispatchEvent::Responded), (None, DispatchAction::Complete));
    assert_eq!(d.phase(), DispatchPhase::Done);
}

#[test]
fn head_response_payload_is_empty() {
    assert!(is_head_method(&"HEAD".to_string()));
    assert!(!is_head_method(&"GET".to_string()));
    assert!(!is_head_method(&"head".to_string()));
    let body: Vec<u8> = b"peer sent bytes".to_vec();
    assert!(matches!(response_payload(true, body.clone()), Payload::Empty));
    match response_payload(false, body.clone()) {
        Payload::Stream(b) => assert_eq!(b, body),
        Payload::Empty => panic!("body lost"),
    }
}

#[test]
fn readiness_io_failure_closes() {
    let (mut d, _) = Dispatch::new(false);
    assert_eq!(
        d.step(DispatchEvent::ReadyFailed(IO)),
        (Some(GuardAction::Close), DispatchAction::Fail(SendRequestError::Io))
    );
    assert_eq!(d.guard(), GuardState::Closed);
    assert_eq!(d.phase(), DispatchPhase::Failed);
}

#[test]
fn readiness_engine_failure_closes() {
    let (mut d, _) = Dispatch::new(false);
    assert_eq!(
        d.step(DispatchEvent::ReadyFailed(ENGINE)),
        (Some(GuardAction::Close), DispatchAction::Fail(SendRequestError::ConnectionNotReady))
    );
}

#[test]
fn open_failures_close() {
    let (mut d, _) = Dispatch::new(false);
    d.step(DispatchEvent::Ready);
    assert_eq!(
        d.step(DispatchEvent::OpenFailed(ENGINE)),
        (Some(GuardAction::Close), DispatchAction::Fail(SendRequestError::DispatchFailure))
    );
    let (mut d, _) = Dispatch::new(true);
    d.step(DispatchEvent::Ready);
    assert_eq!(
        d.step(DispatchEvent::OpenFailed(IO)),
        (Some(GuardAction::Close), DispatchAction::Fail(SendRequestError::Io))
    );
}

#[test]
fn body_failure_after_release() {
    let (mut d, _) = Dispatch::new(false);
    d.step(DispatchEvent::Ready);
    assert_eq!(d.step(DispatchEvent::Opened), (Some(GuardAction::Release), DispatchAction::SendBody));
    assert_eq!(
        d.step(DispatchEvent::BodyFailed(SendRequestError::BodyProducer)),
        (None, DispatchAction::Fail(SendRequestError::BodyProducer))
    );
    assert_eq!(d.guard(), GuardState::Released);
}

#[test]
fn every_branch_resolves_guard_once() {
    let paths: Vec<Vec<DispatchEvent>> = vec![
        vec![DispatchEvent::ReadyFailed(IO)],
        vec![DispatchEvent::ReadyFailed(ENGINE)],
        vec![DispatchEvent::Ready, DispatchEvent::OpenFailed(IO)],
        vec![DispatchEvent::Ready, DispatchEvent::OpenFailed(ENGINE)],
        vec![DispatchEvent::Ready, DispatchEvent::Opened, DispatchEvent::BodyFailed(SendRequestError::Io)],
        vec![DispatchEvent::Ready, DispatchEvent::Opened, DispatchEvent::BodySent, DispatchEvent::Responded],
        vec![DispatchEvent::Ready, DispatchEvent::Opened, DispatchEvent::BodySent, DispatchEvent::ResponseFailed(ENGINE)],
    ];
    for path in paths {
        let (mut d, _) = Dispatch::new(false);
        let mut releases = 0;
        let mut closes = 0;
        let mut last = DispatchAction::AwaitReady;
        for ev in path {
            let (g, a) = d.step(ev);
            match g {
                Some(GuardAction::Release) => releases += 1,
                Some(GuardAction::Close) => closes += 1,
                None => {}
            }
            last = a;
        }
        assert_eq!(releases + closes, 1);
        assert!(matches!(last, DispatchAction::Fail(_) | DispatchAction::Complete));
    }
}

#[test]
fn response_failure_is_protocol_or_io() {
    let (mut d, _) = Dispatch::new(true);
    d.step(DispatchEvent::Ready);
    d.step(DispatchEvent::Opened);
    assert_eq!(
        d.step(DispatchEvent::ResponseFailed(ENGINE)),
        (None, DispatchAction::Fail(SendRequestError::Protocol))
    );
}

#[test]
fn handshake_disables_push() {
    let s = handshake_settings(&ConnectorConfig { stream_window_size: 65535, conn_window_size: 1048576 });
    assert_eq!(s.initial_window_size, 65535);
    assert_eq!(s.initial_connection_window_size, 1048576);
    assert!(!s.enable_push);
}
