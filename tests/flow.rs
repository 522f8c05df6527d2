use bytes::Bytes;
use h2dispatch::error::{EngineFailure, SendRequestError};
use h2dispatch::sender::{BodySender, SendAction, SendEvent, SendPhase};

fn chunk(n: usize) -> Bytes {
    Bytes::from((0..n).map(|i| i as u8).collect::<Vec<u8>>())
}

fn frame_len(a: &SendAction) -> usize {
    match a {
        SendAction::SendData(b) => b.len(),
        _ => panic!("expected a data frame"),
    }
}

#[test]
fn chunks_split_by_grants() {
    let (mut s, a) = BodySender::new();
    assert!(matches!(a, SendAction::PullChunk));
    let mut frames = Vec::new();
    let mut data = Vec::new();
    assert!(matches!(s.step(SendEvent::Chunk(chunk(10))), SendAction::AwaitCapacity(10)));
    let a = s.step(SendEvent::Granted(4));
    frames.push(frame_len(&a));
    if let SendAction::SendData(b) = &a {
        data.extend_from_slice(b);
    }
    assert!(matches!(s.step(SendEvent::Sent), SendAction::AwaitCapacity(6)));
    let a = s.step(SendEvent::Granted(6));
    frames.push(frame_len(&a));
    if let SendAction::SendData(b) = &a {
        data.extend_from_slice(b);
    }
    assert!(matches!(s.step(SendEvent::Sent), SendAction::PullChunk));
    assert!(matches!(s.step(SendEvent::Chunk(chunk(5))), SendAction::AwaitCapacity(5)));
    let a = s.step(SendEvent::Granted(5));
    frames.push(frame_len(&a));
    assert!(matches!(s.step(SendEvent::Sent), SendAction::PullChunk));
    assert!(matches!(s.step(SendEvent::BodyEnd), SendAction::SendEnd));
    assert!(matches!(s.step(SendEvent::Sent), SendAction::Finish(true)));
    assert_eq!(frames, vec![4, 6, 5]);
    assert_eq!(data, (0..10u8).collect::<Vec<u8>>());
    assert_eq!(s.phase(), SendPhase::Done);
}

#[test]
fn frame_never_exceeds_grant() {
    let (mut s, _) = BodySender::new();
    s.step(SendEvent::Chunk(chunk(10)));
    assert_eq!(frame_len(&s.step(SendEvent::Granted(3))), 3);
    assert!(matches!(s.step(SendEvent::Sent), SendAction::AwaitCapacity(7)));
    assert_eq!(frame_len(&s.step(SendEvent::Granted(100))), 7);
    assert!(matches!(s.step(SendEvent::Sent), SendAction::PullChunk));
}

#[test]
fn producer_failure_aborts_after_first_chunk() {
    let (mut s, _) = BodySender::new();
    s.step(SendEvent::Chunk(chunk(8)));
    assert_eq!(frame_len(&s.step(SendEvent::Granted(8))), 8);
    assert!(matches!(s.step(SendEvent::Sent), SendAction::PullChunk));
    assert!(matches!(s.step(SendEvent::ChunkFailed), SendAction::Abort(SendRequestError::BodyProducer)));
    assert_eq!(s.phase(), SendPhase::Failed);
}

#[test]
fn empty_body_sends_one_end_frame() {
    let (mut s, _) = BodySender::new();
    assert!(matches!(s.step(SendEvent::BodyEnd), SendAction::SendEnd));
    assert!(matches!(s.step(SendEvent::Sent), SendAction::Finish(true)));
    assert_eq!(s.phase(), SendPhase::Done);
}

#[test]
fn closed_capacity_ends_silently() {
    let (mut s, _) = BodySender::new();
    s.step(SendEvent::Chunk(chunk(4)));
    assert!(matches!(s.step(SendEvent::CapacityClosed), SendAction::Finish(false)));
    assert_eq!(s.phase(), SendPhase::Done);
    let (mut s, _) = BodySender::new();
    s.step(SendEvent::Chunk(chunk(4)));
    assert!(matches!(s.step(SendEvent::Granted(0)), SendAction::Finish(false)));
}

#[test]
fn send_failures_surface() {
    let (mut s, _) = BodySender::new();
    s.step(SendEvent::Chunk(chunk(4)));
    s.step(SendEvent::Granted(2));
    let a = s.step(SendEvent::SendFailed(EngineFailure { is_io: true }));
    assert!(matches!(a, SendAction::Abort(SendRequestError::Io)));
    let (mut s, _) = BodySender::new();
    s.step(SendEvent::Chunk(chunk(4)));
    let a = s.step(SendEvent::CapacityFailed(EngineFailure { is_io: false }));
    assert!(matches!(a, SendAction::Abort(SendRequestError::Protocol)));
    let (mut s, _) = BodySender::new();
    s.step(SendEvent::BodyEnd);
    let a = s.step(SendEvent::SendFailed(EngineFailure { is_io: false }));
    assert!(matches!(a, SendAction::Abort(SendRequestError::Protocol)));
}
