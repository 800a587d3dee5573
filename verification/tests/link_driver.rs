use oss_lma::audio::StereoChunk;
use oss_lma::link::Session;
use oss_lma::link_driver::{LinkAction, LinkDriver, LinkInput, LinkPhase};
use oss_lma::protocol::ControlMessage;

fn session(call_id: &str) -> Session {
    Session {
        call_id: call_id.to_owned(),
        port: 43123,
        token: "token".to_owned(),
        rate: 8000,
        diarization: true,
    }
}

fn chunk(frames: usize) -> StereoChunk {
    StereoChunk {
        pcm: vec![1; frames * 4],
        frames,
    }
}

#[test]
fn driver_connects_announces_and_backs_off_after_a_loss() {
    let mut driver = LinkDriver::new();
    assert_eq!(driver.phase(), LinkPhase::Idle);
    match driver.step(LinkInput::Start(session("call-1"))) {
        LinkAction::Connect { port, token, start } => {
            assert_eq!(port, 43123);
            assert_eq!(token, "token");
            assert_eq!(start, ControlMessage::start("call-1".to_owned(), 8000, true));
        }
        _ => panic!("a new session connects"),
    }
    assert_eq!(driver.phase(), LinkPhase::Connecting);
    assert!(matches!(driver.step(LinkInput::Opened), LinkAction::GoOnline));
    assert_eq!(driver.phase(), LinkPhase::Online);
    assert!(matches!(
        driver.step(LinkInput::Lost),
        LinkAction::Disconnect { dropped: 0, delay_ms: 500 }
    ));
    assert_eq!(driver.phase(), LinkPhase::Waiting);
    assert!(matches!(driver.step(LinkInput::RetryDue), LinkAction::Connect { .. }));
    assert!(matches!(driver.step(LinkInput::OpenFailed), LinkAction::Wait(1000)));
    assert!(matches!(driver.step(LinkInput::RetryDue), LinkAction::Connect { .. }));
    assert!(matches!(driver.step(LinkInput::Opened), LinkAction::GoOnline));
    assert!(matches!(
        driver.step(LinkInput::Lost),
        LinkAction::Disconnect { dropped: 0, delay_ms: 500 }
    ));
}

#[test]
fn driver_sends_online_keeps_offline_and_ends_with_the_meeting() {
    let mut driver = LinkDriver::new();
    driver.step(LinkInput::Start(session("call-2")));
    driver.step(LinkInput::Opened);
    match driver.step(LinkInput::Chunk(chunk(1200))) {
        LinkAction::Send(frames) => {
            assert_eq!(frames.len(), 1);
            assert_eq!(frames[0].frames, 800);
        }
        _ => panic!("audio goes out while online"),
    }
    assert!(matches!(
        driver.step(LinkInput::Pause),
        LinkAction::Control(ControlMessage::Pause { ref call_id }) if call_id == "call-2"
    ));
    assert!(matches!(
        driver.step(LinkInput::Unsent(vec![chunk(800)])),
        LinkAction::Disconnect { dropped: 0, delay_ms: 500 }
    ));
    assert!(matches!(driver.step(LinkInput::Chunk(chunk(400))), LinkAction::Dropped(0)));
    assert!(matches!(driver.step(LinkInput::RetryDue), LinkAction::Connect { .. }));
    driver.step(LinkInput::Opened);
    assert_eq!(driver.next_buffered().map(|c| c.frames), Some(800));
    driver.sent_buffered();
    assert_eq!(driver.next_buffered().map(|c| c.frames), Some(800));
    driver.sent_buffered();
    assert!(driver.next_buffered().is_none());
    assert!(matches!(
        driver.step(LinkInput::End),
        LinkAction::Finish(ControlMessage::End { ref call_id }) if call_id == "call-2"
    ));
    assert_eq!(driver.phase(), LinkPhase::Idle);
    assert!(matches!(driver.step(LinkInput::ClientGone), LinkAction::Stop));
}

#[test]
fn driver_replaces_a_session_by_reconnecting_and_joins_the_same_one() {
    let mut driver = LinkDriver::new();
    driver.step(LinkInput::Start(session("call-3")));
    driver.step(LinkInput::Opened);
    assert!(matches!(driver.step(LinkInput::Start(session("call-3"))), LinkAction::Nothing));
    assert_eq!(driver.phase(), LinkPhase::Online);
    assert!(matches!(
        driver.step(LinkInput::Start(session("call-4"))),
        LinkAction::Disconnect { dropped: 0, delay_ms: 500 }
    ));
    match driver.step(LinkInput::RetryDue) {
        LinkAction::Connect { start, .. } => {
            assert_eq!(start, ControlMessage::start("call-4".to_owned(), 8000, true));
        }
        _ => panic!("the new session connects"),
    }
}

#[test]
fn driver_ends_a_wait_at_once_when_the_user_is_gone() {
    let mut driver = LinkDriver::new();
    driver.step(LinkInput::Start(session("call-5")));
    driver.step(LinkInput::Opened);
    driver.step(LinkInput::Lost);
    assert_eq!(driver.phase(), LinkPhase::Waiting);
    assert!(matches!(driver.step(LinkInput::ClientGone), LinkAction::Connect { .. }));
    assert_eq!(driver.phase(), LinkPhase::Connecting);
    assert!(matches!(driver.step(LinkInput::OpenFailed), LinkAction::Wait(1000)));
    assert!(matches!(driver.step(LinkInput::End), LinkAction::Nothing));
    assert!(matches!(driver.step(LinkInput::ClientGone), LinkAction::Nothing));
    assert_eq!(driver.phase(), LinkPhase::Idle);
    assert!(matches!(driver.step(LinkInput::ClientGone), LinkAction::Stop));
}
