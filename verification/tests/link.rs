use oss_lma::audio::StereoChunk;
use oss_lma::link::{
    check_sampling_rate, endpoint_url, ErrorCode, FrameAssembler, LinkCommand, LinkError,
    LinkEvent, LinkState, Session,
};
use oss_lma::reconnect::ReconnectBuffer;

fn chunk(frames: usize) -> StereoChunk {
    StereoChunk {
        pcm: vec![frames as u8; frames * 4],
        frames,
    }
}

fn session(call_id: &str, rate: usize) -> Session {
    Session {
        call_id: call_id.to_owned(),
        port: 43123,
        token: "token".to_owned(),
        rate,
        diarization: false,
    }
}

#[test]
fn reframes_partial_and_oversized_pcm_into_exact_hundred_millisecond_chunks() {
    let mut framer = FrameAssembler::new(100);
    let first = framer.push(StereoChunk {
        pcm: vec![1; 24],
        frames: 6,
    });
    let second = framer.push(StereoChunk {
        pcm: vec![2; 56],
        frames: 14,
    });

    assert!(first.is_empty());
    assert_eq!(second.len(), 2);
    assert!(second
        .iter()
        .all(|chunk| chunk.pcm.len() == 40 && chunk.frames == 10));
    assert_eq!(
        second[0].pcm,
        [1; 24].into_iter().chain([2; 16]).collect::<Vec<_>>()
    );
}

#[test]
fn drops_oldest_chunks_after_three_seconds_of_stereo_audio() {
    let mut buffer = ReconnectBuffer::new(10);
    buffer.push(chunk(10));
    buffer.push(chunk(20));
    buffer.push(chunk(10));
    let drained = buffer.drain();
    assert_eq!(
        drained.iter().map(|chunk| chunk.frames).collect::<Vec<_>>(),
        [20, 10]
    );
    assert_eq!(buffer.dropped_frames(), 10);
}

#[test]
fn link_commands_and_events_are_exposed() {
    let _ = LinkCommand::Pause;
    let _ = LinkCommand::End;
    let _ = LinkEvent::Connected;
    let _ = LinkEvent::Disconnected;
    let _ = LinkEvent::Error {
        call_id: String::new(),
        code: ErrorCode::LinkDisconnected,
        context: "null".to_owned(),
    };
}

#[test]
fn rejects_sampling_rates_below_the_wire_contract_minimum() {
    for rate in [0, 7_999] {
        assert_eq!(
            check_sampling_rate(rate),
            Err(LinkError::InvalidSamplingRate(rate))
        );
    }
    assert_eq!(check_sampling_rate(8_000), Ok(()));
    assert_eq!(
        LinkError::InvalidSamplingRate(7_999).message(),
        "sampling rate must be at least 8000 Hz, got 7999"
    );
    assert_eq!(LinkError::Unavailable.message(), "link client is unavailable");
}

#[test]
fn a_chunk_that_is_larger_than_the_buffer_is_dropped_with_everything_held() {
    let mut buffer = ReconnectBuffer::new(1);
    buffer.push(chunk(2));
    buffer.push(chunk(4));
    assert!(buffer.drain().is_empty());
    assert_eq!(buffer.dropped_frames(), 6);
}

#[test]
fn error_codes_use_their_catalog_names() {
    assert_eq!(ErrorCode::SttProviderAuth.as_str(), "STT_PROVIDER_AUTH");
    assert_eq!(ErrorCode::PortBindFailed.as_str(), "PORT_BIND_FAILED");
    assert_eq!(ErrorCode::all().len(), 12);
    assert_eq!(ErrorCode::all()[2], ErrorCode::LinkDisconnected);
}

#[test]
fn the_endpoint_carries_the_port_and_the_percent_encoded_token() {
    assert_eq!(
        endpoint_url(43123, "test token/é"),
        "ws://127.0.0.1:43123/ws?token=test%20token%2F%C3%A9"
    );
    assert_eq!(endpoint_url(1, "abc-._~"), "ws://127.0.0.1:1/ws?token=abc-._~");
}

#[test]
fn the_retry_delay_doubles_up_to_ten_seconds_and_resets_on_connect() {
    let mut link = LinkState::new();
    assert_eq!(link.retry_delay_ms(), 500);
    let mut seen = Vec::new();
    for _ in 0..7 {
        link.back_off();
        seen.push(link.retry_delay_ms());
    }
    assert_eq!(seen, [1_000, 2_000, 4_000, 8_000, 10_000, 10_000, 10_000]);
    link.reset_backoff();
    assert_eq!(link.retry_delay_ms(), 500);
}

#[test]
fn a_repeated_start_keeps_the_session_and_a_new_one_replaces_it() {
    let mut link = LinkState::new();
    assert!(link.session().is_none());
    assert!(link.start(session("a", 8_000)));
    assert!(!link.start(session("a", 8_000)));
    assert!(link.start(session("b", 8_000)));
    assert_eq!(link.session().unwrap().call_id, "b");
    link.end();
    assert!(link.session().is_none());
}

#[test]
fn buffered_frames_are_flushed_oldest_first() {
    let mut link = LinkState::new();
    link.start(session("a", 8_000));
    assert!(link.next_buffered().is_none());
    let frames = link.frames(StereoChunk {
        pcm: vec![7; 3_200],
        frames: 800,
    });
    assert_eq!(frames.len(), 1);
    for frame in frames {
        assert!(!link.keep(frame));
    }
    assert_eq!(
        link.keep_chunk(StereoChunk {
            pcm: vec![9; 3_200],
            frames: 800,
        }),
        0
    );
    assert_eq!(link.next_buffered().unwrap().pcm[0], 7);
    link.sent_buffered();
    assert_eq!(link.next_buffered().unwrap().pcm[0], 9);
    link.sent_buffered();
    assert!(link.next_buffered().is_none());
}
