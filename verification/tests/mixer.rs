use oss_lma::audio::StereoChunk;
use oss_lma::mixer::{Mixer, SourceChannel, MAX_BUFFERED_FRAMES, TICK_FRAMES};

/// The 16-bit sample the capture layer makes of a float sample.
fn sample(value: f32) -> i16 {
    if value >= 1.0 {
        i16::MAX
    } else if value <= -1.0 {
        i16::MIN
    } else {
        (value * 32_768.0) as i16
    }
}

fn frames(value: f32, count: usize) -> Vec<i16> {
    vec![sample(value); count]
}

fn samples(chunk: &StereoChunk) -> Vec<i16> {
    chunk
        .pcm
        .chunks_exact(2)
        .map(|sample| i16::from_le_bytes([sample[0], sample[1]]))
        .collect()
}

#[test]
fn drains_only_paired_ticks_and_carries_the_remainder() {
    let mut mixer = Mixer::new();

    assert!(mixer
        .push(SourceChannel::System, &frames(0.25, TICK_FRAMES + 1))
        .is_empty());
    let chunks = mixer.push(SourceChannel::Microphone, &frames(-0.25, TICK_FRAMES));

    assert_eq!(chunks.len(), 1);
    assert_eq!(chunks[0].frames, TICK_FRAMES);
    assert_eq!(chunks[0].pcm.len(), 19_200);
    assert_eq!(samples(&chunks[0])[0..4], [8192, -8192, 8192, -8192]);

    assert!(mixer.push(SourceChannel::Microphone, &frames(0.0, 1)).is_empty());
}

#[test]
fn mute_emits_silence_while_consuming_the_muted_source() {
    let mut mixer = Mixer::new();
    mixer.set_muted(SourceChannel::System, true);
    mixer.push(SourceChannel::System, &frames(0.75, TICK_FRAMES));

    let muted = mixer.push(SourceChannel::Microphone, &frames(0.5, TICK_FRAMES));
    assert_eq!(samples(&muted[0])[0..4], [0, 16_384, 0, 16_384]);

    mixer.set_muted(SourceChannel::System, false);
    mixer.push(SourceChannel::System, &frames(0.25, TICK_FRAMES));
    let unmuted = mixer.push(SourceChannel::Microphone, &frames(0.0, TICK_FRAMES));
    assert_eq!(samples(&unmuted[0])[0..2], [8192, 0]);
}

#[test]
fn pause_discards_audio_and_resume_starts_on_a_fresh_aligned_tick() {
    let mut mixer = Mixer::new();
    mixer.pause();
    assert!(mixer
        .push(SourceChannel::System, &frames(1.0, TICK_FRAMES))
        .is_empty());
    assert!(mixer
        .push(SourceChannel::Microphone, &frames(1.0, TICK_FRAMES))
        .is_empty());

    mixer.resume();
    assert!(mixer
        .push(SourceChannel::System, &frames(0.5, TICK_FRAMES))
        .is_empty());
    let chunks = mixer.push(SourceChannel::Microphone, &frames(-0.5, TICK_FRAMES));
    assert_eq!(chunks.len(), 1);
    assert_eq!(samples(&chunks[0])[0..2], [16_384, -16_384]);
}

#[test]
fn stalled_peer_keeps_only_the_latest_three_seconds_for_alignment() {
    let mut mixer = Mixer::new();
    let mut system = frames(0.25, 48_000);
    system.extend(frames(0.5, 144_000));

    assert!(mixer.push(SourceChannel::System, &system).is_empty());
    let chunks = mixer.push(SourceChannel::Microphone, &frames(0.0, 144_000));

    assert_eq!(chunks.len(), 30);
    assert_eq!(samples(&chunks[0])[0..2], [16_384, 0]);
}

#[test]
fn extreme_samples_survive_the_encoding() {
    let mut mixer = Mixer::default();
    mixer.push(SourceChannel::System, &vec![i16::MAX; TICK_FRAMES]);
    let chunks = mixer.push(SourceChannel::Microphone, &vec![i16::MIN; TICK_FRAMES]);
    assert_eq!(samples(&chunks[0])[0..4], [32_767, -32_768, 32_767, -32_768]);
    assert_eq!(MAX_BUFFERED_FRAMES, 144_000);
}

#[test]
fn a_burst_drains_every_whole_tick_at_once() {
    let mut mixer = Mixer::new();
    mixer.push(SourceChannel::Microphone, &frames(0.0, 3 * TICK_FRAMES + 10));
    let chunks = mixer.push(SourceChannel::System, &frames(0.0, 2 * TICK_FRAMES + 5));
    assert_eq!(chunks.len(), 2);
    assert!(chunks.iter().all(|c| c.frames == TICK_FRAMES && c.pcm.len() == 19_200));
    let more = mixer.push(SourceChannel::System, &frames(0.0, TICK_FRAMES));
    assert_eq!(more.len(), 1);
}
