# oss-lma

The core of a desktop meeting-capture app, verified with Verus. The app
records a meeting's system audio and microphone, mixes them into stereo
100 ms chunks, writes a WAV recording, and streams the chunks to a local
transcription sidecar over a websocket, buffering audio while the sidecar
is out of reach.

## Layout

- `src/` — the verified library. Every function carries a contract that
  Verus proves.
  - `capture_state.rs` — the meeting lifecycle (idle, preflight, starting,
    active, paused, stopping, failed) and its laws.
  - `capture.rs` — a meeting capture driving a platform backend: start,
    pause, resume, stop, device selection; every backend exchange is
    recorded in a ghost trace that the contracts speak of.
  - `mixer.rs` — pairing system and microphone samples into stereo ticks.
  - `audio.rs` — chunks, devices and permission states.
  - `reconnect.rs`, `link.rs`, `protocol.rs` — the sidecar link: the
    three-second reconnect buffer, reframing, backoff, session handling,
    the endpoint address and the control messages.
  - `link_driver.rs` — the link's connection loop as a step function from
    what happened to what to do next: when to connect, announce, send,
    keep audio, wait and reconnect.
  - `sidecar.rs` — the sidecar's readiness line, its configuration frame,
    and the respawn budget of its supervisor.
  - `settings.rs` — provider settings, their validation, and secret
    stores (in memory, or the OS keychain through `keyring`).
  - `meetings.rs` — the meeting history's values and limits.
  - `macos.rs`, `macos/` — device listing and selection, permission
    prompts, and the lifecycle of a source's capture stream.
  - `worker.rs` — the capture worker's decisions between platform calls.
- `tests/` — tests of the library on concrete values.
- `app/` — the shell around the library: SQLite storage, the WAV writer,
  the float audio front end, the sidecar process and its websocket task,
  serde forms of the library's values, and the macOS capture layer.
