use oss_lma::settings::{ProviderKind, ProviderSettings};
use oss_lma::sidecar::{
    frame_runtime_config, parse_readiness, runtime_config, EndpointPlan, RespawnBudget,
    RuntimeConfig, SecretString, SidecarEndpoint, SupervisorError, SupervisorState,
};

fn config(secret: &str) -> RuntimeConfig {
    RuntimeConfig {
        provider: ProviderKind::Deepgram,
        model: "nova-3".to_owned(),
        language: Some("en".to_owned()),
        azure_region: None,
        api_key: SecretString::new(secret.to_owned()),
    }
}

fn ready() -> SidecarEndpoint {
    parse_readiness("SIDECAR_READY port=43123 token=abc123\n").unwrap()
}

#[test]
fn parses_exactly_one_ready_line_and_rejects_malformed_output() {
    let endpoint = parse_readiness("SIDECAR_READY port=43123 token=abc123\n").unwrap();
    assert_eq!(endpoint.port(), 43123);
    assert_eq!(endpoint.token().expose(), "abc123");

    assert!(parse_readiness("ready port=43123 token=abc123\n").is_none());
}

#[test]
fn readiness_needs_a_port_a_hex_token_and_nothing_more() {
    assert!(parse_readiness("SIDECAR_READY port=65536 token=abc").is_none());
    assert!(parse_readiness("SIDECAR_READY port= token=abc").is_none());
    assert!(parse_readiness("SIDECAR_READY port=1 token=").is_none());
    assert!(parse_readiness("SIDECAR_READY port=1 token=xyz").is_none());
    assert!(parse_readiness("SIDECAR_READY port=1 token=ab extra").is_none());
    let endpoint = parse_readiness("  SIDECAR_READY\tport=+80   token=DEADbeef \r\n").unwrap();
    assert_eq!(endpoint.port(), 80);
    assert_eq!(endpoint.token().expose(), "DEADbeef");
}

#[test]
fn endpoint_respawns_after_the_child_exits() {
    let mut state = SupervisorState::new();
    state
        .finish_spawn(0, config("provider-secret"), Ok(ready()))
        .unwrap();
    state.child_exited();
    let endpoint = match state.endpoint_plan() {
        EndpointPlan::Respawn(config) => state.finish_respawn(10, config, Ok(ready())),
        _ => panic!("a configured supervisor respawns"),
    }
    .expect("sidecar is respawned");
    assert_eq!(endpoint.port(), 43123);
}

#[test]
fn endpoint_caps_respawn_attempts_after_repeated_failures() {
    let mut state = SupervisorState::new();
    state
        .finish_spawn(0, config("provider-secret"), Ok(ready()))
        .unwrap();
    for attempt in 1..=5u64 {
        state.child_exited();
        match state.endpoint_plan() {
            EndpointPlan::Respawn(config) => {
                assert!(
                    state.finish_respawn(attempt * 20, config, Ok(ready())).is_some(),
                    "first five attempts succeed"
                );
            }
            _ => panic!("first five attempts respawn"),
        }
    }
    state.child_exited();
    assert!(
        matches!(state.endpoint_plan(), EndpointPlan::Unavailable),
        "sixth attempt within the window is capped"
    );
}

#[test]
fn shutdown_resets_the_respawn_cap() {
    let mut state = SupervisorState::new();
    state
        .finish_spawn(0, config("provider-secret"), Ok(ready()))
        .unwrap();
    for attempt in 1..=5u64 {
        state.child_exited();
        if let EndpointPlan::Respawn(config) = state.endpoint_plan() {
            state.finish_respawn(attempt * 20, config, Ok(ready()));
        }
    }
    state.child_exited();
    assert!(matches!(state.endpoint_plan(), EndpointPlan::Unavailable));

    state.shutdown();

    assert_eq!(state.spawn_delay(200), 0);
    let endpoint = state
        .finish_spawn(200, config("fresh-secret"), Ok(ready()))
        .unwrap();
    assert_eq!(endpoint.port(), 43123);
}

#[test]
fn spawn_rejects_when_cap_reached() {
    let mut state = SupervisorState::new();
    for attempt in 0..5u64 {
        let result = state.finish_spawn(
            attempt * 200,
            config("provider-secret"),
            Err(SupervisorError::InvalidReadiness),
        );
        assert!(matches!(result, Err(SupervisorError::InvalidReadiness)));
    }
    let result = state.finish_spawn(
        1_000,
        config("provider-secret"),
        Err(SupervisorError::InvalidReadiness),
    );
    assert!(matches!(result, Err(SupervisorError::RespawnLimitExceeded)));
}

#[test]
fn a_new_window_forgets_earlier_failures() {
    let mut state = SupervisorState::new();
    for attempt in 0..6u64 {
        let _ = state.finish_spawn(attempt, config("s"), Err(SupervisorError::StartupTimeout));
    }
    let result = state.finish_spawn(
        60_006,
        config("s"),
        Err(SupervisorError::StartupTimeout),
    );
    assert!(matches!(result, Err(SupervisorError::StartupTimeout)));
}

#[test]
fn spawns_wait_out_the_backoff() {
    let mut budget = RespawnBudget::new();
    assert_eq!(budget.delay_before_spawn(5), 0);
    budget.record_attempt(1_000);
    assert_eq!(budget.delay_before_spawn(1_050), 150);
    assert_eq!(budget.delay_before_spawn(1_200), 0);
    assert!(!budget.exhausted());
}

#[test]
fn an_unconfigured_supervisor_has_nothing_to_respawn() {
    let state = SupervisorState::new();
    assert!(matches!(state.endpoint_plan(), EndpointPlan::Unavailable));
}

#[test]
fn supervisor_errors_read_as_their_messages() {
    assert_eq!(
        SupervisorError::Spawn("No such file or directory".to_owned()).message(),
        "sidecar could not start: No such file or directory"
    );
    assert_eq!(
        SupervisorError::RespawnLimitExceeded.message(),
        "sidecar respawn limit exceeded; manual restart required"
    );
    assert_eq!(
        SupervisorError::StartupTimeout.message(),
        "sidecar did not become ready before startup timed out"
    );
    assert_eq!(
        SupervisorError::Config("broken pipe".to_owned()).message(),
        "sidecar configuration could not be sent: broken pipe"
    );
    assert_eq!(
        SupervisorError::Shutdown("no such process".to_owned()).message(),
        "sidecar could not stop: no such process"
    );
    assert_eq!(
        SupervisorError::InvalidReadiness.message(),
        "sidecar emitted invalid readiness output"
    );
}

#[test]
fn the_configuration_is_framed_with_its_big_endian_length() {
    let framed = frame_runtime_config(&b"{\"a\":1}".to_vec()).unwrap();
    assert_eq!(framed[..4], [0, 0, 0, 7]);
    assert_eq!(&framed[4..], b"{\"a\":1}");
    let long = vec![b'x'; 0x0102_03];
    let framed = frame_runtime_config(&long).unwrap();
    assert_eq!(framed[..4], [0, 1, 2, 3]);
    assert_eq!(framed.len(), 4 + long.len());
}

#[test]
fn runtime_config_carries_the_settings_and_the_secret() {
    let settings = ProviderSettings {
        provider: ProviderKind::Azure,
        model: "standard".to_owned(),
        language: Some("de".to_owned()),
        azure_region: Some("westeurope".to_owned()),
        diarize_system: true,
        diarize_mic: true,
    };
    let config = runtime_config(settings, "azure-key".to_owned());
    assert_eq!(config.provider, ProviderKind::Azure);
    assert_eq!(config.model, "standard");
    assert_eq!(config.language.as_deref(), Some("de"));
    assert_eq!(config.azure_region.as_deref(), Some("westeurope"));
    assert_eq!(config.api_key.expose(), "azure-key");
}

#[test]
fn shutdown_forgets_the_endpoint_and_the_configuration() {
    let mut state = SupervisorState::new();
    state
        .finish_spawn(0, config("provider-secret"), Ok(ready()))
        .unwrap();
    assert!(matches!(state.endpoint_plan(), EndpointPlan::Current(_)));
    state.shutdown();
    assert!(matches!(state.endpoint_plan(), EndpointPlan::Unavailable));
}
