use std::collections::HashMap;

use oss_lma::settings::{
    lookup_error, settings_from_storage, store_error, store_provider_secret, InMemorySecretStore,
    KeychainFailure, OsSecretStore, ProviderKind, ProviderPublicSettings, ProviderSettings,
    SecretStore, SettingsError,
};

#[derive(Default)]
struct DuplicateRejectingSecretStore {
    secrets: HashMap<ProviderKind, String>,
}

impl SecretStore for DuplicateRejectingSecretStore {
    fn set(&mut self, provider: ProviderKind, secret: &str) -> Result<(), SettingsError> {
        if self.secrets.contains_key(&provider) {
            return Err(SettingsError::SecretStore(
                "credential already exists".to_owned(),
            ));
        }
        self.secrets.insert(provider, secret.to_owned());
        Ok(())
    }

    fn get(&mut self, provider: ProviderKind) -> Result<String, SettingsError> {
        self.secrets
            .get(&provider)
            .cloned()
            .ok_or(SettingsError::MissingSecret(provider))
    }

    fn delete(&mut self, provider: ProviderKind) -> Result<(), SettingsError> {
        self.secrets
            .remove(&provider)
            .map(|_| ())
            .ok_or(SettingsError::MissingSecret(provider))
    }

    fn has(&mut self, provider: ProviderKind) -> bool {
        self.secrets.contains_key(&provider)
    }
}

fn deepgram_settings() -> ProviderSettings {
    ProviderSettings {
        provider: ProviderKind::Deepgram,
        model: "nova-3".to_owned(),
        language: Some("en".to_owned()),
        azure_region: None,
        diarize_system: true,
        diarize_mic: false,
    }
}

#[test]
fn provider_secret_is_available_only_through_secret_store() {
    let mut secrets = InMemorySecretStore::default();
    let provider = ProviderKind::Deepgram;

    assert!(!secrets.has(provider));
    secrets.set(provider, "test-secret").unwrap();
    assert!(secrets.has(provider));
    assert_eq!(secrets.get(provider).unwrap(), "test-secret");
    secrets.delete(provider).unwrap();
    assert!(!secrets.has(provider));
}

#[test]
fn replacing_an_existing_secret_works_when_the_store_rejects_duplicates() {
    let mut secrets = DuplicateRejectingSecretStore::default();
    let provider = ProviderKind::Deepgram;

    secrets.set(provider, "old-secret").unwrap();
    secrets.replace(provider, "new-secret").unwrap();

    assert_eq!(secrets.get(provider).unwrap(), "new-secret");
}

#[test]
fn invalid_provider_settings_are_rejected_before_start() {
    let empty_model = ProviderSettings {
        model: " ".to_owned(),
        ..deepgram_settings()
    };
    let missing_azure_region = ProviderSettings {
        provider: ProviderKind::Azure,
        model: "standard".to_owned(),
        ..deepgram_settings()
    };

    assert!(empty_model.validate().is_err());
    assert!(missing_azure_region.validate().is_err());
}

#[test]
fn load_rejects_invalid_stored_provider_settings() {
    let invalid_settings = ProviderSettings {
        model: " ".to_owned(),
        ..deepgram_settings()
    };

    assert!(matches!(
        settings_from_storage(Some(Ok(invalid_settings))),
        Err(SettingsError::InvalidSettings(_))
    ));
}

#[test]
fn validation_reports_a_blank_model_before_a_missing_region() {
    let blank = ProviderSettings {
        provider: ProviderKind::Azure,
        model: "\t\n".to_owned(),
        azure_region: None,
        ..deepgram_settings()
    };
    match blank.validate() {
        Err(SettingsError::InvalidSettings(message)) => {
            assert_eq!(message, "a provider model is required")
        }
        other => panic!("unexpected {other:?}"),
    }
    let blank_region = ProviderSettings {
        provider: ProviderKind::Azure,
        model: "standard".to_owned(),
        azure_region: Some("  ".to_owned()),
        ..deepgram_settings()
    };
    match blank_region.validate() {
        Err(SettingsError::InvalidSettings(message)) => {
            assert_eq!(message, "an Azure region is required for the Azure provider")
        }
        other => panic!("unexpected {other:?}"),
    }
    let azure = ProviderSettings {
        azure_region: Some("westeurope".to_owned()),
        ..blank_region
    };
    assert!(azure.validate().is_ok());
}

#[test]
fn stored_settings_load_as_defaults_errors_or_values() {
    let defaults = settings_from_storage(None).unwrap();
    assert_eq!(defaults, ProviderSettings::default());
    assert_eq!(defaults.model, "nova-3");
    assert_eq!(defaults.provider, ProviderKind::Deepgram);

    match settings_from_storage(Some(Err("unreadable".to_owned()))) {
        Err(SettingsError::Storage(message)) => assert_eq!(message, "unreadable"),
        other => panic!("unexpected {other:?}"),
    }

    assert_eq!(
        settings_from_storage(Some(Ok(deepgram_settings()))).unwrap(),
        deepgram_settings()
    );
}

#[test]
fn public_settings_copy_everything_but_the_secret() {
    let settings = deepgram_settings();
    let public = ProviderPublicSettings::from_settings(&settings, true);
    assert_eq!(public.provider, settings.provider);
    assert_eq!(public.model, settings.model);
    assert_eq!(public.language, settings.language);
    assert_eq!(public.azure_region, settings.azure_region);
    assert_eq!(public.diarize_system, settings.diarize_system);
    assert_eq!(public.diarize_mic, settings.diarize_mic);
    assert!(public.has_secret);
}

#[test]
fn secrets_are_kept_per_provider() {
    let mut secrets = InMemorySecretStore::new();
    secrets.set(ProviderKind::Azure, "azure-key").unwrap();
    secrets.set(ProviderKind::AssemblyAi, "assembly-key").unwrap();
    secrets.replace(ProviderKind::Azure, "azure-key-2").unwrap();
    assert_eq!(secrets.get(ProviderKind::Azure).unwrap(), "azure-key-2");
    assert_eq!(secrets.get(ProviderKind::AssemblyAi).unwrap(), "assembly-key");
    assert!(matches!(
        secrets.get(ProviderKind::Deepgram),
        Err(SettingsError::MissingSecret(ProviderKind::Deepgram))
    ));
}

#[test]
fn settings_errors_read_as_their_messages() {
    assert_eq!(
        SettingsError::MissingSecret(ProviderKind::AssemblyAi).message(),
        "no secret is stored for AssemblyAi"
    );
    assert_eq!(
        SettingsError::Storage("disk full".to_owned()).message(),
        "disk full"
    );
}

#[test]
fn keychain_accounts_are_one_per_provider() {
    assert_eq!(ProviderKind::Deepgram.keychain_account(), "stt-provider-deepgram");
    assert_eq!(
        ProviderKind::AssemblyAi.keychain_account(),
        "stt-provider-assembly-ai"
    );
    assert_eq!(ProviderKind::Azure.keychain_account(), "stt-provider-azure");
}

#[test]
fn the_os_keychain_reports_only_missing_secrets_or_store_errors() {
    let mut store = OsSecretStore;
    match store.get(ProviderKind::Deepgram) {
        Ok(_) => {}
        Err(SettingsError::MissingSecret(ProviderKind::Deepgram)) => {}
        Err(SettingsError::SecretStore(message)) => assert!(!message.is_empty()),
        Err(other) => panic!("unexpected {other:?}"),
    }
}

#[test]
fn keychain_failures_map_to_missing_secrets_or_store_errors() {
    assert!(matches!(
        lookup_error(
            ProviderKind::Azure,
            KeychainFailure {
                no_entry: true,
                message: "No matching entry found in secure storage".to_owned(),
            }
        ),
        SettingsError::MissingSecret(ProviderKind::Azure)
    ));
    match lookup_error(
        ProviderKind::Azure,
        KeychainFailure {
            no_entry: false,
            message: "locked".to_owned(),
        },
    ) {
        SettingsError::SecretStore(message) => assert_eq!(message, "locked"),
        other => panic!("unexpected {other:?}"),
    }
    match store_error(KeychainFailure {
        no_entry: true,
        message: "No matching entry found in secure storage".to_owned(),
    }) {
        SettingsError::SecretStore(message) => {
            assert_eq!(message, "No matching entry found in secure storage")
        }
        other => panic!("unexpected {other:?}"),
    }
}

#[test]
fn saving_refuses_invalid_settings_and_blank_secrets_before_storing() {
    let mut secrets = InMemorySecretStore::new();
    let blank_model = ProviderSettings {
        model: "".to_owned(),
        ..deepgram_settings()
    };
    assert_eq!(
        store_provider_secret(&mut secrets, &blank_model, Some("key".to_owned())).unwrap_err(),
        "a provider model is required"
    );
    assert!(!secrets.has(ProviderKind::Deepgram));
    assert_eq!(
        store_provider_secret(&mut secrets, &deepgram_settings(), Some("   ".to_owned()))
            .unwrap_err(),
        "the provider API key cannot be empty"
    );
    assert!(!secrets.has(ProviderKind::Deepgram));
    store_provider_secret(&mut secrets, &deepgram_settings(), None).unwrap();
    assert!(!secrets.has(ProviderKind::Deepgram));
    store_provider_secret(&mut secrets, &deepgram_settings(), Some("key".to_owned())).unwrap();
    assert_eq!(secrets.get(ProviderKind::Deepgram).unwrap(), "key");
}
