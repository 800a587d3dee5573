use vstd::prelude::*;
use vstd::string::*;

use crate::capture_state::text_view;
use crate::text::{is_blank, is_blank_text, join_text};

verus! {

/// The speech-to-text providers the sidecar can use.
#[derive(Clone, Copy, Debug, Hash, PartialEq, Eq, Structural)]
pub enum ProviderKind {
    Deepgram,
    AssemblyAi,
    Azure,
}

/// The keychain account that holds a provider's secret.
pub open spec fn keychain_account_name(provider: ProviderKind) -> Seq<char> {
    match provider {
        ProviderKind::Deepgram => "stt-provider-deepgram"@,
        ProviderKind::AssemblyAi => "stt-provider-assembly-ai"@,
        ProviderKind::Azure => "stt-provider-azure"@,
    }
}

impl ProviderKind {
    /// The keychain account that holds the provider's secret.
    pub fn keychain_account(self) -> (res: &'static str)
        ensures
            res@ == keychain_account_name(self),
    {
        match self {
            ProviderKind::Deepgram => "stt-provider-deepgram",
            ProviderKind::AssemblyAi => "stt-provider-assembly-ai",
            ProviderKind::Azure => "stt-provider-azure",
        }
    }
}

/// How the sidecar transcribes: the provider and its options; the secret
/// is kept elsewhere.
#[derive(Clone, Debug, PartialEq, Eq)]
pub struct ProviderSettings {
    pub provider: ProviderKind,
    pub model: String,
    pub language: Option<String>,
    pub azure_region: Option<String>,
    pub diarize_system: bool,
    pub diarize_mic: bool,
}

/// Provider settings as plain values.
pub struct ProviderSettingsView {
    pub provider: ProviderKind,
    pub model: Seq<char>,
    pub language: Option<Seq<char>>,
    pub azure_region: Option<Seq<char>>,
    pub diarize_system: bool,
    pub diarize_mic: bool,
}

impl View for ProviderSettings {
    type V = ProviderSettingsView;

    open spec fn view(&self) -> ProviderSettingsView {
        ProviderSettingsView {
            provider: self.provider,
            model: self.model@,
            language: text_view(self.language),
            azure_region: text_view(self.azure_region),
            diarize_system: self.diarize_system,
            diarize_mic: self.diarize_mic,
        }
    }
}

/// Why settings or secrets could not be had.
#[derive(Debug)]
pub enum SettingsError {
    InvalidSettings(String),
    MissingSecret(ProviderKind),
    Storage(String),
    SecretStore(String),
}

/// The name a provider has in messages.
pub open spec fn provider_label(provider: ProviderKind) -> Seq<char> {
    match provider {
        ProviderKind::Deepgram => "Deepgram"@,
        ProviderKind::AssemblyAi => "AssemblyAi"@,
        ProviderKind::Azure => "Azure"@,
    }
}

/// The text of a settings error.
pub open spec fn settings_error_message(e: SettingsError) -> Seq<char> {
    match e {
        SettingsError::InvalidSettings(m) => m@,
        SettingsError::Storage(m) => m@,
        SettingsError::SecretStore(m) => m@,
        SettingsError::MissingSecret(p) => "no secret is stored for "@ + provider_label(p),
    }
}

impl SettingsError {
    /// The error's text, as it is shown.
    pub fn message(&self) -> (res: String)
        ensures
            res@ == settings_error_message(*self),
    {
        match self {
            SettingsError::InvalidSettings(m) => m.clone(),
            SettingsError::Storage(m) => m.clone(),
            SettingsError::SecretStore(m) => m.clone(),
            SettingsError::MissingSecret(p) => {
                let name = match p {
                    ProviderKind::Deepgram => "Deepgram",
                    ProviderKind::AssemblyAi => "AssemblyAi",
                    ProviderKind::Azure => "Azure",
                };
                join_text("no secret is stored for ", name)
            },
        }
    }
}

/// The error for a blank model.
pub open spec fn missing_model_error() -> Seq<char> {
    "a provider model is required"@
}

/// The error for an Azure provider without a region.
pub open spec fn missing_region_error() -> Seq<char> {
    "an Azure region is required for the Azure provider"@
}

/// Whether settings are usable: a model that is not blank, and for Azure a
/// region that is not blank.
pub open spec fn settings_valid(s: ProviderSettingsView) -> bool {
    &&& !is_blank_text(s.model)
    &&& s.provider == ProviderKind::Azure ==> (s.azure_region matches Some(r) && !is_blank_text(r))
}

impl Default for ProviderSettings {
    fn default() -> (res: Self)
        ensures
            res.provider == ProviderKind::Deepgram,
            res.model@ == "nova-3"@,
            res.language is None,
            res.azure_region is None,
            !res.diarize_system,
            !res.diarize_mic,
    {
        ProviderSettings {
            provider: ProviderKind::Deepgram,
            model: String::from_str("nova-3"),
            language: None,
            azure_region: None,
            diarize_system: false,
            diarize_mic: false,
        }
    }
}

impl ProviderSettings {
    /// Checks that the settings are usable; a blank model is reported
    /// before a missing Azure region.
    pub fn validate(&self) -> (res: Result<(), SettingsError>)
        ensures
            res is Ok <==> settings_valid(self@),
            res matches Err(e) ==> (e matches SettingsError::InvalidSettings(m) && if is_blank_text(
                self.model@,
            ) {
                m@ == missing_model_error()
            } else {
                m@ == missing_region_error()
            }),
    {
        if is_blank(self.model.as_str()) {
            return Err(SettingsError::InvalidSettings(String::from_str("a provider model is required")));
        }
        if self.provider == ProviderKind::Azure {
            let blank_region = match &self.azure_region {
                Some(region) => is_blank(region.as_str()),
                None => true,
            };
            if blank_region {
                return Err(
                    SettingsError::InvalidSettings(
                        String::from_str("an Azure region is required for the Azure provider"),
                    ),
                );
            }
        }
        Ok(())
    }
}

fn copy_text(value: &Option<String>) -> (res: Option<String>)
    ensures
        res == *value,
{
    match value {
        Some(text) => Some(text.clone()),
        None => None,
    }
}

/// Provider settings as the user interface sees them: whether a secret is
/// stored, never the secret.
#[derive(Clone, Debug, PartialEq, Eq)]
pub struct ProviderPublicSettings {
    pub provider: ProviderKind,
    pub model: String,
    pub language: Option<String>,
    pub azure_region: Option<String>,
    pub diarize_system: bool,
    pub diarize_mic: bool,
    pub has_secret: bool,
}

impl ProviderPublicSettings {
    /// The public face of `settings`.
    pub fn from_settings(settings: &ProviderSettings, has_secret: bool) -> (res: Self)
        ensures
            res.provider == settings.provider,
            res.model == settings.model,
            res.language == settings.language,
            res.azure_region == settings.azure_region,
            res.diarize_system == settings.diarize_system,
            res.diarize_mic == settings.diarize_mic,
            res.has_secret == has_secret,
    {
        ProviderPublicSettings {
            provider: settings.provider,
            model: settings.model.clone(),
            language: copy_text(&settings.language),
            azure_region: copy_text(&settings.azure_region),
            diarize_system: settings.diarize_system,
            diarize_mic: settings.diarize_mic,
            has_secret,
        }
    }
}

/// The settings to use given what storage held: the defaults when nothing
/// was stored, a storage error when the stored text did not parse, and the
/// stored settings only when they are valid.
pub fn settings_from_storage(stored: Option<Result<ProviderSettings, String>>) -> (res: Result<
    ProviderSettings,
    SettingsError,
>)
    ensures
        match stored {
            None => res matches Ok(s) && s.provider == ProviderKind::Deepgram && s.model@
                == "nova-3"@ && s.language is None && s.azure_region is None && !s.diarize_system
                && !s.diarize_mic,
            Some(Err(e)) => res matches Err(SettingsError::Storage(m)) && m == e,
            Some(Ok(s)) => if settings_valid(s@) {
                res == Ok::<ProviderSettings, SettingsError>(s)
            } else {
                res matches Err(SettingsError::InvalidSettings(_))
            },
        },
{
    match stored {
        None => Ok(ProviderSettings::default()),
        Some(Err(e)) => Err(SettingsError::Storage(e)),
        Some(Ok(settings)) => {
            settings.validate()?;
            Ok(settings)
        },
    }
}

/// Where provider secrets are kept.
pub trait SecretStore {
    fn set(&mut self, provider: ProviderKind, secret: &str) -> Result<(), SettingsError>;

    fn get(&mut self, provider: ProviderKind) -> Result<String, SettingsError>;

    fn delete(&mut self, provider: ProviderKind) -> Result<(), SettingsError>;

    fn has(&mut self, provider: ProviderKind) -> bool;

    /// Replaces the provider's secret, also where the store refuses to store
    /// over an existing one: whatever is there is deleted first, and a
    /// missing secret is no error.
    fn replace(&mut self, provider: ProviderKind, secret: &str) -> (res: Result<(), SettingsError>)
        where Self: Sized,
        default_ensures
            exists|d: Result<(), SettingsError>, m: &mut Self| {
                &&& *m == *old(self)
                &&& call_ensures(Self::delete, (m, provider), d)
                &&& if deleted_or_missing(d) {
                    exists|n: &mut Self| {
                        &&& *n == *final(m)
                        &&& call_ensures(Self::set, (n, provider, secret), res)
                        &&& *final(self) == *final(n)
                    }
                } else {
                    res == d && *final(self) == *final(m)
                }
            },
    {
        match self.delete(provider) {
            Ok(()) => self.set(provider, secret),
            Err(SettingsError::MissingSecret(_)) => self.set(provider, secret),
            Err(error) => Err(error),
        }
    }
}

/// Whether a delete's outcome lets a replacement go on: the secret was
/// deleted, or there was none.
pub open spec fn deleted_or_missing(d: Result<(), SettingsError>) -> bool {
    match d {
        Ok(()) => true,
        Err(SettingsError::MissingSecret(_)) => true,
        Err(_) => false,
    }
}

/// The error for a new API key that is blank.
pub open spec fn empty_secret_error() -> Seq<char> {
    "the provider API key cannot be empty"@
}

/// The error text for settings that are not usable: a blank model first,
/// else a missing Azure region.
pub open spec fn invalid_settings_text(s: ProviderSettingsView) -> Seq<char> {
    if is_blank_text(s.model) {
        missing_model_error()
    } else {
        missing_region_error()
    }
}

/// Whether saving `settings` with `secret` goes as far as the store: the
/// settings are usable and a secret that is not blank was entered.
pub open spec fn stores_secret(settings: ProviderSettingsView, secret: Option<String>) -> bool {
    &&& settings_valid(settings)
    &&& secret matches Some(t) && !is_blank_text(t@)
}

/// Checks settings about to be saved and stores a newly entered secret:
/// unusable settings are refused first, then a blank secret; a secret is
/// stored over any earlier one. Nothing is stored when a check fails.
pub fn store_provider_secret<S: SecretStore>(store: &mut S, settings: &ProviderSettings, secret: Option<String>) -> (res: Result<(), String>)
    ensures
        !settings_valid(settings@) ==> (res matches Err(e) && e@ == invalid_settings_text(settings@)),
        settings_valid(settings@) ==> match secret {
            None => res is Ok,
            Some(t) => is_blank_text(t@) ==> (res matches Err(e) && e@ == empty_secret_error()),
        },
        !stores_secret(settings@, secret) ==> *final(store) == *old(store),
        stores_secret(settings@, secret) ==> exists|m: &mut S, t: &str, r: Result<(), SettingsError>| {
            &&& *m == *old(store)
            &&& secret matches Some(given) && t@ == given@
            &&& #[trigger] call_ensures(S::replace, (m, settings@.provider, t), r)
            &&& *final(store) == *final(m)
            &&& match r {
                Ok(()) => res is Ok,
                Err(e) => res matches Err(text) && text@ == settings_error_message(e),
            }
        },
{
    match settings.validate() {
        Ok(()) => {},
        Err(error) => return Err(error.message()),
    }
    match secret {
        None => Ok(()),
        Some(secret) => {
            if is_blank(secret.as_str()) {
                return Err(String::from_str("the provider API key cannot be empty"));
            }
            match store.replace(settings.provider, secret.as_str()) {
                Ok(()) => Ok(()),
                Err(error) => Err(error.message()),
            }
        },
    }
}

/// Secrets kept in memory, one per provider.
pub struct InMemorySecretStore {
    deepgram: Option<String>,
    assembly_ai: Option<String>,
    azure: Option<String>,
}

/// The secret held in `slot`, as a map entry for `provider`.
pub open spec fn slot_entry(
    m: Map<ProviderKind, Seq<char>>,
    provider: ProviderKind,
    slot: Option<String>,
) -> Map<ProviderKind, Seq<char>> {
    match slot {
        Some(s) => m.insert(provider, s@),
        None => m,
    }
}

impl View for InMemorySecretStore {
    type V = Map<ProviderKind, Seq<char>>;

    /// The secret stored for each provider that has one.
    closed spec fn view(&self) -> Map<ProviderKind, Seq<char>> {
        slot_entry(
            slot_entry(
                slot_entry(Map::empty(), ProviderKind::Deepgram, self.deepgram),
                ProviderKind::AssemblyAi,
                self.assembly_ai,
            ),
            ProviderKind::Azure,
            self.azure,
        )
    }
}

impl InMemorySecretStore {
    /// A store with no secrets.
    pub fn new() -> (res: Self)
        ensures
            res@ == Map::<ProviderKind, Seq<char>>::empty(),
    {
        let res = InMemorySecretStore { deepgram: None, assembly_ai: None, azure: None };
        assert(res@ =~= Map::<ProviderKind, Seq<char>>::empty());
        res
    }

    fn slot(&mut self, provider: ProviderKind) -> (res: &mut Option<String>)
        ensures
            text_view(*res) == (if old(self)@.contains_key(provider) {
                Some(old(self)@[provider])
            } else {
                None
            }),
            final(self)@ == (match text_view(*final(res)) {
                Some(s) => old(self)@.insert(provider, s),
                None => old(self)@.remove(provider),
            }),
    {
        match provider {
            ProviderKind::Deepgram => &mut self.deepgram,
            ProviderKind::AssemblyAi => &mut self.assembly_ai,
            ProviderKind::Azure => &mut self.azure,
        }
    }
}

impl Default for InMemorySecretStore {
    fn default() -> (res: Self)
        ensures
            res@ == Map::<ProviderKind, Seq<char>>::empty(),
    {
        InMemorySecretStore::new()
    }
}

impl SecretStore for InMemorySecretStore {
    fn set(&mut self, provider: ProviderKind, secret: &str) -> (res: Result<(), SettingsError>)
        ensures
            res is Ok,
            final(self)@ == old(self)@.insert(provider, secret@),
    {
        let slot = self.slot(provider);
        *slot = Some(String::from_str(secret));
        Ok(())
    }

    fn get(&mut self, provider: ProviderKind) -> (res: Result<String, SettingsError>)
        ensures
            *final(self) == *old(self),
            old(self)@.contains_key(provider) ==> (res matches Ok(s) && s@ == old(self)@[provider]),
            !old(self)@.contains_key(provider) ==> res == Err::<String, SettingsError>(
                SettingsError::MissingSecret(provider),
            ),
    {
        let stored = match provider {
            ProviderKind::Deepgram => &self.deepgram,
            ProviderKind::AssemblyAi => &self.assembly_ai,
            ProviderKind::Azure => &self.azure,
        };
        match stored {
            Some(secret) => Ok(secret.clone()),
            None => Err(SettingsError::MissingSecret(provider)),
        }
    }

    fn delete(&mut self, provider: ProviderKind) -> (res: Result<(), SettingsError>)
        ensures
            res is Ok,
            final(self)@ == old(self)@.remove(provider),
    {
        let slot = self.slot(provider);
        *slot = None;
        Ok(())
    }

    fn has(&mut self, provider: ProviderKind) -> (res: bool)
        ensures
            *final(self) == *old(self),
            res == old(self)@.contains_key(provider),
    {
        match provider {
            ProviderKind::Deepgram => self.deepgram.is_some(),
            ProviderKind::AssemblyAi => self.assembly_ai.is_some(),
            ProviderKind::Azure => self.azure.is_some(),
        }
    }
}

/// Settings with a blank model are never usable, whatever the provider, and
/// settings are refused only for a blank model or, for Azure, a missing or
/// blank region.
pub proof fn a_blank_model_is_refused_for_every_provider(s: ProviderSettingsView)
    ensures
        is_blank_text(s.model) ==> !settings_valid(s),
        !is_blank_text(s.model) && s.provider != ProviderKind::Azure ==> settings_valid(s),
        s.provider == ProviderKind::Azure && (s.azure_region is None || is_blank_text(
            s.azure_region->0,
        )) ==> !settings_valid(s),
        s.provider == ProviderKind::Azure && !is_blank_text(s.model) && s.azure_region is Some
            && !is_blank_text(s.azure_region->0) ==> settings_valid(s),
{
}

/// What one store operation does to the secrets: setting stores the secret
/// for its provider, deleting removes it.
pub open spec fn stored_after(secrets: Map<ProviderKind, Seq<char>>, provider: ProviderKind, secret: Option<Seq<char>>) -> Map<ProviderKind, Seq<char>> {
    match secret {
        Some(s) => secrets.insert(provider, s),
        None => secrets.remove(provider),
    }
}

/// A secret set for a provider is the one read back and is the only one
/// touched; once deleted the provider has none, whatever was there before.
pub proof fn secrets_read_back_what_was_set(
    secrets: Map<ProviderKind, Seq<char>>,
    provider: ProviderKind,
    secret: Seq<char>,
    other: ProviderKind,
)
    requires
        other != provider,
    ensures
        stored_after(secrets, provider, Some(secret)).contains_key(provider),
        stored_after(secrets, provider, Some(secret))[provider] == secret,
        !stored_after(stored_after(secrets, provider, Some(secret)), provider, None).contains_key(
            provider,
        ),
        stored_after(secrets, provider, Some(secret)).contains_key(other) == secrets.contains_key(
            other,
        ),
        secrets.contains_key(other) ==> stored_after(secrets, provider, Some(secret))[other]
            == secrets[other],
        stored_after(secrets, provider, None).contains_key(other) == secrets.contains_key(other),
{
}

#[verifier::external_type_specification]
#[verifier::external_body]
pub struct ExKeyringEntry(keyring::Entry);

#[verifier::external_type_specification]
#[verifier::external_body]
pub struct ExKeyringError(keyring::Error);

/// The keychain service all provider secrets are kept under.
const KEYCHAIN_SERVICE: &'static str = "com.oss-lma.desktop";

/// Calls `keyring::Entry::new`. Whether an entry can be made depends on the
/// platform's credential store, so nothing is claimed of the result.
#[verifier::external_body]
fn keychain_entry(service: &str, account: &str) -> (res: Result<keyring::Entry, keyring::Error>) {
    keyring::Entry::new(service, account)
}

/// Calls `keyring::Entry::set_password`. The outcome depends on the
/// platform's credential store, so nothing is claimed of it.
#[verifier::external_body]
fn keychain_set_password(entry: &keyring::Entry, secret: &str) -> (res: Result<(), keyring::Error>) {
    entry.set_password(secret)
}

/// Calls `keyring::Entry::get_password`. What comes back depends on the
/// platform's credential store, so nothing is claimed of it.
#[verifier::external_body]
fn keychain_get_password(entry: &keyring::Entry) -> (res: Result<String, keyring::Error>) {
    entry.get_password()
}

/// Calls `keyring::Entry::delete_credential`. The outcome depends on the
/// platform's credential store, so nothing is claimed of it.
#[verifier::external_body]
fn keychain_delete_credential(entry: &keyring::Entry) -> (res: Result<(), keyring::Error>) {
    entry.delete_credential()
}

/// Tells `keyring::Error::NoEntry` apart from the other variants; the
/// variant is not visible to the verifier, so nothing is claimed.
#[verifier::external_body]
fn keyring_error_is_no_entry(error: &keyring::Error) -> (res: bool) {
    match error {
        keyring::Error::NoEntry => true,
        _ => false,
    }
}

/// The text of a `keyring::Error`, from its `Display` impl; nothing is
/// claimed of it.
#[verifier::external_body]
fn keyring_error_text(error: &keyring::Error) -> (res: String) {
    error.to_string()
}

/// What a failed keychain call reported: whether the credential was
/// missing, and the keychain's own message.
pub struct KeychainFailure {
    pub no_entry: bool,
    pub message: String,
}

fn keychain_failure(error: keyring::Error) -> (res: KeychainFailure)
    ensures
        call_ensures(keyring_error_is_no_entry, (&error,), res.no_entry),
        call_ensures(keyring_error_text, (&error,), res.message),
{
    let no_entry = keyring_error_is_no_entry(&error);
    let message = keyring_error_text(&error);
    KeychainFailure { no_entry, message }
}

/// The error for a failed keychain read or delete: a missing secret when the
/// keychain had no entry, the keychain's message otherwise.
pub fn lookup_error(provider: ProviderKind, failure: KeychainFailure) -> (res: SettingsError)
    ensures
        failure.no_entry ==> res == SettingsError::MissingSecret(provider),
        !failure.no_entry ==> res == SettingsError::SecretStore(failure.message),
{
    if failure.no_entry {
        SettingsError::MissingSecret(provider)
    } else {
        SettingsError::SecretStore(failure.message)
    }
}

/// The error for a keychain call that cannot miss: always the keychain's
/// message.
pub fn store_error(failure: KeychainFailure) -> (res: SettingsError)
    ensures
        res == SettingsError::SecretStore(failure.message),
{
    SettingsError::SecretStore(failure.message)
}

/// Whether a secret-store error came from the store itself or from a missing
/// secret for `provider`: the only errors a keychain lookup gives.
pub open spec fn lookup_error_shape(error: SettingsError, provider: ProviderKind) -> bool {
    ||| error == SettingsError::MissingSecret(provider)
    ||| error is SecretStore
}

/// `opened` is what opening `provider`'s keychain entry, under the service
/// all provider secrets are kept under, may give.
pub closed spec fn keychain_entry_opened(
    provider: ProviderKind,
    opened: Result<keyring::Entry, keyring::Error>,
) -> bool {
    exists|account: &str|
        account@ == keychain_account_name(provider) && #[trigger] call_ensures(
            keychain_entry,
            (KEYCHAIN_SERVICE, account),
            opened,
        )
}

/// `written` is what storing `secret` in `entry` may give.
pub closed spec fn keychain_written(entry: keyring::Entry, secret: &str, written: Result<(), keyring::Error>) -> bool {
    call_ensures(keychain_set_password, (&entry, secret), written)
}

/// `read` is what reading the secret in `entry` may give.
pub closed spec fn keychain_read(entry: keyring::Entry, read: Result<String, keyring::Error>) -> bool {
    call_ensures(keychain_get_password, (&entry,), read)
}

/// `removed` is what deleting the credential in `entry` may give.
pub closed spec fn keychain_removed(entry: keyring::Entry, removed: Result<(), keyring::Error>) -> bool {
    call_ensures(keychain_delete_credential, (&entry,), removed)
}

/// `res` is the store error for the keychain failure `error`: a missing
/// secret for `provider` when `lookup` and the keychain had no entry, the
/// keychain's message otherwise.
pub closed spec fn keychain_error(
    provider: ProviderKind,
    error: keyring::Error,
    lookup: bool,
    res: SettingsError,
) -> bool {
    exists|f: KeychainFailure|
        #[trigger] call_ensures(keychain_failure, (error,), f) && res == if lookup && f.no_entry {
            SettingsError::MissingSecret(provider)
        } else {
            SettingsError::SecretStore(f.message)
        }
}

/// `res` is what a keychain operation on `provider`'s entry gives when
/// opening the entry came out as `opened`: the store error when it failed.
pub open spec fn entry_failed(
    provider: ProviderKind,
    opened: Result<keyring::Entry, keyring::Error>,
    res: Result<keyring::Entry, SettingsError>,
) -> bool {
    match opened {
        Ok(entry) => res == Ok::<keyring::Entry, SettingsError>(entry),
        Err(x) => res matches Err(e) && keychain_error(provider, x, false, e),
    }
}

/// Provider secrets kept in the operating system's keychain, under the
/// service `com.oss-lma.desktop` and one account per provider.
pub struct OsSecretStore;

impl OsSecretStore {
    fn entry(provider: ProviderKind) -> (res: Result<keyring::Entry, SettingsError>)
        ensures
            res matches Err(e) ==> e is SecretStore,
            exists|opened: Result<keyring::Entry, keyring::Error>|
                #[trigger] keychain_entry_opened(provider, opened) && entry_failed(provider, opened, res),
    {
        let account = provider.keychain_account();
        let opened = keychain_entry(KEYCHAIN_SERVICE, account);
        proof {
            assert(keychain_entry_opened(provider, opened));
        }
        match opened {
            Ok(entry) => Ok(entry),
            Err(error) => {
                let failure = keychain_failure(error);
                let res = store_error(failure);
                proof {
                    assert(keychain_error(provider, error, false, res));
                }
                Err(res)
            },
        }
    }
}

impl SecretStore for OsSecretStore {
    fn set(&mut self, provider: ProviderKind, secret: &str) -> (res: Result<(), SettingsError>)
        ensures
            res matches Err(e) ==> e is SecretStore,
            exists|opened: Result<keyring::Entry, keyring::Error>| {
                &&& #[trigger] keychain_entry_opened(provider, opened)
                &&& match opened {
                    Err(x) => res matches Err(e) && keychain_error(provider, x, false, e),
                    Ok(entry) => exists|written: Result<(), keyring::Error>| {
                        &&& #[trigger] keychain_written(entry, secret, written)
                        &&& match written {
                            Ok(()) => res is Ok,
                            Err(x) => res matches Err(e) && keychain_error(provider, x, false, e),
                        }
                    },
                }
            },
    {
        let entry = match Self::entry(provider) {
            Ok(entry) => entry,
            Err(error) => return Err(error),
        };
        let written = keychain_set_password(&entry, secret);
        proof {
            assert(keychain_written(entry, secret, written));
        }
        match written {
            Ok(()) => Ok(()),
            Err(error) => {
                let res = store_error(keychain_failure(error));
                proof {
                    assert(keychain_error(provider, error, false, res));
                }
                Err(res)
            },
        }
    }

    fn get(&mut self, provider: ProviderKind) -> (res: Result<String, SettingsError>)
        ensures
            res matches Err(e) ==> lookup_error_shape(e, provider),
            exists|opened: Result<keyring::Entry, keyring::Error>| {
                &&& #[trigger] keychain_entry_opened(provider, opened)
                &&& match opened {
                    Err(x) => res matches Err(e) && keychain_error(provider, x, false, e),
                    Ok(entry) => exists|read: Result<String, keyring::Error>| {
                        &&& #[trigger] keychain_read(entry, read)
                        &&& match read {
                            Ok(secret) => res == Ok::<String, SettingsError>(secret),
                            Err(x) => res matches Err(e) && keychain_error(provider, x, true, e),
                        }
                    },
                }
            },
    {
        let entry = match Self::entry(provider) {
            Ok(entry) => entry,
            Err(error) => return Err(error),
        };
        let read = keychain_get_password(&entry);
        proof {
            assert(keychain_read(entry, read));
        }
        match read {
            Ok(secret) => Ok(secret),
            Err(error) => {
                let res = lookup_error(provider, keychain_failure(error));
                proof {
                    assert(keychain_error(provider, error, true, res));
                }
                Err(res)
            },
        }
    }

    fn delete(&mut self, provider: ProviderKind) -> (res: Result<(), SettingsError>)
        ensures
            res matches Err(e) ==> lookup_error_shape(e, provider),
            exists|opened: Result<keyring::Entry, keyring::Error>| {
                &&& #[trigger] keychain_entry_opened(provider, opened)
                &&& match opened {
                    Err(x) => res matches Err(e) && keychain_error(provider, x, false, e),
                    Ok(entry) => exists|removed: Result<(), keyring::Error>| {
                        &&& #[trigger] keychain_removed(entry, removed)
                        &&& match removed {
                            Ok(()) => res is Ok,
                            Err(x) => res matches Err(e) && keychain_error(provider, x, true, e),
                        }
                    },
                }
            },
    {
        let entry = match Self::entry(provider) {
            Ok(entry) => entry,
            Err(error) => return Err(error),
        };
        let removed = keychain_delete_credential(&entry);
        proof {
            assert(keychain_removed(entry, removed));
        }
        match removed {
            Ok(()) => Ok(()),
            Err(error) => {
                let res = lookup_error(provider, keychain_failure(error));
                proof {
                    assert(keychain_error(provider, error, true, res));
                }
                Err(res)
            },
        }
    }

    fn has(&mut self, provider: ProviderKind) -> (res: bool)
        ensures
            exists|opened: Result<keyring::Entry, keyring::Error>| {
                &&& #[trigger] keychain_entry_opened(provider, opened)
                &&& match opened {
                    Err(_) => !res,
                    Ok(entry) => exists|read: Result<String, keyring::Error>| {
                        &&& #[trigger] keychain_read(entry, read)
                        &&& res == read is Ok
                    },
                }
            },
    {
        self.get(provider).is_ok()
    }
}

} // verus!
