//! Provider profiles as the dashboard sees them.
use vstd::prelude::*;

verus! {

/// The wire protocol a provider speaks.
#[derive(Debug, Clone, Copy, PartialEq, Eq, Structural)]
pub enum ProviderType {
    DirectAnthropic,
    OpenAICompatible,
    OpenAIResponses,
}

/// How a profile authenticates against its provider.
#[derive(Debug, Clone, Copy, PartialEq, Eq, Structural)]
pub enum AuthType {
    ApiKey,
    OAuth,
}

/// The settings of one provider profile.
#[derive(Debug, Clone)]
pub struct ProfileConfig {
    pub name: String,
    pub provider_type: ProviderType,
    pub base_url: String,
    pub api_key: String,
    /// Name of the keyring entry that holds the key, when it is not stored inline.
    pub api_key_keyring: Option<String>,
    pub default_model: String,
    pub priority: u32,
    pub enabled: bool,
    pub auth_type: AuthType,
}

/// The label under which a provider type is shown and selected.
pub open spec fn provider_label(t: ProviderType) -> Seq<char> {
    match t {
        ProviderType::DirectAnthropic => "DirectAnthropic"@,
        ProviderType::OpenAICompatible => "OpenAICompatible"@,
        ProviderType::OpenAIResponses => "OpenAIResponses"@,
    }
}

/// The provider type that a selected label stands for; any label but the
/// other two means an OpenAI-compatible provider.
pub open spec fn provider_of_label(label: Seq<char>) -> ProviderType {
    if label == "DirectAnthropic"@ {
        ProviderType::DirectAnthropic
    } else if label == "OpenAIResponses"@ {
        ProviderType::OpenAIResponses
    } else {
        ProviderType::OpenAICompatible
    }
}

/// The label under which an authentication type is shown.
pub open spec fn auth_label(t: AuthType) -> Seq<char> {
    match t {
        AuthType::ApiKey => "ApiKey"@,
        AuthType::OAuth => "OAuth"@,
    }
}

/// The three provider labels, in the order the form offers them.
pub open spec fn provider_labels() -> Seq<Seq<char>> {
    seq!["DirectAnthropic"@, "OpenAICompatible"@, "OpenAIResponses"@]
}

/// The provider labels are pairwise different, and each label leads back to its type.
pub proof fn lemma_provider_labels()
    ensures
        provider_labels()[0] != provider_labels()[1],
        provider_labels()[0] != provider_labels()[2],
        provider_labels()[1] != provider_labels()[2],
        forall|t: ProviderType| #[trigger] provider_of_label(provider_label(t)) == t,
        forall|t: ProviderType| provider_labels().contains(#[trigger] provider_label(t)),
{
    reveal_strlit("DirectAnthropic");
    reveal_strlit("OpenAICompatible");
    reveal_strlit("OpenAIResponses");
    assert("DirectAnthropic"@[0] != "OpenAICompatible"@[0]);
    assert("DirectAnthropic"@[0] != "OpenAIResponses"@[0]);
    assert("OpenAICompatible"@.len() != "OpenAIResponses"@.len());
    assert forall|t: ProviderType| provider_labels().contains(#[trigger] provider_label(t)) by {
        match t {
            ProviderType::DirectAnthropic => assert(provider_labels()[0] == provider_label(t)),
            ProviderType::OpenAICompatible => assert(provider_labels()[1] == provider_label(t)),
            ProviderType::OpenAIResponses => assert(provider_labels()[2] == provider_label(t)),
        }
    }
}

/// The labels are the names of the types, and different types get different labels.
pub proof fn law_labels_name_the_types()
    ensures
        auth_label(AuthType::ApiKey) == "ApiKey"@,
        auth_label(AuthType::OAuth) == "OAuth"@,
        auth_label(AuthType::ApiKey) != auth_label(AuthType::OAuth),
        provider_label(ProviderType::DirectAnthropic) == "DirectAnthropic"@,
        provider_label(ProviderType::OpenAICompatible) == "OpenAICompatible"@,
        provider_label(ProviderType::OpenAIResponses) == "OpenAIResponses"@,
        forall|a: ProviderType, b: ProviderType| provider_label(a) == provider_label(b) ==> a == b,
        forall|a: AuthType, b: AuthType| auth_label(a) == auth_label(b) ==> a == b,
{
    reveal_strlit("ApiKey");
    reveal_strlit("OAuth");
    assert("ApiKey"@.len() != "OAuth"@.len());
    lemma_provider_labels();
    assert forall|a: ProviderType, b: ProviderType| provider_label(a) == provider_label(b) implies a == b by {
        assert(provider_of_label(provider_label(a)) == a);
        assert(provider_of_label(provider_label(b)) == b);
    }
}

/// A snapshot shows the authentication and provider types by their names.
pub proof fn law_snapshot_names_the_types(s: ProfileSnapshot, p: ProfileConfig)
    requires
        ProfileSnapshot::shows(s, p),
    ensures
        p.auth_type == AuthType::ApiKey ==> s.auth_type@ == "ApiKey"@,
        p.auth_type == AuthType::OAuth ==> s.auth_type@ == "OAuth"@,
        p.provider_type == ProviderType::DirectAnthropic ==> s.provider_type@ == "DirectAnthropic"@,
        p.provider_type == ProviderType::OpenAICompatible ==> s.provider_type@ == "OpenAICompatible"@,
        p.provider_type == ProviderType::OpenAIResponses ==> s.provider_type@ == "OpenAIResponses"@,
{
    law_labels_name_the_types();
}

/// The label of a provider type, as a new `String`.
pub fn provider_type_label(t: ProviderType) -> (label: String)
    ensures
        label@ == provider_label(t),
{
    match t {
        ProviderType::DirectAnthropic => "DirectAnthropic".to_owned(),
        ProviderType::OpenAICompatible => "OpenAICompatible".to_owned(),
        ProviderType::OpenAIResponses => "OpenAIResponses".to_owned(),
    }
}

impl Default for ProfileConfig {
    fn default() -> (d: Self)
        ensures
            d.name@ == Seq::<char>::empty(),
            d.provider_type == ProviderType::DirectAnthropic,
            d.base_url@ == Seq::<char>::empty(),
            d.api_key@ == Seq::<char>::empty(),
            d.api_key_keyring is None,
            d.default_model@ == Seq::<char>::empty(),
            d.priority == 100,
            d.enabled,
            d.auth_type == AuthType::ApiKey,
    {
        ProfileConfig {
            name: String::new(),
            provider_type: ProviderType::DirectAnthropic,
            base_url: String::new(),
            api_key: String::new(),
            api_key_keyring: None,
            default_model: String::new(),
            priority: 100,
            enabled: true,
            auth_type: AuthType::ApiKey,
        }
    }
}

/// A read-only copy of the parts of a profile that the profile list shows.
#[derive(Debug, Clone)]
pub struct ProfileSnapshot {
    pub name: String,
    pub enabled: bool,
    pub provider_type: String,
    pub base_url: String,
    pub default_model: String,
    pub priority: u32,
    pub auth_type: String,
    pub has_api_key: bool,
}

impl ProfileSnapshot {
    /// `s` shows profile `p`.
    pub open spec fn shows(s: ProfileSnapshot, p: ProfileConfig) -> bool {
        &&& s.name@ == p.name@
        &&& s.enabled == p.enabled
        &&& s.provider_type@ == provider_label(p.provider_type)
        &&& s.base_url@ == p.base_url@
        &&& s.default_model@ == p.default_model@
        &&& s.priority == p.priority
        &&& s.auth_type@ == auth_label(p.auth_type)
        &&& s.has_api_key == (p.api_key@.len() > 0 || p.api_key_keyring is Some)
    }

    /// Takes the snapshot of a profile.
    pub fn from_profile(p: &ProfileConfig) -> (s: Self)
        ensures
            Self::shows(s, *p),
    {
        ProfileSnapshot {
            name: p.name.clone(),
            enabled: p.enabled,
            provider_type: provider_type_label(p.provider_type),
            base_url: p.base_url.clone(),
            default_model: p.default_model.clone(),
            priority: p.priority,
            auth_type: match p.auth_type {
                AuthType::ApiKey => "ApiKey".to_owned(),
                AuthType::OAuth => "OAuth".to_owned(),
            },
            has_api_key: !p.api_key.as_str().is_empty() || p.api_key_keyring.is_some(),
        }
    }
}

} // verus!
