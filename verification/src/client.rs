//! The client of the storage service, and what it is built with.

use vstd::prelude::*;

use crate::text;

verus! {

/// The client of the storage service.
#[verifier::external_type_specification]
#[verifier::external_body]
pub struct ExClient(ali_oss_rs::Client);

/// What the client of the storage service is built with.
pub struct ClientSettings {
    pub endpoint: String,
    pub region: String,
    pub access_key_id: String,
    pub access_key_secret: String,
    pub security_token: Option<String>,
}

/// The view of a [`ClientSettings`].
pub struct ClientSettingsView {
    pub endpoint: Seq<char>,
    pub region: Seq<char>,
    pub access_key_id: Seq<char>,
    pub access_key_secret: Seq<char>,
    pub security_token: Option<Seq<char>>,
}

impl View for ClientSettings {
    type V = ClientSettingsView;

    open spec fn view(&self) -> ClientSettingsView {
        ClientSettingsView {
            endpoint: self.endpoint@,
            region: self.region@,
            access_key_id: self.access_key_id@,
            access_key_secret: self.access_key_secret@,
            security_token: text::option_view(self.security_token),
        }
    }
}

impl ClientSettingsView {
    /// The same settings with the security token `token`.
    pub open spec fn with_token(self, token: Option<Seq<char>>) -> ClientSettingsView {
        ClientSettingsView { security_token: token, ..self }
    }
}

/// A client of the storage service, which remembers what it was built with.
pub struct StoreClient {
    client: ali_oss_rs::Client,
    settings: Ghost<ClientSettingsView>,
}

impl StoreClient {
    /// What the client was built with.
    pub closed spec fn built_with(self) -> ClientSettingsView {
        self.settings@
    }

    /// The client itself.
    pub closed spec fn spec_inner(self) -> ali_oss_rs::Client {
        self.client
    }

    /// The client itself.
    pub fn inner(&self) -> (client: &ali_oss_rs::Client)
        ensures
            *client == self.spec_inner(),
    {
        &self.client
    }
}

/// Builds a client by `ali_oss_rs::ClientBuilder`: `new` with the key id, the key
/// secret and the endpoint of `settings`, then `region`, then `build`. With its
/// region set, the builder gives no error, and the client is built with those
/// settings and no security token. Its HTTP client is the default one, which panics
/// where the system has no usable TLS.
#[verifier::external_body]
fn build_client(settings: &ClientSettings) -> (built: Result<StoreClient, String>)
    ensures
        built is Ok,
        built->Ok_0.built_with() == settings@.with_token(None),
{
    let client = ali_oss_rs::ClientBuilder::new(
        &settings.access_key_id,
        &settings.access_key_secret,
        &settings.endpoint,
    ).region(&settings.region).build()?;
    Ok(StoreClient { client, settings: Ghost(settings@.with_token(None)) })
}

/// Builds a client as [`build_client`] does, with `sts_token` before `build`. The
/// builder gives no error here either, and the client is built with those settings
/// and the security token `token`.
#[verifier::external_body]
fn build_client_with_token(settings: &ClientSettings, token: &str) -> (built: Result<
    StoreClient,
    String,
>)
    ensures
        built is Ok,
        built->Ok_0.built_with() == settings@.with_token(Some(token@)),
{
    let client = ali_oss_rs::ClientBuilder::new(
        &settings.access_key_id,
        &settings.access_key_secret,
        &settings.endpoint,
    ).region(&settings.region).sts_token(token).build()?;
    Ok(StoreClient { client, settings: Ghost(settings@.with_token(Some(token@))) })
}

impl ClientSettings {
    /// The client that these settings ask for.
    pub fn build(&self) -> (built: Result<StoreClient, String>)
        ensures
            built is Ok,
            built->Ok_0.built_with() == self@,
    {
        match &self.security_token {
            Some(token) => build_client_with_token(self, token.as_str()),
            None => build_client(self),
        }
    }
}

/// A client is built with every setting as it is, the security token among them, and
/// without one where there is none.
pub proof fn law_client_has_its_settings(
    settings: ClientSettings,
    built: Result<StoreClient, String>,
)
    requires
        call_ensures(ClientSettings::build, (&settings,), built),
    ensures
        built is Ok,
        built->Ok_0.built_with().endpoint == settings.endpoint@,
        built->Ok_0.built_with().region == settings.region@,
        built->Ok_0.built_with().access_key_id == settings.access_key_id@,
        built->Ok_0.built_with().access_key_secret == settings.access_key_secret@,
        settings.security_token matches Some(token) ==> built->Ok_0.built_with().security_token
            == Some(token@),
        settings.security_token is None ==> built->Ok_0.built_with().security_token is None,
{
}

} // verus!
