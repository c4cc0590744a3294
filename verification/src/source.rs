//! The object store: how its client is set up, and where the objects lie that its
//! callers name.

use vstd::prelude::*;

use crate::client::ClientSettings;
use crate::client::ClientSettingsView;
use crate::client::StoreClient;
use crate::config::OssConfig;
use crate::error::raise;
use crate::error::Error;
use crate::error::ErrorView;
use crate::error::GenericSource;
use crate::error::IoError;
use crate::error::IoErrorView;
use crate::error::SourceType;
use crate::location;
use crate::text;

verus! {

/// How many directories a glob may fan out to, where the caller sets no limit.
pub const DEFAULT_GLOB_FANOUT_LIMIT: usize = 1024;

/// How many entries a page has, where the caller sets no size.
pub const DEFAULT_PAGE_SIZE: i32 = 1000;

/// The object store.
pub struct OssSource {
    pub client: StoreClient,
    pub config: OssConfig,
    /// How many requests may be under way at a time.
    pub connection_permits: usize,
}

/// The text of an optional secret.
pub open spec fn secret_view(secret: Option<crate::config::ObfuscatedString>) -> Option<Seq<char>> {
    match secret {
        Some(hidden) => Some(hidden@),
        None => None,
    }
}

/// An optional text, or the empty text.
pub open spec fn or_empty(text: Option<Seq<char>>) -> Seq<char> {
    match text {
        Some(text) => text,
        None => Seq::empty(),
    }
}

/// The settings of the client that `config` asks for. A key that is not configured is
/// empty.
pub open spec fn settings_of(config: OssConfig) -> ClientSettingsView {
    ClientSettingsView {
        endpoint: config.endpoint_and_region_used().0,
        region: config.endpoint_and_region_used().1,
        access_key_id: or_empty(text::option_view(config.access_key_id)),
        access_key_secret: or_empty(secret_view(config.access_key_secret)),
        security_token: secret_view(config.security_token),
    }
}

impl OssSource {
    /// The settings of the client that `config` asks for. A key that is not
    /// configured is empty.
    pub fn client_settings(config: &OssConfig) -> (settings: ClientSettings)
        ensures
            settings@ == settings_of(*config),
    {
        let (endpoint, region) = config.endpoint_and_region();
        let access_key_id = match &config.access_key_id {
            Some(id) => id.clone(),
            None => String::new(),
        };
        let access_key_secret = match &config.access_key_secret {
            Some(secret) => secret.as_string().clone(),
            None => String::new(),
        };
        let security_token = match &config.security_token {
            Some(token) => Some(token.as_string().clone()),
            None => None,
        };
        ClientSettings { endpoint, region, access_key_id, access_key_secret, security_token }
    }

    /// The store over the client that was built from `settings`, or the error that
    /// the builder gave. It allows as many requests at a time as the configured
    /// number for each of `io_threads` threads.
    pub fn from_built(
        config: &OssConfig,
        settings: &ClientSettings,
        built: Result<StoreClient, String>,
        io_threads: usize,
    ) -> (source: Result<OssSource, IoError>)
        requires
            built is Ok ==> config.max_connections_per_io_thread * io_threads <= usize::MAX,
        ensures
            built matches Ok(client) ==> {
                &&& source matches Ok(store)
                &&& store.client == client
                &&& store.config == *config
                &&& store.connection_permits == config.max_connections_per_io_thread * io_threads
            },
            built matches Err(msg) ==> {
                &&& source matches Err(error)
                &&& error@ == (ErrorView::ClientCreation {
                    endpoint: settings.endpoint@,
                    msg: msg@,
                }).seen_by_callers()
            },
    {
        match built {
            Ok(client) => {
                let connection_permits: usize = (config.max_connections_per_io_thread as usize)
                    * io_threads;
                Ok(OssSource { client, config: config.clone(), connection_permits })
            },
            Err(msg) => Err(
                raise(Error::ClientCreation { endpoint: settings.endpoint.clone(), msg }),
            ),
        }
    }

    /// The store that `config` asks for, on a pool of `io_threads` threads.
    pub fn get_client(config: &OssConfig, io_threads: usize) -> (source: Result<OssSource, IoError>)
        requires
            config.max_connections_per_io_thread * io_threads <= usize::MAX,
        ensures
            source is Ok,
            source->Ok_0.client.built_with() == settings_of(*config),
            source->Ok_0.config == *config,
            source->Ok_0.connection_permits == config.max_connections_per_io_thread * io_threads,
    {
        let settings = OssSource::client_settings(config);
        let built = settings.build();
        OssSource::from_built(config, &settings, built, io_threads)
    }

    /// The bucket and the key of `url`. An empty key is allowed only where
    /// `allow_empty_key` says so.
    pub fn parse_oss_url(url: &str, allow_empty_key: bool) -> (location: Result<
        (String, String),
        IoError,
    >)
        requires
            location::cuttable(url@),
        ensures
            location::location_view(location) == location::location_of(
                url@,
                location::url_parse(url@),
                allow_empty_key,
            ),
            forall|bucket: Seq<char>, rest: Seq<char>| #[trigger]
                location::plain_url(url@, bucket, rest) ==> reads_plain_url(
                    location,
                    bucket,
                    rest,
                    allow_empty_key,
                ),
    {
        let parsed = location::parse_url(url);
        proof {
            location::lemma_plain_urls(url@, parsed);
        }
        location::locate(url, parsed, allow_empty_key)
    }

    /// The bucket and the key of any `url`, or `None` where the end of its host, as
    /// the parser writes it, does not fall between two characters of `url`.
    pub fn try_parse_oss_url(url: &str, allow_empty_key: bool) -> (location: Option<
        Result<(String, String), IoError>,
    >)
        ensures
            location is None <==> !location::can_cut(url@, location::url_parse(url@)),
            location matches Some(found) ==> location::location_view(found)
                == location::location_of(url@, location::url_parse(url@), allow_empty_key),
            forall|bucket: Seq<char>, rest: Seq<char>| #[trigger]
                location::plain_url(url@, bucket, rest) ==> {
                    &&& location matches Some(found)
                    &&& reads_plain_url(found, bucket, rest, allow_empty_key)
                },
    {
        let parsed = location::parse_url(url);
        proof {
            location::lemma_plain_urls(url@, parsed);
        }
        if location::is_cuttable(url, &parsed) {
            Some(OssSource::parse_oss_url(url, allow_empty_key))
        } else {
            None
        }
    }
}

/// Whether `location` is what a plain URL names: its bucket, and its path as the
/// key; where the key is empty and may not be, the URL is not that of a file.
pub open spec fn reads_plain_url(
    location: Result<(String, String), IoError>,
    bucket: Seq<char>,
    rest: Seq<char>,
    allow_empty_key: bool,
) -> bool {
    let key = text::trim_start(rest, location::DELIMITER);
    if key.len() == 0 && !allow_empty_key {
        location matches Err(error) && error is NotAFile
    } else {
        location::location_view(location) == Ok::<(Seq<char>, Seq<char>), IoErrorView>(
            (bucket, key),
        )
    }
}

/// The URL that an object has in a listing or an error names that object, where its
/// bucket has a plain name, its key does not start with a delimiter, and the URL is
/// not too long. `location` is anything that [`OssSource::parse_oss_url`] may give for
/// it.
pub proof fn law_object_url_reads_back(
    bucket: Seq<char>,
    key: Seq<char>,
    allow_empty_key: bool,
    location: Result<(String, String), IoError>,
)
    requires
        location::plain_bucket(bucket),
        key.len() > 0 ==> key[0] != location::DELIMITER,
        key.len() == 0 ==> allow_empty_key,
        location::object_url(bucket, key).len() <= location::URL_LENGTH_LIMIT,
        forall|b: Seq<char>, rest: Seq<char>| #[trigger]
            location::plain_url(location::object_url(bucket, key), b, rest) ==> reads_plain_url(
                location,
                b,
                rest,
                allow_empty_key,
            ),
    ensures
        location::location_view(location) == Ok::<(Seq<char>, Seq<char>), IoErrorView>(
            (bucket, key),
        ),
{
    location::law_object_url_names_object(bucket, key);
}

/// The settings of a client are those that are configured, each in its place; a key that
/// is not configured is empty, and there is a security token exactly where one is
/// configured.
pub proof fn law_settings_are_those_configured(config: OssConfig, settings: ClientSettings)
    requires
        call_ensures(OssSource::client_settings, (&config,), settings),
    ensures
        config.endpoint matches Some(endpoint) ==> settings.endpoint@ == endpoint@,
        config.region matches Some(region) ==> settings.region@ == region@,
        config.endpoint is None ==> settings.endpoint@ == "oss-"@ + settings.region@
            + ".aliyuncs.com"@,
        config.access_key_id matches Some(id) ==> settings.access_key_id@ == id@,
        config.access_key_id is None ==> settings.access_key_id@.len() == 0,
        config.access_key_secret matches Some(secret) ==> settings.access_key_secret@ == secret@,
        config.access_key_secret is None ==> settings.access_key_secret@.len() == 0,
        config.security_token matches Some(token) ==> settings.security_token is Some
            && settings.security_token->Some_0@ == token@,
        config.security_token is None ==> settings.security_token is None,
{
}

/// The store has a client that was built with what is configured, keeps its configuration,
/// and allows the configured number of requests for each thread.
pub proof fn law_store_is_the_one_configured(
    config: OssConfig,
    io_threads: usize,
    source: Result<OssSource, IoError>,
)
    requires
        call_ensures(OssSource::get_client, (&config, io_threads), source),
    ensures
        source is Ok,
        ({
            let store = source->Ok_0;
            let used = store.client.built_with();
            &&& config.endpoint matches Some(endpoint) ==> used.endpoint == endpoint@
            &&& config.region matches Some(region) ==> used.region == region@
            &&& config.endpoint is None ==> used.endpoint == "oss-"@ + used.region
                + ".aliyuncs.com"@
            &&& config.access_key_id matches Some(id) ==> used.access_key_id == id@
            &&& config.access_key_id is None ==> used.access_key_id.len() == 0
            &&& config.access_key_secret matches Some(secret) ==> used.access_key_secret == secret@
            &&& config.access_key_secret is None ==> used.access_key_secret.len() == 0
            &&& config.security_token matches Some(token) ==> used.security_token == Some(token@)
            &&& config.security_token is None ==> used.security_token is None
            &&& store.config == config
            &&& store.connection_permits == config.max_connections_per_io_thread * io_threads
        }),
{
}

/// Of a client that was built, the store is made as it is; of one that was not, its callers
/// see the message of the builder.
pub proof fn law_store_is_made_of_the_client_built(
    config: OssConfig,
    settings: ClientSettings,
    built: Result<StoreClient, String>,
    io_threads: usize,
    source: Result<OssSource, IoError>,
)
    requires
        call_ensures(OssSource::from_built, (&config, &settings, built, io_threads), source),
    ensures
        match built {
            Ok(client) => {
                &&& source matches Ok(store)
                &&& store.client == client
                &&& store.config == config
                &&& store.connection_permits == config.max_connections_per_io_thread * io_threads
            },
            Err(msg) => source matches Err(IoError::UnableToCreateClient { store, source: shown })
                && store == SourceType::Oss && shown@ == msg@,
        },
{
}

/// A URL that is `oss://`, a bucket of ASCII letters, digits, `-`, `_` and `.`, and then
/// nothing or a path names that bucket, and its path without the run of `n` delimiters at
/// its start is the key, whether or not the caller has tested the URL before. Where the
/// key is empty, and may not be, the URL names no file.
pub proof fn law_plain_url_names_its_object(
    url: &str,
    allow_empty_key: bool,
    location: Result<(String, String), IoError>,
    tried: Option<Result<(String, String), IoError>>,
    bucket: Seq<char>,
    rest: Seq<char>,
    n: int,
)
    requires
        call_ensures(OssSource::parse_oss_url, (url, allow_empty_key), location),
        call_ensures(OssSource::try_parse_oss_url, (url, allow_empty_key), tried),
        url@ == "oss://"@ + bucket + rest,
        url@.len() <= 0x1000_0000,
        bucket.len() > 0,
        forall|i: int|
            0 <= i < bucket.len() ==> {
                let c = #[trigger] bucket[i];
                ||| '0' <= c <= '9'
                ||| 'A' <= c <= 'Z'
                ||| 'a' <= c <= 'z'
                ||| c == '-'
                ||| c == '_'
                ||| c == '.'
            },
        rest.len() > 0 ==> rest[0] == '/',
        0 <= n <= rest.len(),
        forall|i: int| 0 <= i < n ==> #[trigger] rest[i] == '/',
        n < rest.len() ==> rest[n] != '/',
    ensures
        tried is Some,
        n < rest.len() || allow_empty_key ==> {
            &&& location matches Ok((found, key))
            &&& found@ == bucket
            &&& key@ == rest.skip(n)
            &&& tried->Some_0 matches Ok((found_again, key_again))
            &&& found_again@ == bucket
            &&& key_again@ == rest.skip(n)
        },
        n == rest.len() && !allow_empty_key ==> {
            &&& location matches Err(IoError::NotAFile { path })
            &&& tried->Some_0 matches Err(IoError::NotAFile { path: path_again })
        },
{
    assert(location::plain_url(url@, bucket, rest));
    location::lemma_trimmed(rest, n);
}

/// A text that is no URL, a URL of another scheme and one without a host are refused, each
/// with the error that says so. `parsed` is what the parser makes of the text.
pub proof fn law_other_urls_are_refused(
    url: &str,
    allow_empty_key: bool,
    location: Result<(String, String), IoError>,
    tried: Option<Result<(String, String), IoError>>,
)
    requires
        call_ensures(OssSource::parse_oss_url, (url, allow_empty_key), location),
        call_ensures(OssSource::try_parse_oss_url, (url, allow_empty_key), tried),
    ensures
        tried matches Some(found) ==> location::location_view(found) == location::location_view(
            location,
        ),
        location::url_parse(url@) matches Err(reason) ==> {
            &&& tried is Some
            &&& location matches Err(IoError::InvalidUrl { path, source })
            &&& path@ == url@
            &&& source@ == reason
        },
        location::url_parse(url@) matches Ok(parts) ==> {
            &&& parts.0 != "oss"@ ==> {
                &&& tried is Some
                &&& location matches Err(
                    IoError::Generic {
                        store,
                        source: GenericSource::Oss(Error::UnsupportedScheme { scheme, path }),
                    },
                )
                &&& scheme@ == parts.0
                &&& path@ == url@
            }
            &&& parts.0 == "oss"@ && parts.1 is None ==> {
                &&& tried is Some
                &&& location matches Err(IoError::InvalidUrl { path, source })
                &&& path@ == parts.3
                &&& source@ == "empty host"@
            }
            &&& parts.0 == "oss"@ && parts.1 is Some ==> (tried is Some
                <==> vstd::utf8::is_char_boundary(
                vstd::utf8::encode_utf8(url@),
                vstd::utf8::encode_utf8(parts.2).len() as int,
            ))
        },
{
}

} // verus!
