//! The configuration of the object store.

use daft_backends::config::{extract_region, ObfuscatedString, OssConfig, DEFAULT_REGION};
use daft_backends::error::{IoError, SourceType};
use daft_backends::source::OssSource;

fn with(endpoint: Option<&str>, region: Option<&str>) -> OssConfig {
    OssConfig {
        endpoint: endpoint.map(|text| text.to_string()),
        region: region.map(|text| text.to_string()),
        ..Default::default()
    }
}

fn used(endpoint: Option<&str>, region: Option<&str>) -> (String, String) {
    with(endpoint, region).endpoint_and_region()
}

fn pair(endpoint: &str, region: &str) -> (String, String) {
    (endpoint.to_string(), region.to_string())
}

fn secret(text: &str) -> Option<ObfuscatedString> {
    Some(ObfuscatedString::new(text.to_string()))
}

#[test]
fn defaults() {
    let config = OssConfig::default();
    assert!(config.region.is_none());
    assert!(config.endpoint.is_none());
    assert!(config.access_key_id.is_none());
    assert!(config.access_key_secret.is_none());
    assert!(config.security_token.is_none());
    assert!(!config.anonymous);
    assert_eq!(config.max_retries, 3);
    assert_eq!(config.connect_timeout_ms, 10_000);
    assert_eq!(config.read_timeout_ms, 30_000);
    assert_eq!(config.max_concurrent_requests, 50);
    assert_eq!(config.max_connections_per_io_thread, 50);
    assert_eq!(config.multipart_size, 8 * 1024 * 1024);
    assert_eq!(config.multipart_max_concurrency, 16);
}

#[test]
fn regions_of_endpoints() {
    let region = |endpoint: &str| extract_region(endpoint);
    assert_eq!(region("oss-cn-beijing.aliyuncs.com"), Some("cn-beijing".to_string()));
    assert_eq!(region("bucket.oss-cn-beijing.aliyuncs.com"), Some("cn-beijing".to_string()));
    assert_eq!(region("://oss-cn-beijing.aliyuncs.com/path"), Some("cn-beijing".to_string()));
    assert_eq!(region("oss-a.oss-b"), Some("a".to_string()));
    assert_eq!(region("oss-"), Some(String::new()));
    assert_eq!(region("OSS-cn-beijing.aliyuncs.com"), None);
    assert_eq!(region("x/oss-cn-beijing"), None);
    assert_eq!(region("https://oss-cn-beijing.aliyuncs.com"), None);
    assert_eq!(region("example.com"), None);
    assert_eq!(region(""), None);
    assert_eq!(region("//."), None);
}

#[test]
fn endpoints_and_regions_that_are_used() {
    assert_eq!(used(Some("host"), Some("here")), pair("host", "here"));
    assert_eq!(
        used(Some("oss-cn-beijing.aliyuncs.com"), None),
        pair("oss-cn-beijing.aliyuncs.com", "cn-beijing")
    );
    assert_eq!(used(Some("host"), None), pair("host", "cn-hangzhou"));
    assert_eq!(
        used(None, Some("cn-beijing")),
        pair("oss-cn-beijing.aliyuncs.com", "cn-beijing")
    );
    assert_eq!(
        used(None, None),
        pair("oss-cn-hangzhou.aliyuncs.com", DEFAULT_REGION)
    );
}

#[test]
fn region_or_its_endpoint_suffices() {
    let by_region = used(None, Some("eu-central-1"));
    let by_endpoint = used(Some(&by_region.0), None);
    assert_eq!(by_region, by_endpoint);

    let by_region = used(None, Some("a.b"));
    let by_endpoint = used(Some(&by_region.0), None);
    assert_eq!(by_endpoint.1, "a");
}

#[test]
fn lines_of_a_full_configuration() {
    let config = OssConfig {
        region: Some("r".to_string()),
        endpoint: Some("e".to_string()),
        access_key_id: Some("id".to_string()),
        access_key_secret: secret("hush"),
        security_token: secret("token"),
        anonymous: true,
        max_retries: 0,
        connect_timeout_ms: 18_446_744_073_709_551_615,
        read_timeout_ms: 7,
        max_concurrent_requests: 10,
        max_connections_per_io_thread: 99,
        multipart_size: 100,
        multipart_max_concurrency: 4_294_967_295,
    };
    assert_eq!(
        config.multiline_display(),
        vec![
            "Region = r",
            "Endpoint = e",
            "Access key id = id",
            "Access key secret = ***",
            "Security token = ***",
            "Anonymous = true",
            "Max retries = 0",
            "Connect timeout = 18446744073709551615ms",
            "Read timeout = 7ms",
            "Max concurrent requests = 10",
            "Max connections = 99",
            "Multipart size = 100",
            "Multipart max concurrency = 4294967295",
        ]
    );
}

#[test]
fn lines_of_the_default_configuration() {
    assert_eq!(
        OssConfig::default().multiline_display(),
        vec![
            "Anonymous = false",
            "Max retries = 3",
            "Connect timeout = 10000ms",
            "Read timeout = 30000ms",
            "Max concurrent requests = 50",
            "Max connections = 50",
            "Multipart size = 8388608",
            "Multipart max concurrency = 16",
        ]
    );
}

#[test]
fn configuration_as_one_text() {
    let mut config = with(Some("say \"hi\"\n"), None);
    config.access_key_id = Some("id".to_string());
    assert_eq!(
        config.display(),
        "OssConfig
    region: None
    endpoint: Some(\"say \\\"hi\\\"\\n\")
    access_key_id: Some(\"id\")
    access_key_secret: ***
    security_token: ***
    anonymous: false
    max_retries: 3
    connect_timeout_ms: 10000
    read_timeout_ms: 30000
    max_concurrent_requests: 50
    max_connections_per_io_thread: 50"
    );
}

#[test]
fn displays_hide_secrets() {
    let mut a = with(None, Some("r"));
    a.access_key_secret = secret("one");
    let mut b = a.clone();
    b.access_key_secret = secret("another");
    assert!(a != b);
    assert_eq!(a.multiline_display(), b.multiline_display());
    assert_eq!(a.display(), b.display());
    assert_eq!(a.access_key_secret.unwrap().as_string(), "one");
}

#[test]
fn settings_of_the_client() {
    let mut config = with(None, Some("cn-beijing"));
    let settings = OssSource::client_settings(&config);
    assert_eq!(settings.endpoint, "oss-cn-beijing.aliyuncs.com");
    assert_eq!(settings.region, "cn-beijing");
    assert_eq!(settings.access_key_id, "");
    assert_eq!(settings.access_key_secret, "");
    assert_eq!(settings.security_token, None);

    config.access_key_id = Some("id".to_string());
    config.access_key_secret = secret("hush");
    config.security_token = secret("token");
    let settings = OssSource::client_settings(&config);
    assert_eq!(settings.access_key_id, "id");
    assert_eq!(settings.access_key_secret, "hush");
    assert_eq!(settings.security_token, Some("token".to_string()));
}

#[test]
fn clients_with_and_without_a_token() {
    let mut config = with(Some("host"), None);
    config.max_connections_per_io_thread = 3;
    let store = OssSource::get_client(&config, 5).ok().unwrap();
    assert_eq!(store.connection_permits, 15);
    assert!(store.config == config);

    config.security_token = secret("token");
    let store = OssSource::get_client(&config, 0).ok().unwrap();
    assert_eq!(store.connection_permits, 0);
    assert!(store.config == config);
}

#[test]
fn clients_that_cannot_be_built() {
    let config = with(Some("host"), None);
    let settings = OssSource::client_settings(&config);
    let failed = OssSource::from_built(&config, &settings, Err("no region".to_string()), 1);
    assert!(matches!(
        failed,
        Err(IoError::UnableToCreateClient { store: SourceType::Oss, source }) if source == "no region"
    ));
}

#[test]
fn clients_are_presigned_for_their_endpoint() {
    let config = OssConfig {
        endpoint: Some("http://oss-cn-beijing.example.com".to_string()),
        access_key_id: Some("the-key-id".to_string()),
        access_key_secret: secret("hush"),
        security_token: secret("the-token"),
        ..Default::default()
    };
    let store = OssSource::get_client(&config, 1).ok().unwrap();
    let options = ali_oss_rs::presign_common::PresignGetOptionsBuilder::new(60).build();
    let url = store.client.inner().presign_url("my-bucket", "my-key", options);
    assert!(url.starts_with("http://my-bucket.oss-cn-beijing.example.com/my-key?"), "{url}");
    assert!(url.contains("the-key-id"), "{url}");
    assert!(url.contains("the-token"), "{url}");
    assert!(url.contains("cn-hangzhou"), "{url}");

    let config = OssConfig { security_token: None, region: Some("r9".to_string()), ..config };
    let store = OssSource::get_client(&config, 1).ok().unwrap();
    let options = ali_oss_rs::presign_common::PresignGetOptionsBuilder::new(60).build();
    let url = store.client.inner().presign_url("my-bucket", "my-key", options);
    assert!(url.contains("r9"), "{url}");
    assert!(!url.contains("security-token"), "{url}");
}
