//! Buckets and keys of URLs, and what the operations ask for.

use daft_backends::error::{GenericSource, IoError, OssError};
use daft_backends::listing::{list_outcome, list_request, FileType, ListResponse, ObjectSummary};
use daft_backends::location::{locate, object_path, UrlParts};
use daft_backends::operations::{DirStep, Operation, RangeRequest, Request, StatMark};
use daft_backends::source::OssSource;

fn found(url: &str) -> (String, String) {
    OssSource::try_parse_oss_url(url, true).unwrap().unwrap()
}

fn pair(bucket: &str, key: &str) -> (String, String) {
    (bucket.to_string(), key.to_string())
}

#[test]
fn keys_lose_their_leading_delimiters() {
    assert_eq!(found("oss://b"), pair("b", ""));
    assert_eq!(found("oss://b///x//y/"), pair("b", "x//y/"));
    assert_eq!(found("oss://My_Bucket.1/k\u{e9}y"), pair("My_Bucket.1", "k\u{e9}y"));
    assert_eq!(found("oss://b/a b?c#d"), pair("b", "a b?c#d"));
}

#[test]
fn keys_are_cut_at_the_host_that_was_parsed() {
    assert_eq!(found("oss://b:80/k"), pair("b", ":80/k"));
    assert_eq!(found("OSS://b/k"), pair("b", "k"));
    assert_eq!(found("  oss://bb/k"), pair("bb", "bb/k"));
}

#[test]
fn urls_that_cannot_be_cut() {
    assert!(OssSource::try_parse_oss_url("oss://\u{e9}", true).is_none());
    assert!(OssSource::try_request("oss://\u{e9}", Operation::Put).is_none());
}

#[test]
fn object_urls_name_their_objects() {
    for key in ["k", "a/b", "x//", "", "sp ace"] {
        assert_eq!(found(&object_path("my-bucket", key)), pair("my-bucket", key));
    }
    assert_eq!(object_path("b", "k/"), "oss://b/k/");
}

#[test]
fn errors_of_urls() {
    match OssSource::parse_oss_url("invalid-url", true) {
        Err(IoError::InvalidUrl { path, source }) => {
            assert_eq!(path, "invalid-url");
            assert_eq!(source, url::ParseError::RelativeUrlWithoutBase.to_string());
        }
        other => panic!("unexpected result {other:?}"),
    }
    match OssSource::parse_oss_url("http://example.com/file.txt", true) {
        Err(IoError::Generic { source: GenericSource::Oss(error), .. }) => assert_eq!(
            error.message(),
            "Unsupported scheme: http in URL: \"http://example.com/file.txt\""
        ),
        other => panic!("unexpected result {other:?}"),
    }
    match OssSource::parse_oss_url("oss:k", true) {
        Err(IoError::InvalidUrl { path, source }) => {
            assert_eq!(path, "oss:k");
            assert_eq!(source, url::ParseError::EmptyHost.to_string());
        }
        other => panic!("unexpected result {other:?}"),
    }
    match OssSource::parse_oss_url("oss://b//", false) {
        Err(IoError::NotAFile { path }) => assert_eq!(path, "oss://b//"),
        other => panic!("unexpected result {other:?}"),
    }
}

#[test]
fn parts_that_are_handed_in() {
    let parts = |scheme: &str, host: Option<&str>, origin: &str| {
        Ok(UrlParts {
            scheme: scheme.to_string(),
            host: host.map(|host| host.to_string()),
            origin: origin.to_string(),
            normalized: "normalized".to_string(),
        })
    };
    assert_eq!(
        locate("oss://b/k", parts("oss", Some("h"), "oss://b"), false).unwrap(),
        pair("h", "k")
    );
    assert!(matches!(
        locate("oss://b", parts("oss", Some("h"), "oss://b"), false),
        Err(IoError::NotAFile { path }) if path == "normalized"
    ));
    assert!(matches!(
        locate("u", parts("oss", None, "oss:"), false),
        Err(IoError::InvalidUrl { path, source }) if path == "normalized" && source == "empty host"
    ));
    assert!(matches!(
        locate("u", Err("why".to_string()), true),
        Err(IoError::InvalidUrl { path, source }) if path == "u" && source == "why"
    ));
}

#[test]
fn prefixes_of_listings() {
    let prefix = |key: &str, posix| list_request("b".to_string(), key.to_string(), posix, None, None).prefix;
    assert_eq!(prefix("a/b", true), "a/b/");
    assert_eq!(prefix("a/b//", true), "a/b/");
    assert_eq!(prefix("", true), "");
    assert_eq!(prefix("a/b//", false), "a/b//");
    assert_eq!(prefix(&prefix("a/b//", true), true), "a/b/");
}

#[test]
fn requests_for_listings() {
    let token = Some("t".to_string());
    let request = list_request("b".to_string(), "k".to_string(), true, token, Some(10));
    assert_eq!(request.bucket, "b");
    assert_eq!(request.delimiter, Some('/'));
    assert_eq!(request.continuation_token, Some("t".to_string()));
    assert_eq!(request.max_keys, Some(10));
    let request = list_request("b".to_string(), "k".to_string(), false, None, Some(-1));
    assert_eq!(request.delimiter, None);
    assert_eq!(request.continuation_token, None);
    assert_eq!(request.max_keys, Some(4_294_967_295));
}

#[test]
fn pages_list_every_entry() {
    let response = ListResponse {
        common_prefixes: vec!["p/a/".to_string(), "p/b/".to_string()],
        contents: vec![ObjectSummary { key: "p/c".to_string(), size: 9 }],
        next_continuation_token: Some("next".to_string()),
    };
    let page = list_outcome("my-bucket", "p/", Ok(response)).unwrap();
    let entries: Vec<(&str, Option<u64>, FileType)> = page
        .files
        .iter()
        .map(|file| (file.filepath.as_str(), file.size, file.filetype))
        .collect();
    assert_eq!(
        entries,
        vec![
            ("oss://my-bucket/p/a/", None, FileType::Directory),
            ("oss://my-bucket/p/b/", None, FileType::Directory),
            ("oss://my-bucket/p/c", Some(9), FileType::File),
        ]
    );
    assert_eq!(page.continuation_token, Some("next".to_string()));
}

#[test]
fn steps_of_iterating_over_a_directory() {
    let page = |token: Option<&str>| {
        let response = ListResponse {
            common_prefixes: vec!["p/a/".to_string()],
            contents: vec![],
            next_continuation_token: token.map(|token| token.to_string()),
        };
        list_outcome("b", "p/", Ok(response)).unwrap()
    };
    let first = Some("before".to_string());
    let asked = list_request("b".to_string(), "p".to_string(), true, first, Some(7));
    match OssSource::iter_dir_step(&asked, page(Some("next"))) {
        DirStep::More { entries, next } => {
            assert_eq!(entries, page(None).files);
            assert_eq!(next.bucket, "b");
            assert_eq!(next.prefix, "p/");
            assert_eq!(next.delimiter, Some('/'));
            assert_eq!(next.continuation_token, Some("next".to_string()));
            assert_eq!(next.max_keys, Some(7));
        }
        other => panic!("unexpected step {other:?}"),
    }
    for token in [None, Some("")] {
        assert_eq!(
            OssSource::iter_dir_step(&asked, page(token)),
            DirStep::Last { entries: page(None).files }
        );
    }
}

#[test]
fn listed_files_read_back() {
    let response = ListResponse {
        common_prefixes: vec!["p/a/".to_string()],
        contents: vec![ObjectSummary { key: "p/c d".to_string(), size: 0 }],
        next_continuation_token: None,
    };
    let page = list_outcome("my-bucket", "p/", Ok(response)).unwrap();
    assert_eq!(found(&page.files[0].filepath), pair("my-bucket", "p/a/"));
    assert_eq!(found(&page.files[1].filepath), pair("my-bucket", "p/c d"));
    assert_eq!(page.continuation_token, None);
}

#[test]
fn operations_address_the_same_object() {
    let uri = "oss://my-bucket//x/y z";
    let object = ("my-bucket".to_string(), "x/y z".to_string());
    for operation in [Operation::Put, Operation::GetSize, Operation::Delete, Operation::Get { range: None }] {
        let asked = match OssSource::request(uri, operation).unwrap() {
            Request::Get { bucket, key, .. } => (bucket, key),
            Request::Put { bucket, key } => (bucket, key),
            Request::Head { bucket, key } => (bucket, key),
            Request::Delete { bucket, key } => (bucket, key),
            Request::List(_) => unreachable!(),
        };
        assert_eq!(asked, object);
    }
}

#[test]
fn listings_that_fail() {
    match list_outcome("b", "p/", Err(OssError::Other("why".to_string()))) {
        Err(IoError::Generic { source: GenericSource::Oss(error), .. }) => {
            assert_eq!(error.message(), "Unable to list oss://b/p/: why");
        }
        other => panic!("unexpected result {other:?}"),
    }
}

#[test]
fn requests_of_operations() {
    let request = |uri: &str, operation| OssSource::request(uri, operation).unwrap();
    let range = Some(RangeRequest { header: "bytes=0-4".to_string(), invalid: None });
    assert_eq!(
        request("oss://b/k", Operation::Get { range }),
        Request::Get {
            bucket: "b".to_string(),
            key: "k".to_string(),
            range: Some("bytes=0-4".to_string()),
        }
    );
    assert_eq!(
        request("oss://b/k", Operation::Get { range: None }),
        Request::Get { bucket: "b".to_string(), key: "k".to_string(), range: None }
    );
    assert_eq!(
        request("oss://b/k", Operation::Put),
        Request::Put { bucket: "b".to_string(), key: "k".to_string() }
    );
    assert_eq!(
        request("oss://b/k", Operation::GetSize),
        Request::Head { bucket: "b".to_string(), key: "k".to_string() }
    );
    assert_eq!(
        request("oss://b/k", Operation::Delete),
        Request::Delete { bucket: "b".to_string(), key: "k".to_string() }
    );
    match request("oss://b", Operation::Ls { posix: true, continuation_token: None, page_size: None }) {
        Request::List(list) => {
            assert_eq!(list.prefix, "");
            assert_eq!(list.max_keys, None);
        }
        other => panic!("unexpected request {other:?}"),
    }
    match request("oss://b/d", Operation::IterDir { posix: true, page_size: None }) {
        Request::List(list) => {
            assert_eq!(list.prefix, "d/");
            assert_eq!(list.max_keys, Some(1000));
            assert_eq!(list.continuation_token, None);
        }
        other => panic!("unexpected request {other:?}"),
    }
    match request("oss://b/d", Operation::IterDir { posix: false, page_size: Some(5) }) {
        Request::List(list) => {
            assert_eq!(list.prefix, "d");
            assert_eq!(list.max_keys, Some(5));
        }
        other => panic!("unexpected request {other:?}"),
    }
}

#[test]
fn operations_that_need_a_file() {
    for operation in [Operation::Put, Operation::GetSize, Operation::Delete, Operation::Get { range: None }] {
        assert!(matches!(OssSource::request("oss://b/", operation), Err(IoError::NotAFile { .. })));
    }
}

#[test]
fn ranges_that_are_not_valid() {
    let range = || Some(RangeRequest { header: "bytes=5-1".to_string(), invalid: Some("empty".to_string()) });
    assert!(matches!(
        OssSource::request("oss://b/k", Operation::Get { range: range() }),
        Err(IoError::InvalidRangeRequest { source }) if source == "empty"
    ));
    assert!(matches!(
        OssSource::request("oss://b", Operation::Get { range: range() }),
        Err(IoError::NotAFile { .. })
    ));
}

#[test]
fn failed_reads_writes_and_deletions() {
    let missing = || OssError::StatusError { status: 404, message: "gone".to_string() };
    let broken = || OssError::StatusError { status: 403, message: "no".to_string() };
    assert!(matches!(
        OssSource::get_outcome("u", Err(missing())),
        Err(IoError::NotFound { path, .. }) if path == "u"
    ));
    assert!(matches!(
        OssSource::get_size_outcome("u", Err(broken())),
        Err(IoError::UnableToOpenFile { path, .. }) if path == "u"
    ));
    let message = |result: Result<(), IoError>| match result {
        Err(IoError::Generic { source: GenericSource::Oss(error), .. }) => error.message(),
        other => panic!("unexpected result {other:?}"),
    };
    assert_eq!(message(OssSource::put_outcome("u", Err(missing()))), "Unable to put u: gone");
    assert_eq!(message(OssSource::delete_outcome("u", Err(missing()))), "Unable to delete u: gone");
}

#[test]
fn limits_of_globs() {
    assert_eq!(OssSource::glob_limits(None, None), (Some(1024), Some(1000)));
    assert_eq!(OssSource::glob_limits(Some(1), Some(2)), (Some(1), Some(2)));
    assert!(OssSource::supports_range("oss://b/k"));
}

#[test]
fn counts_of_requests() {
    let marks = |operation| OssSource::request("oss://b/k", operation).unwrap().stat_marks(7);
    assert_eq!(marks(Operation::Get { range: None }), vec![StatMark::GetRequests(1)]);
    assert_eq!(marks(Operation::Put), vec![StatMark::PutRequests(1), StatMark::BytesUploaded(7)]);
    assert_eq!(marks(Operation::GetSize), vec![StatMark::HeadRequests(1)]);
    assert_eq!(marks(Operation::Delete), vec![StatMark::DeleteRequests(1)]);
    assert_eq!(
        marks(Operation::IterDir { posix: true, page_size: None }),
        vec![StatMark::ListRequests(1)]
    );
}
