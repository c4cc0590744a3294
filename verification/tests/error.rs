//! The messages of the errors, and what callers see of them.

use daft_backends::error::{raise, Error, GenericSource, IoError, OssError, SourceType};

fn cause() -> OssError {
    OssError::Other("why".to_string())
}

fn path() -> String {
    "oss://b/k".to_string()
}

#[test]
fn messages() {
    let id = || "id".to_string();
    let shown = [
        (
            Error::ClientCreation { endpoint: "e".to_string(), msg: "m".to_string() },
            "Failed to create OSS client with endpoint e: m",
        ),
        (
            Error::UnsupportedScheme { scheme: "s3".to_string(), path: path() },
            "Unsupported scheme: s3 in URL: \"oss://b/k\"",
        ),
        (
            Error::InvalidUrl { path: path(), source: "empty host".to_string() },
            "Unable to parse URL: \"oss://b/k\"",
        ),
        (
            Error::UnableToOpenFile { path: path(), source: cause() },
            "Unable to open oss://b/k: why",
        ),
        (
            Error::UnableToPutFile { path: path(), source: cause() },
            "Unable to put oss://b/k: why",
        ),
        (
            Error::UnableToDeleteFile { path: path(), source: cause() },
            "Unable to delete oss://b/k: why",
        ),
        (
            Error::UnableToListObjects { path: path(), source: cause() },
            "Unable to list oss://b/k: why",
        ),
        (
            Error::UnableToCreateMultipartUpload { path: path(), source: cause() },
            "Unable to create multipart upload for oss://b/k: why",
        ),
        (
            Error::UnableToUploadPart { path: path(), upload_id: id(), part_number: 12, source: cause() },
            "Unable to upload part 12 for oss://b/k with upload_id id: why",
        ),
        (
            Error::UnableToCompleteMultipartUpload { path: path(), upload_id: id(), source: cause() },
            "Unable to complete multipart upload oss://b/k with upload_id id: why",
        ),
        (
            Error::UnableToGrabSemaphore { source: "semaphore closed".to_string() },
            "Unable to grab semaphore: semaphore closed",
        ),
        (
            Error::MaxRetriesExceeded { retries: 4, err_msg: "busy".to_string() },
            "Operation failed after 4 retries: busy",
        ),
        (Error::NotFound { path: path(), source: cause() }, "Not found: oss://b/k"),
        (
            Error::Generic { path: path(), source: cause() },
            "Generic error for oss://b/k: why",
        ),
    ];
    for (error, message) in shown {
        assert_eq!(error.message(), message);
    }
}

#[test]
fn causes() {
    let shown = [
        OssError::ReqwestError("a".to_string()),
        OssError::IoError("a".to_string()),
        OssError::ApiError { code: "c".to_string(), message: "a".to_string() },
        OssError::StatusError { status: 500, message: "a".to_string() },
        OssError::Malformed("a".to_string()),
        OssError::Other("a".to_string()),
    ];
    for error in shown {
        assert_eq!(error.message(), "a");
    }
}

#[test]
fn errors_that_callers_tell_apart() {
    assert!(matches!(
        raise(Error::ClientCreation { endpoint: "e".to_string(), msg: "m".to_string() }),
        IoError::UnableToCreateClient { store: SourceType::Oss, source } if source == "m"
    ));
    assert!(matches!(
        raise(Error::InvalidUrl { path: path(), source: "empty host".to_string() }),
        IoError::InvalidUrl { path, source } if path == "oss://b/k" && source == "empty host"
    ));
    assert!(matches!(
        raise(Error::NotFound { path: path(), source: cause() }),
        IoError::NotFound { path, source: OssError::Other(_) } if path == "oss://b/k"
    ));
    assert!(matches!(
        IoError::from(Error::UnableToOpenFile { path: path(), source: cause() }),
        IoError::UnableToOpenFile { path, .. } if path == "oss://b/k"
    ));
}

#[test]
fn other_errors_are_generic() {
    match raise(Error::MaxRetriesExceeded { retries: 4, err_msg: "busy".to_string() }) {
        IoError::Generic { store: SourceType::Oss, source: GenericSource::Oss(error) } => {
            assert_eq!(error.message(), "Operation failed after 4 retries: busy");
        }
        other => panic!("unexpected error {other:?}"),
    }
    match raise(Error::UnableToGrabSemaphore { source: "closed".to_string() }) {
        IoError::Generic { store: SourceType::Oss, source: GenericSource::Oss(error) } => {
            assert_eq!(error.message(), "Unable to grab semaphore: closed");
        }
        other => panic!("unexpected error {other:?}"),
    }
}
