//! Errors: what the storage service answered, what the object store makes of it,
//! and what its callers see.

use vstd::prelude::*;

use crate::text;

verus! {

/// An answer of the storage service, or of the connection to it, that is no
/// success. Each variant carries the text that describes it.
#[derive(Debug)]
pub enum OssError {
    /// The request could not be carried out.
    ReqwestError(String),
    /// Reading or writing failed.
    IoError(String),
    /// The service refused the request with an error code.
    ApiError { code: String, message: String },
    /// The service answered with a bare HTTP status.
    StatusError { status: u16, message: String },
    /// The request or the answer was malformed.
    Malformed(String),
    /// Anything else.
    Other(String),
}

/// The view of an [`OssError`].
pub enum OssErrorView {
    ReqwestError(Seq<char>),
    IoError(Seq<char>),
    ApiError { code: Seq<char>, message: Seq<char> },
    StatusError { status: u16, message: Seq<char> },
    Malformed(Seq<char>),
    Other(Seq<char>),
}

impl View for OssError {
    type V = OssErrorView;

    open spec fn view(&self) -> OssErrorView {
        match *self {
            OssError::ReqwestError(message) => OssErrorView::ReqwestError(message@),
            OssError::IoError(message) => OssErrorView::IoError(message@),
            OssError::ApiError { code, message } => OssErrorView::ApiError {
                code: code@,
                message: message@,
            },
            OssError::StatusError { status, message } => OssErrorView::StatusError {
                status,
                message: message@,
            },
            OssError::Malformed(message) => OssErrorView::Malformed(message@),
            OssError::Other(message) => OssErrorView::Other(message@),
        }
    }
}

impl OssErrorView {
    /// The text that describes the error.
    pub open spec fn message(self) -> Seq<char> {
        match self {
            OssErrorView::ReqwestError(message) => message,
            OssErrorView::IoError(message) => message,
            OssErrorView::ApiError { code, message } => message,
            OssErrorView::StatusError { status, message } => message,
            OssErrorView::Malformed(message) => message,
            OssErrorView::Other(message) => message,
        }
    }
}

impl OssError {
    /// The text that describes the error.
    pub fn message(&self) -> (text: &String)
        ensures
            text@ == self@.message(),
    {
        match self {
            OssError::ReqwestError(message) => message,
            OssError::IoError(message) => message,
            OssError::ApiError { code: _, message } => message,
            OssError::StatusError { status: _, message } => message,
            OssError::Malformed(message) => message,
            OssError::Other(message) => message,
        }
    }
}

/// What an operation on the object store failed with.
#[derive(Debug)]
pub enum Error {
    ClientCreation { endpoint: String, msg: String },
    UnsupportedScheme { scheme: String, path: String },
    InvalidUrl { path: String, source: String },
    UnableToOpenFile { path: String, source: OssError },
    UnableToPutFile { path: String, source: OssError },
    UnableToDeleteFile { path: String, source: OssError },
    UnableToListObjects { path: String, source: OssError },
    UnableToCreateMultipartUpload { path: String, source: OssError },
    UnableToUploadPart { path: String, upload_id: String, part_number: usize, source: OssError },
    UnableToCompleteMultipartUpload { path: String, upload_id: String, source: OssError },
    UnableToGrabSemaphore { source: String },
    MaxRetriesExceeded { retries: u32, err_msg: String },
    NotFound { path: String, source: OssError },
    Generic { path: String, source: OssError },
}

/// The view of an [`Error`].
pub enum ErrorView {
    ClientCreation { endpoint: Seq<char>, msg: Seq<char> },
    UnsupportedScheme { scheme: Seq<char>, path: Seq<char> },
    InvalidUrl { path: Seq<char>, source: Seq<char> },
    UnableToOpenFile { path: Seq<char>, source: OssErrorView },
    UnableToPutFile { path: Seq<char>, source: OssErrorView },
    UnableToDeleteFile { path: Seq<char>, source: OssErrorView },
    UnableToListObjects { path: Seq<char>, source: OssErrorView },
    UnableToCreateMultipartUpload { path: Seq<char>, source: OssErrorView },
    UnableToUploadPart {
        path: Seq<char>,
        upload_id: Seq<char>,
        part_number: usize,
        source: OssErrorView,
    },
    UnableToCompleteMultipartUpload {
        path: Seq<char>,
        upload_id: Seq<char>,
        source: OssErrorView,
    },
    UnableToGrabSemaphore { source: Seq<char> },
    MaxRetriesExceeded { retries: u32, err_msg: Seq<char> },
    NotFound { path: Seq<char>, source: OssErrorView },
    Generic { path: Seq<char>, source: OssErrorView },
}

impl View for Error {
    type V = ErrorView;

    open spec fn view(&self) -> ErrorView {
        match *self {
            Error::ClientCreation { endpoint, msg } => ErrorView::ClientCreation {
                endpoint: endpoint@,
                msg: msg@,
            },
            Error::UnsupportedScheme { scheme, path } => ErrorView::UnsupportedScheme {
                scheme: scheme@,
                path: path@,
            },
            Error::InvalidUrl { path, source } => ErrorView::InvalidUrl {
                path: path@,
                source: source@,
            },
            Error::UnableToOpenFile { path, source } => ErrorView::UnableToOpenFile {
                path: path@,
                source: source@,
            },
            Error::UnableToPutFile { path, source } => ErrorView::UnableToPutFile {
                path: path@,
                source: source@,
            },
            Error::UnableToDeleteFile { path, source } => ErrorView::UnableToDeleteFile {
                path: path@,
                source: source@,
            },
            Error::UnableToListObjects { path, source } => ErrorView::UnableToListObjects {
                path: path@,
                source: source@,
            },
            Error::UnableToCreateMultipartUpload {
                path,
                source,
            } => ErrorView::UnableToCreateMultipartUpload { path: path@, source: source@ },
            Error::UnableToUploadPart {
                path,
                upload_id,
                part_number,
                source,
            } => ErrorView::UnableToUploadPart {
                path: path@,
                upload_id: upload_id@,
                part_number,
                source: source@,
            },
            Error::UnableToCompleteMultipartUpload {
                path,
                upload_id,
                source,
            } => ErrorView::UnableToCompleteMultipartUpload {
                path: path@,
                upload_id: upload_id@,
                source: source@,
            },
            Error::UnableToGrabSemaphore { source } => ErrorView::UnableToGrabSemaphore {
                source: source@,
            },
            Error::MaxRetriesExceeded { retries, err_msg } => ErrorView::MaxRetriesExceeded {
                retries,
                err_msg: err_msg@,
            },
            Error::NotFound { path, source } => ErrorView::NotFound {
                path: path@,
                source: source@,
            },
            Error::Generic { path, source } => ErrorView::Generic { path: path@, source: source@ },
        }
    }
}

impl ErrorView {
    /// The message that is shown for the error.
    pub open spec fn message(self) -> Seq<char> {
        match self {
            ErrorView::ClientCreation { endpoint, msg } => {
                "Failed to create OSS client with endpoint "@ + endpoint + ": "@ + msg
            },
            ErrorView::UnsupportedScheme { scheme, path } => {
                "Unsupported scheme: "@ + scheme + " in URL: \""@ + path + "\""@
            },
            ErrorView::InvalidUrl { path, source } => "Unable to parse URL: \""@ + path + "\""@,
            ErrorView::UnableToOpenFile { path, source } => {
                "Unable to open "@ + path + ": "@ + source.message()
            },
            ErrorView::UnableToPutFile { path, source } => {
                "Unable to put "@ + path + ": "@ + source.message()
            },
            ErrorView::UnableToDeleteFile { path, source } => {
                "Unable to delete "@ + path + ": "@ + source.message()
            },
            ErrorView::UnableToListObjects { path, source } => {
                "Unable to list "@ + path + ": "@ + source.message()
            },
            ErrorView::UnableToCreateMultipartUpload { path, source } => {
                "Unable to create multipart upload for "@ + path + ": "@ + source.message()
            },
            ErrorView::UnableToUploadPart { path, upload_id, part_number, source } => {
                "Unable to upload part "@ + text::decimal(part_number as nat) + " for "@ + path
                    + " with upload_id "@ + upload_id + ": "@ + source.message()
            },
            ErrorView::UnableToCompleteMultipartUpload { path, upload_id, source } => {
                "Unable to complete multipart upload "@ + path + " with upload_id "@ + upload_id
                    + ": "@ + source.message()
            },
            ErrorView::UnableToGrabSemaphore { source } => "Unable to grab semaphore: "@ + source,
            ErrorView::MaxRetriesExceeded { retries, err_msg } => {
                "Operation failed after "@ + text::decimal(retries as nat) + " retries: "@ + err_msg
            },
            ErrorView::NotFound { path, source } => "Not found: "@ + path,
            ErrorView::Generic { path, source } => {
                "Generic error for "@ + path + ": "@ + source.message()
            },
        }
    }
}

impl Error {
    /// The message that is shown for the error.
    pub fn message(&self) -> (shown: String)
        ensures
            shown@ == self@.message(),
    {
        match self {
            Error::ClientCreation { endpoint, msg } => text::join4(
                "Failed to create OSS client with endpoint ",
                endpoint.as_str(),
                ": ",
                msg.as_str(),
            ),
            Error::UnsupportedScheme { scheme, path } => {
                let mut shown = text::join4(
                    "Unsupported scheme: ",
                    scheme.as_str(),
                    " in URL: \"",
                    path.as_str(),
                );
                shown.append("\"");
                shown
            },
            Error::InvalidUrl { path, source: _ } => text::join3(
                "Unable to parse URL: \"",
                path.as_str(),
                "\"",
            ),
            Error::UnableToOpenFile { path, source } => text::join4(
                "Unable to open ",
                path.as_str(),
                ": ",
                source.message().as_str(),
            ),
            Error::UnableToPutFile { path, source } => text::join4(
                "Unable to put ",
                path.as_str(),
                ": ",
                source.message().as_str(),
            ),
            Error::UnableToDeleteFile { path, source } => text::join4(
                "Unable to delete ",
                path.as_str(),
                ": ",
                source.message().as_str(),
            ),
            Error::UnableToListObjects { path, source } => text::join4(
                "Unable to list ",
                path.as_str(),
                ": ",
                source.message().as_str(),
            ),
            Error::UnableToCreateMultipartUpload { path, source } => text::join4(
                "Unable to create multipart upload for ",
                path.as_str(),
                ": ",
                source.message().as_str(),
            ),
            Error::UnableToUploadPart { path, upload_id, part_number, source } => {
                let number = text::decimal_text(*part_number as u64);
                let mut shown = text::join4(
                    "Unable to upload part ",
                    number.as_str(),
                    " for ",
                    path.as_str(),
                );
                shown.append(" with upload_id ");
                shown.append(upload_id.as_str());
                shown.append(": ");
                shown.append(source.message().as_str());
                shown
            },
            Error::UnableToCompleteMultipartUpload { path, upload_id, source } => {
                let mut shown = text::join4(
                    "Unable to complete multipart upload ",
                    path.as_str(),
                    " with upload_id ",
                    upload_id.as_str(),
                );
                shown.append(": ");
                shown.append(source.message().as_str());
                shown
            },
            Error::UnableToGrabSemaphore { source } => text::join2(
                "Unable to grab semaphore: ",
                source.as_str(),
            ),
            Error::MaxRetriesExceeded { retries, err_msg } => {
                let count = text::decimal_text(*retries as u64);
                text::join4(
                    "Operation failed after ",
                    count.as_str(),
                    " retries: ",
                    err_msg.as_str(),
                )
            },
            Error::NotFound { path, source: _ } => text::join2("Not found: ", path.as_str()),
            Error::Generic { path, source } => text::join4(
                "Generic error for ",
                path.as_str(),
                ": ",
                source.message().as_str(),
            ),
        }
    }
}

/// The kind of store that an error comes from.
#[derive(Clone, Copy, Debug, PartialEq, Eq, Structural)]
pub enum SourceType {
    Oss,
}

/// The cause of a generic error.
#[derive(Debug)]
pub enum GenericSource {
    /// An error of the object store.
    Oss(Error),
    /// A plain message.
    Message(String),
}

/// The view of a [`GenericSource`].
pub enum GenericSourceView {
    Oss(ErrorView),
    Message(Seq<char>),
}

impl View for GenericSource {
    type V = GenericSourceView;

    open spec fn view(&self) -> GenericSourceView {
        match *self {
            GenericSource::Oss(error) => GenericSourceView::Oss(error@),
            GenericSource::Message(message) => GenericSourceView::Message(message@),
        }
    }
}

/// What the callers of the store see.
#[derive(Debug)]
pub enum IoError {
    UnableToCreateClient { store: SourceType, source: String },
    InvalidUrl { path: String, source: String },
    NotFound { path: String, source: OssError },
    UnableToOpenFile { path: String, source: OssError },
    NotAFile { path: String },
    InvalidRangeRequest { source: String },
    JoinError { source: String },
    Generic { store: SourceType, source: GenericSource },
}

/// The view of an [`IoError`].
pub enum IoErrorView {
    UnableToCreateClient { store: SourceType, source: Seq<char> },
    InvalidUrl { path: Seq<char>, source: Seq<char> },
    NotFound { path: Seq<char>, source: OssErrorView },
    UnableToOpenFile { path: Seq<char>, source: OssErrorView },
    NotAFile { path: Seq<char> },
    InvalidRangeRequest { source: Seq<char> },
    JoinError { source: Seq<char> },
    Generic { store: SourceType, source: GenericSourceView },
}

impl View for IoError {
    type V = IoErrorView;

    open spec fn view(&self) -> IoErrorView {
        match *self {
            IoError::UnableToCreateClient { store, source } => IoErrorView::UnableToCreateClient {
                store,
                source: source@,
            },
            IoError::InvalidUrl { path, source } => IoErrorView::InvalidUrl {
                path: path@,
                source: source@,
            },
            IoError::NotFound { path, source } => IoErrorView::NotFound {
                path: path@,
                source: source@,
            },
            IoError::UnableToOpenFile { path, source } => IoErrorView::UnableToOpenFile {
                path: path@,
                source: source@,
            },
            IoError::NotAFile { path } => IoErrorView::NotAFile { path: path@ },
            IoError::InvalidRangeRequest { source } => IoErrorView::InvalidRangeRequest {
                source: source@,
            },
            IoError::JoinError { source } => IoErrorView::JoinError { source: source@ },
            IoError::Generic { store, source } => IoErrorView::Generic { store, source: source@ },
        }
    }
}

impl ErrorView {
    /// What the callers of the store see of the error: a failed client creation,
    /// an invalid URL, a missing object and an object that cannot be opened as
    /// such, and anything else as the cause of a generic error.
    pub open spec fn seen_by_callers(self) -> IoErrorView {
        match self {
            ErrorView::ClientCreation { endpoint, msg } => IoErrorView::UnableToCreateClient {
                store: SourceType::Oss,
                source: msg,
            },
            ErrorView::InvalidUrl { path, source } => IoErrorView::InvalidUrl { path, source },
            ErrorView::NotFound { path, source } => IoErrorView::NotFound { path, source },
            ErrorView::UnableToOpenFile { path, source } => IoErrorView::UnableToOpenFile {
                path,
                source,
            },
            _ => IoErrorView::Generic {
                store: SourceType::Oss,
                source: GenericSourceView::Oss(self),
            },
        }
    }
}

/// What the callers of the store see of `error`.
pub open spec fn io_error_of(error: Error) -> IoError {
    match error {
        Error::ClientCreation { endpoint, msg } => IoError::UnableToCreateClient {
            store: SourceType::Oss,
            source: msg,
        },
        Error::InvalidUrl { path, source } => IoError::InvalidUrl { path, source },
        Error::NotFound { path, source } => IoError::NotFound { path, source },
        Error::UnableToOpenFile { path, source } => IoError::UnableToOpenFile { path, source },
        _ => IoError::Generic { store: SourceType::Oss, source: GenericSource::Oss(error) },
    }
}

impl vstd::std_specs::convert::FromSpecImpl<Error> for IoError {
    open spec fn obeys_from_spec() -> bool {
        true
    }

    open spec fn from_spec(error: Error) -> Self {
        io_error_of(error)
    }
}

impl From<Error> for IoError {
    fn from(error: Error) -> (seen: Self) {
        match error {
            Error::ClientCreation { endpoint: _, msg } => IoError::UnableToCreateClient {
                store: SourceType::Oss,
                source: msg,
            },
            Error::InvalidUrl { path, source } => IoError::InvalidUrl { path, source },
            Error::NotFound { path, source } => IoError::NotFound { path, source },
            Error::UnableToOpenFile { path, source } => IoError::UnableToOpenFile { path, source },
            Error::MaxRetriesExceeded { retries, err_msg } => IoError::Generic {
                store: SourceType::Oss,
                source: GenericSource::Oss(Error::MaxRetriesExceeded { retries, err_msg }),
            },
            err => IoError::Generic { store: SourceType::Oss, source: GenericSource::Oss(err) },
        }
    }
}

/// Converting an error keeps what `seen_by_callers` says of it.
pub proof fn lemma_io_error_view(error: Error)
    ensures
        io_error_of(error)@ == error@.seen_by_callers(),
{
}

/// Hands `error` to the callers of the store.
pub fn raise(error: Error) -> (seen: IoError)
    ensures
        seen == io_error_of(error),
        seen@ == error@.seen_by_callers(),
{
    proof {
        lemma_io_error_view(error);
    }
    IoError::from(error)
}

/// What a shuffle operation or an optimization fails with.
#[derive(Debug, PartialEq, Eq)]
pub enum DaftError {
    /// Something outside of the library failed.
    External(String),
    /// The library cannot do what is asked of it.
    InternalError(String),
}

/// The view of a [`DaftError`].
pub enum DaftErrorView {
    External(Seq<char>),
    InternalError(Seq<char>),
}

impl View for DaftError {
    type V = DaftErrorView;

    open spec fn view(&self) -> DaftErrorView {
        match *self {
            DaftError::External(message) => DaftErrorView::External(message@),
            DaftError::InternalError(message) => DaftErrorView::InternalError(message@),
        }
    }
}

/// The message of an error says what was done, on what, and why it failed: every text and
/// number of the error stands in it, but for the cause of a missing object and of an
/// invalid URL. `cause` is the message of what the service answered.
pub proof fn law_messages_tell_what_failed(error: Error, shown: String, cause: Seq<char>)
    requires
        call_ensures(Error::message, (&error,), shown),
        error@.cause() matches Some(source) ==> source.message() == cause,
    ensures
        match error {
            Error::ClientCreation { endpoint, msg } => shown@
                == "Failed to create OSS client with endpoint "@ + endpoint@ + ": "@ + msg@,
            Error::UnsupportedScheme { scheme, path } => shown@ == "Unsupported scheme: "@
                + scheme@ + " in URL: \""@ + path@ + "\""@,
            Error::InvalidUrl { path, source } => shown@ == "Unable to parse URL: \""@ + path@
                + "\""@,
            Error::UnableToOpenFile { path, source } => shown@ == "Unable to open "@ + path@
                + ": "@ + cause,
            Error::UnableToPutFile { path, source } => shown@ == "Unable to put "@ + path@ + ": "@
                + cause,
            Error::UnableToDeleteFile { path, source } => shown@ == "Unable to delete "@ + path@
                + ": "@ + cause,
            Error::UnableToListObjects { path, source } => shown@ == "Unable to list "@ + path@
                + ": "@ + cause,
            Error::UnableToCreateMultipartUpload { path, source } => shown@
                == "Unable to create multipart upload for "@ + path@ + ": "@ + cause,
            Error::UnableToUploadPart { path, upload_id, part_number, source } => shown@
                == "Unable to upload part "@ + text::decimal(part_number as nat) + " for "@ + path@
                + " with upload_id "@ + upload_id@ + ": "@ + cause,
            Error::UnableToCompleteMultipartUpload { path, upload_id, source } => shown@
                == "Unable to complete multipart upload "@ + path@ + " with upload_id "@
                + upload_id@ + ": "@ + cause,
            Error::UnableToGrabSemaphore { source } => shown@ == "Unable to grab semaphore: "@
                + source@,
            Error::MaxRetriesExceeded { retries, err_msg } => shown@ == "Operation failed after "@
                + text::decimal(retries as nat) + " retries: "@ + err_msg@,
            Error::NotFound { path, source } => shown@ == "Not found: "@ + path@,
            Error::Generic { path, source } => shown@ == "Generic error for "@ + path@ + ": "@
                + cause,
        },
{
}

impl ErrorView {
    /// What the service answered, where the error comes of an answer.
    pub open spec fn cause(self) -> Option<OssErrorView> {
        match self {
            ErrorView::UnableToOpenFile { path, source } => Some(source),
            ErrorView::UnableToPutFile { path, source } => Some(source),
            ErrorView::UnableToDeleteFile { path, source } => Some(source),
            ErrorView::UnableToListObjects { path, source } => Some(source),
            ErrorView::UnableToCreateMultipartUpload { path, source } => Some(source),
            ErrorView::UnableToUploadPart { path, upload_id, part_number, source } => Some(source),
            ErrorView::UnableToCompleteMultipartUpload { path, upload_id, source } => Some(source),
            ErrorView::NotFound { path, source } => Some(source),
            ErrorView::Generic { path, source } => Some(source),
            _ => None,
        }
    }
}

/// The message of an answer of the service is the text that came with it.
pub proof fn law_answers_keep_their_message(error: OssError, shown: &String)
    requires
        call_ensures(OssError::message, (&error,), shown),
    ensures
        shown@ == error@.message(),
        match error {
            OssError::ReqwestError(message) => shown@ == message@,
            OssError::IoError(message) => shown@ == message@,
            OssError::ApiError { code, message } => shown@ == message@,
            OssError::StatusError { status, message } => shown@ == message@,
            OssError::Malformed(message) => shown@ == message@,
            OssError::Other(message) => shown@ == message@,
        },
{
}

/// Two answers that look the same are of the same kind and have the same texts and
/// numbers.
pub proof fn law_answer_views_are_faithful(a: OssError, b: OssError)
    requires
        a@ == b@,
    ensures
        match a {
            OssError::ReqwestError(m) => b matches OssError::ReqwestError(n) && n@ == m@,
            OssError::IoError(m) => b matches OssError::IoError(n) && n@ == m@,
            OssError::ApiError { code: c, message: m } => b matches OssError::ApiError {
                code,
                message,
            } && code@ == c@ && message@ == m@,
            OssError::StatusError { status: s, message: m } => b matches OssError::StatusError {
                status,
                message,
            } && status == s && message@ == m@,
            OssError::Malformed(m) => b matches OssError::Malformed(n) && n@ == m@,
            OssError::Other(m) => b matches OssError::Other(n) && n@ == m@,
        },
{
}

/// Two errors that look the same are of the same kind and have the same texts, numbers
/// and causes.
pub proof fn law_error_views_are_faithful(a: Error, b: Error)
    requires
        a@ == b@,
    ensures
        match a {
            Error::ClientCreation { endpoint: e, msg: m } => b matches Error::ClientCreation {
                endpoint,
                msg,
            } && endpoint@ == e@ && msg@ == m@,
            Error::UnsupportedScheme { scheme: s, path: p } => b matches Error::UnsupportedScheme {
                scheme,
                path,
            } && scheme@ == s@ && path@ == p@,
            Error::InvalidUrl { path: p, source: s } => b matches Error::InvalidUrl {
                path,
                source,
            } && path@ == p@ && source@ == s@,
            Error::UnableToOpenFile { path: p, source: s } => b matches Error::UnableToOpenFile {
                path,
                source,
            } && path@ == p@ && source@ == s@,
            Error::UnableToPutFile { path: p, source: s } => b matches Error::UnableToPutFile {
                path,
                source,
            } && path@ == p@ && source@ == s@,
            Error::UnableToDeleteFile {
                path: p,
                source: s,
            } => b matches Error::UnableToDeleteFile { path, source } && path@ == p@ && source@
                == s@,
            Error::UnableToListObjects {
                path: p,
                source: s,
            } => b matches Error::UnableToListObjects { path, source } && path@ == p@ && source@
                == s@,
            Error::UnableToCreateMultipartUpload {
                path: p,
                source: s,
            } => b matches Error::UnableToCreateMultipartUpload { path, source } && path@ == p@
                && source@ == s@,
            Error::UnableToUploadPart {
                path: p,
                upload_id: u,
                part_number: n,
                source: s,
            } => b matches Error::UnableToUploadPart { path, upload_id, part_number, source }
                && path@ == p@ && upload_id@ == u@ && part_number == n && source@ == s@,
            Error::UnableToCompleteMultipartUpload {
                path: p,
                upload_id: u,
                source: s,
            } => b matches Error::UnableToCompleteMultipartUpload { path, upload_id, source }
                && path@ == p@ && upload_id@ == u@ && source@ == s@,
            Error::UnableToGrabSemaphore {
                source: s,
            } => b matches Error::UnableToGrabSemaphore { source } && source@ == s@,
            Error::MaxRetriesExceeded {
                retries: r,
                err_msg: m,
            } => b matches Error::MaxRetriesExceeded { retries, err_msg } && retries == r
                && err_msg@ == m@,
            Error::NotFound { path: p, source: s } => b matches Error::NotFound { path, source }
                && path@ == p@ && source@ == s@,
            Error::Generic { path: p, source: s } => b matches Error::Generic { path, source }
                && path@ == p@ && source@ == s@,
        },
{
}

/// What callers see of an error keeps its texts and its cause: a failed client creation,
/// an invalid URL, a missing object and one that cannot be opened are told apart, and any
/// other error is the cause of a generic one, unchanged.
pub proof fn law_callers_see_the_whole_error(error: Error, seen: IoError)
    requires
        call_ensures(raise, (error,), seen),
    ensures
        match error {
            Error::ClientCreation { endpoint, msg } => seen
                == (IoError::UnableToCreateClient { store: SourceType::Oss, source: msg }),
            Error::InvalidUrl { path, source } => seen == (IoError::InvalidUrl { path, source }),
            Error::NotFound { path, source } => seen == (IoError::NotFound { path, source }),
            Error::UnableToOpenFile { path, source } => seen
                == (IoError::UnableToOpenFile { path, source }),
            _ => seen
                == (IoError::Generic { store: SourceType::Oss, source: GenericSource::Oss(error) }),
        },
{
}

/// Two errors that look the same to callers are of the same kind and have the same texts
/// and causes.
pub proof fn law_seen_views_are_faithful(a: IoError, b: IoError)
    requires
        a@ == b@,
    ensures
        match a {
            IoError::UnableToCreateClient { store: t, source: s } => {
                &&& b matches IoError::UnableToCreateClient { store, source }
                &&& store == t
                &&& source@ == s@
            },
            IoError::InvalidUrl { path: p, source: s } => {
                &&& b matches IoError::InvalidUrl { path, source }
                &&& path@ == p@
                &&& source@ == s@
            },
            IoError::NotFound { path: p, source: s } => {
                &&& b matches IoError::NotFound { path, source }
                &&& path@ == p@
                &&& source@ == s@
            },
            IoError::UnableToOpenFile { path: p, source: s } => {
                &&& b matches IoError::UnableToOpenFile { path, source }
                &&& path@ == p@
                &&& source@ == s@
            },
            IoError::NotAFile { path: p } => b matches IoError::NotAFile { path } && path@ == p@,
            IoError::InvalidRangeRequest {
                source: s,
            } => b matches IoError::InvalidRangeRequest { source } && source@ == s@,
            IoError::JoinError { source: s } => b matches IoError::JoinError { source } && source@
                == s@,
            IoError::Generic { store: t, source: GenericSource::Oss(e) } => {
                &&& b matches IoError::Generic { store, source: GenericSource::Oss(f) }
                &&& store == t
                &&& f@ == e@
            },
            IoError::Generic { store: t, source: GenericSource::Message(m) } => {
                &&& b matches IoError::Generic { store, source: GenericSource::Message(n) }
                &&& store == t
                &&& n@ == m@
            },
        },
{
}

/// Two errors of a shuffle that look the same are of the same kind and have the same text.
pub proof fn law_shuffle_error_views_are_faithful(a: DaftError, b: DaftError)
    requires
        a@ == b@,
    ensures
        match a {
            DaftError::External(m) => b matches DaftError::External(n) && n@ == m@,
            DaftError::InternalError(m) => b matches DaftError::InternalError(n) && n@ == m@,
        },
{
}

} // verus!
