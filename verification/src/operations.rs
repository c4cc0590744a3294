//! The operations on objects: what each asks of the service, and what is made of
//! the answer.

use vstd::prelude::*;

use crate::error::raise;
use crate::error::Error;
use crate::error::ErrorView;
use crate::error::GenericSource;
use crate::error::IoError;
use crate::error::IoErrorView;
use crate::error::OssError;
use crate::listing;
use crate::listing::FileMetadata;
use crate::listing::LSResult;
use crate::listing::ListRequest;
use crate::listing::ListRequestView;
use crate::location;
use crate::retry;
use crate::source::OssSource;
use crate::source::DEFAULT_GLOB_FANOUT_LIMIT;
use crate::source::DEFAULT_PAGE_SIZE;
use crate::text;

verus! {

/// A range of bytes that is asked for.
#[derive(Debug)]
pub struct RangeRequest {
    /// The value of the range header.
    pub header: String,
    /// Why the range is not valid, if it is not.
    pub invalid: Option<String>,
}

/// An operation on what a URL names.
#[derive(Debug)]
pub enum Operation {
    /// Read the object, or a range of it.
    Get { range: Option<RangeRequest> },
    /// Write the object.
    Put,
    /// Ask for the size of the object.
    GetSize,
    /// Delete the object.
    Delete,
    /// List one page of the entries below the key.
    Ls { posix: bool, continuation_token: Option<String>, page_size: Option<i32> },
    /// List the entries below the key, from the first page on.
    IterDir { posix: bool, page_size: Option<i32> },
}

/// What is asked of the service for an operation.
#[derive(Debug, PartialEq, Eq)]
pub enum Request {
    Get { bucket: String, key: String, range: Option<String> },
    Put { bucket: String, key: String },
    Head { bucket: String, key: String },
    Delete { bucket: String, key: String },
    List(ListRequest),
}

/// What follows a page of a directory that is iterated over.
#[derive(Debug, PartialEq, Eq)]
pub enum DirStep {
    /// Yield these entries; there are no more.
    Last { entries: Vec<FileMetadata> },
    /// Yield these entries, then ask for the next page.
    More { entries: Vec<FileMetadata>, next: ListRequest },
}

impl DirStep {
    /// The entries that are yielded.
    pub open spec fn entries(self) -> Seq<FileMetadata> {
        match self {
            DirStep::Last { entries } => entries@,
            DirStep::More { entries, next } => entries@,
        }
    }

    /// Whether the step asks for a next page by `asked`.
    pub open spec fn leads_to(self, asked: ListRequestView) -> bool {
        self matches DirStep::More { entries, next } && next@ == asked
    }

    /// Whether the step follows `page`, which `asked` asked for.
    pub open spec fn follows(self, asked: ListRequestView, page: LSResult) -> bool {
        match page.continuation_token {
            None => self == (DirStep::Last { entries: page.files }),
            Some(token) => {
                &&& self matches DirStep::More { entries, next }
                &&& entries == page.files
                &&& next@ == asked.starting_at(token@)
            },
        }
    }
}

/// All that is yielded by `steps`, in order.
pub open spec fn yielded(steps: Seq<DirStep>) -> Seq<FileMetadata>
    decreases steps.len(),
{
    if steps.len() == 0 {
        Seq::empty()
    } else {
        steps[0].entries() + yielded(steps.skip(1))
    }
}

/// The files of `pages`, in order, up to the first page without a token.
pub open spec fn files_until_last(pages: Seq<LSResult>) -> Seq<FileMetadata>
    decreases pages.len(),
{
    if pages.len() == 0 {
        Seq::empty()
    } else if pages[0].continuation_token is None {
        pages[0].files@
    } else {
        pages[0].files@ + files_until_last(pages.skip(1))
    }
}

/// Whether `asked`, `pages` and `steps` are those of iterating over a directory, as far
/// as it went: each page is followed by its step, and the next page is the one that
/// the step asks for.
pub open spec fn is_dir_run(
    asked: Seq<ListRequestView>,
    pages: Seq<LSResult>,
    steps: Seq<DirStep>,
) -> bool {
    &&& asked.len() == pages.len()
    &&& steps.len() == pages.len()
    &&& forall|i: int|
        0 <= i < pages.len() ==> (#[trigger] steps[i]).follows(asked[i], pages[i])
    &&& forall|i: int|
        0 < i < pages.len() ==> steps[i - 1].leads_to(#[trigger] asked[i])
}

impl Operation {
    /// Whether the operation is on a bucket or a directory as well as on a file.
    pub open spec fn allows_empty_key(self) -> bool {
        self is Ls || self is IterDir
    }

    /// Why the operation is refused whatever it is on, if it is.
    pub open spec fn refusal(self) -> Option<IoErrorView> {
        match self {
            Operation::Get { range: Some(RangeRequest { header, invalid: Some(reason) }) } => Some(
                IoErrorView::InvalidRangeRequest { source: reason@ },
            ),
            _ => None,
        }
    }

    /// Whether `request` is what the operation asks of the service for the object,
    /// or the entries below, `key` in `bucket`.
    pub open spec fn asks(self, bucket: Seq<char>, key: Seq<char>, request: Request) -> bool {
        match self {
            Operation::Get { range } => {
                &&& request matches Request::Get { bucket: b, key: k, range: r }
                &&& b@ == bucket
                &&& k@ == key
                &&& text::option_view(r) == (match range {
                    Some(range) => Some(range.header@),
                    None => None,
                })
            },
            Operation::Put => {
                &&& request matches Request::Put { bucket: b, key: k }
                &&& b@ == bucket
                &&& k@ == key
            },
            Operation::GetSize => {
                &&& request matches Request::Head { bucket: b, key: k }
                &&& b@ == bucket
                &&& k@ == key
            },
            Operation::Delete => {
                &&& request matches Request::Delete { bucket: b, key: k }
                &&& b@ == bucket
                &&& k@ == key
            },
            Operation::Ls { posix, continuation_token, page_size } => {
                &&& request matches Request::List(list)
                &&& listing::asks_for(
                    list@,
                    bucket,
                    key,
                    posix,
                    text::option_view(continuation_token),
                    page_size,
                )
            },
            Operation::IterDir { posix, page_size } => {
                &&& request matches Request::List(list)
                &&& listing::asks_for(
                    list@,
                    bucket,
                    key,
                    posix,
                    None,
                    Some(or_default(page_size, DEFAULT_PAGE_SIZE)),
                )
            },
        }
    }

    /// Whether `result` is what the operation on a place comes to before the
    /// service is asked: the error of the place, else the refusal, else the
    /// request.
    pub open spec fn comes_to(
        self,
        place: Result<(Seq<char>, Seq<char>), IoErrorView>,
        result: Result<Request, IoError>,
    ) -> bool {
        match place {
            Err(error) => result matches Err(seen) && seen@ == error,
            Ok((bucket, key)) => match self.refusal() {
                Some(error) => result matches Err(seen) && seen@ == error,
                None => result matches Ok(request) && self.asks(bucket, key, request),
            },
        }
    }

    /// Whether `result` is what the operation on a plain URL comes to before the
    /// service is asked: the URL names the object, or the entries below, its path;
    /// where a file is needed and the path is empty, it is not that of a file.
    pub open spec fn comes_to_plain(
        self,
        bucket: Seq<char>,
        rest: Seq<char>,
        result: Result<Request, IoError>,
    ) -> bool {
        let key = text::trim_start(rest, location::DELIMITER);
        if key.len() == 0 && !self.allows_empty_key() {
            result matches Err(error) && error is NotAFile
        } else {
            self.comes_to(Ok((bucket, key)), result)
        }
    }
}

/// An optional value, or its default.
pub open spec fn or_default<T>(value: Option<T>, default: T) -> T {
    match value {
        Some(value) => value,
        None => default,
    }
}

impl OssSource {
    /// What the operation asks of the service for the place that was found, or why
    /// nothing is asked.
    pub fn request_at(place: Result<(String, String), IoError>, operation: Operation) -> (result:
        Result<Request, IoError>)
        ensures
            operation.comes_to(location::location_view(place), result),
    {
        let (bucket, key) = match place {
            Ok(found) => found,
            Err(error) => {
                return Err(error);
            },
        };
        match operation {
            Operation::Get { range } => {
                let range = match range {
                    Some(range) => {
                        if let Some(source) = range.invalid {
                            return Err(IoError::InvalidRangeRequest { source });
                        }
                        Some(range.header)
                    },
                    None => None,
                };
                Ok(Request::Get { bucket, key, range })
            },
            Operation::Put => Ok(Request::Put { bucket, key }),
            Operation::GetSize => Ok(Request::Head { bucket, key }),
            Operation::Delete => Ok(Request::Delete { bucket, key }),
            Operation::Ls { posix, continuation_token, page_size } => Ok(
                Request::List(
                    listing::list_request(bucket, key, posix, continuation_token, page_size),
                ),
            ),
            Operation::IterDir { posix, page_size } => {
                let size: i32 = match page_size {
                    Some(size) => size,
                    None => DEFAULT_PAGE_SIZE,
                };
                Ok(Request::List(listing::list_request(bucket, key, posix, None, Some(size))))
            },
        }
    }

    /// What the operation asks of the service for what `uri` names, or why nothing
    /// is asked.
    pub fn request(uri: &str, operation: Operation) -> (result: Result<Request, IoError>)
        requires
            location::cuttable(uri@),
        ensures
            operation.comes_to(
                location::location_of(
                    uri@,
                    location::url_parse(uri@),
                    operation.allows_empty_key(),
                ),
                result,
            ),
            forall|bucket: Seq<char>, rest: Seq<char>| #[trigger]
                location::plain_url(uri@, bucket, rest) ==> operation.comes_to_plain(
                    bucket,
                    rest,
                    result,
                ),
    {
        let allow_empty_key = match &operation {
            Operation::Ls { .. } => true,
            Operation::IterDir { .. } => true,
            _ => false,
        };
        let place = OssSource::parse_oss_url(uri, allow_empty_key);
        OssSource::request_at(place, operation)
    }

    /// What the operation asks of the service for what any `uri` names, or why
    /// nothing is asked; `None` where the end of the host of `uri`, as the parser
    /// writes it, does not fall between two characters of `uri`.
    pub fn try_request(uri: &str, operation: Operation) -> (result: Option<
        Result<Request, IoError>,
    >)
        ensures
            result is None <==> !location::can_cut(uri@, location::url_parse(uri@)),
            result matches Some(decided) ==> operation.comes_to(
                location::location_of(
                    uri@,
                    location::url_parse(uri@),
                    operation.allows_empty_key(),
                ),
                decided,
            ),
            forall|bucket: Seq<char>, rest: Seq<char>| #[trigger]
                location::plain_url(uri@, bucket, rest) ==> {
                    &&& result matches Some(decided)
                    &&& operation.comes_to_plain(bucket, rest, decided)
                },
    {
        let parsed = location::parse_url(uri);
        proof {
            location::lemma_plain_urls(uri@, parsed);
        }
        if location::is_cuttable(uri, &parsed) {
            Some(OssSource::request(uri, operation))
        } else {
            None
        }
    }

    /// The error of a failed read of the object that `uri` names: that it does not
    /// exist, where the service says so, or that it cannot be opened.
    pub open spec fn read_error(uri: Seq<char>, source: OssError) -> IoErrorView {
        if retry::says_not_found(source@) {
            IoErrorView::NotFound { path: uri, source: source@ }
        } else {
            IoErrorView::UnableToOpenFile { path: uri, source: source@ }
        }
    }

    /// The error of a failed read of the object that `uri` names.
    fn raise_read_error(uri: &str, source: OssError) -> (seen: IoError)
        ensures
            seen@ == OssSource::read_error(uri@, source),
    {
        if retry::is_not_found_error(&source) {
            raise(Error::NotFound { path: uri.to_owned(), source })
        } else {
            raise(Error::UnableToOpenFile { path: uri.to_owned(), source })
        }
    }

    /// Whether `result` is what a read of the object that `uri` names comes to: its bytes
    /// and how many they are, or the error.
    pub open spec fn reads_as(
        uri: Seq<char>,
        outcome: Result<Vec<u8>, OssError>,
        result: Result<(Vec<u8>, usize), IoError>,
    ) -> bool {
        match outcome {
            Ok(data) => {
                &&& result matches Ok((read, size))
                &&& read == data
                &&& size == data@.len()
            },
            Err(source) => {
                &&& result matches Err(error)
                &&& error@ == OssSource::read_error(uri, source)
            },
        }
    }

    /// Whether `result` is what a request for the size of the object that `uri` names
    /// comes to.
    pub open spec fn measures_as(
        uri: Seq<char>,
        outcome: Result<u64, OssError>,
        result: Result<usize, IoError>,
    ) -> bool {
        match outcome {
            Ok(content_length) => {
                &&& result matches Ok(size)
                &&& size == content_length as usize
            },
            Err(source) => {
                &&& result matches Err(error)
                &&& error@ == OssSource::read_error(uri, source)
            },
        }
    }

    /// What a read of the object that `uri` names comes to: its bytes and how many
    /// they are, or the error.
    pub fn get_outcome(uri: &str, outcome: Result<Vec<u8>, OssError>) -> (result: Result<
        (Vec<u8>, usize),
        IoError,
    >)
        ensures
            OssSource::reads_as(uri@, outcome, result),
    {
        match outcome {
            Ok(data) => {
                let size: usize = data.len();
                Ok((data, size))
            },
            Err(source) => Err(OssSource::raise_read_error(uri, source)),
        }
    }

    /// What a request for the size of the object that `uri` names comes to.
    pub fn get_size_outcome(uri: &str, outcome: Result<u64, OssError>) -> (result: Result<
        usize,
        IoError,
    >)
        ensures
            OssSource::measures_as(uri@, outcome, result),
    {
        match outcome {
            Ok(content_length) => Ok(
                #[verifier::truncate]
                (content_length as usize),
            ),
            Err(source) => Err(OssSource::raise_read_error(uri, source)),
        }
    }

    /// What a write of the object that `uri` names comes to.
    pub fn put_outcome(uri: &str, outcome: Result<(), OssError>) -> (result: Result<(), IoError>)
        ensures
            outcome is Ok ==> result is Ok,
            outcome matches Err(source) ==> {
                &&& result matches Err(error)
                &&& error@ == (ErrorView::UnableToPutFile {
                    path: uri@,
                    source: source@,
                }).seen_by_callers()
            },
    {
        match outcome {
            Ok(()) => Ok(()),
            Err(source) => Err(raise(Error::UnableToPutFile { path: uri.to_owned(), source })),
        }
    }

    /// What a deletion of the object that `uri` names comes to.
    pub fn delete_outcome(uri: &str, outcome: Result<(), OssError>) -> (result: Result<(), IoError>)
        ensures
            outcome is Ok ==> result is Ok,
            outcome matches Err(source) ==> {
                &&& result matches Err(error)
                &&& error@ == (ErrorView::UnableToDeleteFile {
                    path: uri@,
                    source: source@,
                }).seen_by_callers()
            },
    {
        match outcome {
            Ok(()) => Ok(()),
            Err(source) => Err(raise(Error::UnableToDeleteFile { path: uri.to_owned(), source })),
        }
    }

    /// What follows a page of a directory that is iterated over, which `asked` asked
    /// for: its entries are yielded, and where it has a token, the page that starts
    /// there is asked for in the same way.
    pub fn iter_dir_step(asked: &ListRequest, page: LSResult) -> (step: DirStep)
        ensures
            step.follows(asked@, page),
    {
        match page.continuation_token {
            Some(token) => DirStep::More {
                entries: page.files,
                next: ListRequest {
                    bucket: asked.bucket.clone(),
                    prefix: asked.prefix.clone(),
                    delimiter: asked.delimiter,
                    continuation_token: Some(token),
                    max_keys: asked.max_keys,
                },
            },
            None => DirStep::Last { entries: page.files },
        }
    }

    /// The fan-out limit and the page size of a glob: those of the caller, or the
    /// defaults.
    pub fn glob_limits(fanout_limit: Option<usize>, page_size: Option<i32>) -> (limits: (
        Option<usize>,
        Option<i32>,
    ))
        ensures
            limits.0 == Some(or_default(fanout_limit, DEFAULT_GLOB_FANOUT_LIMIT)),
            limits.1 == Some(or_default(page_size, DEFAULT_PAGE_SIZE)),
    {
        let fanout: usize = match fanout_limit {
            Some(limit) => limit,
            None => DEFAULT_GLOB_FANOUT_LIMIT,
        };
        let size: i32 = match page_size {
            Some(size) => size,
            None => DEFAULT_PAGE_SIZE,
        };
        (Some(fanout), Some(size))
    }

    /// Ranges of an object can be read.
    pub fn supports_range(_uri: &str) -> (supported: bool)
        ensures
            supported,
    {
        true
    }
}

/// Iterating over a directory yields the files of all its pages, in order, up to the
/// first page without a token, and ends there and nowhere else. Each page after the
/// first is asked for as the first was, from the token of the page before it.
pub proof fn law_iteration_yields_every_page(
    asked: Seq<ListRequestView>,
    pages: Seq<LSResult>,
    steps: Seq<DirStep>,
)
    requires
        is_dir_run(asked, pages, steps),
    ensures
        yielded(steps) == files_until_last(pages),
        forall|i: int|
            0 <= i < pages.len() ==> ((#[trigger] steps[i]) is Last
                <==> pages[i].continuation_token is None),
        forall|i: int|
            0 < i < pages.len() ==> {
                &&& pages[i - 1].continuation_token matches Some(token)
                &&& #[trigger] asked[i] == asked[0].starting_at(token@)
            },
    decreases pages.len(),
{
    assert forall|i: int| 0 <= i < pages.len() implies ((#[trigger] steps[i]) is Last
        <==> pages[i].continuation_token is None) by {
        assert(steps[i].follows(asked[i], pages[i]));
    }
    assert forall|i: int| 0 < i < pages.len() implies {
        &&& pages[i - 1].continuation_token matches Some(token)
        &&& #[trigger] asked[i] == asked[0].starting_at(token@)
    } by {
        lemma_asked_alike(asked, pages, steps, i);
    }
    if pages.len() > 0 {
        assert(steps[0].follows(asked[0], pages[0]));
        let later_asked = asked.skip(1);
        let later_pages = pages.skip(1);
        let later_steps = steps.skip(1);
        assert forall|i: int| 0 <= i < later_pages.len() implies (
        #[trigger] later_steps[i]).follows(later_asked[i], later_pages[i]) by {
            assert(steps[i + 1].follows(asked[i + 1], pages[i + 1]));
        }
        assert forall|i: int| 0 < i < later_pages.len() implies later_steps[i - 1].leads_to(
            #[trigger] later_asked[i],
        ) by {
            assert(later_asked[i] == asked[i + 1]);
        }
        law_iteration_yields_every_page(later_asked, later_pages, later_steps);
        if pages[0].continuation_token is None {
            assert(pages.len() == 1) by {
                if pages.len() > 1 {
                    assert(steps[0].leads_to(asked[1]));
                }
            }
            assert(later_steps =~= Seq::empty());
            assert(yielded(steps) =~= files_until_last(pages));
        }
    }
}

/// Each page of a directory after the first is asked for as the first was, from the
/// token of the page before it.
proof fn lemma_asked_alike(
    asked: Seq<ListRequestView>,
    pages: Seq<LSResult>,
    steps: Seq<DirStep>,
    i: int,
)
    requires
        is_dir_run(asked, pages, steps),
        0 < i < pages.len(),
    ensures
        pages[i - 1].continuation_token matches Some(token) && asked[i] == asked[0].starting_at(
            token@,
        ),
    decreases i,
{
    let before = i - 1;
    assert(steps[before].follows(asked[before], pages[before]));
    assert(steps[i - 1].leads_to(asked[i]));
    if before > 0 {
        lemma_asked_alike(asked, pages, steps, before);
    }
}

impl Request {
    /// The bucket that is asked, and the key or the prefix that is asked for.
    pub open spec fn object(self) -> (Seq<char>, Seq<char>) {
        match self {
            Request::Get { bucket, key, range } => (bucket@, key@),
            Request::Put { bucket, key } => (bucket@, key@),
            Request::Head { bucket, key } => (bucket@, key@),
            Request::Delete { bucket, key } => (bucket@, key@),
            Request::List(list) => (list.bucket@, list.prefix@),
        }
    }
}

/// What one operation writes at a place is what another reads, measures or deletes
/// there: all of them ask for the same object.
pub proof fn law_operations_address_the_same_object(
    place: Result<(Seq<char>, Seq<char>), IoErrorView>,
    one: Operation,
    other: Operation,
    asked_by_one: Result<Request, IoError>,
    asked_by_other: Result<Request, IoError>,
)
    requires
        !one.allows_empty_key(),
        !other.allows_empty_key(),
        one.comes_to(place, asked_by_one),
        other.comes_to(place, asked_by_other),
    ensures
        asked_by_one is Ok && asked_by_other is Ok ==> asked_by_one->Ok_0.object()
            == asked_by_other->Ok_0.object(),
        one.refusal() is None && other.refusal() is None ==> (asked_by_one is Ok
            <==> asked_by_other is Ok),
{
}

/// What is counted of an operation.
#[derive(Clone, Copy, Debug, PartialEq, Eq, Structural)]
pub enum StatMark {
    GetRequests(usize),
    /// Counted as the bytes are taken from the stream.
    BytesRead(usize),
    PutRequests(usize),
    BytesUploaded(usize),
    HeadRequests(usize),
    DeleteRequests(usize),
    ListRequests(usize),
}

impl Request {
    /// What is counted once the request has succeeded, where `uploaded` bytes were
    /// sent with it.
    pub open spec fn marks(self, uploaded: usize) -> Seq<StatMark> {
        match self {
            Request::Get { .. } => seq![StatMark::GetRequests(1)],
            Request::Put { .. } => seq![StatMark::PutRequests(1), StatMark::BytesUploaded(uploaded)],
            Request::Head { .. } => seq![StatMark::HeadRequests(1)],
            Request::Delete { .. } => seq![StatMark::DeleteRequests(1)],
            Request::List(_) => seq![StatMark::ListRequests(1)],
        }
    }

    /// What is counted once the request has succeeded.
    pub fn stat_marks(&self, uploaded: usize) -> (marks: Vec<StatMark>)
        ensures
            marks@ == self.marks(uploaded),
    {
        let mut marks: Vec<StatMark> = Vec::new();
        match self {
            Request::Get { .. } => {
                marks.push(StatMark::GetRequests(1));
            },
            Request::Put { .. } => {
                marks.push(StatMark::PutRequests(1));
                marks.push(StatMark::BytesUploaded(uploaded));
            },
            Request::Head { .. } => {
                marks.push(StatMark::HeadRequests(1));
            },
            Request::Delete { .. } => {
                marks.push(StatMark::DeleteRequests(1));
            },
            Request::List(_) => {
                marks.push(StatMark::ListRequests(1));
            },
        }
        assert(marks@ =~= self.marks(uploaded));
        marks
    }
}

/// The object that a request asks for is its bucket and its key, or its prefix.
pub proof fn law_request_names_its_object(request: Request)
    ensures
        match request {
            Request::Get { bucket, key, range } => request.object() == (bucket@, key@),
            Request::Put { bucket, key } => request.object() == (bucket@, key@),
            Request::Head { bucket, key } => request.object() == (bucket@, key@),
            Request::Delete { bucket, key } => request.object() == (bucket@, key@),
            Request::List(list) => request.object() == (list.bucket@, list.prefix@),
        },
{
}

/// Whether two requests ask for the same.
pub open spec fn same_request(a: Request, b: Request) -> bool {
    match a {
        Request::Get { bucket: x, key: k, range: r } => {
            &&& b matches Request::Get { bucket, key, range }
            &&& bucket@ == x@
            &&& key@ == k@
            &&& range is Some <==> r is Some
            &&& range is Some ==> range->Some_0@ == r->Some_0@
        },
        Request::Put { bucket: x, key: k } => b matches Request::Put { bucket, key } && bucket@
            == x@ && key@ == k@,
        Request::Head { bucket: x, key: k } => b matches Request::Head { bucket, key } && bucket@
            == x@ && key@ == k@,
        Request::Delete { bucket: x, key: k } => b matches Request::Delete { bucket, key }
            && bucket@ == x@ && key@ == k@,
        Request::List(x) => b matches Request::List(y) && y@ == x@,
    }
}

/// Whether two operations came to the same request or to the same error.
pub open spec fn same_decision(a: Result<Request, IoError>, b: Result<Request, IoError>) -> bool {
    match a {
        Ok(request) => b matches Ok(other) && same_request(request, other),
        Err(error) => b matches Err(other) && other@ == error@,
    }
}

/// An operation asks for the object, or the entries below it, at the place that was found.
/// A read carries its range as it is, and none where it has none; a range that is not valid
/// is refused. A listing is the request for the page that its caller asks for; iterating
/// starts with the first page, of 1000 entries unless the caller says otherwise. Where no
/// place was found, the error is handed on.
pub proof fn law_operation_asks_for_what_is_named(
    place: Result<(String, String), IoError>,
    operation: Operation,
    result: Result<Request, IoError>,
    listed: ListRequest,
)
    requires
        call_ensures(OssSource::request_at, (place, operation), result),
        place matches Ok((bucket, key)) ==> {
            &&& operation matches Operation::Ls { posix, continuation_token, page_size }
                ==> call_ensures(
                listing::list_request,
                (bucket, key, posix, continuation_token, page_size),
                listed,
            )
            &&& operation matches Operation::IterDir { posix, page_size } ==> call_ensures(
                listing::list_request,
                (
                    bucket,
                    key,
                    posix,
                    None,
                    if page_size is Some {
                        page_size
                    } else {
                        Some(1000i32)
                    },
                ),
                listed,
            )
        },
    ensures
        place matches Err(error) ==> result is Err && result->Err_0@ == error@,
        place matches Ok((named, found)) ==> match operation {
            Operation::Get { range: Some(asked) } => match asked.invalid {
                Some(reason) => result matches Err(IoError::InvalidRangeRequest { source })
                    && source@ == reason@,
                None => {
                    &&& result matches Ok(Request::Get { bucket, key, range: Some(header) })
                    &&& bucket@ == named@
                    &&& key@ == found@
                    &&& header@ == asked.header@
                },
            },
            Operation::Get { range: None } => {
                &&& result matches Ok(Request::Get { bucket, key, range: None })
                &&& bucket@ == named@
                &&& key@ == found@
            },
            Operation::Put => {
                &&& result matches Ok(Request::Put { bucket, key })
                &&& bucket@ == named@
                &&& key@ == found@
            },
            Operation::GetSize => {
                &&& result matches Ok(Request::Head { bucket, key })
                &&& bucket@ == named@
                &&& key@ == found@
            },
            Operation::Delete => {
                &&& result matches Ok(Request::Delete { bucket, key })
                &&& bucket@ == named@
                &&& key@ == found@
            },
            Operation::Ls { .. } => result matches Ok(Request::List(list)) && list@ == listed@,
            Operation::IterDir { .. } => result matches Ok(Request::List(list)) && list@ == listed@,
        },
{
}

/// What an operation on a URL comes to is what it comes to at the place that the URL names;
/// only listings take a URL without a key. To try it is the same, wherever the place of the
/// URL can be told.
pub proof fn law_operation_on_a_url_is_at_its_place(
    uri: &str,
    operation: Operation,
    place: Result<(String, String), IoError>,
    tried_place: Option<Result<(String, String), IoError>>,
    at: Result<Request, IoError>,
    result: Result<Request, IoError>,
    tried: Option<Result<Request, IoError>>,
)
    requires
        call_ensures(
            OssSource::parse_oss_url,
            (uri, operation is Ls || operation is IterDir),
            place,
        ),
        call_ensures(
            OssSource::try_parse_oss_url,
            (uri, operation is Ls || operation is IterDir),
            tried_place,
        ),
        call_ensures(OssSource::request_at, (place, operation), at),
        call_ensures(OssSource::request, (uri, operation), result),
        call_ensures(OssSource::try_request, (uri, operation), tried),
    ensures
        same_decision(at, result),
        tried is Some <==> tried_place is Some,
        tried is Some ==> same_decision(at, tried->Some_0),
{
}

/// A read comes to the bytes of the answer, all of them, and to how many they are. A failed
/// read is that of a missing object exactly where the answer says so; else the object
/// cannot be opened. Both name the URL and have the answer as their cause, and so it is for
/// a request for the size.
pub proof fn law_reads_come_to_their_answers(
    uri: &str,
    outcome: Result<Vec<u8>, OssError>,
    result: Result<(Vec<u8>, usize), IoError>,
    length: Result<u64, OssError>,
    size: Result<usize, IoError>,
    missing: bool,
)
    requires
        call_ensures(OssSource::get_outcome, (uri, outcome), result),
        call_ensures(OssSource::get_size_outcome, (uri, length), size),
        outcome matches Err(cause) ==> call_ensures(retry::is_not_found_error, (&cause,), missing),
        length matches Err(cause) ==> call_ensures(retry::is_not_found_error, (&cause,), missing),
    ensures
        match outcome {
            Ok(data) => {
                &&& result matches Ok((bytes, count))
                &&& bytes@ == data@
                &&& count == data@.len()
            },
            Err(cause) => if missing {
                result matches Err(IoError::NotFound { path, source }) && path@ == uri@ && source@
                    == cause@
            } else {
                result matches Err(IoError::UnableToOpenFile { path, source }) && path@ == uri@
                    && source@ == cause@
            },
        },
        match length {
            Ok(count) => {
                &&& size is Ok
                &&& count <= usize::MAX ==> size->Ok_0 == count
            },
            Err(cause) => if missing {
                size matches Err(IoError::NotFound { path, source }) && path@ == uri@ && source@
                    == cause@
            } else {
                size matches Err(IoError::UnableToOpenFile { path, source }) && path@ == uri@
                    && source@ == cause@
            },
        },
{
}

/// A write and a deletion come to what was answered: nothing more where they succeeded, and
/// else an error that names the URL and has the answer as its cause.
pub proof fn law_writes_come_to_their_answers(
    uri: &str,
    outcome: Result<(), OssError>,
    put: Result<(), IoError>,
    delete: Result<(), IoError>,
)
    requires
        call_ensures(OssSource::put_outcome, (uri, outcome), put),
        call_ensures(OssSource::delete_outcome, (uri, outcome), delete),
    ensures
        outcome is Ok ==> put is Ok && delete is Ok,
        outcome matches Err(cause) ==> {
            &&& put matches Err(
                IoError::Generic {
                    store,
                    source: GenericSource::Oss(Error::UnableToPutFile { path, source }),
                },
            )
            &&& path@ == uri@
            &&& source@ == cause@
            &&& delete matches Err(
                IoError::Generic {
                    store: store_too,
                    source: GenericSource::Oss(
                        Error::UnableToDeleteFile { path: path_too, source: source_too },
                    ),
                },
            )
            &&& path_too@ == uri@
            &&& source_too@ == cause@
        },
{
}

/// Iterating over a directory yields every entry of a page; it goes on exactly where the
/// page has a token, and then with the request that was made, from that token.
pub proof fn law_iteration_goes_on_from_the_token(
    asked: ListRequest,
    page: LSResult,
    step: DirStep,
)
    requires
        call_ensures(OssSource::iter_dir_step, (&asked, page), step),
    ensures
        match page.continuation_token {
            None => step matches DirStep::Last { entries } && entries@ == page.files@,
            Some(token) => {
                &&& step matches DirStep::More { entries, next }
                &&& entries@ == page.files@
                &&& next.bucket@ == asked.bucket@
                &&& next.prefix@ == asked.prefix@
                &&& next.delimiter == asked.delimiter
                &&& next.max_keys == asked.max_keys
                &&& next.continuation_token is Some
                &&& next.continuation_token->Some_0@ == token@
            },
        },
{
}

/// A glob has the limits of its caller; where the caller sets none, it fans out to 1024
/// directories at most, by pages of 1000 entries. Ranges can always be read.
pub proof fn law_limits_are_those_of_the_caller(
    fanout_limit: Option<usize>,
    page_size: Option<i32>,
    limits: (Option<usize>, Option<i32>),
    uri: &str,
    supported: bool,
)
    requires
        call_ensures(OssSource::glob_limits, (fanout_limit, page_size), limits),
        call_ensures(OssSource::supports_range, (uri,), supported),
    ensures
        fanout_limit is Some ==> limits.0 == fanout_limit,
        fanout_limit is None ==> limits.0 == Some(1024usize),
        page_size is Some ==> limits.1 == page_size,
        page_size is None ==> limits.1 == Some(1000i32),
        supported,
{
}

/// Every request counts once, as what it is; a write counts what was sent as well.
pub proof fn law_requests_count_once(request: Request, uploaded: usize, marks: Vec<StatMark>)
    requires
        call_ensures(Request::stat_marks, (&request, uploaded), marks),
    ensures
        marks@.len() == (if request is Put {
            2int
        } else {
            1
        }),
        marks@[0] == (match request {
            Request::Get { .. } => StatMark::GetRequests(1),
            Request::Put { .. } => StatMark::PutRequests(1),
            Request::Head { .. } => StatMark::HeadRequests(1),
            Request::Delete { .. } => StatMark::DeleteRequests(1),
            Request::List(_) => StatMark::ListRequests(1),
        }),
        request is Put ==> marks@[1] == StatMark::BytesUploaded(uploaded),
{
}

} // verus!
