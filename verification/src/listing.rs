//! Listings of a bucket: what is asked for, and what is made of the answer.

use vstd::prelude::*;

use crate::error::raise;
use crate::error::Error;
use crate::error::ErrorView;
use crate::error::GenericSource;
use crate::error::IoError;
use crate::error::IoErrorView;
use crate::error::OssError;
use crate::location;
use crate::location::DELIMITER;
use crate::text;

verus! {

/// What an entry of a listing is.
#[derive(Clone, Copy, Debug, PartialEq, Eq, Structural)]
pub enum FileType {
    File,
    Directory,
}

/// An entry of a listing.
#[derive(Debug, PartialEq, Eq)]
pub struct FileMetadata {
    pub filepath: String,
    pub size: Option<u64>,
    pub filetype: FileType,
}

/// The view of a [`FileMetadata`].
pub struct FileMetadataView {
    pub filepath: Seq<char>,
    pub size: Option<u64>,
    pub filetype: FileType,
}

impl View for FileMetadata {
    type V = FileMetadataView;

    open spec fn view(&self) -> FileMetadataView {
        FileMetadataView {
            filepath: self.filepath@,
            size: self.size,
            filetype: self.filetype,
        }
    }
}

/// One page of a listing.
#[derive(Debug, PartialEq, Eq)]
pub struct LSResult {
    pub files: Vec<FileMetadata>,
    /// Where the next page starts, if there is one.
    pub continuation_token: Option<String>,
}

/// The view of an [`LSResult`].
pub struct LSResultView {
    pub files: Seq<FileMetadataView>,
    pub continuation_token: Option<Seq<char>>,
}

impl View for LSResult {
    type V = LSResultView;

    open spec fn view(&self) -> LSResultView {
        LSResultView {
            files: self.files@.map_values(|file: FileMetadata| file@),
            continuation_token: text::option_view(self.continuation_token),
        }
    }
}

/// An object in an answer of the service.
#[derive(Debug)]
pub struct ObjectSummary {
    pub key: String,
    pub size: u64,
}

/// The answer of the service to a request for a listing.
#[derive(Debug)]
pub struct ListResponse {
    pub common_prefixes: Vec<String>,
    pub contents: Vec<ObjectSummary>,
    pub next_continuation_token: Option<String>,
}

/// A request for one page of a listing.
#[derive(Debug, PartialEq, Eq)]
pub struct ListRequest {
    pub bucket: String,
    pub prefix: String,
    pub delimiter: Option<char>,
    pub continuation_token: Option<String>,
    pub max_keys: Option<u32>,
}

/// The view of a [`ListRequest`].
pub struct ListRequestView {
    pub bucket: Seq<char>,
    pub prefix: Seq<char>,
    pub delimiter: Option<char>,
    pub continuation_token: Option<Seq<char>>,
    pub max_keys: Option<u32>,
}

impl View for ListRequest {
    type V = ListRequestView;

    open spec fn view(&self) -> ListRequestView {
        ListRequestView {
            bucket: self.bucket@,
            prefix: self.prefix@,
            delimiter: self.delimiter,
            continuation_token: text::option_view(self.continuation_token),
            max_keys: self.max_keys,
        }
    }
}

impl ListRequestView {
    /// The same request for the page that starts at `token`.
    pub open spec fn starting_at(self, token: Seq<char>) -> ListRequestView {
        ListRequestView { continuation_token: Some(token), ..self }
    }
}

/// The prefix by which the entries below `key` are listed: for a listing of one
/// directory, `key` with exactly one delimiter at its end, unless it is empty.
pub open spec fn list_prefix(key: Seq<char>, posix: bool) -> Seq<char> {
    if posix && key.len() > 0 {
        text::trim_end(key, DELIMITER) + "/"@
    } else {
        key
    }
}

/// A page size as the unsigned number that is sent: a negative one wraps around.
pub open spec fn page_size_sent(size: i32) -> int {
    if size < 0 {
        size + 0x1_0000_0000
    } else {
        size as int
    }
}

/// Whether `sent` is what is sent for the page size `size`.
pub open spec fn page_size_matches(size: Option<i32>, sent: Option<u32>) -> bool {
    match (size, sent) {
        (Some(size), Some(sent)) => sent == page_size_sent(size),
        (None, None) => true,
        _ => false,
    }
}

/// Whether `request` asks for the page of the entries below `key` in `bucket`
/// that starts at `token`, of the size `page_size`.
pub open spec fn asks_for(
    request: ListRequestView,
    bucket: Seq<char>,
    key: Seq<char>,
    posix: bool,
    token: Option<Seq<char>>,
    page_size: Option<i32>,
) -> bool {
    &&& request.bucket == bucket
    &&& request.prefix == list_prefix(key, posix)
    &&& request.delimiter == (if posix {
        Some(DELIMITER)
    } else {
        None
    })
    &&& request.continuation_token == token
    &&& page_size_matches(page_size, request.max_keys)
}

/// The entry for a common prefix.
pub open spec fn directory_entry(bucket: Seq<char>, prefix: Seq<char>) -> FileMetadataView {
    FileMetadataView {
        filepath: location::object_url(bucket, prefix),
        size: None,
        filetype: FileType::Directory,
    }
}

/// The entry for an object.
pub open spec fn file_entry(bucket: Seq<char>, object: ObjectSummary) -> FileMetadataView {
    FileMetadataView {
        filepath: location::object_url(bucket, object.key@),
        size: Some(object.size),
        filetype: FileType::File,
    }
}

/// The page that an answer is shown as: the common prefixes as directories, then
/// the objects as files, each in the order of the answer. An empty token is none.
pub open spec fn page_of(bucket: Seq<char>, response: ListResponse) -> LSResultView {
    LSResultView {
        files: response.common_prefixes@.map_values(
            |prefix: String| directory_entry(bucket, prefix@),
        ) + response.contents@.map_values(|object: ObjectSummary| file_entry(bucket, object)),
        continuation_token: match response.next_continuation_token {
            Some(token) => if token@.len() == 0 {
                None
            } else {
                Some(token@)
            },
            None => None,
        },
    }
}

/// A page size as the unsigned number that is sent.
fn page_size_to_send(size: i32) -> (sent: u32)
    ensures
        sent == page_size_sent(size),
{
    assert(size < 0 ==> (size as u32) == size + 0x1_0000_0000) by (bit_vector);
    size as u32
}

/// The request for one page of the entries below `key` in `bucket`.
pub fn list_request(
    bucket: String,
    key: String,
    posix: bool,
    continuation_token: Option<String>,
    page_size: Option<i32>,
) -> (request: ListRequest)
    ensures
        asks_for(
            request@,
            bucket@,
            key@,
            posix,
            text::option_view(continuation_token),
            page_size,
        ),
{
    let prefix = if posix && !key.as_str().is_empty() {
        let trimmed = text::trimmed_end(key.as_str(), DELIMITER);
        text::join2(trimmed.as_str(), "/")
    } else {
        key
    };
    let delimiter = if posix {
        Some(DELIMITER)
    } else {
        None
    };
    let max_keys: Option<u32> = match page_size {
        Some(size) => Some(page_size_to_send(size)),
        None => None,
    };
    ListRequest { bucket, prefix, delimiter, continuation_token, max_keys }
}

/// The page that an answer is shown as.
pub fn list_page(bucket: &str, response: ListResponse) -> (page: LSResult)
    ensures
        page@ == page_of(bucket@, response),
{
    let mut files: Vec<FileMetadata> = Vec::new();
    let ghost entries = page_of(bucket@, response).files;
    let dirs: usize = response.common_prefixes.len();
    let mut i: usize = 0;
    while i < dirs
        invariant
            dirs == response.common_prefixes@.len(),
            i <= dirs,
            entries == page_of(bucket@, response).files,
            files@.len() == i,
            forall|k: int| 0 <= k < i ==> (#[trigger] files@[k])@ == entries[k],
        decreases dirs - i,
    {
        let filepath = location::object_path(bucket, response.common_prefixes[i].as_str());
        files.push(FileMetadata { filepath, size: None, filetype: FileType::Directory });
        i = i + 1;
    }
    let objects: usize = response.contents.len();
    let mut j: usize = 0;
    while j < objects
        invariant
            dirs == response.common_prefixes@.len(),
            objects == response.contents@.len(),
            j <= objects,
            entries == page_of(bucket@, response).files,
            files@.len() == dirs + j,
            forall|k: int| 0 <= k < dirs + j ==> (#[trigger] files@[k])@ == entries[k],
        decreases objects - j,
    {
        let object = &response.contents[j];
        let filepath = location::object_path(bucket, object.key.as_str());
        files.push(
            FileMetadata { filepath, size: Some(object.size), filetype: FileType::File },
        );
        j = j + 1;
    }
    assert(files@.map_values(|file: FileMetadata| file@) =~= entries);
    let continuation_token = match response.next_continuation_token {
        Some(token) => if token.as_str().is_empty() {
            None
        } else {
            Some(token)
        },
        None => None,
    };
    LSResult { files, continuation_token }
}

/// What a request for a listing comes to.
pub open spec fn list_result(
    bucket: Seq<char>,
    prefix: Seq<char>,
    outcome: Result<ListResponse, OssError>,
) -> Result<LSResultView, IoErrorView> {
    match outcome {
        Ok(response) => Ok(page_of(bucket, response)),
        Err(source) => Err(
            ErrorView::UnableToListObjects {
                path: location::object_url(bucket, prefix),
                source: source@,
            }.seen_by_callers(),
        ),
    }
}

/// Makes of the answer to a request for a listing of `prefix` in `bucket` the page
/// or the error that the caller sees.
pub fn list_outcome(bucket: &str, prefix: &str, outcome: Result<ListResponse, OssError>) -> (result:
    Result<LSResult, IoError>)
    ensures
        match result {
            Ok(page) => Ok(page@),
            Err(error) => Err(error@),
        } == list_result(bucket@, prefix@, outcome),
{
    match outcome {
        Ok(response) => Ok(list_page(bucket, response)),
        Err(source) => Err(
            raise(
                Error::UnableToListObjects { path: location::object_path(bucket, prefix), source },
            ),
        ),
    }
}

/// A directory is listed by a prefix that is empty or ends with exactly one
/// delimiter, whatever delimiters its key ends with.
pub proof fn law_directory_prefix(key: Seq<char>)
    requires
        key.len() > 0 ==> key[0] != DELIMITER,
    ensures
        ({
            let prefix = list_prefix(key, true);
            &&& prefix.len() == 0 <==> key.len() == 0
            &&& prefix.len() > 0 ==> {
                &&& prefix.len() >= 2
                &&& prefix.last() == DELIMITER
                &&& prefix[prefix.len() - 2] != DELIMITER
            }
            &&& list_prefix(prefix, true) == prefix
        }),
{
    reveal_strlit("/");
    text::lemma_trim_end(key, DELIMITER);
    if key.len() > 0 {
        let trimmed = text::trim_end(key, DELIMITER);
        let prefix = trimmed + "/"@;
        assert(trimmed.len() > 0);
        assert(prefix.drop_last() =~= trimmed);
        reveal_with_fuel(text::trim_end, 2);
        assert(text::trim_end(prefix, DELIMITER) == trimmed);
    }
}

/// Every entry of the answer is listed once, the directories before the files,
/// under the URL that its key has in the bucket; only files have a size.
pub proof fn law_page_lists_every_entry(bucket: Seq<char>, response: ListResponse)
    ensures
        ({
            let files = page_of(bucket, response).files;
            let dirs = response.common_prefixes@.len();
            &&& files.len() == dirs + response.contents@.len()
            &&& forall|i: int|
                0 <= i < dirs ==> #[trigger] files[i] == directory_entry(
                    bucket,
                    response.common_prefixes@[i]@,
                )
            &&& forall|i: int|
                dirs <= i < files.len() ==> #[trigger] files[i] == file_entry(
                    bucket,
                    response.contents@[i - dirs],
                )
        }),
{
}

/// A request for a page carries the bucket, the token and the page size that it was asked
/// for with, whichever kind of listing it is: none is dropped or added. A listing of one
/// directory has the delimiter, and its prefix is the key with one delimiter in place of
/// the run at its end, unless the key is empty; any other listing has no delimiter, and its
/// prefix is the key. The run of delimiters at the end of the key starts at `n`.
pub proof fn law_request_carries_what_was_asked_for(
    bucket: String,
    key: String,
    posix: bool,
    continuation_token: Option<String>,
    page_size: Option<i32>,
    request: ListRequest,
    n: int,
)
    requires
        call_ensures(list_request, (bucket, key, posix, continuation_token, page_size), request),
        0 <= n <= key@.len(),
        forall|i: int| n <= i < key@.len() ==> #[trigger] key@[i] == '/',
        n > 0 ==> key@[n - 1] != '/',
    ensures
        request.bucket@ == bucket@,
        request.prefix@ == (if posix && key@.len() > 0 {
            key@.take(n) + "/"@
        } else {
            key@
        }),
        posix ==> request.delimiter == Some('/'),
        !posix ==> request.delimiter is None,
        continuation_token matches Some(token) ==> request.continuation_token is Some
            && request.continuation_token->Some_0@ == token@,
        continuation_token is None ==> request.continuation_token is None,
        page_size matches Some(size) ==> request.max_keys is Some && (if size >= 0 {
            request.max_keys->Some_0 == size
        } else {
            request.max_keys->Some_0 == size + 0x1_0000_0000
        }),
        page_size is None ==> request.max_keys is None,
{
    text::lemma_trim_end(key@, DELIMITER);
    let m = text::trim_end(key@, DELIMITER).len() as int;
    if m < n {
        assert(key@[n - 1] == DELIMITER);
    } else if n < m {
        assert(text::trim_end(key@, DELIMITER).last() == key@[m - 1]);
    }
}

/// Two requests that look the same ask for the same page.
pub proof fn law_request_views_are_faithful(a: ListRequest, b: ListRequest)
    requires
        a@ == b@,
    ensures
        a.bucket@ == b.bucket@,
        a.prefix@ == b.prefix@,
        a.delimiter == b.delimiter,
        a.continuation_token is Some <==> b.continuation_token is Some,
        a.continuation_token is Some ==> a.continuation_token->Some_0@
            == b.continuation_token->Some_0@,
        a.max_keys == b.max_keys,
{
}

/// Whether `page` is the page of `response`: a directory for each common prefix, then a
/// file with its size for each object, each under its URL in the bucket and in the order
/// of the answer, and the token of the answer, unless it is empty.
pub open spec fn is_page(bucket: Seq<char>, response: ListResponse, page: LSResult) -> bool {
    let dirs = response.common_prefixes@;
    let objects = response.contents@;
    &&& page.files@.len() == dirs.len() + objects.len()
    &&& forall|i: int|
        0 <= i < dirs.len() ==> {
            let file = #[trigger] page.files@[i];
            &&& file.filepath@ == "oss://"@ + bucket + "/"@ + dirs[i]@
            &&& file.size is None
            &&& file.filetype == FileType::Directory
        }
    &&& forall|i: int|
        dirs.len() <= i < page.files@.len() ==> {
            let file = #[trigger] page.files@[i];
            let object = objects[i - dirs.len()];
            &&& file.filepath@ == "oss://"@ + bucket + "/"@ + object.key@
            &&& file.size == Some(object.size)
            &&& file.filetype == FileType::File
        }
    &&& match response.next_continuation_token {
        Some(token) => if token@.len() > 0 {
            page.continuation_token is Some && page.continuation_token->Some_0@ == token@
        } else {
            page.continuation_token is None
        },
        None => page.continuation_token is None,
    }
}

/// An answer is shown as its page, on its own or as what the listing comes to; a failure
/// as an error that names what was listed and has the answer as its cause.
pub proof fn law_answer_is_shown_as_its_page(
    bucket: &str,
    prefix: &str,
    outcome: Result<ListResponse, OssError>,
    result: Result<LSResult, IoError>,
    page: LSResult,
)
    requires
        call_ensures(list_outcome, (bucket, prefix, outcome), result),
        outcome matches Ok(response) ==> call_ensures(list_page, (bucket, response), page),
    ensures
        match outcome {
            Ok(response) => {
                &&& is_page(bucket@, response, page)
                &&& result matches Ok(shown)
                &&& is_page(bucket@, response, shown)
            },
            Err(cause) => {
                &&& result matches Err(
                    IoError::Generic {
                        store,
                        source: GenericSource::Oss(Error::UnableToListObjects { path, source }),
                    },
                )
                &&& path@ == "oss://"@ + bucket@ + "/"@ + prefix@
                &&& source@ == cause@
            },
        },
{
    if let Ok(response) = outcome {
        lemma_is_page(bucket@, response, page);
        lemma_is_page(bucket@, response, result->Ok_0);
    }
}

proof fn lemma_is_page(bucket: Seq<char>, response: ListResponse, page: LSResult)
    requires
        page@ == page_of(bucket, response),
    ensures
        is_page(bucket, response, page),
{
    let shown = page@.files;
    assert(shown.len() == page.files@.len());
    assert forall|i: int| 0 <= i < page.files@.len() implies (#[trigger] page.files@[i])@
        == shown[i] by {}
    assert forall|i: int| 0 <= i < response.common_prefixes@.len() implies {
        let file = #[trigger] page.files@[i];
        &&& file.filepath@ == "oss://"@ + bucket + "/"@ + response.common_prefixes@[i]@
        &&& file.size is None
        &&& file.filetype == FileType::Directory
    } by {
        assert(page.files@[i]@ == shown[i]);
        assert(shown[i] == directory_entry(bucket, response.common_prefixes@[i]@));
    }
    let dirs = response.common_prefixes@.len();
    assert forall|i: int| dirs <= i < page.files@.len() implies {
        let file = #[trigger] page.files@[i];
        let object = response.contents@[i - dirs];
        &&& file.filepath@ == "oss://"@ + bucket + "/"@ + object.key@
        &&& file.size == Some(object.size)
        &&& file.filetype == FileType::File
    } by {
        assert(page.files@[i]@ == shown[i]);
        assert(shown[i] == file_entry(bucket, response.contents@[i - dirs]));
    }
}

/// Whether `pages` are the answers that a service has for the pages of a listing, in
/// order: each but the last has a token, no two the same one, and the last has none.
pub open spec fn is_paged(pages: Seq<ListResponse>) -> bool {
    &&& pages.len() > 0
    &&& forall|i: int|
        0 <= i < pages.len() - 1 ==> {
            &&& (#[trigger] pages[i]).next_continuation_token is Some
            &&& pages[i].next_continuation_token->Some_0@.len() > 0
        }
    &&& forall|i: int, j: int|
        0 <= i < j < pages.len() - 1 ==> (#[trigger] pages[i]).next_continuation_token->Some_0@
            != (#[trigger] pages[j]).next_continuation_token->Some_0@
    &&& pages.last().next_continuation_token matches Some(token) ==> token@.len() == 0
}

/// Whether `response` is what a service with these `pages` answers to `request`: the first
/// page where no token is given, else the page after the one that has the token.
pub open spec fn serves_page(
    pages: Seq<ListResponse>,
    request: ListRequest,
    response: ListResponse,
) -> bool {
    match request.continuation_token {
        None => response == pages[0],
        Some(token) => exists|i: int|
            {
                &&& 0 <= i < pages.len() - 1
                &&& (#[trigger] pages[i]).next_continuation_token->Some_0@ == token@
                &&& response == pages[i + 1]
            },
    }
}

/// Asking again and again for the page at the token of the one before, from the first page
/// on, gives the pages of the service one after the other, and ends with its last, be it a
/// listing of one directory or of all that lies below the key.
pub proof fn law_following_the_tokens_gives_every_page(
    pages: Seq<ListResponse>,
    bucket: String,
    bucket_text: &str,
    key: String,
    posix: bool,
    page_size: Option<i32>,
    tokens: Seq<Option<String>>,
    requests: Seq<ListRequest>,
    responses: Seq<ListResponse>,
    results: Seq<LSResult>,
    k: int,
)
    requires
        is_paged(pages),
        tokens.len() == results.len(),
        requests.len() == results.len(),
        responses.len() == results.len(),
        forall|i: int|
            0 <= i < results.len() ==> call_ensures(
                list_request,
                (bucket, key, posix, tokens[i], page_size),
                #[trigger] requests[i],
            ),
        forall|i: int|
            0 <= i < results.len() ==> serves_page(pages, requests[i], #[trigger] responses[i]),
        forall|i: int|
            0 <= i < results.len() ==> call_ensures(
                list_page,
                (bucket_text, responses[i]),
                #[trigger] results[i],
            ),
        results.len() > 0 ==> tokens[0] is None,
        forall|i: int|
            0 < i < results.len() ==> {
                &&& results[i - 1].continuation_token is Some
                &&& #[trigger] tokens[i] == results[i - 1].continuation_token
            },
        0 <= k < results.len(),
    ensures
        k < pages.len(),
        responses[k] == pages[k],
        is_page(bucket_text@, pages[k], results[k]),
        results[k].continuation_token is None <==> k == pages.len() - 1,
    decreases k,
{
    assert(call_ensures(list_request, (bucket, key, posix, tokens[k], page_size), requests[k]));
    assert(serves_page(pages, requests[k], responses[k]));
    assert(call_ensures(list_page, (bucket_text, responses[k]), results[k]));
    if k > 0 {
        let before = k - 1;
        law_following_the_tokens_gives_every_page(
            pages,
            bucket,
            bucket_text,
            key,
            posix,
            page_size,
            tokens,
            requests,
            responses,
            results,
            before,
        );
        assert(tokens[k] == results[before].continuation_token);
        let token = requests[k].continuation_token->Some_0;
        let i = choose|i: int|
            {
                &&& 0 <= i < pages.len() - 1
                &&& (#[trigger] pages[i]).next_continuation_token->Some_0@ == token@
                &&& responses[k] == pages[i + 1]
            };
        assert(pages[before].next_continuation_token->Some_0@ == token@);
        assert(i == before);
    }
    lemma_is_page(bucket_text@, responses[k], results[k]);
    if k < pages.len() - 1 {
        assert(pages[k].next_continuation_token is Some);
    }
}

} // verus!
