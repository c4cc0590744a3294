//! What the store gives back over a service that keeps its objects: laws that hold
//! where the service answers from what it was sent.

use vstd::prelude::*;

use crate::error::IoError;
use crate::error::IoErrorView;
use crate::error::OssError;
use crate::listing;
use crate::listing::FileMetadataView;
use crate::listing::ListRequestView;
use crate::listing::ListResponse;
use crate::listing::ObjectSummary;
use crate::location;
use crate::multipart;
use crate::multipart::CompleteRequest;
use crate::multipart::OssMultipartWriter;
use crate::multipart::OssPart;
use crate::operations::Operation;
use crate::operations::RangeRequest;
use crate::operations::Request;
use crate::operations::StatMark;
use crate::retry;
use crate::source::OssSource;
use crate::text;

verus! {

/// The objects that a service holds once it has served a write of `data`.
pub open spec fn after_put(
    objects: Map<(Seq<char>, Seq<char>), Seq<u8>>,
    asked: Request,
    data: Seq<u8>,
) -> Map<(Seq<char>, Seq<char>), Seq<u8>> {
    objects.insert(asked.object(), data)
}

/// The objects that a service holds once it has served a deletion.
pub open spec fn after_delete(
    objects: Map<(Seq<char>, Seq<char>), Seq<u8>>,
    asked: Request,
) -> Map<(Seq<char>, Seq<char>), Seq<u8>> {
    objects.remove(asked.object())
}

/// Whether `outcome` is what a service that holds `objects` answers to a read: the whole
/// object where no range is asked for, and else the bytes that the range stands for.
/// `ranges` says for each header from which byte up to which one that is.
pub open spec fn answers_get(
    objects: Map<(Seq<char>, Seq<char>), Seq<u8>>,
    ranges: Map<Seq<char>, (int, int)>,
    asked: Request,
    outcome: Result<Vec<u8>, OssError>,
) -> bool {
    if objects.contains_key(asked.object()) {
        &&& outcome matches Ok(bytes)
        &&& bytes@ == (match asked {
            Request::Get { bucket, key, range: Some(header) } => objects[asked.object()].subrange(
                ranges[header@].0,
                ranges[header@].1,
            ),
            _ => objects[asked.object()],
        })
    } else {
        outcome matches Err(error) && retry::says_not_found(error@)
    }
}

/// Whether `outcome` is what a service that holds `objects` answers to a request for
/// the size of an object.
pub open spec fn answers_head(
    objects: Map<(Seq<char>, Seq<char>), Seq<u8>>,
    asked: Request,
    outcome: Result<u64, OssError>,
) -> bool {
    if objects.contains_key(asked.object()) {
        outcome matches Ok(length) && length == objects[asked.object()].len()
    } else {
        outcome matches Err(error) && retry::says_not_found(error@)
    }
}

/// What was written at a place is what a read of it gives back, with its length, and
/// the read counts as one.
pub proof fn law_read_gives_back_what_was_written(
    objects: Map<(Seq<char>, Seq<char>), Seq<u8>>,
    ranges: Map<Seq<char>, (int, int)>,
    data: Seq<u8>,
    uri: Seq<char>,
    place: Result<(Seq<char>, Seq<char>), IoErrorView>,
    put: Result<Request, IoError>,
    get: Result<Request, IoError>,
    outcome: Result<Vec<u8>, OssError>,
    result: Result<(Vec<u8>, usize), IoError>,
)
    requires
        Operation::Put.comes_to(place, put),
        put is Ok,
        (Operation::Get { range: None }).comes_to(place, get),
        answers_get(after_put(objects, put->Ok_0, data), ranges, get->Ok_0, outcome),
        OssSource::reads_as(uri, outcome, result),
    ensures
        get is Ok,
        get->Ok_0.marks(0) == seq![StatMark::GetRequests(1)],
        result matches Ok((bytes, size)) && bytes@ == data && size == data.len(),
{
}

/// A read of a range of what was written at a place gives back the bytes of that range,
/// and no others.
pub proof fn law_ranged_read_gives_back_the_range(
    objects: Map<(Seq<char>, Seq<char>), Seq<u8>>,
    ranges: Map<Seq<char>, (int, int)>,
    data: Seq<u8>,
    uri: &str,
    place: Result<(String, String), IoError>,
    range: RangeRequest,
    put: Result<Request, IoError>,
    get: Result<Request, IoError>,
    outcome: Result<Vec<u8>, OssError>,
    result: Result<(Vec<u8>, usize), IoError>,
)
    requires
        place is Ok,
        range.invalid is None,
        0 <= ranges[range.header@].0 <= ranges[range.header@].1 <= data.len(),
        call_ensures(OssSource::request_at, (place, Operation::Put), put),
        call_ensures(OssSource::request_at, (place, Operation::Get { range: Some(range) }), get),
        answers_get(after_put(objects, put->Ok_0, data), ranges, get->Ok_0, outcome),
        call_ensures(OssSource::get_outcome, (uri, outcome), result),
    ensures
        ({
            let (from, to) = ranges[range.header@];
            &&& put is Ok
            &&& get is Ok
            &&& result matches Ok((bytes, size))
            &&& bytes@ == data.subrange(from, to)
            &&& size == to - from
        }),
{
}

/// What was uploaded in parts to a place is what a read of it gives back: the data of
/// the parts, in the order in which they were written. `held` is the tag and the data that
/// the service holds of each number; it accepts the completion. The numbers fit into 32
/// bits.
pub proof fn law_read_gives_back_what_was_uploaded(
    objects: Map<(Seq<char>, Seq<char>), Seq<u8>>,
    ranges: Map<Seq<char>, (int, int)>,
    writer: OssMultipartWriter,
    written: Seq<OssPart>,
    data: Seq<Seq<u8>>,
    held: Map<int, (Seq<char>, Seq<u8>)>,
    request: CompleteRequest,
    uri: Seq<char>,
    get: Result<Request, IoError>,
    outcome: Result<Vec<u8>, OssError>,
    result: Result<(Vec<u8>, usize), IoError>,
)
    requires
        written.len() <= 0xffff_ffff,
        data.len() == written.len(),
        forall|i: int| 0 <= i < written.len() ==> (#[trigger] written[i]).idx == i + 1,
        forall|i: int|
            0 <= i < data.len() ==> multipart::holds_part(held, i + 1, written[i].etag@, #[trigger] data[i]),
        request.puts_together(writer.spec_upload_id(), written),
        (Operation::Get { range: None }).comes_to(
            Ok((writer.spec_bucket(), writer.spec_key())),
            get,
        ),
        answers_get(
            objects.insert(
                (writer.spec_bucket(), writer.spec_key()),
                multipart::assembled(held, request.parts@),
            ),
            ranges,
            get->Ok_0,
            outcome,
        ),
        OssSource::reads_as(uri, outcome, result),
    ensures
        multipart::accepts(held, request.parts@),
        get is Ok,
        result matches Ok((bytes, size)) && bytes@ == data.flatten() && size
            == data.flatten().len(),
        data.len() == 1 ==> data.flatten() == data[0],
{
    multipart::law_upload_writes_what_was_put(
        written,
        data,
        held,
        writer.spec_upload_id(),
        request,
    );
    if data.len() == 1 {
        assert(data.drop_first().flatten() =~= Seq::empty());
        assert(data.flatten() =~= data[0]);
    }
}

/// The size of what was written at a place is its length.
pub proof fn law_size_is_the_length_written(
    objects: Map<(Seq<char>, Seq<char>), Seq<u8>>,
    data: Seq<u8>,
    uri: Seq<char>,
    place: Result<(Seq<char>, Seq<char>), IoErrorView>,
    put: Result<Request, IoError>,
    head: Result<Request, IoError>,
    outcome: Result<u64, OssError>,
    result: Result<usize, IoError>,
)
    requires
        data.len() <= usize::MAX,
        Operation::Put.comes_to(place, put),
        put is Ok,
        Operation::GetSize.comes_to(place, head),
        answers_head(after_put(objects, put->Ok_0, data), head->Ok_0, outcome),
        OssSource::measures_as(uri, outcome, result),
    ensures
        head is Ok,
        result == Ok::<usize, IoError>(data.len() as usize),
{
}

/// What was deleted at a place is not found by a read of it.
pub proof fn law_deleted_object_is_not_found(
    objects: Map<(Seq<char>, Seq<char>), Seq<u8>>,
    ranges: Map<Seq<char>, (int, int)>,
    uri: Seq<char>,
    place: Result<(Seq<char>, Seq<char>), IoErrorView>,
    delete: Result<Request, IoError>,
    get: Result<Request, IoError>,
    outcome: Result<Vec<u8>, OssError>,
    result: Result<(Vec<u8>, usize), IoError>,
)
    requires
        Operation::Delete.comes_to(place, delete),
        delete is Ok,
        (Operation::Get { range: None }).comes_to(place, get),
        answers_get(after_delete(objects, delete->Ok_0), ranges, get->Ok_0, outcome),
        OssSource::reads_as(uri, outcome, result),
    ensures
        get is Ok,
        result matches Err(error) && error is NotFound && error->NotFound_path@ == uri,
{
}

/// The key of the file `name` in the directory `dir`.
pub open spec fn child_key(dir: Seq<char>, name: Seq<char>) -> Seq<char> {
    dir + "/"@ + name
}

/// Whether a listing that was asked for by `asked` shows the object `key` of `bucket`
/// as a file: its key starts with the prefix, and no delimiter follows.
pub open spec fn shows_as_file(asked: ListRequestView, bucket: Seq<char>, key: Seq<char>) -> bool {
    &&& asked.bucket == bucket
    &&& text::occurs_at(key, asked.prefix, 0)
    &&& match asked.delimiter {
        Some(delimiter) => !key.skip(asked.prefix.len() as int).contains(delimiter),
        None => true,
    }
}

/// A listing of a directory asks for the files in it, and lists each that the service
/// answers with under the URL of the directory, a delimiter and its name, in the order
/// of the answer. It lists nothing else, and says that there is more only where the
/// service does.
pub proof fn law_listing_shows_the_files_of_a_directory(
    asked: ListRequestView,
    bucket: Seq<char>,
    dir: Seq<char>,
    token: Option<Seq<char>>,
    page_size: Option<i32>,
    names: Seq<Seq<char>>,
    response: ListResponse,
)
    requires
        dir.len() > 0 && dir.last() != location::DELIMITER,
        listing::asks_for(asked, bucket, dir, true, token, page_size),
        forall|i: int|
            0 <= i < names.len() ==> !(#[trigger] names[i]).contains(location::DELIMITER),
        response.common_prefixes@.len() == 0,
        response.contents@.len() == names.len(),
        forall|i: int|
            0 <= i < names.len() ==> (#[trigger] response.contents@[i]).key@ == child_key(
                dir,
                names[i],
            ),
    ensures
        forall|i: int|
            0 <= i < names.len() ==> shows_as_file(
                asked,
                bucket,
                child_key(dir, #[trigger] names[i]),
            ),
        listing::page_of(bucket, response).files.len() == names.len(),
        forall|i: int|
            0 <= i < names.len() ==> {
                let file = #[trigger] listing::page_of(bucket, response).files[i];
                &&& file.filepath == location::object_url(bucket, dir) + "/"@ + names[i]
                &&& file.size == Some(response.contents@[i].size)
            },
        listing::page_of(bucket, response).continuation_token is Some
            <==> response.next_continuation_token is Some
            && response.next_continuation_token->Some_0@.len() > 0,
{
    reveal_strlit("/");
    assert(text::trim_end(dir, location::DELIMITER) == dir);
    assert(asked.prefix == dir + "/"@);
    assert forall|i: int| 0 <= i < names.len() implies shows_as_file(
        asked,
        bucket,
        child_key(dir, #[trigger] names[i]),
    ) by {
        let key = child_key(dir, names[i]);
        assert(key.subrange(0, asked.prefix.len() as int) =~= asked.prefix);
        assert(key.skip(asked.prefix.len() as int) =~= names[i]);
    }
    let files = listing::page_of(bucket, response).files;
    assert forall|i: int| 0 <= i < names.len() implies {
        let file = #[trigger] files[i];
        &&& file.filepath == location::object_url(bucket, dir) + "/"@ + names[i]
        &&& file.size == Some(response.contents@[i].size)
    } by {
        assert(files[i] == listing::file_entry(bucket, response.contents@[i]));
        assert(location::object_url(bucket, child_key(dir, names[i]))
            =~= location::object_url(bucket, dir) + "/"@ + names[i]);
    }
}

/// The common prefixes of all `responses`, one after the other.
pub open spec fn all_prefixes(responses: Seq<ListResponse>) -> Seq<String>
    decreases responses.len(),
{
    if responses.len() == 0 {
        Seq::empty()
    } else {
        responses[0].common_prefixes@ + all_prefixes(responses.skip(1))
    }
}

/// The objects of all `responses`, one after the other.
pub open spec fn all_contents(responses: Seq<ListResponse>) -> Seq<ObjectSummary>
    decreases responses.len(),
{
    if responses.len() == 0 {
        Seq::empty()
    } else {
        responses[0].contents@ + all_contents(responses.skip(1))
    }
}

/// The entries of the pages that all `responses` are shown as, one after the other.
pub open spec fn all_entries(bucket: Seq<char>, responses: Seq<ListResponse>) -> Seq<
    FileMetadataView,
>
    decreases responses.len(),
{
    if responses.len() == 0 {
        Seq::empty()
    } else {
        listing::page_of(bucket, responses[0]).files + all_entries(bucket, responses.skip(1))
    }
}

/// Where the answers to the requests for the pages of a listing hold, one after the
/// other, what the answer to one request for all of it holds, the pages together list
/// what the whole listing does, without gap or repeat. Where there are no directories,
/// they list it in the same order.
pub proof fn law_pages_give_the_whole_listing(
    bucket: Seq<char>,
    responses: Seq<ListResponse>,
    whole: ListResponse,
)
    requires
        whole.common_prefixes@ == all_prefixes(responses),
        whole.contents@ == all_contents(responses),
    ensures
        all_entries(bucket, responses).to_multiset() == listing::page_of(
            bucket,
            whole,
        ).files.to_multiset(),
        whole.common_prefixes@.len() == 0 ==> all_entries(bucket, responses) == listing::page_of(
            bucket,
            whole,
        ).files,
{
    let dirs = directories(bucket, whole.common_prefixes@);
    let files = plain_files(bucket, whole.contents@);
    lemma_pages_hold_all(bucket, responses);
    vstd::seq_lib::lemma_multiset_commutative(dirs, files);
    assert(listing::page_of(bucket, whole).files =~= dirs + files);
    if whole.common_prefixes@.len() == 0 {
        lemma_pages_of_files(bucket, responses);
        assert(dirs + files =~= files);
    }
}

spec fn directories(bucket: Seq<char>, prefixes: Seq<String>) -> Seq<FileMetadataView> {
    prefixes.map_values(|prefix: String| listing::directory_entry(bucket, prefix@))
}

spec fn plain_files(bucket: Seq<char>, contents: Seq<ObjectSummary>) -> Seq<FileMetadataView> {
    contents.map_values(|object: ObjectSummary| listing::file_entry(bucket, object))
}

proof fn lemma_pages_hold_all(bucket: Seq<char>, responses: Seq<ListResponse>)
    ensures
        all_entries(bucket, responses).to_multiset() == directories(
            bucket,
            all_prefixes(responses),
        ).to_multiset().add(plain_files(bucket, all_contents(responses)).to_multiset()),
    decreases responses.len(),
{
    let dirs = directories(bucket, all_prefixes(responses));
    let files = plain_files(bucket, all_contents(responses));
    if responses.len() == 0 {
        vstd::seq_lib::lemma_multiset_commutative(dirs, files);
        assert(dirs + files =~= all_entries(bucket, responses));
    } else {
        let rest = responses.skip(1);
        let first_dirs = directories(bucket, responses[0].common_prefixes@);
        let first_files = plain_files(bucket, responses[0].contents@);
        let rest_dirs = directories(bucket, all_prefixes(rest));
        let rest_files = plain_files(bucket, all_contents(rest));
        lemma_pages_hold_all(bucket, rest);
        assert(dirs =~= first_dirs + rest_dirs);
        assert(files =~= first_files + rest_files);
        assert(listing::page_of(bucket, responses[0]).files =~= first_dirs + first_files);
        vstd::seq_lib::lemma_multiset_commutative(first_dirs, rest_dirs);
        vstd::seq_lib::lemma_multiset_commutative(first_files, rest_files);
        vstd::seq_lib::lemma_multiset_commutative(first_dirs, first_files);
        vstd::seq_lib::lemma_multiset_commutative(
            first_dirs + first_files,
            all_entries(bucket, rest),
        );
        assert(all_entries(bucket, responses).to_multiset() =~= dirs.to_multiset().add(
            files.to_multiset(),
        ));
    }
}

proof fn lemma_pages_of_files(bucket: Seq<char>, responses: Seq<ListResponse>)
    requires
        all_prefixes(responses).len() == 0,
    ensures
        all_entries(bucket, responses) == plain_files(bucket, all_contents(responses)),
    decreases responses.len(),
{
    if responses.len() > 0 {
        lemma_pages_of_files(bucket, responses.skip(1));
        assert(listing::page_of(bucket, responses[0]).files =~= plain_files(
            bucket,
            responses[0].contents@,
        ));
    }
    assert(all_entries(bucket, responses) =~= plain_files(bucket, all_contents(responses)));
}

} // verus!
