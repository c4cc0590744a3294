//! Uploads in parts: how the parts are numbered, collected and put together.

use vstd::prelude::*;

use crate::config::OssConfig;
use crate::error::raise;
use crate::error::Error;
use crate::error::ErrorView;
use crate::error::GenericSource;
use crate::error::GenericSourceView;
use crate::error::IoError;
use crate::error::IoErrorView;
use crate::error::OssError;
use crate::error::SourceType;
use crate::location;
use crate::source::OssSource;

verus! {

/// A part that has been uploaded.
#[derive(Debug, PartialEq, Eq)]
pub struct OssPart {
    pub idx: usize,
    pub etag: String,
}

impl Clone for OssPart {
    fn clone(&self) -> (copy: Self)
        ensures
            copy == *self,
    {
        OssPart { idx: self.idx, etag: self.etag.clone() }
    }
}

/// How the upload of a part ended.
#[derive(Debug)]
pub enum PartUpload {
    /// The part is uploaded.
    Done(OssPart),
    /// The service did not take it.
    Failed(IoError),
    /// The task that uploaded it did not finish.
    Aborted(String),
}

/// Where an object lies.
#[derive(Debug, PartialEq, Eq)]
pub struct ObjectPath {
    pub scheme: String,
    pub bucket: String,
    pub key: String,
}

/// What is asked of the service to put the parts of an upload together.
#[derive(Debug, PartialEq, Eq)]
pub struct CompleteRequest {
    pub upload_id: String,
    /// The number and the tag of each part.
    pub parts: Vec<(u32, String)>,
}

/// What is left to do once all parts have been collected.
#[derive(Debug, PartialEq, Eq)]
pub enum CompletionStep {
    /// Upload an empty part of this number, then complete with it.
    UploadEmptyPart { part_number: u32 },
    /// Ask the service to put the parts together.
    Complete(CompleteRequest),
}

/// How far an upload has come.
#[derive(Clone, Copy, Debug, PartialEq, Eq, Structural)]
pub enum UploadPhase {
    /// It is not being completed.
    Open,
    /// Its completion waits for the uploads of the parts.
    Collecting,
    /// Its completion waits for the upload of an empty part.
    AwaitingEmptyPart,
    /// Its completion has come to a request or to an error.
    Ended,
}

/// What happens to a writer.
pub enum WriterEvent {
    /// A part was handed out.
    PartTaken { number: u32 },
    /// A completion was begun.
    CompletionBegun,
    /// A completion was refused, as there had been one before.
    CompletionRefused,
    /// The completion asked for an empty part.
    EmptyPartAsked,
    /// The completion came to a request.
    Requested,
    /// The completion came to an error.
    CompletionFailed,
}

impl PartUpload {
    /// Whether nothing that ends after this upload counts any more.
    pub fn ends_collecting(&self) -> (ends: bool)
        ensures
            ends == !(self is Done),
    {
        match self {
            PartUpload::Done(_) => false,
            _ => true,
        }
    }
}

/// The parts in the order of their numbers.
pub open spec fn ascending(parts: Seq<OssPart>) -> bool {
    forall|i: int, j: int| 0 <= i < j < parts.len() ==> parts[i].idx <= parts[j].idx
}

/// No two parts have the same number.
pub open spec fn distinct_numbers(parts: Seq<OssPart>) -> bool {
    forall|i: int, j: int| 0 <= i < j < parts.len() ==> parts[i].idx != parts[j].idx
}

/// The parts that have the number `idx`, in their order.
pub open spec fn numbered(parts: Seq<OssPart>, idx: usize) -> Seq<OssPart>
    decreases parts.len(),
{
    if parts.len() == 0 {
        Seq::empty()
    } else if parts[0].idx == idx {
        seq![parts[0]] + numbered(parts.skip(1), idx)
    } else {
        numbered(parts.skip(1), idx)
    }
}

/// Whether `sorted` holds `parts` in the order of their numbers, and those of the
/// same number in the order that they had.
pub open spec fn sorts(parts: Seq<OssPart>, sorted: Seq<OssPart>) -> bool {
    &&& ascending(sorted)
    &&& sorted.to_multiset() == parts.to_multiset()
    &&& forall|idx: usize| #[trigger] numbered(sorted, idx) == numbered(parts, idx)
}

/// What the first upload that did not succeed failed with, if there is one.
pub open spec fn first_failure(uploads: Seq<PartUpload>) -> Option<IoErrorView>
    decreases uploads.len(),
{
    if uploads.len() == 0 {
        None
    } else {
        match uploads[0] {
            PartUpload::Done(_) => first_failure(uploads.skip(1)),
            PartUpload::Failed(error) => Some(error@),
            PartUpload::Aborted(reason) => Some(IoErrorView::JoinError { source: reason@ }),
        }
    }
}

/// The parts that were uploaded, in the order in which their uploads ended.
pub open spec fn done_parts(uploads: Seq<PartUpload>) -> Seq<OssPart>
    decreases uploads.len(),
{
    if uploads.len() == 0 {
        Seq::empty()
    } else {
        match uploads[0] {
            PartUpload::Done(part) => seq![part] + done_parts(uploads.skip(1)),
            _ => done_parts(uploads.skip(1)),
        }
    }
}

proof fn lemma_numbered_concat(a: Seq<OssPart>, b: Seq<OssPart>, idx: usize)
    ensures
        numbered(a + b, idx) == numbered(a, idx) + numbered(b, idx),
    decreases a.len(),
{
    if a.len() == 0 {
        assert(a + b =~= b);
    } else {
        assert((a + b).skip(1) =~= a.skip(1) + b);
        lemma_numbered_concat(a.skip(1), b, idx);
    }
    assert(numbered(a + b, idx) =~= numbered(a, idx) + numbered(b, idx));
}

proof fn lemma_numbered_none(parts: Seq<OssPart>, idx: usize)
    requires
        forall|i: int| 0 <= i < parts.len() ==> parts[i].idx != idx,
    ensures
        numbered(parts, idx) == Seq::<OssPart>::empty(),
    decreases parts.len(),
{
    if parts.len() > 0 {
        lemma_numbered_none(parts.skip(1), idx);
    }
}

/// Putting a part before the first one whose number is not smaller keeps the parts
/// sorted, with the new part before all others of its number.
proof fn lemma_insert_sorts(parts: Seq<OssPart>, sorted: Seq<OssPart>, part: OssPart, at: int)
    requires
        sorts(parts, sorted),
        0 <= at <= sorted.len(),
        forall|i: int| 0 <= i < at ==> sorted[i].idx < part.idx,
        at < sorted.len() ==> part.idx <= sorted[at].idx,
    ensures
        sorts(seq![part] + parts, sorted.insert(at, part)),
{
    let front = sorted.take(at);
    let back = sorted.skip(at);
    let result = sorted.insert(at, part);
    assert(sorted =~= front + back);
    assert(result =~= front + (seq![part] + back));
    vstd::seq_lib::to_multiset_insert(sorted, at, part);
    vstd::seq_lib::to_multiset_insert(parts, 0, part);
    assert(parts.insert(0, part) =~= seq![part] + parts);
    assert forall|idx: usize| #[trigger]
        numbered(result, idx) == numbered(seq![part] + parts, idx) by {
        lemma_numbered_concat(front, back, idx);
        lemma_numbered_concat(front, seq![part] + back, idx);
        lemma_numbered_concat(seq![part], back, idx);
        lemma_numbered_concat(seq![part], parts, idx);
        if idx == part.idx {
            lemma_numbered_none(front, idx);
        } else {
            lemma_numbered_none(seq![part], idx);
        }
        assert(numbered(sorted, idx) == numbered(parts, idx));
        assert(numbered(result, idx) =~= numbered(seq![part] + parts, idx));
    }
}

/// Puts `part` before the first of `sorted` whose number is not smaller.
fn insert_part(sorted: &mut Vec<OssPart>, part: OssPart) -> (at: usize)
    requires
        ascending(old(sorted)@),
    ensures
        at <= old(sorted)@.len(),
        forall|i: int| 0 <= i < at ==> old(sorted)@[i].idx < part.idx,
        at < old(sorted)@.len() ==> part.idx <= old(sorted)@[at as int].idx,
        final(sorted)@ == old(sorted)@.insert(at as int, part),
{
    let mut at: usize = 0;
    while at < sorted.len() && sorted[at].idx < part.idx
        invariant
            at <= sorted@.len(),
            forall|i: int| 0 <= i < at ==> sorted@[i].idx < part.idx,
        decreases sorted@.len() - at,
    {
        at = at + 1;
    }
    sorted.insert(at, part);
    at
}

/// The uploaded parts in the order of their numbers, or what the first upload that
/// did not succeed failed with. `uploads` are in the order in which they ended.
pub fn collect_parts(uploads: Vec<PartUpload>) -> (collected: Result<Vec<OssPart>, IoError>)
    ensures
        first_failure(uploads@) matches Some(failure) ==> {
            &&& collected matches Err(error)
            &&& error@ == failure
        },
        first_failure(uploads@) is None ==> {
            &&& collected matches Ok(parts)
            &&& sorts(done_parts(uploads@), parts@)
        },
{
    let mut left = uploads;
    let mut sorted: Vec<OssPart> = Vec::new();
    let mut failure: Option<IoError> = None;
    assert(uploads@.skip(uploads@.len() as int) =~= Seq::empty());
    while left.len() > 0
        invariant
            left@.len() <= uploads@.len(),
            left@ == uploads@.take(left@.len() as int),
            first_failure(uploads@.skip(left@.len() as int)) == (match failure {
                Some(error) => Some(error@),
                None => None,
            }),
            sorts(done_parts(uploads@.skip(left@.len() as int)), sorted@),
        decreases left@.len(),
    {
        let ghost n = left@.len() as int;
        let ghost after = uploads@.skip(n);
        let ghost from = uploads@.skip(n - 1);
        assert(from.skip(1) =~= after);
        assert(from[0] == left@[n - 1]);
        let last = left.pop();
        assert(left@ =~= uploads@.take(n - 1));
        match last {
            Some(PartUpload::Done(part)) => {
                let ghost before = sorted@;
                let at: usize = insert_part(&mut sorted, part);
                proof {
                    lemma_insert_sorts(done_parts(after), before, part, at as int);
                }
            },
            Some(PartUpload::Failed(error)) => {
                failure = Some(error);
            },
            Some(PartUpload::Aborted(reason)) => {
                failure = Some(IoError::JoinError { source: reason });
            },
            None => {},
        }
    }
    assert(uploads@.skip(0) =~= uploads@);
    match failure {
        Some(error) => Err(error),
        None => Ok(sorted),
    }
}

/// Two parts of the same number both stand among those of that number.
proof fn lemma_numbered_two(parts: Seq<OssPart>, i: int, j: int)
    requires
        0 <= i < j < parts.len(),
        parts[i].idx == parts[j].idx,
    ensures
        numbered(parts, parts[i].idx).len() >= 2,
{
    let idx = parts[i].idx;
    let front = parts.take(i);
    let middle = parts.subrange(i + 1, j);
    let back = parts.skip(j + 1);
    assert(parts =~= front + (seq![parts[i]] + (middle + (seq![parts[j]] + back))));
    lemma_numbered_concat(front, seq![parts[i]] + (middle + (seq![parts[j]] + back)), idx);
    lemma_numbered_concat(seq![parts[i]], middle + (seq![parts[j]] + back), idx);
    lemma_numbered_concat(middle, seq![parts[j]] + back, idx);
    lemma_numbered_concat(seq![parts[j]], back, idx);
    reveal_with_fuel(numbered, 2);
}

/// Of parts with distinct numbers at most one has a given number.
proof fn lemma_numbered_one(parts: Seq<OssPart>, idx: usize)
    requires
        distinct_numbers(parts),
    ensures
        numbered(parts, idx).len() <= 1,
    decreases parts.len(),
{
    if parts.len() > 0 {
        let rest = parts.skip(1);
        lemma_numbered_one(rest, idx);
        if parts[0].idx == idx {
            assert forall|i: int| 0 <= i < rest.len() implies rest[i].idx != idx by {
                assert(rest[i] == parts[i + 1]);
            }
            lemma_numbered_none(rest, idx);
        }
    }
}

/// Parts in ascending order of distinct numbers are determined by which they are.
proof fn lemma_ascending_unique(x: Seq<OssPart>, y: Seq<OssPart>)
    requires
        ascending(x),
        distinct_numbers(x),
        ascending(y),
        x.to_multiset() == y.to_multiset(),
    ensures
        x == y,
    decreases x.len(),
{
    vstd::seq_lib::to_multiset_len(x);
    vstd::seq_lib::to_multiset_len(y);
    if x.len() > 0 {
        vstd::seq_lib::to_multiset_contains(x, y[0]);
        vstd::seq_lib::to_multiset_contains(y, y[0]);
        vstd::seq_lib::to_multiset_contains(x, x[0]);
        vstd::seq_lib::to_multiset_contains(y, x[0]);
        assert(x.contains(x[0]));
        assert(y.contains(y[0]));
        let k = choose|k: int| 0 <= k < x.len() && x[k] == y[0];
        let j = choose|j: int| 0 <= j < y.len() && y[j] == x[0];
        assert(x[0] == y[0]) by {
            if k > 0 {
                assert(x[0].idx < x[k].idx);
                assert(y[0].idx <= y[j].idx);
            }
        }
        vstd::seq_lib::to_multiset_remove(x, 0);
        vstd::seq_lib::to_multiset_remove(y, 0);
        assert(x.remove(0) =~= x.skip(1));
        assert(y.remove(0) =~= y.skip(1));
        lemma_ascending_unique(x.skip(1), y.skip(1));
        assert(x =~= seq![x[0]] + x.skip(1));
        assert(y =~= seq![y[0]] + y.skip(1));
    }
}

/// Whatever the order in which the uploads of the parts ended, the parts are put
/// together in the same order, as long as no two have the same number.
pub proof fn law_completion_order_is_irrelevant(
    a: Seq<OssPart>,
    b: Seq<OssPart>,
    sorted_a: Seq<OssPart>,
    sorted_b: Seq<OssPart>,
)
    requires
        distinct_numbers(a),
        a.to_multiset() == b.to_multiset(),
        sorts(a, sorted_a),
        sorts(b, sorted_b),
    ensures
        sorted_a == sorted_b,
{
    assert forall|i: int, j: int| 0 <= i < j < sorted_a.len() implies sorted_a[i].idx
        != sorted_a[j].idx by {
        if sorted_a[i].idx == sorted_a[j].idx {
            lemma_numbered_two(sorted_a, i, j);
            lemma_numbered_one(a, sorted_a[i].idx);
            assert(numbered(sorted_a, sorted_a[i].idx) == numbered(a, sorted_a[i].idx));
        }
    }
    lemma_ascending_unique(sorted_a, sorted_b);
}

/// The number that is sent for the part `idx`: its lower 32 bits.
pub open spec fn number_sent(idx: usize) -> int {
    idx as int % 0x1_0000_0000
}

/// The index after `idx`: the next number, or 0 after the last one that there is.
pub open spec fn index_after(idx: usize) -> usize {
    if idx == usize::MAX {
        0
    } else {
        (idx + 1) as usize
    }
}

/// The number that is sent for the part `idx`.
fn number_to_send(idx: usize) -> (sent: u32)
    ensures
        sent == number_sent(idx),
{
    let wide: u64 = idx as u64;
    assert((wide as u32) == wide % 0x1_0000_0000) by (bit_vector);
    #[verifier::truncate]
    (wide as u32)
}

impl CompleteRequest {
    /// Whether the request puts together `parts`, in their order, for `upload_id`.
    pub open spec fn puts_together(self, upload_id: Seq<char>, parts: Seq<OssPart>) -> bool {
        &&& self.upload_id@ == upload_id
        &&& self.parts@.len() == parts.len()
        &&& forall|i: int|
            0 <= i < parts.len() ==> {
                &&& (#[trigger] self.parts@[i]).0 == number_sent(parts[i].idx)
                &&& self.parts@[i].1@ == parts[i].etag@
            }
    }

    /// Whether the request puts together the parts that `uploads` gave, in the order
    /// of their numbers.
    pub open spec fn collects(self, upload_id: Seq<char>, uploads: Seq<PartUpload>) -> bool {
        exists|sorted: Seq<OssPart>| #[trigger]
            sorts(done_parts(uploads), sorted) && self.puts_together(upload_id, sorted)
    }
}

impl OssSource {
    /// What the start of an upload in parts comes to: its id, or the error.
    pub fn create_mpu(bucket: &str, key: &str, outcome: Result<String, OssError>) -> (result: Result<
        String,
        IoError,
    >)
        ensures
            outcome matches Ok(upload_id) ==> result == Ok::<String, IoError>(upload_id),
            outcome matches Err(source) ==> {
                &&& result matches Err(error)
                &&& error@ == (ErrorView::UnableToCreateMultipartUpload {
                    path: location::object_url(bucket@, key@),
                    source: source@,
                }).seen_by_callers()
            },
    {
        match outcome {
            Ok(upload_id) => Ok(upload_id),
            Err(source) => Err(
                raise(
                    Error::UnableToCreateMultipartUpload {
                        path: location::object_path(bucket, key),
                        source,
                    },
                ),
            ),
        }
    }

    /// What the upload of a part comes to, given the tag that the service gave it:
    /// the part, or the error.
    pub fn upload_part(
        bucket: &str,
        key: &str,
        upload_id: &str,
        part_number: u32,
        outcome: Result<String, OssError>,
    ) -> (result: Result<OssPart, IoError>)
        ensures
            outcome matches Ok(etag) ==> result == Ok::<OssPart, IoError>(
                (OssPart { idx: part_number as usize, etag }),
            ),
            outcome matches Err(source) ==> {
                &&& result matches Err(error)
                &&& error@ == (ErrorView::UnableToUploadPart {
                    path: location::object_url(bucket@, key@),
                    upload_id: upload_id@,
                    part_number: part_number as usize,
                    source: source@,
                }).seen_by_callers()
            },
    {
        match outcome {
            Ok(etag) => Ok(OssPart { idx: part_number as usize, etag }),
            Err(source) => Err(
                raise(
                    Error::UnableToUploadPart {
                        path: location::object_path(bucket, key),
                        upload_id: upload_id.to_owned(),
                        part_number: part_number as usize,
                        source,
                    },
                ),
            ),
        }
    }

    /// What is asked of the service to put `parts` together.
    pub fn complete_request(upload_id: &str, parts: &Vec<OssPart>) -> (request: CompleteRequest)
        ensures
            request.puts_together(upload_id@, parts@),
    {
        let mut complete_parts: Vec<(u32, String)> = Vec::new();
        let total: usize = parts.len();
        let mut i: usize = 0;
        while i < total
            invariant
                total == parts@.len(),
                i <= total,
                complete_parts@.len() == i,
                forall|k: int|
                    0 <= k < i ==> {
                        &&& (#[trigger] complete_parts@[k]).0 == number_sent(parts@[k].idx)
                        &&& complete_parts@[k].1@ == parts@[k].etag@
                    },
            decreases total - i,
        {
            let number: u32 = number_to_send(parts[i].idx);
            complete_parts.push((number, parts[i].etag.clone()));
            i = i + 1;
        }
        CompleteRequest { upload_id: upload_id.to_owned(), parts: complete_parts }
    }

    /// What putting the parts of an upload together comes to.
    pub fn complete_mpu(
        bucket: &str,
        key: &str,
        upload_id: &str,
        outcome: Result<(), OssError>,
    ) -> (result: Result<(), IoError>)
        ensures
            outcome is Ok ==> result is Ok,
            outcome matches Err(source) ==> {
                &&& result matches Err(error)
                &&& error@ == (ErrorView::UnableToCompleteMultipartUpload {
                    path: location::object_url(bucket@, key@),
                    upload_id: upload_id@,
                    source: source@,
                }).seen_by_callers()
            },
    {
        match outcome {
            Ok(()) => Ok(()),
            Err(source) => Err(
                raise(
                    Error::UnableToCompleteMultipartUpload {
                        path: location::object_path(bucket, key),
                        upload_id: upload_id.to_owned(),
                        source,
                    },
                ),
            ),
        }
    }
}

/// Writes an object in parts.
#[derive(Debug)]
pub struct OssMultipartWriter {
    bucket: String,
    key: String,
    upload_id: String,
    part_idx: usize,
    phase: UploadPhase,
    part_size: usize,
    max_concurrent_uploads: usize,
}

impl OssMultipartWriter {
    /// The bucket that is written to.
    pub closed spec fn spec_bucket(self) -> Seq<char> {
        self.bucket@
    }

    /// The key that is written.
    pub closed spec fn spec_key(self) -> Seq<char> {
        self.key@
    }

    /// The id of the upload.
    pub closed spec fn spec_upload_id(self) -> Seq<char> {
        self.upload_id@
    }

    /// The index of the next part.
    pub closed spec fn next_index(self) -> usize {
        self.part_idx
    }

    /// How far the upload has come.
    pub closed spec fn spec_phase(self) -> UploadPhase {
        self.phase
    }

    /// Whether the upload has been completed, or its completion begun.
    pub open spec fn is_closed(self) -> bool {
        self.spec_phase() != UploadPhase::Open
    }

    /// Whether a completion is under way.
    pub open spec fn is_completing(self) -> bool {
        self.spec_phase() == UploadPhase::Collecting || self.spec_phase()
            == UploadPhase::AwaitingEmptyPart
    }

    /// Whether `event` takes the writer to the state `after`.
    pub open spec fn steps_to(self, event: WriterEvent, after: OssMultipartWriter) -> bool {
        &&& after.same_upload(self)
        &&& match event {
            WriterEvent::PartTaken { number } => {
                &&& number == number_sent(self.next_index())
                &&& after.next_index() == index_after(self.next_index())
                &&& after.spec_phase() == self.spec_phase()
            },
            WriterEvent::CompletionBegun => {
                &&& after.next_index() == self.next_index()
                &&& !self.is_closed()
                &&& after.spec_phase() == UploadPhase::Collecting
            },
            WriterEvent::CompletionRefused => {
                &&& after.next_index() == self.next_index()
                &&& self.is_closed()
                &&& after.spec_phase() == self.spec_phase()
            },
            WriterEvent::EmptyPartAsked => {
                &&& after.next_index() == self.next_index()
                &&& self.spec_phase() == UploadPhase::Collecting
                &&& after.spec_phase() == UploadPhase::AwaitingEmptyPart
            },
            WriterEvent::Requested | WriterEvent::CompletionFailed => {
                &&& after.next_index() == self.next_index()
                &&& self.is_completing()
                &&& after.spec_phase() == UploadPhase::Ended
            },
        }
    }

    /// How many bytes a part has.
    pub closed spec fn spec_part_size(self) -> usize {
        self.part_size
    }

    /// How many parts may be uploaded at a time.
    pub closed spec fn spec_max_concurrent_uploads(self) -> usize {
        self.max_concurrent_uploads
    }

    /// Whether `self` writes the same object in the same way as `other`.
    pub open spec fn same_upload(self, other: OssMultipartWriter) -> bool {
        &&& self.spec_bucket() == other.spec_bucket()
        &&& self.spec_key() == other.spec_key()
        &&& self.spec_upload_id() == other.spec_upload_id()
        &&& self.spec_part_size() == other.spec_part_size()
        &&& self.spec_max_concurrent_uploads() == other.spec_max_concurrent_uploads()
    }

    /// Refuses to write what is not a file.
    pub fn check_path(uri: &str, path: &ObjectPath) -> (result: Result<(), IoError>)
        ensures
            path.key@.len() > 0 ==> result is Ok,
            path.key@.len() == 0 ==> {
                &&& result matches Err(error)
                &&& error@ == (IoErrorView::NotAFile { path: uri@ })
            },
    {
        if path.key.as_str().is_empty() {
            Err(IoError::NotAFile { path: uri.to_owned() })
        } else {
            Ok(())
        }
    }

    /// A writer of the object that `uri` names, which is `path`, once the upload
    /// has been started.
    pub fn create(
        uri: &str,
        path: ObjectPath,
        config: &OssConfig,
        upload: Result<String, IoError>,
    ) -> (result: Result<OssMultipartWriter, IoError>)
        ensures
            path.key@.len() == 0 ==> {
                &&& result matches Err(error)
                &&& error@ == (IoErrorView::NotAFile { path: uri@ })
            },
            path.key@.len() > 0 ==> match upload {
                Ok(upload_id) => {
                    &&& result matches Ok(writer)
                    &&& writer.spec_bucket() == path.bucket@
                    &&& writer.spec_key() == path.key@
                    &&& writer.spec_upload_id() == upload_id@
                    &&& writer.next_index() == 1
                    &&& !writer.is_closed()
                    &&& writer.spec_part_size() == config.multipart_size as usize
                    &&& writer.spec_max_concurrent_uploads() == config.multipart_max_concurrency
                },
                Err(failure) => result == Err::<OssMultipartWriter, IoError>(failure),
            },
    {
        match OssMultipartWriter::check_path(uri, &path) {
            Ok(()) => {},
            Err(error) => {
                return Err(error);
            },
        }
        match upload {
            Ok(upload_id) => Ok(
                OssMultipartWriter {
                    bucket: path.bucket,
                    key: path.key,
                    upload_id,
                    part_idx: 1,
                    phase: UploadPhase::Open,
                    part_size: #[verifier::truncate]
                    (config.multipart_size as usize),
                    max_concurrent_uploads: config.multipart_max_concurrency as usize,
                },
            ),
            Err(failure) => Err(failure),
        }
    }

    /// The bucket that is written to.
    pub fn bucket(&self) -> (bucket: &str)
        ensures
            bucket@ == self.spec_bucket(),
    {
        self.bucket.as_str()
    }

    /// The key that is written.
    pub fn key(&self) -> (key: &str)
        ensures
            key@ == self.spec_key(),
    {
        self.key.as_str()
    }

    /// The id of the upload.
    pub fn upload_id(&self) -> (upload_id: &str)
        ensures
            upload_id@ == self.spec_upload_id(),
    {
        self.upload_id.as_str()
    }

    /// How many bytes a part has.
    pub fn part_size(&self) -> (size: usize)
        ensures
            size == self.spec_part_size(),
    {
        self.part_size
    }

    /// How many parts may be uploaded at a time.
    pub fn max_concurrent_uploads(&self) -> (count: usize)
        ensures
            count == self.spec_max_concurrent_uploads(),
    {
        self.max_concurrent_uploads
    }

    /// How far the upload has come.
    pub fn phase(&self) -> (phase: UploadPhase)
        ensures
            phase == self.spec_phase(),
    {
        self.phase
    }

    /// Takes the next part number: each part gets the number after the one before,
    /// starting from 1, whether or not the writer is closed.
    pub fn next_part(&mut self) -> (part_number: u32)
        ensures
            old(self).steps_to(WriterEvent::PartTaken { number: part_number }, *final(self)),
    {
        let index: usize = self.part_idx;
        if index == usize::MAX {
            self.part_idx = 0;
        } else {
            self.part_idx = index + 1;
        }
        number_to_send(index)
    }

    /// The error of a writer that is already closed.
    pub open spec fn closed_error() -> IoErrorView {
        IoErrorView::Generic {
            store: SourceType::Oss,
            source: GenericSourceView::Message("OssMultipartWriter is closed"@),
        }
    }

    /// Closes the writer, before its parts are collected. It can be closed once.
    pub fn begin_complete(&mut self) -> (result: Result<(), IoError>)
        ensures
            !old(self).is_closed() ==> {
                &&& result is Ok
                &&& old(self).steps_to(WriterEvent::CompletionBegun, *final(self))
            },
            old(self).is_closed() ==> {
                &&& result matches Err(error)
                &&& error@ == OssMultipartWriter::closed_error()
                &&& old(self).steps_to(WriterEvent::CompletionRefused, *final(self))
            },
    {
        match self.phase {
            UploadPhase::Open => {
                self.phase = UploadPhase::Collecting;
                Ok(())
            },
            _ => Err(
                IoError::Generic {
                    store: SourceType::Oss,
                    source: GenericSource::Message("OssMultipartWriter is closed".to_owned()),
                },
            ),
        }
    }

    /// What is left to do, given how the uploads of the parts ended: the error of
    /// the first that failed; or, where there was no part at all, the upload of an
    /// empty one; or to put the parts together in the order of their numbers.
    pub fn after_uploads(&mut self, uploads: Vec<PartUpload>) -> (step: Result<
        CompletionStep,
        IoError,
    >)
        requires
            old(self).spec_phase() == UploadPhase::Collecting,
        ensures
            first_failure(uploads@) matches Some(failure) ==> {
                &&& step matches Err(error)
                &&& error@ == failure
                &&& old(self).steps_to(WriterEvent::CompletionFailed, *final(self))
            },
            first_failure(uploads@) is None && uploads@.len() == 0 ==> {
                &&& step == Ok::<CompletionStep, IoError>(
                    CompletionStep::UploadEmptyPart { part_number: 1 },
                )
                &&& old(self).steps_to(WriterEvent::EmptyPartAsked, *final(self))
            },
            first_failure(uploads@) is None && uploads@.len() > 0 ==> {
                &&& step matches Ok(CompletionStep::Complete(request))
                &&& request.collects(old(self).spec_upload_id(), uploads@)
                &&& old(self).steps_to(WriterEvent::Requested, *final(self))
            },
    {
        self.phase = UploadPhase::Ended;
        let completed_parts = match collect_parts(uploads) {
            Ok(parts) => parts,
            Err(error) => {
                return Err(error);
            },
        };
        proof {
            lemma_done_parts_len(uploads@);
            vstd::seq_lib::to_multiset_len(done_parts(uploads@));
            vstd::seq_lib::to_multiset_len(completed_parts@);
        }
        if completed_parts.len() == 0 {
            self.phase = UploadPhase::AwaitingEmptyPart;
            Ok(CompletionStep::UploadEmptyPart { part_number: 1 })
        } else {
            let request = OssSource::complete_request(self.upload_id.as_str(), &completed_parts);
            assert(request.collects(self.spec_upload_id(), uploads@));
            Ok(CompletionStep::Complete(request))
        }
    }

    /// What is left to do after the upload of the empty part.
    pub fn after_empty_part(&mut self, upload: Result<OssPart, IoError>) -> (step: Result<
        CompleteRequest,
        IoError,
    >)
        requires
            old(self).spec_phase() == UploadPhase::AwaitingEmptyPart,
        ensures
            upload matches Ok(part) ==> {
                &&& step matches Ok(request)
                &&& request.puts_together(old(self).spec_upload_id(), seq![part])
                &&& old(self).steps_to(WriterEvent::Requested, *final(self))
            },
            upload matches Err(failure) ==> {
                &&& step == Err::<CompleteRequest, IoError>(failure)
                &&& old(self).steps_to(WriterEvent::CompletionFailed, *final(self))
            },
    {
        self.phase = UploadPhase::Ended;
        match upload {
            Ok(part) => {
                let mut parts: Vec<OssPart> = Vec::new();
                parts.push(part);
                assert(parts@ =~= seq![part]);
                Ok(OssSource::complete_request(self.upload_id.as_str(), &parts))
            },
            Err(failure) => Err(failure),
        }
    }
}

/// Where no upload failed, each gave a part.
proof fn lemma_done_parts_len(uploads: Seq<PartUpload>)
    ensures
        first_failure(uploads) is None ==> done_parts(uploads).len() == uploads.len(),
    decreases uploads.len(),
{
    if uploads.len() > 0 {
        lemma_done_parts_len(uploads.skip(1));
    }
}

/// Whether `writers` are the states that a writer goes through, from its creation, as
/// `events` happen to it.
pub open spec fn is_writer_run(
    writers: Seq<OssMultipartWriter>,
    events: Seq<WriterEvent>,
) -> bool {
    &&& writers.len() == events.len() + 1
    &&& writers[0].next_index() == 1
    &&& !writers[0].is_closed()
    &&& forall|i: int|
        0 <= i < events.len() ==> writers[i].steps_to(#[trigger] events[i], writers[i + 1])
}

/// How many parts were handed out.
pub open spec fn parts_taken(events: Seq<WriterEvent>) -> nat
    decreases events.len(),
{
    if events.len() == 0 {
        0
    } else if events.last() is PartTaken {
        parts_taken(events.drop_last()) + 1
    } else {
        parts_taken(events.drop_last())
    }
}

/// The first part that a writer hands out has the number 1, and each one after it the
/// next, whatever else happens in between, as long as the numbers fit into 32 bits.
pub proof fn law_parts_are_numbered_from_one(
    writers: Seq<OssMultipartWriter>,
    events: Seq<WriterEvent>,
    i: int,
)
    requires
        is_writer_run(writers, events),
        0 <= i < events.len(),
        parts_taken(events.take(i)) < 0xffff_ffff,
    ensures
        events[i] matches WriterEvent::PartTaken { number } ==> number == parts_taken(
            events.take(i),
        ) + 1,
{
    lemma_next_index(writers, events, i);
    assert(writers[i].steps_to(events[i], writers[i + 1]));
}

/// The next part gets the number after as many as were handed out.
proof fn lemma_next_index(
    writers: Seq<OssMultipartWriter>,
    events: Seq<WriterEvent>,
    i: int,
)
    requires
        is_writer_run(writers, events),
        0 <= i <= events.len(),
        parts_taken(events.take(i)) < 0xffff_ffff,
    ensures
        writers[i].next_index() == parts_taken(events.take(i)) + 1,
    decreases i,
{
    if i > 0 {
        let before = i - 1;
        assert(events.take(i).drop_last() =~= events.take(before));
        assert(events.take(i).last() == events[before]);
        lemma_next_index(writers, events, before);
        assert(writers[before].steps_to(events[before], writers[before + 1]));
    }
}

/// How far a phase is from the start.
spec fn rank(phase: UploadPhase) -> int {
    match phase {
        UploadPhase::Open => 0,
        UploadPhase::Collecting => 1,
        UploadPhase::AwaitingEmptyPart => 2,
        UploadPhase::Ended => 3,
    }
}

/// An upload never goes back to an earlier phase, and always writes the same object.
proof fn lemma_phases_advance(
    writers: Seq<OssMultipartWriter>,
    events: Seq<WriterEvent>,
    i: int,
    j: int,
)
    requires
        is_writer_run(writers, events),
        0 <= i <= j <= events.len(),
    ensures
        rank(writers[i].spec_phase()) <= rank(writers[j].spec_phase()),
        writers[j].same_upload(writers[i]),
    decreases j - i,
{
    if i < j {
        let before = j - 1;
        lemma_phases_advance(writers, events, i, before);
        assert(writers[before].steps_to(events[before], writers[before + 1]));
    }
}

/// A writer that is closed was closed by a completion that was begun.
proof fn lemma_closed_by_completion(
    writers: Seq<OssMultipartWriter>,
    events: Seq<WriterEvent>,
    j: int,
)
    requires
        is_writer_run(writers, events),
        0 <= j <= events.len(),
        writers[j].is_closed(),
    ensures
        exists|i: int| 0 <= i < j && (#[trigger] events[i]) is CompletionBegun,
    decreases j,
{
    let before = j - 1;
    assert(writers[before].steps_to(events[before], writers[before + 1]));
    if writers[before].is_closed() {
        lemma_closed_by_completion(writers, events, before);
        let i = choose|i: int| 0 <= i < before && (#[trigger] events[i]) is CompletionBegun;
        assert(0 <= i < j && events[i] is CompletionBegun);
    } else {
        assert(events[before] is CompletionBegun);
    }
}

/// Of all the completions of a writer only the first is begun; each later one is
/// refused. At most one request to put the parts together, or one error, comes of it,
/// and none before it was begun.
pub proof fn law_one_completion_reaches_a_request(
    writers: Seq<OssMultipartWriter>,
    events: Seq<WriterEvent>,
)
    requires
        is_writer_run(writers, events),
    ensures
        forall|i: int, j: int|
            #![trigger events[i], events[j]]
            0 <= i < j < events.len() && events[i] is CompletionBegun
                ==> !(events[j] is CompletionBegun),
        forall|i: int, j: int|
            #![trigger events[i], events[j]]
            0 <= i < j < events.len() && (events[i] is Requested || events[i] is CompletionFailed)
                ==> !(events[j] is Requested || events[j] is CompletionFailed
                || events[j] is EmptyPartAsked),
        forall|j: int|
            0 <= j < events.len() && ((#[trigger] events[j]) is Requested
                || events[j] is CompletionFailed || events[j] is CompletionRefused) ==> exists|
                i: int,
            |
                0 <= i < j && (#[trigger] events[i]) is CompletionBegun,
        forall|j: int| 0 <= j <= events.len() ==> (#[trigger] writers[j]).same_upload(writers[0]),
{
    assert forall|i: int, j: int|
        #![trigger events[i], events[j]]
        0 <= i < j < events.len() && events[i] is CompletionBegun implies !(
    events[j] is CompletionBegun) by {
        assert(writers[i].steps_to(events[i], writers[i + 1]));
        assert(writers[j].steps_to(events[j], writers[j + 1]));
        lemma_phases_advance(writers, events, i + 1, j);
    }
    assert forall|i: int, j: int|
        #![trigger events[i], events[j]]
        0 <= i < j < events.len() && (events[i] is Requested
            || events[i] is CompletionFailed) implies !(events[j] is Requested
        || events[j] is CompletionFailed || events[j] is EmptyPartAsked) by {
        assert(writers[i].steps_to(events[i], writers[i + 1]));
        assert(writers[j].steps_to(events[j], writers[j + 1]));
        lemma_phases_advance(writers, events, i + 1, j);
    }
    assert forall|j: int|
        0 <= j < events.len() && ((#[trigger] events[j]) is Requested
            || events[j] is CompletionFailed || events[j] is CompletionRefused) implies exists|
            i: int,
        |
            0 <= i < j && (#[trigger] events[i]) is CompletionBegun by {
        assert(writers[j].steps_to(events[j], writers[j + 1]));
        lemma_closed_by_completion(writers, events, j);
    }
    assert forall|j: int| 0 <= j <= events.len() implies (#[trigger] writers[j]).same_upload(
        writers[0],
    ) by {
        lemma_phases_advance(writers, events, 0, j);
    }
}

/// Once an upload has failed, no upload that ends later changes what is reported.
pub proof fn law_nothing_after_a_failure_counts(uploads: Seq<PartUpload>, later: Seq<PartUpload>)
    requires
        first_failure(uploads) is Some,
    ensures
        first_failure(uploads + later) == first_failure(uploads),
    decreases uploads.len(),
{
    assert((uploads + later).skip(1) =~= uploads.skip(1) + later);
    if uploads[0] is Done {
        law_nothing_after_a_failure_counts(uploads.skip(1), later);
    }
}

/// Parts that were numbered from 1 in the order in which they were written are put
/// together in that order, whatever the order in which their uploads ended.
pub proof fn law_parts_are_put_together_as_written(
    written: Seq<OssPart>,
    uploads: Seq<PartUpload>,
    upload_id: Seq<char>,
    request: CompleteRequest,
)
    requires
        forall|i: int| 0 <= i < written.len() ==> (#[trigger] written[i]).idx == i + 1,
        done_parts(uploads).to_multiset() == written.to_multiset(),
        request.collects(upload_id, uploads),
    ensures
        request.puts_together(upload_id, written),
{
    let sorted = choose|sorted: Seq<OssPart>| #[trigger]
        sorts(done_parts(uploads), sorted) && request.puts_together(upload_id, sorted);
    lemma_ascending_unique(written, sorted);
}

/// What `parts` hold one after the other, where `held` is the tag and the data that the
/// service holds of each number.
pub open spec fn assembled(
    held: Map<int, (Seq<char>, Seq<u8>)>,
    parts: Seq<(u32, String)>,
) -> Seq<u8>
    decreases parts.len(),
{
    if parts.len() == 0 {
        Seq::empty()
    } else {
        held[parts[0].0 as int].1 + assembled(held, parts.skip(1))
    }
}

/// Whether `held` holds `data` under the number `number`, with the tag `tag`.
pub open spec fn holds_part(
    held: Map<int, (Seq<char>, Seq<u8>)>,
    number: int,
    tag: Seq<char>,
    data: Seq<u8>,
) -> bool {
    &&& held.contains_key(number)
    &&& held[number].0 == tag
    &&& held[number].1 == data
}

/// Whether a service that holds `held` accepts a completion that lists `parts`: it holds a
/// part of each number, under the tag that is listed with it.
pub open spec fn accepts(held: Map<int, (Seq<char>, Seq<u8>)>, parts: Seq<(u32, String)>) -> bool {
    forall|i: int|
        0 <= i < parts.len() ==> {
            &&& held.contains_key((#[trigger] parts[i]).0 as int)
            &&& held[parts[i].0 as int].0 == parts[i].1@
        }
}

/// A completion of parts that were numbered from 1 in the order in which they were written
/// is accepted by a service that checks their tags, and the object holds their data in that
/// order, where the service holds of each number the tag that it gave and the data that was
/// uploaded. The numbers fit into 32 bits.
pub proof fn law_upload_writes_what_was_put(
    written: Seq<OssPart>,
    data: Seq<Seq<u8>>,
    held: Map<int, (Seq<char>, Seq<u8>)>,
    upload_id: Seq<char>,
    request: CompleteRequest,
)
    requires
        written.len() <= 0xffff_ffff,
        data.len() == written.len(),
        forall|i: int| 0 <= i < written.len() ==> (#[trigger] written[i]).idx == i + 1,
        forall|i: int|
            0 <= i < data.len() ==> holds_part(held, i + 1, written[i].etag@, #[trigger] data[i]),
        request.puts_together(upload_id, written),
    ensures
        accepts(held, request.parts@),
        assembled(held, request.parts@) == data.flatten(),
{
    assert forall|i: int| 0 <= i < data.len() implies {
        &&& held.contains_key((#[trigger] request.parts@[i]).0 as int)
        &&& held[request.parts@[i].0 as int].0 == request.parts@[i].1@
        &&& held[request.parts@[i].0 as int].1 == data[i]
    } by {
        assert(written[i].idx == i + 1);
        assert(holds_part(held, i + 1, written[i].etag@, data[i]));
    }
    lemma_assembled(held, request.parts@, data);
}

proof fn lemma_assembled(
    held: Map<int, (Seq<char>, Seq<u8>)>,
    parts: Seq<(u32, String)>,
    data: Seq<Seq<u8>>,
)
    requires
        parts.len() == data.len(),
        forall|i: int| 0 <= i < data.len() ==> held[(#[trigger] parts[i]).0 as int].1 == data[i],
    ensures
        assembled(held, parts) == data.flatten(),
    decreases parts.len(),
{
    if parts.len() > 0 {
        assert forall|i: int| 0 <= i < parts.len() - 1 implies held[(
        #[trigger] parts.skip(1)[i]).0 as int].1 == data.drop_first()[i] by {
            assert(parts.skip(1)[i] == parts[i + 1]);
        }
        assert(held[parts[0].0 as int].1 == data[0]);
        lemma_assembled(held, parts.skip(1), data.drop_first());
    }
}

/// A completion lists every part that it is given, in the same order, each with its own
/// number and its own tag.
pub proof fn law_completion_lists_each_part_with_its_tag(
    upload_id: &str,
    parts: Vec<OssPart>,
    request: CompleteRequest,
    i: int,
)
    requires
        call_ensures(OssSource::complete_request, (upload_id, &parts), request),
        0 <= i < parts@.len(),
    ensures
        request.upload_id@ == upload_id@,
        request.parts@.len() == parts@.len(),
        request.parts@[i].1@ == parts@[i].etag@,
        request.parts@[i].0 == parts@[i].idx as int % 0x1_0000_0000,
{
}

/// A completion of any number of uploaded parts is accepted by a service that holds, for
/// the number of each part, the tag that it gave.
pub proof fn law_completion_is_accepted(
    upload_id: &str,
    parts: Vec<OssPart>,
    request: CompleteRequest,
    held: Map<int, (Seq<char>, Seq<u8>)>,
)
    requires
        call_ensures(OssSource::complete_request, (upload_id, &parts), request),
        forall|i: int|
            0 <= i < parts@.len() ==> {
                let number = (#[trigger] parts@[i]).idx as int;
                &&& number <= 0xffff_ffff
                &&& held.contains_key(number)
                &&& held[number].0 == parts@[i].etag@
            },
    ensures
        request.parts@.len() == parts@.len(),
        accepts(held, request.parts@),
{
    assert forall|i: int| 0 <= i < request.parts@.len() implies {
        &&& held.contains_key((#[trigger] request.parts@[i]).0 as int)
        &&& held[request.parts@[i].0 as int].0 == request.parts@[i].1@
    } by {
        assert(held.contains_key(parts@[i].idx as int));
    }
}

/// The start of an upload comes to its id, the upload of a part to the part, with the
/// number that was sent and the tag that was given, and the completion to nothing more. Each
/// failure names the object, the upload and the part, and has the answer as its cause.
pub proof fn law_uploads_come_to_their_answers(
    bucket: &str,
    key: &str,
    upload_id: &str,
    part_number: u32,
    text: Result<String, OssError>,
    done: Result<(), OssError>,
    created: Result<String, IoError>,
    uploaded: Result<OssPart, IoError>,
    completed: Result<(), IoError>,
)
    requires
        call_ensures(OssSource::create_mpu, (bucket, key, text), created),
        call_ensures(OssSource::upload_part, (bucket, key, upload_id, part_number, text), uploaded),
        call_ensures(OssSource::complete_mpu, (bucket, key, upload_id, done), completed),
    ensures
        text matches Ok(given) ==> {
            &&& created is Ok
            &&& created->Ok_0@ == given@
            &&& uploaded matches Ok(part)
            &&& part.idx == part_number
            &&& part.etag@ == given@
        },
        text matches Err(cause) ==> {
            &&& created matches Err(
                IoError::Generic {
                    store: s1,
                    source: GenericSource::Oss(
                        Error::UnableToCreateMultipartUpload { path: p1, source: c1 },
                    ),
                },
            )
            &&& p1@ == "oss://"@ + bucket@ + "/"@ + key@
            &&& c1@ == cause@
            &&& uploaded matches Err(
                IoError::Generic {
                    store: s2,
                    source: GenericSource::Oss(
                        Error::UnableToUploadPart {
                            path: p2,
                            upload_id: u2,
                            part_number: n2,
                            source: c2,
                        },
                    ),
                },
            )
            &&& p2@ == "oss://"@ + bucket@ + "/"@ + key@
            &&& u2@ == upload_id@
            &&& n2 == part_number
            &&& c2@ == cause@
        },
        done is Ok ==> completed is Ok,
        done matches Err(cause) ==> {
            &&& completed matches Err(
                IoError::Generic {
                    store,
                    source: GenericSource::Oss(
                        Error::UnableToCompleteMultipartUpload { path, upload_id: id, source },
                    ),
                },
            )
            &&& path@ == "oss://"@ + bucket@ + "/"@ + key@
            &&& id@ == upload_id@
            &&& source@ == cause@
        },
{
}

/// Whether all of `uploads` gave a part, and `parts` are those, in order.
pub open spec fn all_done(uploads: Seq<PartUpload>, parts: Seq<OssPart>) -> bool {
    &&& parts.len() == uploads.len()
    &&& forall|i: int|
        0 <= i < uploads.len() ==> #[trigger] uploads[i] == PartUpload::Done(parts[i])
}

proof fn lemma_all_done(uploads: Seq<PartUpload>, parts: Seq<OssPart>)
    requires
        all_done(uploads, parts),
    ensures
        first_failure(uploads) is None,
        done_parts(uploads) == parts,
    decreases uploads.len(),
{
    if uploads.len() > 0 {
        assert(uploads[0] == PartUpload::Done(parts[0]));
        assert forall|i: int| 0 <= i < uploads.len() - 1 implies #[trigger] uploads.skip(1)[i]
            == PartUpload::Done(parts.skip(1)[i]) by {
            assert(uploads[i + 1] == PartUpload::Done(parts[i + 1]));
        }
        lemma_all_done(uploads.skip(1), parts.skip(1));
        assert(seq![parts[0]] + parts.skip(1) =~= parts);
    }
    assert(done_parts(uploads) =~= parts);
}

/// Those of `parts` that have the number `idx`.
pub open spec fn with_number(parts: Seq<OssPart>, idx: usize) -> Seq<OssPart> {
    parts.filter(|part: OssPart| part.idx == idx)
}

proof fn lemma_numbered_is_filter(parts: Seq<OssPart>, idx: usize)
    ensures
        numbered(parts, idx) == with_number(parts, idx),
    decreases parts.len(),
{
    reveal(Seq::filter);
    if parts.len() > 0 {
        let front = parts.drop_last();
        lemma_numbered_is_filter(front, idx);
        lemma_numbered_concat(front, seq![parts.last()], idx);
        assert(parts =~= front + seq![parts.last()]);
        reveal_with_fuel(numbered, 2);
        assert(numbered(parts, idx) =~= with_number(parts, idx));
    }
}

/// Where every upload gave a part, exactly those parts are collected, sorted by their
/// numbers, and those of the same number in the order in which their uploads ended.
pub proof fn law_every_part_is_collected(
    uploads: Vec<PartUpload>,
    parts: Seq<OssPart>,
    collected: Result<Vec<OssPart>, IoError>,
)
    requires
        call_ensures(collect_parts, (uploads,), collected),
        all_done(uploads@, parts),
    ensures
        collected is Ok,
        ({
            let sorted = collected->Ok_0@;
            &&& sorted.len() == parts.len()
            &&& sorted.to_multiset() == parts.to_multiset()
            &&& forall|i: int, j: int|
                0 <= i < j < sorted.len() ==> #[trigger] sorted[i].idx <= #[trigger] sorted[j].idx
            &&& forall|idx: usize| #[trigger] with_number(sorted, idx) == with_number(parts, idx)
        }),
{
    lemma_all_done(uploads@, parts);
    let sorted = collected->Ok_0@;
    vstd::seq_lib::to_multiset_len(sorted);
    vstd::seq_lib::to_multiset_len(parts);
    assert forall|idx: usize| #[trigger] with_number(sorted, idx) == with_number(parts, idx) by {
        lemma_numbered_is_filter(sorted, idx);
        lemma_numbered_is_filter(parts, idx);
        assert(numbered(sorted, idx) == numbered(parts, idx));
    }
}

/// Where an upload failed, and none that ended before it did, its failure is what the
/// collecting and the completion come to, whatever ended after it.
pub proof fn law_first_failed_upload_is_reported(
    uploads: Vec<PartUpload>,
    before: Seq<OssPart>,
    collected: Result<Vec<OssPart>, IoError>,
    writer: &mut OssMultipartWriter,
    step: Result<CompletionStep, IoError>,
)
    requires
        call_ensures(collect_parts, (uploads,), collected),
        call_ensures(OssMultipartWriter::after_uploads, (writer, uploads), step),
        before.len() < uploads@.len(),
        all_done(uploads@.take(before.len() as int), before),
        !(uploads@[before.len() as int] is Done),
    ensures
        collected is Err,
        step is Err,
        final(writer).spec_phase() == UploadPhase::Ended,
        match uploads@[before.len() as int] {
            PartUpload::Failed(error) => collected->Err_0@ == error@ && step->Err_0@ == error@,
            PartUpload::Aborted(reason) => {
                &&& collected->Err_0 matches IoError::JoinError { source }
                &&& source@ == reason@
                &&& step->Err_0 matches IoError::JoinError { source: again }
                &&& again@ == reason@
            },
            PartUpload::Done(_) => false,
        },
{
    lemma_first_failure(uploads@, before);
}

proof fn lemma_first_failure(uploads: Seq<PartUpload>, before: Seq<OssPart>)
    requires
        before.len() < uploads.len(),
        all_done(uploads.take(before.len() as int), before),
        !(uploads[before.len() as int] is Done),
    ensures
        first_failure(uploads) == (match uploads[before.len() as int] {
            PartUpload::Failed(error) => Some(error@),
            PartUpload::Aborted(reason) => Some(IoErrorView::JoinError { source: reason@ }),
            PartUpload::Done(_) => None,
        }),
    decreases uploads.len(),
{
    if before.len() > 0 {
        let front = uploads.take(before.len() as int);
        assert(front[0] == PartUpload::Done(before[0]));
        let rest = uploads.skip(1);
        let rest_before = before.skip(1);
        assert forall|i: int| 0 <= i < rest_before.len() implies #[trigger] rest.take(
            rest_before.len() as int,
        )[i] == PartUpload::Done(rest_before[i]) by {
            assert(front[i + 1] == PartUpload::Done(before[i + 1]));
        }
        lemma_first_failure(rest, rest_before);
    }
}

/// The completion of an upload whose parts were numbered from 1 as they were written lists
/// all of them, each under its number and with its tag, in the order in which they were
/// written, whatever the order in which their uploads ended.
pub proof fn law_completion_lists_what_was_written(
    writer: &mut OssMultipartWriter,
    uploads: Vec<PartUpload>,
    step: Result<CompletionStep, IoError>,
    ended: Seq<OssPart>,
    written: Seq<OssPart>,
)
    requires
        call_ensures(OssMultipartWriter::after_uploads, (writer, uploads), step),
        all_done(uploads@, ended),
        0 < written.len() <= 0xffff_ffff,
        written.to_multiset() == ended.to_multiset(),
        forall|i: int| 0 <= i < written.len() ==> (#[trigger] written[i]).idx == i + 1,
    ensures
        step is Ok,
        step->Ok_0 is Complete,
        final(writer).spec_phase() == UploadPhase::Ended,
        ({
            let request = step->Ok_0->Complete_0;
            &&& request.upload_id@ == old(writer).spec_upload_id()
            &&& request.parts@.len() == written.len()
            &&& forall|i: int|
                0 <= i < written.len() ==> {
                    &&& (#[trigger] request.parts@[i]).0 == i + 1
                    &&& request.parts@[i].1@ == written[i].etag@
                }
        }),
{
    lemma_all_done(uploads@, ended);
    vstd::seq_lib::to_multiset_len(written);
    vstd::seq_lib::to_multiset_len(ended);
    let request = step->Ok_0->Complete_0;
    law_parts_are_put_together_as_written(
        written,
        uploads@,
        old(writer).spec_upload_id(),
        request,
    );
    assert forall|i: int| 0 <= i < written.len() implies {
        &&& (#[trigger] request.parts@[i]).0 == i + 1
        &&& request.parts@[i].1@ == written[i].etag@
    } by {
        assert(written[i].idx == i + 1);
    }
}

/// An upload without parts is completed with one empty part, of the number 1, which is then
/// listed with its own number and tag; or with the error of its upload.
pub proof fn law_empty_upload_has_one_part(
    writer: &mut OssMultipartWriter,
    uploads: Vec<PartUpload>,
    step: Result<CompletionStep, IoError>,
    later: &mut OssMultipartWriter,
    upload: Result<OssPart, IoError>,
    request: Result<CompleteRequest, IoError>,
)
    requires
        call_ensures(OssMultipartWriter::after_uploads, (writer, uploads), step),
        uploads@.len() == 0,
        call_ensures(OssMultipartWriter::after_empty_part, (later, upload), request),
    ensures
        step is Ok,
        step->Ok_0 matches CompletionStep::UploadEmptyPart { part_number } && part_number == 1,
        final(writer).spec_phase() == UploadPhase::AwaitingEmptyPart,
        final(later).spec_phase() == UploadPhase::Ended,
        upload matches Ok(part) ==> {
            &&& request matches Ok(asked)
            &&& asked.upload_id@ == old(later).spec_upload_id()
            &&& asked.parts@.len() == 1
            &&& asked.parts@[0].0 == part.idx as int % 0x1_0000_0000
            &&& asked.parts@[0].1@ == part.etag@
        },
        upload matches Err(error) ==> request is Err && request->Err_0@ == error@,
{
}

/// A writer is made for a file alone, once its upload has been started; it writes the
/// object that it is made for, by parts of the configured size and as many at a time as is
/// configured, and is open.
pub proof fn law_writer_is_made_as_configured(
    uri: &str,
    path: ObjectPath,
    config: OssConfig,
    upload: Result<String, IoError>,
    checked: Result<(), IoError>,
    result: Result<OssMultipartWriter, IoError>,
)
    requires
        call_ensures(OssMultipartWriter::check_path, (uri, &path), checked),
        call_ensures(OssMultipartWriter::create, (uri, path, &config, upload), result),
    ensures
        path.key@.len() == 0 ==> {
            &&& checked matches Err(IoError::NotAFile { path: p })
            &&& p@ == uri@
            &&& result matches Err(IoError::NotAFile { path: q })
            &&& q@ == uri@
        },
        path.key@.len() > 0 ==> {
            &&& checked is Ok
            &&& upload matches Err(error) ==> result is Err && result->Err_0@ == error@
            &&& upload matches Ok(id) ==> {
                &&& result is Ok
                &&& result->Ok_0.spec_bucket() == path.bucket@
                &&& result->Ok_0.spec_key() == path.key@
                &&& result->Ok_0.spec_upload_id() == id@
                &&& result->Ok_0.spec_phase() == UploadPhase::Open
                &&& result->Ok_0.next_index() == 1
                &&& config.multipart_size <= usize::MAX ==> result->Ok_0.spec_part_size()
                    == config.multipart_size
                &&& result->Ok_0.spec_max_concurrent_uploads() == config.multipart_max_concurrency
            }
        },
{
}

/// What is read of a writer is what it is.
pub proof fn law_writer_tells_what_it_is(
    writer: OssMultipartWriter,
    bucket: &str,
    key: &str,
    upload_id: &str,
    part_size: usize,
    count: usize,
    phase: UploadPhase,
)
    requires
        call_ensures(OssMultipartWriter::bucket, (&writer,), bucket),
        call_ensures(OssMultipartWriter::key, (&writer,), key),
        call_ensures(OssMultipartWriter::upload_id, (&writer,), upload_id),
        call_ensures(OssMultipartWriter::part_size, (&writer,), part_size),
        call_ensures(OssMultipartWriter::max_concurrent_uploads, (&writer,), count),
        call_ensures(OssMultipartWriter::phase, (&writer,), phase),
    ensures
        bucket@ == writer.spec_bucket(),
        key@ == writer.spec_key(),
        upload_id@ == writer.spec_upload_id(),
        part_size == writer.spec_part_size(),
        count == writer.spec_max_concurrent_uploads(),
        phase == writer.spec_phase(),
{
}

/// Each part gets the next number, and handing it out changes nothing else about the
/// writer.
pub proof fn law_parts_get_the_next_number(writer: &mut OssMultipartWriter, part_number: u32)
    requires
        call_ensures(OssMultipartWriter::next_part, (writer,), part_number),
    ensures
        part_number == old(writer).next_index() as int % 0x1_0000_0000,
        old(writer).next_index() < usize::MAX ==> final(writer).next_index() == old(writer).next_index() + 1,
        old(writer).next_index() == usize::MAX ==> final(writer).next_index() == 0,
        final(writer).spec_phase() == old(writer).spec_phase(),
        final(writer).spec_bucket() == old(writer).spec_bucket(),
        final(writer).spec_key() == old(writer).spec_key(),
        final(writer).spec_upload_id() == old(writer).spec_upload_id(),
        final(writer).spec_part_size() == old(writer).spec_part_size(),
        final(writer).spec_max_concurrent_uploads() == old(writer).spec_max_concurrent_uploads(),
{
}

/// A completion is begun exactly where the writer is open; else it is refused, with a
/// message that says so, and nothing changes.
pub proof fn law_writer_is_closed_once(
    writer: &mut OssMultipartWriter,
    result: Result<(), IoError>,
    upload: PartUpload,
    ends: bool,
)
    requires
        call_ensures(OssMultipartWriter::begin_complete, (writer,), result),
        call_ensures(PartUpload::ends_collecting, (&upload,), ends),
    ensures
        old(writer).spec_phase() == UploadPhase::Open ==> result is Ok && final(writer).spec_phase() == UploadPhase::Collecting,
        old(writer).spec_phase() != UploadPhase::Open ==> {
            &&& result matches Err(
                IoError::Generic { store, source: GenericSource::Message(message) },
            )
            &&& store == SourceType::Oss
            &&& message@ == "OssMultipartWriter is closed"@
            &&& final(writer).spec_phase() == old(writer).spec_phase()
        },
        final(writer).next_index() == old(writer).next_index(),
        final(writer).spec_bucket() == old(writer).spec_bucket(),
        final(writer).spec_key() == old(writer).spec_key(),
        final(writer).spec_upload_id() == old(writer).spec_upload_id(),
        ends <==> !(upload is Done),
{
}

} // verus!
