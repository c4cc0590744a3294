//! Uploads in parts.

use daft_backends::config::OssConfig;
use daft_backends::error::{GenericSource, IoError, OssError};
use daft_backends::multipart::{
    collect_parts, CompletionStep, ObjectPath, OssMultipartWriter, OssPart, PartUpload, UploadPhase,
};
use daft_backends::source::OssSource;

fn part(idx: usize, etag: &str) -> OssPart {
    OssPart { idx, etag: etag.to_string() }
}

fn done(idx: usize, etag: &str) -> PartUpload {
    PartUpload::Done(part(idx, etag))
}

fn path(key: &str) -> ObjectPath {
    ObjectPath { scheme: "oss".to_string(), bucket: "b".to_string(), key: key.to_string() }
}

fn writer() -> OssMultipartWriter {
    let mut config = OssConfig::default();
    config.multipart_size = 1234;
    config.multipart_max_concurrency = 7;
    OssMultipartWriter::create("oss://b/k", path("k"), &config, Ok("id".to_string())).unwrap()
}

fn collecting() -> OssMultipartWriter {
    let mut writer = writer();
    writer.begin_complete().unwrap();
    writer
}

fn why() -> OssError {
    OssError::Other("why".to_string())
}

fn generic_message<T: std::fmt::Debug>(result: Result<T, IoError>) -> String {
    match result {
        Err(IoError::Generic { source: GenericSource::Oss(error), .. }) => error.message(),
        other => panic!("unexpected result {other:?}"),
    }
}

#[test]
fn new_writers() {
    let writer = writer();
    assert_eq!(writer.bucket(), "b");
    assert_eq!(writer.key(), "k");
    assert_eq!(writer.upload_id(), "id");
    assert_eq!(writer.part_size(), 1234);
    assert_eq!(writer.max_concurrent_uploads(), 7);
}

#[test]
fn writers_need_a_file_and_an_upload() {
    let config = OssConfig::default();
    assert!(matches!(
        OssMultipartWriter::create("oss://b/", path(""), &config, Ok("id".to_string())),
        Err(IoError::NotAFile { path }) if path == "oss://b/"
    ));
    assert!(matches!(
        OssMultipartWriter::check_path("oss://b/", &path("")),
        Err(IoError::NotAFile { path }) if path == "oss://b/"
    ));
    assert!(OssMultipartWriter::check_path("oss://b/k", &path("k")).is_ok());
    let failed = OssSource::create_mpu("b", "k", Err(why()));
    assert_eq!(
        generic_message(OssMultipartWriter::create("oss://b/k", path("k"), &config, failed)),
        "Unable to create multipart upload for oss://b/k: why"
    );
}

#[test]
fn parts_are_numbered_from_one() {
    let mut writer = writer();
    let numbers: Vec<u32> = (0..4).map(|_| writer.next_part()).collect();
    assert_eq!(numbers, vec![1, 2, 3, 4]);
    writer.begin_complete().unwrap();
    assert_eq!(writer.next_part(), 5);
}

#[test]
fn writers_close_once() {
    let mut writer = writer();
    assert!(writer.begin_complete().is_ok());
    for _ in 0..2 {
        match writer.begin_complete() {
            Err(IoError::Generic { source: GenericSource::Message(message), .. }) => {
                assert_eq!(message, "OssMultipartWriter is closed");
            }
            other => panic!("unexpected result {other:?}"),
        }
    }
}

#[test]
fn parts_are_collected_by_number() {
    let parts = collect_parts(vec![done(3, "c"), done(1, "a"), done(2, "b")]).unwrap();
    assert_eq!(parts, vec![part(1, "a"), part(2, "b"), part(3, "c")]);
    let parts = collect_parts(vec![done(2, "x"), done(1, "a"), done(2, "y")]).unwrap();
    assert_eq!(parts, vec![part(1, "a"), part(2, "x"), part(2, "y")]);
    assert_eq!(collect_parts(vec![]).unwrap(), vec![]);
}

#[test]
fn first_failure_counts() {
    let failed = || PartUpload::Failed(IoError::NotAFile { path: "first".to_string() });
    let aborted = || PartUpload::Aborted("panic".to_string());
    assert!(matches!(
        collect_parts(vec![done(1, "a"), failed(), aborted()]),
        Err(IoError::NotAFile { .. })
    ));
    assert!(matches!(
        collect_parts(vec![done(1, "a"), aborted(), failed(), done(2, "b")]),
        Err(IoError::JoinError { source }) if source == "panic"
    ));
    assert!(matches!(collecting().after_uploads(vec![aborted()]), Err(IoError::JoinError { .. })));
}

#[test]
fn completion_order_is_irrelevant() {
    let one = collecting().after_uploads(vec![done(1, "a"), done(2, "b"), done(3, "c")]).unwrap();
    let two = collecting().after_uploads(vec![done(2, "b"), done(3, "c"), done(1, "a")]).unwrap();
    assert_eq!(one, two);
    match one {
        CompletionStep::Complete(request) => {
            assert_eq!(request.upload_id, "id");
            assert_eq!(
                request.parts,
                vec![(1, "a".to_string()), (2, "b".to_string()), (3, "c".to_string())]
            );
        }
        other => panic!("unexpected step {other:?}"),
    }
}

#[test]
fn uploads_without_a_part_get_an_empty_one() {
    let mut writer = collecting();
    assert_eq!(
        writer.after_uploads(vec![]).unwrap(),
        CompletionStep::UploadEmptyPart { part_number: 1 }
    );
    assert_eq!(writer.phase(), UploadPhase::AwaitingEmptyPart);
    let request = writer.after_empty_part(Ok(part(1, "e"))).unwrap();
    assert_eq!(request.upload_id, "id");
    assert_eq!(request.parts, vec![(1, "e".to_string())]);
    assert_eq!(writer.phase(), UploadPhase::Ended);

    let mut writer = collecting();
    writer.after_uploads(vec![]).unwrap();
    let failed = OssSource::upload_part("b", "k", "id", 1, Err(why()));
    assert_eq!(
        generic_message(writer.after_empty_part(failed)),
        "Unable to upload part 1 for oss://b/k with upload_id id: why"
    );
}

#[test]
fn outcomes_of_uploads() {
    assert_eq!(OssSource::create_mpu("b", "k", Ok("id".to_string())).unwrap(), "id");
    assert_eq!(
        OssSource::upload_part("b", "k", "id", 9, Ok("tag".to_string())).unwrap(),
        part(9, "tag")
    );
    assert!(OssSource::complete_mpu("b", "k", "id", Ok(())).is_ok());
    assert_eq!(
        generic_message(OssSource::complete_mpu("b", "k", "id", Err(why()))),
        "Unable to complete multipart upload oss://b/k with upload_id id: why"
    );
}

#[test]
fn one_completion_reaches_a_request() {
    let mut writer = writer();
    assert_eq!(writer.phase(), UploadPhase::Open);
    writer.begin_complete().unwrap();
    assert_eq!(writer.phase(), UploadPhase::Collecting);
    assert!(writer.begin_complete().is_err());
    assert_eq!(writer.phase(), UploadPhase::Collecting);
    assert!(writer.after_uploads(vec![done(1, "a")]).is_ok());
    assert_eq!(writer.phase(), UploadPhase::Ended);
    assert!(writer.begin_complete().is_err());
    assert_eq!(writer.phase(), UploadPhase::Ended);

    let mut writer = collecting();
    assert!(writer.after_uploads(vec![PartUpload::Aborted("panic".to_string())]).is_err());
    assert_eq!(writer.phase(), UploadPhase::Ended);
}

#[test]
fn failures_end_the_collecting() {
    assert!(!done(1, "a").ends_collecting());
    assert!(PartUpload::Aborted("panic".to_string()).ends_collecting());
    assert!(PartUpload::Failed(IoError::NotAFile { path: "u".to_string() }).ends_collecting());
}

#[test]
fn numbers_that_are_sent_have_32_bits() {
    let request = OssSource::complete_request("id", &vec![part(0x1_0000_0002, "a")]);
    assert_eq!(request.parts, vec![(2, "a".to_string())]);
}
