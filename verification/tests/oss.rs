//! The object store against a service that is held in memory.

use std::collections::BTreeMap;

use daft_backends::config::OssConfig;
use daft_backends::error::{GenericSource, IoError, OssError};
use daft_backends::listing::{
    list_outcome, LSResult, ListRequest, ListResponse, ObjectSummary,
};
use daft_backends::multipart::{
    CompleteRequest, CompletionStep, ObjectPath, OssMultipartWriter, PartUpload,
};
use daft_backends::operations::{DirStep, Operation, RangeRequest, Request};
use daft_backends::retry::{RetryDecision, RetryState};
use daft_backends::source::OssSource;

fn setup_test_config() -> OssConfig {
    OssConfig {
        region: Some("cn-hangzhou".to_string()),
        endpoint: Some("https://oss-cn-hangzhou.aliyuncs.com".to_string()),
        anonymous: true,
        ..Default::default()
    }
}

/// What the service holds: the objects by bucket and key, and the parts of the
/// uploads that are not complete by their id and number.
#[derive(Default)]
struct Service {
    objects: BTreeMap<(String, String), Vec<u8>>,
    parts: BTreeMap<(String, u32), (String, Vec<u8>)>,
    uploads: usize,
    /// How many requests fail before one is served.
    busy: usize,
}

fn no_such_key() -> OssError {
    OssError::ApiError {
        code: "NoSuchKey".to_string(),
        message: "The specified key does not exist.".to_string(),
    }
}

fn unavailable() -> OssError {
    OssError::StatusError {
        status: 503,
        message: "status 503".to_string(),
    }
}

/// Repeats `attempt` as the store does, without waiting.
fn retried<T>(max_retries: u32, mut attempt: impl FnMut() -> Result<T, OssError>) -> Result<T, OssError> {
    let mut state = RetryState::new(max_retries);
    loop {
        match state.try_step(attempt()) {
            Ok(RetryDecision::Return(result)) => return result,
            Ok(RetryDecision::RetryAfter { .. }) => {}
            Err(_) => panic!("the delay does not fit"),
        }
    }
}

impl Service {
    fn answer<T>(&mut self, value: impl FnOnce(&mut Self) -> Result<T, OssError>) -> Result<T, OssError> {
        if self.busy > 0 {
            self.busy -= 1;
            return Err(unavailable());
        }
        value(self)
    }

    fn request(uri: &str, operation: Operation) -> Result<Request, IoError> {
        OssSource::try_request(uri, operation).expect("the URL can be cut")
    }

    fn put(&mut self, uri: &str, data: &[u8]) -> Result<(), IoError> {
        let (bucket, key) = match Service::request(uri, Operation::Put)? {
            Request::Put { bucket, key } => (bucket, key),
            other => panic!("unexpected request {other:?}"),
        };
        let outcome = retried(3, || {
            self.answer(|service| {
                service.objects.insert((bucket.clone(), key.clone()), data.to_vec());
                Ok(())
            })
        });
        OssSource::put_outcome(uri, outcome)
    }

    fn get(&mut self, uri: &str, range: Option<RangeRequest>) -> Result<Vec<u8>, IoError> {
        let (bucket, key, range) = match Service::request(uri, Operation::Get { range })? {
            Request::Get { bucket, key, range } => (bucket, key, range),
            other => panic!("unexpected request {other:?}"),
        };
        let outcome = retried(3, || {
            self.answer(|service| {
                let data = service
                    .objects
                    .get(&(bucket.clone(), key.clone()))
                    .ok_or_else(no_such_key)?;
                Ok(match &range {
                    Some(header) => {
                        let (from, to) = header
                            .strip_prefix("bytes=")
                            .and_then(|range| range.split_once('-'))
                            .expect("a bounded range");
                        data[from.parse::<usize>().unwrap()..to.parse::<usize>().unwrap() + 1].to_vec()
                    }
                    None => data.clone(),
                })
            })
        });
        let (data, size) = OssSource::get_outcome(uri, outcome)?;
        assert_eq!(data.len(), size);
        Ok(data)
    }

    fn get_size(&mut self, uri: &str) -> Result<usize, IoError> {
        let (bucket, key) = match Service::request(uri, Operation::GetSize)? {
            Request::Head { bucket, key } => (bucket, key),
            other => panic!("unexpected request {other:?}"),
        };
        let outcome = self.answer(|service| {
            service
                .objects
                .get(&(bucket, key))
                .map(|data| data.len() as u64)
                .ok_or_else(no_such_key)
        });
        OssSource::get_size_outcome(uri, outcome)
    }

    fn delete(&mut self, uri: &str) -> Result<(), IoError> {
        let (bucket, key) = match Service::request(uri, Operation::Delete)? {
            Request::Delete { bucket, key } => (bucket, key),
            other => panic!("unexpected request {other:?}"),
        };
        self.objects.remove(&(bucket, key));
        OssSource::delete_outcome(uri, Ok(()))
    }

    /// One page, in the order of the keys; a token is the key to go on with.
    fn list(&self, request: &ListRequest) -> ListResponse {
        let mut response = ListResponse {
            common_prefixes: vec![],
            contents: vec![],
            next_continuation_token: None,
        };
        let max = request.max_keys.unwrap_or(100) as usize;
        for ((bucket, key), data) in &self.objects {
            if *bucket != request.bucket || !key.starts_with(&request.prefix) {
                continue;
            }
            if request.continuation_token.as_ref().is_some_and(|token| key < token) {
                continue;
            }
            let rest = &key[request.prefix.len()..];
            let directory = request
                .delimiter
                .and_then(|delimiter| rest.find(delimiter))
                .map(|end| format!("{}{}", request.prefix, &rest[..end + 1]));
            if let Some(directory) = &directory {
                if response.common_prefixes.contains(directory) {
                    continue;
                }
            }
            if response.common_prefixes.len() + response.contents.len() == max {
                response.next_continuation_token = Some(key.clone());
                return response;
            }
            match directory {
                Some(directory) => response.common_prefixes.push(directory),
                None => response.contents.push(ObjectSummary {
                    key: key.clone(),
                    size: data.len() as u64,
                }),
            }
        }
        response.next_continuation_token = Some(String::new());
        response
    }

    fn ls(
        &mut self,
        path: &str,
        posix: bool,
        continuation_token: Option<&str>,
        page_size: Option<i32>,
    ) -> Result<LSResult, IoError> {
        let operation = Operation::Ls {
            posix,
            continuation_token: continuation_token.map(|token| token.to_string()),
            page_size,
        };
        let request = match Service::request(path, operation)? {
            Request::List(request) => request,
            other => panic!("unexpected request {other:?}"),
        };
        let outcome = Ok(self.list(&request));
        list_outcome(&request.bucket, &request.prefix, outcome)
    }

    fn iter_dir(&mut self, uri: &str, posix: bool, page_size: Option<i32>) -> Result<Vec<String>, IoError> {
        let mut asked = match Service::request(uri, Operation::IterDir { posix, page_size })? {
            Request::List(request) => request,
            other => panic!("unexpected request {other:?}"),
        };
        let mut found = vec![];
        loop {
            let page = list_outcome(&asked.bucket, &asked.prefix, Ok(self.list(&asked)))?;
            let (entries, next) = match OssSource::iter_dir_step(&asked, page) {
                DirStep::Last { entries } => (entries, None),
                DirStep::More { entries, next } => (entries, Some(next)),
            };
            found.extend(entries.into_iter().map(|file| file.filepath));
            match next {
                Some(next) => asked = next,
                None => return Ok(found),
            }
        }
    }

    fn create_multipart_writer(&mut self, uri: &str) -> Result<OssMultipartWriter, IoError> {
        let (bucket, key) = OssSource::try_parse_oss_url(uri, true).expect("the URL can be cut")?;
        self.uploads += 1;
        let upload = OssSource::create_mpu(&bucket, &key, Ok(format!("upload-{}", self.uploads)));
        let path = ObjectPath { scheme: "oss".to_string(), bucket, key };
        OssMultipartWriter::create(uri, path, &OssConfig::default(), upload)
    }

    fn upload_part(&mut self, writer: &OssMultipartWriter, number: u32, data: &[u8]) -> PartUpload {
        let etag = format!("etag-{number}");
        self.parts.insert(
            (writer.upload_id().to_string(), number),
            (etag.clone(), data.to_vec()),
        );
        match OssSource::upload_part(writer.bucket(), writer.key(), writer.upload_id(), number, Ok(etag)) {
            Ok(part) => PartUpload::Done(part),
            Err(error) => PartUpload::Failed(error),
        }
    }

    fn complete_request(&mut self, writer: &OssMultipartWriter, request: &CompleteRequest) -> Result<(), IoError> {
        let mut data = vec![];
        for (number, etag) in &request.parts {
            let (known, part) = self.parts.remove(&(request.upload_id.clone(), *number)).unwrap();
            assert_eq!(*etag, known);
            data.extend_from_slice(&part);
        }
        self.objects.insert((writer.bucket().to_string(), writer.key().to_string()), data);
        OssSource::complete_mpu(writer.bucket(), writer.key(), writer.upload_id(), Ok(()))
    }

    fn complete(&mut self, writer: &mut OssMultipartWriter, uploads: Vec<PartUpload>) -> Result<(), IoError> {
        writer.begin_complete()?;
        let request = match writer.after_uploads(uploads)? {
            CompletionStep::Complete(request) => request,
            CompletionStep::UploadEmptyPart { part_number } => {
                let part = match self.upload_part(writer, part_number, &[]) {
                    PartUpload::Done(part) => Ok(part),
                    other => panic!("unexpected upload {other:?}"),
                };
                writer.after_empty_part(part)?
            }
        };
        self.complete_request(writer, &request)
    }
}

fn sample_vec(n: usize) -> Vec<u8> {
    let mut state: u32 = 1;
    (0..n)
        .map(|_| {
            state = state.wrapping_mul(1_664_525).wrapping_add(1_013_904_223);
            (state >> 24) as u8
        })
        .collect()
}

#[test]
fn test_oss_client_creation() {
    let config = setup_test_config();
    let client = OssSource::get_client(&config, 4);
    assert!(client.is_ok());
    let client = client.ok().unwrap();
    assert_eq!(client.connection_permits, 200);
    assert!(client.config == config);
}

#[test]
fn test_parse_oss_url() {
    let url = "oss://my-bucket/path/to/file.txt";
    let (bucket, key) = OssSource::parse_oss_url(url, true).unwrap();
    assert_eq!(bucket, "my-bucket");
    assert_eq!(key, "path/to/file.txt");

    let url = "oss://my-bucket/file.txt";
    let (bucket, key) = OssSource::parse_oss_url(url, true).unwrap();
    assert_eq!(bucket, "my-bucket");
    assert_eq!(key, "file.txt");

    let url = "oss://my-bucket/";
    let (bucket, key) = OssSource::parse_oss_url(url, true).unwrap();
    assert_eq!(bucket, "my-bucket");
    assert_eq!(key, "");

    let url = "oss://my-bucket/";
    let result = OssSource::parse_oss_url(url, false);
    assert!(result.is_err());
}

#[test]
fn test_parse_oss_url_invalid() {
    let url = "invalid-url";
    let result = OssSource::parse_oss_url(url, true);
    assert!(result.is_err());

    let url = "http://example.com/file.txt";
    let result = OssSource::parse_oss_url(url, true);
    assert!(result.is_err());

    let url = "oss://";
    let result = OssSource::parse_oss_url(url, true);
    assert!(result.is_err());
}

#[test]
fn test_full_get_from_oss() {
    let mut service = Service::default();
    let uri = "oss://my-bucket/daft-tests/hello.txt";
    let data = sample_vec(200);
    service.put(uri, &data).unwrap();
    assert_eq!(service.get(uri, None).unwrap(), data);
    service.delete(uri).unwrap();
    assert!(matches!(service.get(uri, None), Err(IoError::NotFound { .. })));
}

#[test]
fn test_full_ls_from_oss() {
    let mut service = Service::default();
    let prefix = "oss://my-bucket/daft-tests".to_string();
    let uri1 = format!("{}/hello-1.txt", prefix);
    let uri2 = format!("{}/hello-2.txt", prefix);

    let res = service.ls(&prefix, true, None, None).unwrap();
    assert_eq!(res.files.len(), 0);
    assert!(res.continuation_token.is_none());

    let data = sample_vec(200);
    service.put(&uri1, &data).unwrap();
    service.put(&uri2, &data).unwrap();

    let res = service.ls(&prefix, true, None, None).unwrap();
    assert_eq!(res.files.len(), 2);
    assert_eq!(res.files[0].filepath, uri1);
    assert_eq!(res.files[1].filepath, uri2);
    assert!(res.continuation_token.is_none());

    let res = service.ls(&prefix, true, None, Some(1)).unwrap();
    assert_eq!(res.files.len(), 1);
    assert_eq!(res.files[0].filepath, uri1);
    assert!(res.continuation_token.is_some());

    let next_token = res.continuation_token.unwrap();
    let res = service.ls(&prefix, true, Some(next_token.as_str()), Some(1)).unwrap();
    assert_eq!(res.files.len(), 1);
    assert_eq!(res.files[0].filepath, uri2);
    assert!(res.continuation_token.is_none());
}

#[test]
fn test_mpu() {
    let mut service = Service::default();
    let uri = "oss://my-bucket/daft-tests/hello.txt";

    let mut writer = service.create_multipart_writer(uri).unwrap();
    service.complete(&mut writer, vec![]).unwrap();
    let size = service.get_size(uri).unwrap();
    assert_eq!(size, 0);

    let part1 = sample_vec(1000);
    let mut writer = service.create_multipart_writer(uri).unwrap();
    let number = writer.next_part();
    let upload = service.upload_part(&writer, number, &part1);
    service.complete(&mut writer, vec![upload]).unwrap();
    assert_eq!(service.get(uri, None).unwrap(), part1);

    match service.complete(&mut writer, vec![]) {
        Err(IoError::Generic { source: GenericSource::Message(message), .. }) => {
            assert!(message.contains("OssMultipartWriter is closed"));
        }
        other => panic!("unexpected result {other:?}"),
    }
}

#[test]
fn test_readonly_put_get_ls() {
    let mut service = Service::default();
    let test_prefix = "tmp/daoke";

    let uri = format!("oss://my-bucket/{}/daft-test-readonly.txt", test_prefix);
    let content = "hello from daft oss integration test".as_bytes();
    service.put(&uri, content).unwrap();

    let data = service.get(&uri, None).unwrap();
    assert_eq!(data, content, "GET content mismatch");

    let range = RangeRequest { header: "bytes=0-4".to_string(), invalid: None };
    let range_data = service.get(&uri, Some(range)).unwrap();
    assert_eq!(range_data, "hello".as_bytes(), "Range GET mismatch");

    let size = service.get_size(&uri).unwrap();
    assert_eq!(size, content.len(), "Size mismatch");

    let prefix_uri = format!("oss://my-bucket/{}/", test_prefix);
    let ls_result = service.ls(&prefix_uri, true, None, None).unwrap();
    assert!(
        ls_result.files.iter().any(|f| f.filepath == uri),
        "LS should contain the uploaded file, got: {:?}",
        ls_result.files.iter().map(|f| &f.filepath).collect::<Vec<_>>()
    );
}

#[test]
fn busy_service_is_asked_again() {
    let mut service = Service { busy: 3, ..Service::default() };
    service.put("oss://my-bucket/a", &[1]).unwrap();
    assert_eq!(service.busy, 0);

    service.busy = 4;
    match service.put("oss://my-bucket/a", &[2]) {
        Err(IoError::Generic { source: GenericSource::Oss(error), .. }) => {
            assert_eq!(error.message(), "Unable to put oss://my-bucket/a: status 503");
        }
        other => panic!("unexpected result {other:?}"),
    }
    assert_eq!(service.get("oss://my-bucket/a", None).unwrap(), vec![1]);
}

#[test]
fn parts_are_put_together_as_written() {
    let mut service = Service::default();
    let uri = "oss://my-bucket/big";
    let mut writer = service.create_multipart_writer(uri).unwrap();
    let mut uploads = vec![];
    for word in ["one ", "two ", "three ", "four"] {
        let number = writer.next_part();
        uploads.push(service.upload_part(&writer, number, word.as_bytes()));
    }
    uploads.swap(0, 3);
    uploads.swap(1, 0);
    service.complete(&mut writer, uploads).unwrap();
    assert_eq!(service.get(uri, None).unwrap(), "one two three four".as_bytes());
}

#[test]
fn iteration_yields_every_page() {
    let mut service = Service::default();
    let dir = "oss://my-bucket/dir";
    let files: Vec<String> = (0..5).map(|i| format!("{dir}/file-{i}")).collect();
    for file in &files {
        service.put(file, &[1]).unwrap();
    }
    service.put("oss://my-bucket/other", &[1]).unwrap();
    for page_size in [Some(1), Some(2), Some(5), Some(100), None] {
        assert_eq!(service.iter_dir(dir, true, page_size).unwrap(), files);
    }
    assert_eq!(service.iter_dir("oss://my-bucket", false, Some(2)).unwrap().len(), 6);
    assert_eq!(service.iter_dir("oss://my-bucket/none", true, Some(1)).unwrap().len(), 0);
}
