use nats3::encoding::{Chunk, Codec, DecodingError, EncodingError, MAX_PAYLOAD_LEN};
use nats3::s3::{chunk_path, collect_paths, holds_path, Client, Completion, Error, Kind};
use nats3::s3::{Operation, Outcome};
use nats3::s3::{Reply, Request, Stage, StatusPolicy, Step, StorageError};
use nats3::s3::{STATUS_NOT_FOUND, STATUS_NO_CONTENT, STATUS_OK};

const HELLO_KEY: &str = "raw-2cf24dba5fb0a30e26e83b2ac5b9e29e1b161e5c1fa7425e73043362938b9824";

fn client(policy: StatusPolicy) -> Client {
    Client::new(
        "eu-central-1".to_string(),
        "http://localhost:9000".to_string(),
        "access".to_string(),
        "secret".to_string(),
    )
    .with_policy(policy)
}

fn sent(step: Step) -> (Operation, Request) {
    match step {
        Step::Send(operation, request) => (operation, request),
        other => panic!("expected a request, got {:?}", other),
    }
}

fn done(step: Step) -> Completion {
    match step {
        Step::Done(completion) => completion,
        other => panic!("expected a finished operation, got {:?}", other),
    }
}

fn failed(step: Step) -> Error {
    match step {
        Step::Failed(error) => error,
        other => panic!("expected a failure, got {:?}", other),
    }
}

fn strings(items: &[&str]) -> Vec<String> {
    items.iter().map(|s| s.to_string()).collect()
}

#[test]
fn new_client_keeps_its_settings() {
    let c = Client::new(
        "region".to_string(),
        "endpoint".to_string(),
        "access".to_string(),
        "secret".to_string(),
    );
    assert_eq!(c.region(), "region");
    assert_eq!(c.endpoint(), "endpoint");
    assert_eq!(c.access_key(), "access");
    assert_eq!(c.secret_key(), "secret");
    assert_eq!(c.policy(), StatusPolicy::Lenient);
}

#[test]
fn with_policy_changes_only_the_policy() {
    let c = client(StatusPolicy::Strict);
    assert_eq!(c.policy(), StatusPolicy::Strict);
    assert_eq!(c.region(), "eu-central-1");
    assert_eq!(c.endpoint(), "http://localhost:9000");
    assert_eq!(c.access_key(), "access");
    assert_eq!(c.secret_key(), "secret");
}

#[test]
fn status_constants() {
    assert_eq!(STATUS_OK, 200);
    assert_eq!(STATUS_NO_CONTENT, 204);
    assert_eq!(STATUS_NOT_FOUND, 404);
}

#[test]
fn transient_errors_are_told_apart() {
    assert!(StorageError::Timeout.is_transient());
    assert!(StorageError::Network.is_transient());
    assert!(StorageError::Status(500).is_transient());
    assert!(StorageError::Status(503).is_transient());
    assert!(!StorageError::Status(499).is_transient());
    assert!(!StorageError::Status(403).is_transient());
    assert!(!StorageError::Credentials.is_transient());
    assert!(!StorageError::InvalidBucket.is_transient());
    assert!(!StorageError::NoSuchBucket.is_transient());
    assert!(!StorageError::UnexpectedReply.is_transient());
}

#[test]
fn ensure_bucket_starts_with_a_lookup() {
    let (operation, request) = sent(client(StatusPolicy::Strict).ensure_bucket("archive", true));
    assert_eq!(request, Request::BucketExists { bucket: "archive".to_string() });
    assert_eq!(operation.kind, Kind::Ensure);
    assert_eq!(operation.stage, Stage::Check);
    assert_eq!(operation.bucket, "archive");
    assert!(operation.create);
    assert!(!operation.created);
    assert!(operation.warnings.is_empty());
}

#[test]
fn existing_bucket_is_not_created() {
    let c = client(StatusPolicy::Strict);
    let (operation, _) = sent(c.ensure_bucket("archive", true));
    let completion = done(c.advance(operation, Reply::Exists(true)));
    assert_eq!(completion.outcome, Outcome::Bucket { created: false });
    assert!(completion.warnings.is_empty());
}

#[test]
fn missing_bucket_is_created_when_asked() {
    let c = client(StatusPolicy::Strict);
    let (operation, _) = sent(c.ensure_bucket("archive", true));
    let (operation, request) = sent(c.advance(operation, Reply::Exists(false)));
    assert_eq!(request, Request::CreateBucket { bucket: "archive".to_string() });
    assert_eq!(operation.stage, Stage::Create);
    let completion = done(c.advance(operation, Reply::Status(200)));
    assert_eq!(completion.outcome, Outcome::Bucket { created: true });
    assert!(completion.warnings.is_empty());
}

#[test]
fn missing_bucket_is_left_when_not_asked() {
    let c = client(StatusPolicy::Strict);
    let (operation, _) = sent(c.ensure_bucket("archive", false));
    let completion = done(c.advance(operation, Reply::Exists(false)));
    assert_eq!(completion.outcome, Outcome::Bucket { created: false });
}

#[test]
fn refused_creation_fails_when_strict() {
    let c = client(StatusPolicy::Strict);
    let (operation, _) = sent(c.ensure_bucket("archive", true));
    let (operation, _) = sent(c.advance(operation, Reply::Exists(false)));
    let error = failed(c.advance(operation, Reply::Status(403)));
    assert_eq!(error, Error::Storage(StorageError::Status(403)));
}

#[test]
fn refused_creation_warns_when_lenient() {
    let c = client(StatusPolicy::Lenient);
    let (operation, _) = sent(c.ensure_bucket("archive", true));
    let (operation, _) = sent(c.advance(operation, Reply::Exists(false)));
    let completion = done(c.advance(operation, Reply::Status(409)));
    assert_eq!(completion.outcome, Outcome::Bucket { created: true });
    assert_eq!(completion.warnings, vec![409]);
}

#[test]
fn no_content_does_not_confirm_a_creation() {
    let c = client(StatusPolicy::Strict);
    let (operation, _) = sent(c.ensure_bucket("archive", true));
    let (operation, _) = sent(c.advance(operation, Reply::Exists(false)));
    let error = failed(c.advance(operation, Reply::Status(204)));
    assert_eq!(error, Error::Storage(StorageError::Status(204)));
}

#[test]
fn upload_goes_through_lookup_and_write() {
    let c = client(StatusPolicy::Strict);
    let chunk = Chunk::new(b"hello".to_vec());
    let (operation, request) = sent(c.upload_chunk(chunk.clone(), "archive", "job1", Codec::Raw));
    assert_eq!(request, Request::BucketExists { bucket: "archive".to_string() });
    assert_eq!(operation.kind, Kind::Upload);
    assert_eq!(operation.path, format!("job1/{}", HELLO_KEY));
    assert_eq!(operation.data, chunk.serialize(Codec::Raw).unwrap());
    let (operation, request) = sent(c.advance(operation, Reply::Exists(true)));
    assert_eq!(
        request,
        Request::PutObject {
            bucket: "archive".to_string(),
            path: format!("job1/{}", HELLO_KEY),
            data: vec![0, 0, 0, 5, b'h', b'e', b'l', b'l', b'o'],
        }
    );
    assert_eq!(operation.stage, Stage::Transfer);
    assert!(operation.data.is_empty());
    let completion = done(c.advance(operation, Reply::Status(200)));
    assert_eq!(completion.outcome, Outcome::Uploaded { path: format!("job1/{}", HELLO_KEY) });
    assert!(completion.warnings.is_empty());
}

#[test]
fn upload_creates_a_missing_bucket_first() {
    let c = client(StatusPolicy::Strict);
    let chunk = Chunk::new(b"hello".to_vec());
    let (operation, _) = sent(c.upload_chunk(chunk.clone(), "archive", "job1", Codec::RunLength));
    let (operation, request) = sent(c.advance(operation, Reply::Exists(false)));
    assert_eq!(request, Request::CreateBucket { bucket: "archive".to_string() });
    let (operation, request) = sent(c.advance(operation, Reply::Status(200)));
    match request {
        Request::PutObject { bucket, path, data } => {
            assert_eq!(bucket, "archive");
            assert!(path.starts_with("job1/rle-"));
            assert_eq!(data, chunk.serialize(Codec::RunLength).unwrap());
        }
        other => panic!("expected a write, got {:?}", other),
    }
    assert!(operation.created);
    done(c.advance(operation, Reply::Status(200)));
}

#[test]
fn upload_of_too_large_chunk_sends_nothing() {
    let c = client(StatusPolicy::Lenient);
    let chunk = Chunk::new(vec![0u8; MAX_PAYLOAD_LEN + 1]);
    let error = failed(c.upload_chunk(chunk.clone(), "archive", "job1", Codec::Raw));
    assert_eq!(error, Error::Encoding(EncodingError::PayloadTooLarge));
}

#[test]
fn upload_status_fails_when_strict() {
    let c = client(StatusPolicy::Strict);
    let chunk = Chunk::new(b"hello".to_vec());
    let (operation, _) = sent(c.upload_chunk(chunk.clone(), "archive", "job1", Codec::Raw));
    let (operation, _) = sent(c.advance(operation, Reply::Exists(true)));
    let error = failed(c.advance(operation, Reply::Status(500)));
    assert_eq!(error, Error::Storage(StorageError::Status(500)));
}

#[test]
fn upload_status_warns_when_lenient() {
    let c = client(StatusPolicy::Lenient);
    let chunk = Chunk::new(b"hello".to_vec());
    let (operation, _) = sent(c.upload_chunk(chunk.clone(), "archive", "job1", Codec::Raw));
    let (operation, _) = sent(c.advance(operation, Reply::Exists(true)));
    let completion = done(c.advance(operation, Reply::Status(500)));
    assert_eq!(completion.outcome, Outcome::Uploaded { path: format!("job1/{}", HELLO_KEY) });
    assert_eq!(completion.warnings, vec![500]);
}

#[test]
fn warnings_of_creation_and_write_are_kept() {
    let c = client(StatusPolicy::Lenient);
    let chunk = Chunk::new(b"hello".to_vec());
    let (operation, _) = sent(c.upload_chunk(chunk.clone(), "archive", "job1", Codec::Raw));
    let (operation, _) = sent(c.advance(operation, Reply::Exists(false)));
    let (operation, _) = sent(c.advance(operation, Reply::Status(409)));
    let completion = done(c.advance(operation, Reply::Status(503)));
    assert_eq!(completion.warnings, vec![409, 503]);
}

#[test]
fn download_decodes_what_comes() {
    let c = client(StatusPolicy::Strict);
    let (operation, request) = sent(c.download_chunk("archive", "job1/key", Codec::Raw));
    assert_eq!(
        request,
        Request::GetObject { bucket: "archive".to_string(), path: "job1/key".to_string() }
    );
    let reply = Reply::Object { status: 200, data: vec![0, 0, 0, 2, b'h', b'i'] };
    let completion = done(c.advance(operation, reply));
    assert_eq!(completion.outcome, Outcome::Downloaded { chunk: Chunk::new(b"hi".to_vec()) });
}

#[test]
fn download_of_other_codec_fails() {
    let c = client(StatusPolicy::Strict);
    let (operation, _) = sent(c.download_chunk("archive", "job1/key", Codec::RunLength));
    let reply = Reply::Object { status: 200, data: vec![0, 0, 0, 2, b'h', b'i'] };
    let error = failed(c.advance(operation, reply));
    assert_eq!(error, Error::Decoding(DecodingError::CodecMismatch));
}

#[test]
fn download_status_fails_when_strict() {
    let c = client(StatusPolicy::Strict);
    let (operation, _) = sent(c.download_chunk("archive", "job1/key", Codec::Raw));
    let reply = Reply::Object { status: 404, data: Vec::new() };
    let error = failed(c.advance(operation, reply));
    assert_eq!(error, Error::Storage(StorageError::Status(404)));
}

#[test]
fn download_status_goes_on_to_decode_when_lenient() {
    let c = client(StatusPolicy::Lenient);
    let (operation, _) = sent(c.download_chunk("archive", "job1/key", Codec::Raw));
    let reply = Reply::Object { status: 404, data: Vec::new() };
    let error = failed(c.advance(operation, reply));
    assert_eq!(error, Error::Decoding(DecodingError::Truncated));
    let (operation, _) = sent(c.download_chunk("archive", "job1/key", Codec::Raw));
    let reply = Reply::Object { status: 206, data: vec![0, 0, 0, 1, 7] };
    let completion = done(c.advance(operation, reply));
    assert_eq!(completion.outcome, Outcome::Downloaded { chunk: Chunk::new(vec![7]) });
    assert_eq!(completion.warnings, vec![206]);
}

#[test]
fn delete_is_confirmed_by_ok_no_content_and_not_found() {
    let c = client(StatusPolicy::Strict);
    for status in [200u16, 204, 404] {
        let (operation, request) = sent(c.delete_chunk("archive", "job1/key"));
        assert_eq!(
            request,
            Request::DeleteObject { bucket: "archive".to_string(), path: "job1/key".to_string() }
        );
        let completion = done(c.advance(operation, Reply::Status(status)));
        assert_eq!(completion.outcome, Outcome::Deleted);
        assert!(completion.warnings.is_empty());
    }
}

#[test]
fn delete_status_is_judged_by_the_policy() {
    let strict = client(StatusPolicy::Strict);
    let (operation, _) = sent(strict.delete_chunk("archive", "job1/key"));
    assert_eq!(
        failed(strict.advance(operation, Reply::Status(403))),
        Error::Storage(StorageError::Status(403))
    );
    let lenient = client(StatusPolicy::Lenient);
    let (operation, _) = sent(lenient.delete_chunk("archive", "job1/key"));
    let completion = done(lenient.advance(operation, Reply::Status(403)));
    assert_eq!(completion.outcome, Outcome::Deleted);
    assert_eq!(completion.warnings, vec![403]);
}

#[test]
fn list_gathers_all_pages_without_repeats() {
    let c = client(StatusPolicy::Strict);
    let (operation, request) = sent(c.list_paths("archive", "job1"));
    assert_eq!(
        request,
        Request::ListObjects { bucket: "archive".to_string(), prefix: "job1".to_string() }
    );
    let pages = vec![strings(&["job1/a", "job1/b"]), strings(&["job1/b", "job1/c"]), Vec::new()];
    let completion = done(c.advance(operation, Reply::Listing { pages }));
    let expected = strings(&["job1/a", "job1/b", "job1/c"]);
    assert_eq!(completion.outcome, Outcome::Listed { paths: expected });
}

#[test]
fn collect_paths_keeps_first_occurrences_in_order() {
    assert_eq!(collect_paths(Vec::new()), Vec::<String>::new());
    assert_eq!(collect_paths(vec![Vec::new(), Vec::new()]), Vec::<String>::new());
    let pages = vec![strings(&["b", "a", "b"]), strings(&["c", "a"]), strings(&["d"])];
    assert_eq!(collect_paths(pages), strings(&["b", "a", "c", "d"]));
}

#[test]
fn holds_path_finds_paths() {
    let paths = strings(&["a", "b"]);
    assert!(holds_path(&paths, &"a".to_string()));
    assert!(holds_path(&paths, &"b".to_string()));
    assert!(!holds_path(&paths, &"c".to_string()));
    assert!(!holds_path(&Vec::new(), &"a".to_string()));
}

#[test]
fn store_failure_fails_the_operation() {
    let c = client(StatusPolicy::Lenient);
    let (operation, _) = sent(c.ensure_bucket("archive", true));
    assert_eq!(
        failed(c.advance(operation, Reply::Failed(StorageError::Timeout))),
        Error::Storage(StorageError::Timeout)
    );
    let (operation, _) = sent(c.list_paths("archive", ""));
    assert_eq!(
        failed(c.advance(operation, Reply::Failed(StorageError::Credentials))),
        Error::Storage(StorageError::Credentials)
    );
}

#[test]
fn reply_of_another_shape_fails_the_operation() {
    let c = client(StatusPolicy::Lenient);
    let unexpected = Error::Storage(StorageError::UnexpectedReply);
    let (operation, _) = sent(c.ensure_bucket("archive", true));
    assert_eq!(failed(c.advance(operation, Reply::Status(200))), unexpected);
    let (operation, _) = sent(c.ensure_bucket("archive", true));
    let (operation, _) = sent(c.advance(operation, Reply::Exists(false)));
    assert_eq!(failed(c.advance(operation, Reply::Exists(true))), unexpected);
    let (operation, _) = sent(c.download_chunk("archive", "p", Codec::Raw));
    assert_eq!(failed(c.advance(operation, Reply::Status(200))), unexpected);
    let (operation, _) = sent(c.delete_chunk("archive", "p"));
    assert_eq!(failed(c.advance(operation, Reply::Listing { pages: Vec::new() })), unexpected);
    let (operation, _) = sent(c.list_paths("archive", "p"));
    let reply = Reply::Object { status: 200, data: Vec::new() };
    assert_eq!(failed(c.advance(operation, reply)), unexpected);
    let (operation, _) = sent(c.list_paths("archive", "p"));
    assert_eq!(failed(c.advance(operation, Reply::Exists(true))), unexpected);
}

#[test]
fn chunk_path_joins_prefix_and_key() {
    let chunk = Chunk::new(b"hello".to_vec());
    assert_eq!(chunk_path("job1", &chunk, Codec::Raw), format!("job1/{}", HELLO_KEY));
    assert_eq!(chunk_path("", &chunk, Codec::Raw), format!("/{}", HELLO_KEY));
    assert_eq!(
        chunk_path("a/b", &chunk, Codec::RunLength),
        format!("a/b/rle-{}", &HELLO_KEY[4..])
    );
}
