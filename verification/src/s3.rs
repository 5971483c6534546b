//! The object-store client.
//!
//! The client never talks to the network itself. Each operation is a small
//! state machine: it names the next request to send to the remote store, takes
//! the store's reply, and either names another request or finishes. Whoever
//! owns the connection sends the requests and hands the replies back.

use crate::encoding::{decoded, encoded, key_of, Chunk, Codec, DecodingError, EncodingError};
use crate::encoding::MAX_PAYLOAD_LEN;
use vstd::prelude::*;
use vstd::string::*;

verus! {

/// The status with which the remote store confirms an operation.
pub const STATUS_OK: u16 = 200;

/// The status with which the remote store answers a removal that left nothing to send.
pub const STATUS_NO_CONTENT: u16 = 204;

/// The status with which the remote store answers for an object that is not there.
pub const STATUS_NOT_FOUND: u16 = 404;

/// What to do with a reply whose status does not confirm the operation.
#[derive(Clone, Copy, Debug, PartialEq, Eq, Structural)]
pub enum StatusPolicy {
    /// The operation fails with `StorageError::Status`.
    Strict,
    /// The status is recorded as a warning and the operation goes on as if confirmed.
    Lenient,
}

/// Why the remote store did not serve a request.
#[derive(Clone, Copy, Debug, PartialEq, Eq, Structural)]
pub enum StorageError {
    /// The store did not answer in time.
    Timeout,
    /// The store could not be reached.
    Network,
    /// The store refused the credentials.
    Credentials,
    /// The bucket name is not one the store accepts.
    InvalidBucket,
    /// The bucket does not exist.
    NoSuchBucket,
    /// The store answered with this status, which does not confirm the
    /// operation, and the policy is strict.
    Status(u16),
    /// The reply does not answer the request that was sent.
    UnexpectedReply,
}

impl StorageError {
    /// Whether trying again later may succeed: timeouts, network failures and
    /// server-side statuses are transient, everything else is persistent.
    pub open spec fn transient(self) -> bool {
        match self {
            StorageError::Timeout => true,
            StorageError::Network => true,
            StorageError::Status(code) => code >= 500,
            _ => false,
        }
    }

    /// Whether trying again later may succeed.
    pub fn is_transient(&self) -> (transient: bool)
        ensures
            transient == self.transient(),
    {
        match self {
            StorageError::Timeout => true,
            StorageError::Network => true,
            StorageError::Status(code) => *code >= 500,
            _ => false,
        }
    }
}

/// Why an operation of the client failed.
#[derive(Clone, Copy, Debug, PartialEq, Eq, Structural)]
pub enum Error {
    /// The chunk could not be rendered in the codec.
    Encoding(EncodingError),
    /// The stored bytes are no chunk in the codec.
    Decoding(DecodingError),
    /// The remote store did not serve the request.
    Storage(StorageError),
}

/// A request to the remote store.
#[derive(Clone, Debug, PartialEq, Eq)]
pub enum Request {
    /// Does the bucket exist?
    BucketExists { bucket: String },
    /// Create the bucket with the store's default configuration.
    CreateBucket { bucket: String },
    /// Write `data` at `path`.
    PutObject { bucket: String, path: String, data: Vec<u8> },
    /// Read the object at `path`.
    GetObject { bucket: String, path: String },
    /// Remove the object at `path`.
    DeleteObject { bucket: String, path: String },
    /// List every object whose path starts with `prefix`, page by page.
    ListObjects { bucket: String, prefix: String },
}

/// The mathematical content of a `Request`.
pub enum RequestView {
    BucketExists { bucket: Seq<char> },
    CreateBucket { bucket: Seq<char> },
    PutObject { bucket: Seq<char>, path: Seq<char>, data: Seq<u8> },
    GetObject { bucket: Seq<char>, path: Seq<char> },
    DeleteObject { bucket: Seq<char>, path: Seq<char> },
    ListObjects { bucket: Seq<char>, prefix: Seq<char> },
}

impl View for Request {
    type V = RequestView;

    open spec fn view(&self) -> RequestView {
        match self {
            Request::BucketExists { bucket } => RequestView::BucketExists { bucket: bucket@ },
            Request::CreateBucket { bucket } => RequestView::CreateBucket { bucket: bucket@ },
            Request::PutObject { bucket, path, data } => RequestView::PutObject {
                bucket: bucket@,
                path: path@,
                data: data@,
            },
            Request::GetObject { bucket, path } => RequestView::GetObject {
                bucket: bucket@,
                path: path@,
            },
            Request::DeleteObject { bucket, path } => RequestView::DeleteObject {
                bucket: bucket@,
                path: path@,
            },
            Request::ListObjects { bucket, prefix } => RequestView::ListObjects {
                bucket: bucket@,
                prefix: prefix@,
            },
        }
    }
}

/// The remote store's reply to a request.
#[derive(Clone, Debug, PartialEq, Eq)]
pub enum Reply {
    /// Whether the bucket exists.
    Exists(bool),
    /// The status of a creation, a write or a removal.
    Status(u16),
    /// The status of a read and the bytes that came with it.
    Object { status: u16, data: Vec<u8> },
    /// The pages of a listing, each with the paths it holds.
    Listing { pages: Vec<Vec<String>> },
    /// The store did not serve the request.
    Failed(StorageError),
}

/// The mathematical content of a `Reply`.
pub enum ReplyView {
    Exists(bool),
    Status(u16),
    Object { status: u16, data: Seq<u8> },
    Listing { pages: Seq<Seq<Seq<char>>> },
    Failed(StorageError),
}

impl View for Reply {
    type V = ReplyView;

    open spec fn view(&self) -> ReplyView {
        match self {
            Reply::Exists(exists) => ReplyView::Exists(*exists),
            Reply::Status(status) => ReplyView::Status(*status),
            Reply::Object { status, data } => ReplyView::Object { status: *status, data: data@ },
            Reply::Listing { pages } => ReplyView::Listing { pages: pages.deep_view() },
            Reply::Failed(error) => ReplyView::Failed(*error),
        }
    }
}

/// What an operation is for.
#[derive(Clone, Copy, Debug, PartialEq, Eq, Structural)]
pub enum Kind {
    /// Make sure that a bucket exists.
    Ensure,
    /// Store a chunk.
    Upload,
    /// Fetch a chunk.
    Download,
    /// Remove a chunk.
    Delete,
    /// List the stored paths under a prefix.
    List,
}

/// Which reply an operation is waiting for.
#[derive(Clone, Copy, Debug, PartialEq, Eq, Structural)]
pub enum Stage {
    /// Whether the bucket exists.
    Check,
    /// The status of the bucket's creation.
    Create,
    /// The reply to the request that the operation is for.
    Transfer,
}

/// An operation in progress.
#[derive(Clone, Debug, PartialEq, Eq)]
pub struct Operation {
    /// What the operation is for.
    pub kind: Kind,
    /// Which reply it is waiting for.
    pub stage: Stage,
    /// The bucket it works on.
    pub bucket: String,
    /// The path of the object, or the prefix of a listing.
    pub path: String,
    /// The encoded chunk that is still to be written.
    pub data: Vec<u8>,
    /// The codec of the chunk.
    pub codec: Codec,
    /// Whether a missing bucket is to be created.
    pub create: bool,
    /// Whether the operation has created the bucket.
    pub created: bool,
    /// The statuses that did not confirm a request and were let pass.
    pub warnings: Vec<u16>,
}

/// The mathematical content of an `Operation`.
pub struct OperationView {
    pub kind: Kind,
    pub stage: Stage,
    pub bucket: Seq<char>,
    pub path: Seq<char>,
    pub data: Seq<u8>,
    pub codec: Codec,
    pub create: bool,
    pub created: bool,
    pub warnings: Seq<u16>,
}

impl View for Operation {
    type V = OperationView;

    open spec fn view(&self) -> OperationView {
        OperationView {
            kind: self.kind,
            stage: self.stage,
            bucket: self.bucket@,
            path: self.path@,
            data: self.data@,
            codec: self.codec,
            create: self.create,
            created: self.created,
            warnings: self.warnings@,
        }
    }
}

/// What a finished operation has achieved.
#[derive(Clone, Debug, PartialEq, Eq)]
pub enum Outcome {
    /// The bucket was looked up, and created if `created` says so.
    Bucket { created: bool },
    /// The chunk is stored at `path`.
    Uploaded { path: String },
    /// The chunk that was stored.
    Downloaded { chunk: Chunk },
    /// The object is gone.
    Deleted,
    /// Every stored path under the prefix, each once.
    Listed { paths: Vec<String> },
}

/// The mathematical content of an `Outcome`.
pub enum OutcomeView {
    Bucket { created: bool },
    Uploaded { path: Seq<char> },
    Downloaded { payload: Seq<u8> },
    Deleted,
    Listed { paths: Seq<Seq<char>> },
}

impl View for Outcome {
    type V = OutcomeView;

    open spec fn view(&self) -> OutcomeView {
        match self {
            Outcome::Bucket { created } => OutcomeView::Bucket { created: *created },
            Outcome::Uploaded { path } => OutcomeView::Uploaded { path: path@ },
            Outcome::Downloaded { chunk } => OutcomeView::Downloaded { payload: chunk@ },
            Outcome::Deleted => OutcomeView::Deleted,
            Outcome::Listed { paths } => OutcomeView::Listed { paths: paths.deep_view() },
        }
    }
}

/// A finished operation: what it achieved, and the statuses that did not
/// confirm a request but were let pass under the lenient policy. Each of them
/// is to be logged as a warning.
#[derive(Clone, Debug, PartialEq, Eq)]
pub struct Completion {
    pub outcome: Outcome,
    pub warnings: Vec<u16>,
}

/// The mathematical content of a `Completion`.
pub struct CompletionView {
    pub outcome: OutcomeView,
    pub warnings: Seq<u16>,
}

impl View for Completion {
    type V = CompletionView;

    open spec fn view(&self) -> CompletionView {
        CompletionView { outcome: self.outcome@, warnings: self.warnings@ }
    }
}

/// What an operation does next.
#[derive(Clone, Debug, PartialEq, Eq)]
pub enum Step {
    /// Send the request, and hand the reply to `Client::advance` together
    /// with the operation.
    Send(Operation, Request),
    /// The operation is finished.
    Done(Completion),
    /// The operation has failed.
    Failed(Error),
}

/// The mathematical content of a `Step`.
pub enum StepView {
    Send(OperationView, RequestView),
    Done(CompletionView),
    Failed(Error),
}

impl View for Step {
    type V = StepView;

    open spec fn view(&self) -> StepView {
        match self {
            Step::Send(operation, request) => StepView::Send(operation@, request@),
            Step::Done(completion) => StepView::Done(completion@),
            Step::Failed(error) => StepView::Failed(*error),
        }
    }
}

/// The sequence without its repeated items: each item stays where it first occurs.
pub open spec fn distinct<A>(s: Seq<A>) -> Seq<A>
    decreases s.len(),
{
    if s.len() == 0 {
        s
    } else {
        let front = distinct(s.drop_last());
        if front.contains(s.last()) {
            front
        } else {
            front.push(s.last())
        }
    }
}

/// `distinct(s)` holds no item twice, and holds exactly the items of `s`. So
/// what `collect_paths` gathers is free of repeats and complete, whatever the
/// pages hold.
pub proof fn lemma_distinct<A>(s: Seq<A>)
    ensures
        distinct(s).no_duplicates(),
        forall|x: A| distinct(s).contains(x) <==> s.contains(x),
        distinct(s).len() <= s.len(),
    decreases s.len(),
{
    if s.len() > 0 {
        let front = distinct(s.drop_last());
        lemma_distinct(s.drop_last());
        assert forall|x: A| distinct(s).contains(x) <==> s.contains(x) by {
            if s.contains(x) {
                let i = choose|i: int| 0 <= i < s.len() && s[i] == x;
                if i < s.len() - 1 {
                    assert(s.drop_last()[i] == x);
                    assert(s.drop_last().contains(x));
                    let j = choose|j: int| 0 <= j < front.len() && front[j] == x;
                    assert(distinct(s)[j] == x);
                } else if !front.contains(x) {
                    assert(distinct(s)[front.len() as int] == x);
                }
            }
            if distinct(s).contains(x) {
                let j = choose|j: int| 0 <= j < distinct(s).len() && distinct(s)[j] == x;
                if j < front.len() {
                    assert(s.drop_last().contains(x));
                }
            }
        }
    }
}

/// A sequence that holds no item twice is its own `distinct`.
pub proof fn lemma_distinct_of_no_duplicates<A>(s: Seq<A>)
    requires
        s.no_duplicates(),
    ensures
        distinct(s) == s,
    decreases s.len(),
{
    if s.len() > 0 {
        lemma_distinct_of_no_duplicates(s.drop_last());
    }
}

/// The paths of a listing: those of all pages in turn, each path once.
pub open spec fn listed_paths(pages: Seq<Seq<Seq<char>>>) -> Seq<Seq<char>> {
    distinct(pages.flatten())
}

/// Whether `paths` holds the path `path`.
pub fn holds_path(paths: &Vec<String>, path: &String) -> (found: bool)
    ensures
        found == paths.deep_view().contains(path@),
{
    let mut i: usize = 0;
    while i < paths.len()
        invariant
            i <= paths.len(),
            forall|k: int| 0 <= k < i ==> #[trigger] paths.deep_view()[k] != path@,
        decreases paths.len() - i,
    {
        if paths[i] == *path {
            assert(paths.deep_view()[i as int] == path@);
            return true;
        }
        i = i + 1;
    }
    false
}

/// Gathers the paths of all pages of a listing into one collection that holds
/// each path once.
pub fn collect_paths(pages: Vec<Vec<String>>) -> (paths: Vec<String>)
    ensures
        paths.deep_view() == listed_paths(pages.deep_view()),
{
    let ghost all = pages.deep_view();
    let mut paths: Vec<String> = Vec::new();
    let mut i: usize = 0;
    while i < pages.len()
        invariant
            all == pages.deep_view(),
            i <= pages.len(),
            paths.deep_view() == distinct(all.take(i as int).flatten()),
        decreases pages.len() - i,
    {
        let page = &pages[i];
        let ghost before = all.take(i as int).flatten();
        let ghost items = page.deep_view();
        let mut j: usize = 0;
        while j < page.len()
            invariant
                items == page.deep_view(),
                j <= page.len(),
                paths.deep_view() == distinct(before + items.take(j as int)),
            decreases page.len() - j,
        {
            let path = &page[j];
            assert((before + items.take(j + 1)).drop_last() =~= before + items.take(j as int));
            if !holds_path(&paths, path) {
                paths.push(path.clone());
            }
            j = j + 1;
        }
        proof {
            assert(items.take(j as int) =~= items);
            assert(all.take(i + 1) =~= all.take(i as int).push(items));
            all.take(i as int).lemma_flatten_push(items);
        }
        i = i + 1;
    }
    assert(all.take(i as int) =~= all);
    paths
}

/// The path under which a chunk is stored: the destination prefix, a slash,
/// and the chunk's content key.
pub open spec fn object_path(prefix: Seq<char>, key: Seq<char>) -> Seq<char> {
    prefix + seq!['/'] + key
}

/// Whether `status` confirms the request that an operation of this kind sent
/// at this stage. Every request is confirmed by `STATUS_OK`. The removal of
/// an object is also confirmed by `STATUS_NO_CONTENT`, and by
/// `STATUS_NOT_FOUND`: an object that is already gone is no error.
pub open spec fn confirms(kind: Kind, stage: Stage, status: u16) -> bool {
    ||| status == STATUS_OK
    ||| kind == Kind::Delete && stage == Stage::Transfer && (status == STATUS_NO_CONTENT || status
        == STATUS_NOT_FOUND)
}

/// The warnings of an operation after a status has come in, or `None` where
/// the status makes the operation fail: a status that does not confirm the
/// request fails it under the strict policy, and is added to the warnings
/// under the lenient one.
pub open spec fn judged(
    policy: StatusPolicy,
    confirmed: bool,
    status: u16,
    warnings: Seq<u16>,
) -> Option<Seq<u16>> {
    if confirmed {
        Some(warnings)
    } else if policy == StatusPolicy::Lenient {
        Some(warnings.push(status))
    } else {
        None
    }
}

/// The request that an operation is for.
pub open spec fn transfer_request(operation: OperationView) -> RequestView {
    match operation.kind {
        Kind::Ensure => RequestView::BucketExists { bucket: operation.bucket },
        Kind::Upload => RequestView::PutObject {
            bucket: operation.bucket,
            path: operation.path,
            data: operation.data,
        },
        Kind::Download => RequestView::GetObject {
            bucket: operation.bucket,
            path: operation.path,
        },
        Kind::Delete => RequestView::DeleteObject {
            bucket: operation.bucket,
            path: operation.path,
        },
        Kind::List => RequestView::ListObjects {
            bucket: operation.bucket,
            prefix: operation.path,
        },
    }
}

/// What an operation does once its bucket is settled: one that only ensures
/// the bucket is finished, any other sends the request it is for.
pub open spec fn after_bucket(operation: OperationView) -> StepView {
    if operation.kind == Kind::Ensure {
        StepView::Done(
            CompletionView {
                outcome: OutcomeView::Bucket { created: operation.created },
                warnings: operation.warnings,
            },
        )
    } else {
        StepView::Send(
            OperationView { stage: Stage::Transfer, data: Seq::empty(), ..operation },
            transfer_request(operation),
        )
    }
}

/// What an operation that waits for the reply to its own request does with it.
pub open spec fn after_transfer(
    policy: StatusPolicy,
    operation: OperationView,
    reply: ReplyView,
) -> StepView {
    let unexpected = StepView::Failed(Error::Storage(StorageError::UnexpectedReply));
    match reply {
        ReplyView::Status(status) => if operation.kind == Kind::Upload || operation.kind
            == Kind::Delete {
            match judged(
                policy,
                confirms(operation.kind, Stage::Transfer, status),
                status,
                operation.warnings,
            ) {
                Some(warnings) => StepView::Done(
                    CompletionView {
                        outcome: if operation.kind == Kind::Upload {
                            OutcomeView::Uploaded { path: operation.path }
                        } else {
                            OutcomeView::Deleted
                        },
                        warnings,
                    },
                ),
                None => StepView::Failed(Error::Storage(StorageError::Status(status))),
            }
        } else {
            unexpected
        },
        ReplyView::Object { status, data } => if operation.kind == Kind::Download {
            match judged(
                policy,
                confirms(operation.kind, Stage::Transfer, status),
                status,
                operation.warnings,
            ) {
                Some(warnings) => match decoded(data, operation.codec) {
                    Ok(payload) => StepView::Done(
                        CompletionView { outcome: OutcomeView::Downloaded { payload }, warnings },
                    ),
                    Err(error) => StepView::Failed(Error::Decoding(error)),
                },
                None => StepView::Failed(Error::Storage(StorageError::Status(status))),
            }
        } else {
            unexpected
        },
        ReplyView::Listing { pages } => if operation.kind == Kind::List {
            StepView::Done(
                CompletionView {
                    outcome: OutcomeView::Listed { paths: listed_paths(pages) },
                    warnings: operation.warnings,
                },
            )
        } else {
            unexpected
        },
        _ => unexpected,
    }
}

/// What an operation does with the reply to the request it sent last.
///
/// - A request that the store did not serve fails the operation with the
///   store's error.
/// - While checking the bucket: a bucket that is missing is created if the
///   operation asks for that; in every other case the bucket is settled.
///   A bucket that exists is never created.
/// - While creating the bucket: the status is judged by the policy.
/// - After the operation's own request: the status is judged by the policy,
///   a download decodes what came, a listing gathers the pages.
/// - A reply of another shape than the request calls for fails the
///   operation with `StorageError::UnexpectedReply`.
pub open spec fn next_step(
    policy: StatusPolicy,
    operation: OperationView,
    reply: ReplyView,
) -> StepView {
    let unexpected = StepView::Failed(Error::Storage(StorageError::UnexpectedReply));
    match reply {
        ReplyView::Failed(error) => StepView::Failed(Error::Storage(error)),
        _ => match operation.stage {
            Stage::Check => match reply {
                ReplyView::Exists(exists) => if !exists && operation.create {
                    StepView::Send(
                        OperationView { stage: Stage::Create, ..operation },
                        RequestView::CreateBucket { bucket: operation.bucket },
                    )
                } else {
                    after_bucket(operation)
                },
                _ => unexpected,
            },
            Stage::Create => match reply {
                ReplyView::Status(status) => match judged(
                    policy,
                    confirms(operation.kind, Stage::Create, status),
                    status,
                    operation.warnings,
                ) {
                    Some(warnings) => after_bucket(
                        OperationView { created: true, warnings, ..operation },
                    ),
                    None => StepView::Failed(Error::Storage(StorageError::Status(status))),
                },
                _ => unexpected,
            },
            Stage::Transfer => after_transfer(policy, operation, reply),
        },
    }
}

/// The first step of making sure that the bucket `name` exists.
pub open spec fn ensure_bucket_step(name: Seq<char>, create_if_missing: bool) -> StepView {
    StepView::Send(
        OperationView {
            kind: Kind::Ensure,
            stage: Stage::Check,
            bucket: name,
            path: Seq::empty(),
            data: Seq::empty(),
            codec: Codec::Raw,
            create: create_if_missing,
            created: false,
            warnings: Seq::empty(),
        },
        RequestView::BucketExists { bucket: name },
    )
}

/// The first step of storing a chunk: nothing is sent for a payload that
/// cannot be encoded; otherwise the bucket is looked up first, to be created
/// if it is missing, and the encoded chunk waits to be written at
/// `object_path(prefix, key_of(payload, codec))`.
pub open spec fn upload_step(
    payload: Seq<u8>,
    bucket: Seq<char>,
    prefix: Seq<char>,
    codec: Codec,
) -> StepView {
    if payload.len() > MAX_PAYLOAD_LEN {
        StepView::Failed(Error::Encoding(EncodingError::PayloadTooLarge))
    } else {
        StepView::Send(
            OperationView {
                kind: Kind::Upload,
                stage: Stage::Check,
                bucket,
                path: object_path(prefix, key_of(payload, codec)),
                data: encoded(payload, codec),
                codec,
                create: true,
                created: false,
                warnings: Seq::empty(),
            },
            RequestView::BucketExists { bucket },
        )
    }
}

/// The first step of an operation that starts with its own request.
pub open spec fn transfer_step(
    kind: Kind,
    bucket: Seq<char>,
    path: Seq<char>,
    codec: Codec,
) -> StepView {
    after_bucket(
        OperationView {
            kind,
            stage: Stage::Transfer,
            bucket,
            path,
            data: Seq::empty(),
            codec,
            create: false,
            created: false,
            warnings: Seq::empty(),
        },
    )
}

/// The first step of fetching the chunk at `path`.
pub open spec fn download_step(bucket: Seq<char>, path: Seq<char>, codec: Codec) -> StepView {
    transfer_step(Kind::Download, bucket, path, codec)
}

/// The first step of removing the chunk at `path`.
pub open spec fn delete_step(bucket: Seq<char>, path: Seq<char>) -> StepView {
    transfer_step(Kind::Delete, bucket, path, Codec::Raw)
}

/// The first step of listing the paths under `prefix`.
pub open spec fn list_step(bucket: Seq<char>, prefix: Seq<char>) -> StepView {
    transfer_step(Kind::List, bucket, prefix, Codec::Raw)
}

/// The settings of an object-store client: where the store is, how to
/// authenticate, and what to do with a status that does not confirm a request.
#[derive(Clone, Debug)]
pub struct Client {
    region: String,
    endpoint: String,
    access_key: String,
    secret_key: String,
    policy: StatusPolicy,
}

/// Whether `status` confirms the request.
fn is_confirmed(kind: Kind, stage: Stage, status: u16) -> (confirmed: bool)
    ensures
        confirmed == confirms(kind, stage, status),
{
    if status == STATUS_OK {
        true
    } else {
        match (kind, stage) {
            (Kind::Delete, Stage::Transfer) => status == STATUS_NO_CONTENT || status
                == STATUS_NOT_FOUND,
            _ => false,
        }
    }
}

/// The path under which `chunk` is stored below `prefix` when written in `codec`.
pub fn chunk_path(prefix: &str, chunk: &Chunk, codec: Codec) -> (path: String)
    ensures
        path@ == object_path(prefix@, key_of(chunk@, codec)),
{
    let key = chunk.key(codec);
    let mut path = String::from_str(prefix);
    path.append("/");
    path.append(key.as_str());
    proof {
        reveal_strlit("/");
        assert("/"@ =~= seq!['/']);
    }
    path
}

/// Settles the bucket of an operation.
fn proceed(operation: Operation) -> (step: Step)
    ensures
        step@ == after_bucket(operation@),
{
    let Operation { kind, stage: _, bucket, path, data, codec, create, created, warnings } =
        operation;
    let request = match kind {
        Kind::Ensure => {
            return Step::Done(Completion { outcome: Outcome::Bucket { created }, warnings });
        },
        Kind::Upload => Request::PutObject { bucket: bucket.clone(), path: path.clone(), data },
        Kind::Download => Request::GetObject { bucket: bucket.clone(), path: path.clone() },
        Kind::Delete => Request::DeleteObject { bucket: bucket.clone(), path: path.clone() },
        Kind::List => Request::ListObjects { bucket: bucket.clone(), prefix: path.clone() },
    };
    let waiting = Operation {
        kind,
        stage: Stage::Transfer,
        bucket,
        path,
        data: Vec::new(),
        codec,
        create,
        created,
        warnings,
    };
    Step::Send(waiting, request)
}

/// Starts an operation with its own request.
fn transfer(kind: Kind, bucket_name: &str, path: &str, codec: Codec) -> (step: Step)
    ensures
        step@ == transfer_step(kind, bucket_name@, path@, codec),
{
    proceed(
        Operation {
            kind,
            stage: Stage::Transfer,
            bucket: String::from_str(bucket_name),
            path: String::from_str(path),
            data: Vec::new(),
            codec,
            create: false,
            created: false,
            warnings: Vec::new(),
        },
    )
}

impl Client {
    /// The region of the store.
    pub closed spec fn region_of(&self) -> Seq<char> {
        self.region@
    }

    /// The endpoint of the store.
    pub closed spec fn endpoint_of(&self) -> Seq<char> {
        self.endpoint@
    }

    /// The access key.
    pub closed spec fn access_key_of(&self) -> Seq<char> {
        self.access_key@
    }

    /// The secret key.
    pub closed spec fn secret_key_of(&self) -> Seq<char> {
        self.secret_key@
    }

    /// The status policy.
    pub closed spec fn policy_of(&self) -> StatusPolicy {
        self.policy
    }

    /// A client for the store at `endpoint` in `region`. A status that does
    /// not confirm a request is let pass with a warning, until
    /// `with_policy` says otherwise.
    pub fn new(region: String, endpoint: String, access_key: String, secret_key: String) -> (client:
        Self)
        ensures
            client.region_of() == region@,
            client.endpoint_of() == endpoint@,
            client.access_key_of() == access_key@,
            client.secret_key_of() == secret_key@,
            client.policy_of() == StatusPolicy::Lenient,
    {
        Client { region, endpoint, access_key, secret_key, policy: StatusPolicy::Lenient }
    }

    /// The same client with another status policy.
    pub fn with_policy(self, policy: StatusPolicy) -> (client: Self)
        ensures
            client.region_of() == self.region_of(),
            client.endpoint_of() == self.endpoint_of(),
            client.access_key_of() == self.access_key_of(),
            client.secret_key_of() == self.secret_key_of(),
            client.policy_of() == policy,
    {
        Client {
            region: self.region,
            endpoint: self.endpoint,
            access_key: self.access_key,
            secret_key: self.secret_key,
            policy,
        }
    }

    /// The region of the store.
    pub fn region(&self) -> (region: &str)
        ensures
            region@ == self.region_of(),
    {
        self.region.as_str()
    }

    /// The endpoint of the store.
    pub fn endpoint(&self) -> (endpoint: &str)
        ensures
            endpoint@ == self.endpoint_of(),
    {
        self.endpoint.as_str()
    }

    /// The access key.
    pub fn access_key(&self) -> (key: &str)
        ensures
            key@ == self.access_key_of(),
    {
        self.access_key.as_str()
    }

    /// The secret key.
    pub fn secret_key(&self) -> (key: &str)
        ensures
            key@ == self.secret_key_of(),
    {
        self.secret_key.as_str()
    }

    /// The status policy.
    pub fn policy(&self) -> (policy: StatusPolicy)
        ensures
            policy == self.policy_of(),
    {
        self.policy
    }

    /// Judges a status by the policy: says whether the operation goes on,
    /// and notes a status that is let pass.
    fn judge(&self, confirmed: bool, status: u16, warnings: &mut Vec<u16>) -> (passed: bool)
        ensures
            match judged(self.policy_of(), confirmed, status, old(warnings)@) {
                Some(noted) => passed && final(warnings)@ == noted,
                None => !passed && final(warnings)@ == old(warnings)@,
            },
    {
        if confirmed {
            true
        } else {
            match self.policy {
                StatusPolicy::Lenient => {
                    warnings.push(status);
                    true
                },
                StatusPolicy::Strict => false,
            }
        }
    }

    /// Starts to make sure that the bucket `name` exists: the store is asked
    /// whether it does.
    pub fn ensure_bucket(&self, name: &str, create_if_missing: bool) -> (step: Step)
        ensures
            step@ == ensure_bucket_step(name@, create_if_missing),
    {
        Step::Send(
            Operation {
                kind: Kind::Ensure,
                stage: Stage::Check,
                bucket: String::from_str(name),
                path: String::new(),
                data: Vec::new(),
                codec: Codec::Raw,
                create: create_if_missing,
                created: false,
                warnings: Vec::new(),
            },
            Request::BucketExists { bucket: String::from_str(name) },
        )
    }

    /// Starts to store `chunk` in the bucket `bucket_name` under the prefix
    /// `path`, encoded in `codec`.
    pub fn upload_chunk(&self, chunk: Chunk, bucket_name: &str, path: &str, codec: Codec) -> (step:
        Step)
        ensures
            step@ == upload_step(chunk@, bucket_name@, path@, codec),
    {
        let data = match chunk.serialize(codec) {
            Ok(data) => data,
            Err(error) => {
                return Step::Failed(Error::Encoding(error));
            },
        };
        let object = chunk_path(path, &chunk, codec);
        Step::Send(
            Operation {
                kind: Kind::Upload,
                stage: Stage::Check,
                bucket: String::from_str(bucket_name),
                path: object,
                data,
                codec,
                create: true,
                created: false,
                warnings: Vec::new(),
            },
            Request::BucketExists { bucket: String::from_str(bucket_name) },
        )
    }

    /// Starts to fetch the chunk stored at `path`, written in `codec`.
    pub fn download_chunk(&self, bucket_name: &str, path: &str, codec: Codec) -> (step: Step)
        ensures
            step@ == download_step(bucket_name@, path@, codec),
    {
        transfer(Kind::Download, bucket_name, path, codec)
    }

    /// Starts to remove the chunk stored at `path`.
    pub fn delete_chunk(&self, bucket_name: &str, path: &str) -> (step: Step)
        ensures
            step@ == delete_step(bucket_name@, path@),
    {
        transfer(Kind::Delete, bucket_name, path, Codec::Raw)
    }

    /// Starts to list the stored paths under `prefix`.
    pub fn list_paths(&self, bucket_name: &str, prefix: &str) -> (step: Step)
        ensures
            step@ == list_step(bucket_name@, prefix@),
    {
        transfer(Kind::List, bucket_name, prefix, Codec::Raw)
    }

    /// Takes the reply to the request that `operation` sent last, and says
    /// what the operation does next.
    pub fn advance(&self, operation: Operation, reply: Reply) -> (step: Step)
        ensures
            step@ == next_step(self.policy_of(), operation@, reply@),
    {
        let mut operation = operation;
        let unexpected = Step::Failed(Error::Storage(StorageError::UnexpectedReply));
        match reply {
            Reply::Failed(error) => Step::Failed(Error::Storage(error)),
            Reply::Exists(exists) => match operation.stage {
                Stage::Check => {
                    if !exists && operation.create {
                        let request = Request::CreateBucket { bucket: operation.bucket.clone() };
                        operation.stage = Stage::Create;
                        Step::Send(operation, request)
                    } else {
                        proceed(operation)
                    }
                },
                _ => unexpected,
            },
            Reply::Status(status) => match (operation.stage, operation.kind) {
                (Stage::Create, _) => {
                    let confirmed = is_confirmed(operation.kind, Stage::Create, status);
                    if self.judge(confirmed, status, &mut operation.warnings) {
                        operation.created = true;
                        proceed(operation)
                    } else {
                        Step::Failed(Error::Storage(StorageError::Status(status)))
                    }
                },
                (Stage::Transfer, Kind::Upload) => {
                    let confirmed = is_confirmed(operation.kind, Stage::Transfer, status);
                    if self.judge(confirmed, status, &mut operation.warnings) {
                        Step::Done(
                            Completion {
                                outcome: Outcome::Uploaded { path: operation.path },
                                warnings: operation.warnings,
                            },
                        )
                    } else {
                        Step::Failed(Error::Storage(StorageError::Status(status)))
                    }
                },
                (Stage::Transfer, Kind::Delete) => {
                    let confirmed = is_confirmed(operation.kind, Stage::Transfer, status);
                    if self.judge(confirmed, status, &mut operation.warnings) {
                        Step::Done(
                            Completion { outcome: Outcome::Deleted, warnings: operation.warnings },
                        )
                    } else {
                        Step::Failed(Error::Storage(StorageError::Status(status)))
                    }
                },
                _ => unexpected,
            },
            Reply::Object { status, data } => match (operation.stage, operation.kind) {
                (Stage::Transfer, Kind::Download) => {
                    let confirmed = is_confirmed(operation.kind, Stage::Transfer, status);
                    if self.judge(confirmed, status, &mut operation.warnings) {
                        match Chunk::deserialize(data.as_slice(), operation.codec) {
                            Ok(chunk) => Step::Done(
                                Completion {
                                    outcome: Outcome::Downloaded { chunk },
                                    warnings: operation.warnings,
                                },
                            ),
                            Err(error) => Step::Failed(Error::Decoding(error)),
                        }
                    } else {
                        Step::Failed(Error::Storage(StorageError::Status(status)))
                    }
                },
                _ => unexpected,
            },
            Reply::Listing { pages } => match (operation.stage, operation.kind) {
                (Stage::Transfer, Kind::List) => Step::Done(
                    Completion {
                        outcome: Outcome::Listed { paths: collect_paths(pages) },
                        warnings: operation.warnings,
                    },
                ),
                _ => unexpected,
            },
        }
    }
}

} // verus!
