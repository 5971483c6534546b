//! Store jobs and the loop that archives a message source.
//!
//! A job binds a source of messages to a destination in the object store.
//! The loop itself is a state machine: `Job::step` takes what has happened
//! and says what to do next. Whoever runs the job performs the action and
//! comes back with the next event.

use crate::encoding::{key_of, Chunk, Codec};
use crate::s3::{chunk_path, holds_path, object_path, Error, StorageError};
use vstd::prelude::*;
use vstd::string::*;

verus! {

/// The wait before the first retry, in milliseconds.
pub const BACKOFF_BASE_MS: u64 = 100;

/// The longest wait before a retry, in milliseconds.
pub const BACKOFF_MAX_MS: u64 = 30_000;

/// A binding of a message source to a destination in the object store.
#[derive(Clone, Debug, PartialEq, Eq)]
pub struct StoreJob {
    /// The source in the message bus.
    pub source: String,
    /// The destination bucket.
    pub bucket: String,
    /// The destination path prefix.
    pub prefix: String,
    /// The codec in which chunks are written.
    pub codec: Codec,
}

/// Why a job has stopped.
#[derive(Clone, Copy, Debug, PartialEq, Eq, Structural)]
pub enum StopReason {
    /// A failure that trying again cannot mend.
    Fatal(Error),
    /// The job was asked to stop.
    Shutdown,
}

/// Where a job stands.
#[derive(Clone, Copy, Debug, PartialEq, Eq, Structural)]
pub enum JobState {
    /// Making sure that the destination bucket exists.
    Starting,
    /// Listing what the destination already holds.
    Reconciling,
    /// Receiving messages and storing them.
    Running,
    /// Waiting before an action that failed is tried again.
    Retrying,
    /// Stopped for good.
    Stopped(StopReason),
}

/// The action whose outcome a job is waiting for, or will try again.
#[derive(Clone, Copy, Debug, PartialEq, Eq, Structural)]
pub enum Phase {
    Ensure,
    List,
    Receive,
    Upload,
}

/// What has happened since the job's last action.
#[derive(Clone, Debug, PartialEq, Eq)]
pub enum JobEvent {
    /// The destination bucket exists.
    BucketReady,
    /// The destination holds these paths.
    Listed { paths: Vec<String> },
    /// The source delivered a message.
    Message { sequence: u64, payload: Vec<u8> },
    /// The store has confirmed the upload.
    Uploaded,
    /// The action failed.
    Failed(Error),
    /// The wait is over.
    Elapsed,
    /// The job is asked to stop.
    Shutdown,
}

/// The mathematical content of a `JobEvent`.
pub enum JobEventView {
    BucketReady,
    Listed { paths: Seq<Seq<char>> },
    Message { sequence: u64, payload: Seq<u8> },
    Uploaded,
    Failed(Error),
    Elapsed,
    Shutdown,
}

impl View for JobEvent {
    type V = JobEventView;

    open spec fn view(&self) -> JobEventView {
        match self {
            JobEvent::BucketReady => JobEventView::BucketReady,
            JobEvent::Listed { paths } => JobEventView::Listed { paths: paths.deep_view() },
            JobEvent::Message { sequence, payload } => JobEventView::Message {
                sequence: *sequence,
                payload: payload@,
            },
            JobEvent::Uploaded => JobEventView::Uploaded,
            JobEvent::Failed(error) => JobEventView::Failed(*error),
            JobEvent::Elapsed => JobEventView::Elapsed,
            JobEvent::Shutdown => JobEventView::Shutdown,
        }
    }
}

/// What a job does next.
#[derive(Clone, Debug, PartialEq, Eq)]
pub enum JobAction {
    /// Make sure that the destination bucket exists, creating it if it is missing.
    EnsureBucket,
    /// List the paths under the destination prefix.
    ListPaths,
    /// Acknowledge every message up to the checkpoint and receive the next one.
    Receive,
    /// Upload the chunk to the destination.
    Upload { chunk: Chunk },
    /// Wait this many milliseconds.
    Wait { millis: u64 },
    /// Nothing: the job has stopped.
    Stop,
}

/// The mathematical content of a `JobAction`.
pub enum JobActionView {
    EnsureBucket,
    ListPaths,
    Receive,
    Upload { payload: Seq<u8> },
    Wait { millis: u64 },
    Stop,
}

impl View for JobAction {
    type V = JobActionView;

    open spec fn view(&self) -> JobActionView {
        match self {
            JobAction::EnsureBucket => JobActionView::EnsureBucket,
            JobAction::ListPaths => JobActionView::ListPaths,
            JobAction::Receive => JobActionView::Receive,
            JobAction::Upload { chunk } => JobActionView::Upload { payload: chunk@ },
            JobAction::Wait { millis } => JobActionView::Wait { millis: *millis },
            JobAction::Stop => JobActionView::Stop,
        }
    }
}

/// A message whose upload has not been confirmed yet.
pub struct PendingView {
    pub sequence: u64,
    pub payload: Seq<u8>,
}

/// The mathematical content of a `Job`.
pub struct JobView {
    /// The destination bucket.
    pub bucket: Seq<char>,
    /// The destination path prefix.
    pub prefix: Seq<char>,
    /// The codec in which chunks are written.
    pub codec: Codec,
    /// Whether the job lists the destination before it receives.
    pub reconcile: bool,
    /// Where the job stands.
    pub state: JobState,
    /// The action whose outcome the job waits for, or will try again.
    pub awaiting: Phase,
    /// The paths that the destination is known to hold.
    pub known: Seq<Seq<char>>,
    /// The position in the source up to which everything is archived.
    pub checkpoint: u64,
    /// The message whose upload is not confirmed yet.
    pub pending: Option<PendingView>,
    /// The failures in a row since the last success.
    pub attempts: u32,
}

/// The wait before a retry after `attempts` earlier failures in a row: it
/// starts at `BACKOFF_BASE_MS` and doubles with each, up to `BACKOFF_MAX_MS`.
pub open spec fn backoff(attempts: nat) -> nat
    decreases attempts,
{
    if attempts == 0 {
        BACKOFF_BASE_MS as nat
    } else {
        let doubled = 2 * backoff((attempts - 1) as nat);
        if doubled > BACKOFF_MAX_MS {
            BACKOFF_MAX_MS as nat
        } else {
            doubled
        }
    }
}

/// The wait never shrinks, and stays within its bounds.
pub proof fn lemma_backoff_bounds(attempts: nat)
    ensures
        BACKOFF_BASE_MS <= backoff(attempts) <= BACKOFF_MAX_MS,
        attempts > 0 ==> backoff((attempts - 1) as nat) <= backoff(attempts),
    decreases attempts,
{
    if attempts > 0 {
        lemma_backoff_bounds((attempts - 1) as nat);
    }
}

/// Once the wait has reached its bound it stays there.
proof fn lemma_backoff_saturates(reached: nat, attempts: nat)
    requires
        backoff(reached) == BACKOFF_MAX_MS,
        reached <= attempts,
    ensures
        backoff(attempts) == BACKOFF_MAX_MS,
    decreases attempts,
{
    if attempts > reached {
        lemma_backoff_saturates(reached, (attempts - 1) as nat);
    }
}

/// The wait before a retry after `attempts` earlier failures in a row.
pub fn backoff_millis(attempts: u32) -> (millis: u64)
    ensures
        millis == backoff(attempts as nat),
{
    let mut millis: u64 = BACKOFF_BASE_MS;
    let mut i: u32 = 0;
    while i < attempts && millis < BACKOFF_MAX_MS
        invariant
            i <= attempts,
            millis == backoff(i as nat),
            millis <= BACKOFF_MAX_MS,
        decreases attempts - i,
    {
        millis = if millis > BACKOFF_MAX_MS / 2 {
            BACKOFF_MAX_MS
        } else {
            2 * millis
        };
        i = i + 1;
    }
    proof {
        if i < attempts {
            lemma_backoff_saturates(i as nat, attempts as nat);
        }
    }
    millis
}

/// The larger of two positions.
pub open spec fn later(a: u64, b: u64) -> u64 {
    if a >= b {
        a
    } else {
        b
    }
}

/// A job that has stopped for good.
pub open spec fn stopped(job: JobView, reason: StopReason) -> (JobView, JobActionView) {
    (JobView { state: JobState::Stopped(reason), pending: None, ..job }, JobActionView::Stop)
}

/// The state in which a job waits for the outcome of an action.
pub open spec fn state_of(phase: Phase) -> JobState {
    match phase {
        Phase::Ensure => JobState::Starting,
        Phase::List => JobState::Reconciling,
        Phase::Receive => JobState::Running,
        Phase::Upload => JobState::Running,
    }
}

/// The action that a job repeats after a wait.
pub open spec fn repeated(job: JobView) -> (JobView, JobActionView) {
    let resumed = JobView { state: state_of(job.awaiting), ..job };
    match job.awaiting {
        Phase::Ensure => (resumed, JobActionView::EnsureBucket),
        Phase::List => (resumed, JobActionView::ListPaths),
        Phase::Receive => (resumed, JobActionView::Receive),
        Phase::Upload => match job.pending {
            Some(pending) => (resumed, JobActionView::Upload { payload: pending.payload }),
            None => (JobView { awaiting: Phase::Receive, ..resumed }, JobActionView::Receive),
        },
    }
}

/// What a job does when an action has failed. A transient failure of the
/// store is followed by a wait, after which the action is repeated. A chunk
/// that cannot be encoded is given up without moving the checkpoint, and
/// the job goes on with the next message. Every other failure stops the job.
pub open spec fn failed(job: JobView, error: Error) -> (JobView, JobActionView) {
    match error {
        Error::Storage(cause) if cause.transient() => (
            JobView {
                state: JobState::Retrying,
                attempts: if job.attempts == u32::MAX {
                    job.attempts
                } else {
                    (job.attempts + 1) as u32
                },
                ..job
            },
            JobActionView::Wait { millis: backoff(job.attempts as nat) as u64 },
        ),
        Error::Encoding(_) if job.awaiting == Phase::Upload => (
            JobView { awaiting: Phase::Receive, pending: None, ..job },
            JobActionView::Receive,
        ),
        _ => stopped(job, StopReason::Fatal(error)),
    }
}

/// What a job does with a message. One at or before the checkpoint, or one
/// whose chunk the destination is known to hold, needs no upload: it is
/// confirmed at once and the checkpoint moves past it. Any other is
/// uploaded, and the checkpoint stays until the upload is confirmed.
pub open spec fn received(job: JobView, sequence: u64, payload: Seq<u8>) -> (
    JobView,
    JobActionView,
) {
    let path = object_path(job.prefix, key_of(payload, job.codec));
    if sequence <= job.checkpoint || job.known.contains(path) {
        (JobView { checkpoint: later(job.checkpoint, sequence), ..job }, JobActionView::Receive)
    } else {
        (
            JobView {
                awaiting: Phase::Upload,
                pending: Some(PendingView { sequence, payload }),
                ..job
            },
            JobActionView::Upload { payload },
        )
    }
}

/// What a job does when the store has confirmed the upload of the pending
/// message: the chunk's path is known from now on and the checkpoint moves
/// past the message.
pub open spec fn confirmed(job: JobView, pending: PendingView) -> (JobView, JobActionView) {
    let path = object_path(job.prefix, key_of(pending.payload, job.codec));
    (
        JobView {
            awaiting: Phase::Receive,
            known: if job.known.contains(path) {
                job.known
            } else {
                job.known.push(path)
            },
            checkpoint: later(job.checkpoint, pending.sequence),
            pending: None,
            attempts: 0,
            ..job
        },
        JobActionView::Receive,
    )
}

/// The job after an event, and what it does next.
///
/// - A job that has stopped stays stopped.
/// - A request to stop is obeyed in every other state; a message in flight
///   is abandoned and the checkpoint stays.
/// - `Starting`: once the bucket exists the job lists the destination, or,
///   where it does not reconcile, starts to receive at once.
/// - `Reconciling`: the listed paths are known from now on, and the job
///   starts to receive.
/// - `Running`: see `received`, `confirmed`.
/// - `Retrying`: when the wait is over the failed action is repeated.
/// - A failure is handled as `failed` says.
/// - An event that the job's state does not call for stops the job.
pub open spec fn job_step(job: JobView, event: JobEventView) -> (JobView, JobActionView) {
    let unexpected = stopped(
        job,
        StopReason::Fatal(Error::Storage(StorageError::UnexpectedReply)),
    );
    match job.state {
        JobState::Stopped(_) => (job, JobActionView::Stop),
        _ => match event {
            JobEventView::Shutdown => stopped(job, StopReason::Shutdown),
            JobEventView::Failed(error) => if job.state == JobState::Retrying {
                unexpected
            } else {
                failed(job, error)
            },
            JobEventView::Elapsed => if job.state == JobState::Retrying {
                repeated(job)
            } else {
                unexpected
            },
            JobEventView::BucketReady => if job.state != JobState::Starting {
                unexpected
            } else if job.reconcile {
                (
                    JobView {
                        state: JobState::Reconciling,
                        awaiting: Phase::List,
                        attempts: 0,
                        ..job
                    },
                    JobActionView::ListPaths,
                )
            } else {
                (
                    JobView {
                        state: JobState::Running,
                        awaiting: Phase::Receive,
                        attempts: 0,
                        ..job
                    },
                    JobActionView::Receive,
                )
            },
            JobEventView::Listed { paths } => if job.state == JobState::Reconciling {
                (
                    JobView {
                        state: JobState::Running,
                        awaiting: Phase::Receive,
                        known: paths,
                        attempts: 0,
                        ..job
                    },
                    JobActionView::Receive,
                )
            } else {
                unexpected
            },
            JobEventView::Message { sequence, payload } => if job.state == JobState::Running
                && job.awaiting == Phase::Receive {
                received(JobView { attempts: 0, ..job }, sequence, payload)
            } else {
                unexpected
            },
            JobEventView::Uploaded => if job.state == JobState::Running && job.awaiting
                == Phase::Upload {
                match job.pending {
                    Some(pending) => confirmed(job, pending),
                    None => unexpected,
                }
            } else {
                unexpected
            },
        },
    }
}

/// A job that is about to start: it will make sure of its bucket first.
pub open spec fn fresh(
    bucket: Seq<char>,
    prefix: Seq<char>,
    codec: Codec,
    checkpoint: u64,
    reconcile: bool,
) -> JobView {
    JobView {
        bucket,
        prefix,
        codec,
        reconcile,
        state: JobState::Starting,
        awaiting: Phase::Ensure,
        known: Seq::empty(),
        checkpoint,
        pending: None,
        attempts: 0,
    }
}

/// The checkpoint never moves back, and it moves only when the store has
/// confirmed an upload or a message needs none. In particular no failure,
/// no wait and no request to stop moves it.
pub proof fn lemma_checkpoint_after_confirmation(job: JobView, event: JobEventView)
    ensures
        job_step(job, event).0.checkpoint >= job.checkpoint,
        job_step(job, event).0.checkpoint != job.checkpoint ==> (event is Uploaded
            || event is Message) && job.state == JobState::Running,
        event matches JobEventView::Message { sequence, payload } ==> (job_step(
            job,
            event,
        ).0.checkpoint != job.checkpoint ==> job.known.contains(
            object_path(job.prefix, key_of(payload, job.codec)),
        )),
        job_step(job, event).1 is Upload ==> job_step(job, event).0.checkpoint == job.checkpoint,
{
}

/// A job that has stopped stays as it is and does nothing more.
pub proof fn lemma_stopped_is_terminal(job: JobView, event: JobEventView)
    requires
        job.state is Stopped,
    ensures
        job_step(job, event) == (job, JobActionView::Stop),
{
}

/// A transient failure of the store never stops a job that is at work: it
/// is followed by a wait within the bounds of the back-off, and the
/// checkpoint and the message in flight stay as they are.
pub proof fn lemma_transient_failure_is_retried(job: JobView, cause: StorageError)
    requires
        !(job.state is Stopped),
        job.state != JobState::Retrying,
        cause.transient(),
    ensures
        ({
            let (next, action) = job_step(job, JobEventView::Failed(Error::Storage(cause)));
            &&& next.state == JobState::Retrying
            &&& next.checkpoint == job.checkpoint
            &&& next.pending == job.pending
            &&& action matches JobActionView::Wait { millis }
            &&& BACKOFF_BASE_MS <= millis <= BACKOFF_MAX_MS
        }),
{
    lemma_backoff_bounds(job.attempts as nat);
}

/// A message whose upload has not been confirmed yet.
struct Pending {
    sequence: u64,
    payload: Vec<u8>,
}

/// A store job as it runs.
pub struct Job {
    job: StoreJob,
    reconcile: bool,
    state: JobState,
    awaiting: Phase,
    known: Vec<String>,
    checkpoint: u64,
    pending: Option<Pending>,
    attempts: u32,
}

impl View for Job {
    type V = JobView;

    closed spec fn view(&self) -> JobView {
        JobView {
            bucket: self.job.bucket@,
            prefix: self.job.prefix@,
            codec: self.job.codec,
            reconcile: self.reconcile,
            state: self.state,
            awaiting: self.awaiting,
            known: self.known.deep_view(),
            checkpoint: self.checkpoint,
            pending: match self.pending {
                Some(pending) => Some(
                    PendingView { sequence: pending.sequence, payload: pending.payload@ },
                ),
                None => None,
            },
            attempts: self.attempts,
        }
    }
}

impl Job {
    /// A job for `job` that resumes after `checkpoint`, the position up to
    /// which the source is archived already, and its first action: to make
    /// sure of the destination bucket. With `reconcile` the job lists what
    /// the destination holds before it receives, so that chunks stored by an
    /// earlier run are not uploaded again.
    pub fn new(job: StoreJob, checkpoint: u64, reconcile: bool) -> (started: (Job, JobAction))
        ensures
            started.0@ == fresh(job.bucket@, job.prefix@, job.codec, checkpoint, reconcile),
            started.1@ == JobActionView::EnsureBucket,
    {
        let started = Job {
            job,
            reconcile,
            state: JobState::Starting,
            awaiting: Phase::Ensure,
            known: Vec::new(),
            checkpoint,
            pending: None,
            attempts: 0,
        };
        assert(started@.known =~= Seq::empty());
        (started, JobAction::EnsureBucket)
    }

    /// The binding that the job runs.
    pub fn job(&self) -> (job: &StoreJob)
        ensures
            job.bucket@ == self@.bucket,
            job.prefix@ == self@.prefix,
            job.codec == self@.codec,
    {
        &self.job
    }

    /// Where the job stands.
    pub fn state(&self) -> (state: JobState)
        ensures
            state == self@.state,
    {
        self.state
    }

    /// The position in the source up to which everything is archived.
    pub fn checkpoint(&self) -> (checkpoint: u64)
        ensures
            checkpoint == self@.checkpoint,
    {
        self.checkpoint
    }

    /// The failures in a row since the last success.
    pub fn attempts(&self) -> (attempts: u32)
        ensures
            attempts == self@.attempts,
    {
        self.attempts
    }

    /// Whether the destination is known to hold `path`.
    pub fn knows(&self, path: &String) -> (known: bool)
        ensures
            known == self@.known.contains(path@),
    {
        holds_path(&self.known, path)
    }

    /// Stops the job for good.
    fn stop(&mut self, reason: StopReason) -> (action: JobAction)
        ensures
            (final(self)@, action@) == stopped(old(self)@, reason),
    {
        self.state = JobState::Stopped(reason);
        self.pending = None;
        JobAction::Stop
    }

    /// Handles the failure of an action.
    fn fail(&mut self, error: Error) -> (action: JobAction)
        ensures
            (final(self)@, action@) == failed(old(self)@, error),
    {
        match error {
            Error::Storage(cause) => {
                if cause.is_transient() {
                    let millis = backoff_millis(self.attempts);
                    self.state = JobState::Retrying;
                    if self.attempts < u32::MAX {
                        self.attempts = self.attempts + 1;
                    }
                    return JobAction::Wait { millis };
                }
            },
            Error::Encoding(_) => {
                if let Phase::Upload = self.awaiting {
                    self.awaiting = Phase::Receive;
                    self.pending = None;
                    return JobAction::Receive;
                }
            },
            Error::Decoding(_) => {},
        }
        self.stop(StopReason::Fatal(error))
    }

    /// Repeats the action that failed before the wait.
    fn repeat(&mut self) -> (action: JobAction)
        ensures
            (final(self)@, action@) == repeated(old(self)@),
    {
        match self.awaiting {
            Phase::Ensure => {
                self.state = JobState::Starting;
                JobAction::EnsureBucket
            },
            Phase::List => {
                self.state = JobState::Reconciling;
                JobAction::ListPaths
            },
            Phase::Receive => {
                self.state = JobState::Running;
                JobAction::Receive
            },
            Phase::Upload => {
                self.state = JobState::Running;
                match &self.pending {
                    Some(pending) => {
                        let chunk = Chunk::new(pending.payload.clone());
                        JobAction::Upload { chunk }
                    },
                    None => {
                        self.awaiting = Phase::Receive;
                        JobAction::Receive
                    },
                }
            },
        }
    }

    /// Handles a message from the source.
    fn receive(&mut self, sequence: u64, payload: Vec<u8>) -> (action: JobAction)
        ensures
            (final(self)@, action@) == received(old(self)@, sequence, payload@),
    {
        let chunk = Chunk::new(payload.clone());
        let path = chunk_path(self.job.prefix.as_str(), &chunk, self.job.codec);
        if sequence <= self.checkpoint || holds_path(&self.known, &path) {
            if sequence > self.checkpoint {
                self.checkpoint = sequence;
            }
            JobAction::Receive
        } else {
            self.awaiting = Phase::Upload;
            self.pending = Some(Pending { sequence, payload });
            JobAction::Upload { chunk }
        }
    }

    /// Handles the confirmation of the pending upload.
    fn confirm(&mut self, pending: Pending) -> (action: JobAction)
        ensures
            (final(self)@, action@) == confirmed(
                old(self)@,
                PendingView { sequence: pending.sequence, payload: pending.payload@ },
            ),
    {
        let ghost before = self@;
        let Pending { sequence, payload } = pending;
        let chunk = Chunk::new(payload);
        let path = chunk_path(self.job.prefix.as_str(), &chunk, self.job.codec);
        if !holds_path(&self.known, &path) {
            self.known.push(path);
            assert(self@.known =~= before.known.push(path@));
        }
        if sequence > self.checkpoint {
            self.checkpoint = sequence;
        }
        self.awaiting = Phase::Receive;
        self.pending = None;
        self.attempts = 0;
        JobAction::Receive
    }

    /// Takes what has happened since the job's last action, and says what
    /// the job does next.
    pub fn step(&mut self, event: JobEvent) -> (action: JobAction)
        ensures
            (final(self)@, action@) == job_step(old(self)@, event@),
    {
        let unexpected = StopReason::Fatal(Error::Storage(StorageError::UnexpectedReply));
        if let JobState::Stopped(_) = self.state {
            return JobAction::Stop;
        }
        match event {
            JobEvent::Shutdown => self.stop(StopReason::Shutdown),
            JobEvent::Failed(error) => match self.state {
                JobState::Retrying => self.stop(unexpected),
                _ => self.fail(error),
            },
            JobEvent::Elapsed => match self.state {
                JobState::Retrying => self.repeat(),
                _ => self.stop(unexpected),
            },
            JobEvent::BucketReady => match self.state {
                JobState::Starting => {
                    self.attempts = 0;
                    if self.reconcile {
                        self.state = JobState::Reconciling;
                        self.awaiting = Phase::List;
                        JobAction::ListPaths
                    } else {
                        self.state = JobState::Running;
                        self.awaiting = Phase::Receive;
                        JobAction::Receive
                    }
                },
                _ => self.stop(unexpected),
            },
            JobEvent::Listed { paths } => match self.state {
                JobState::Reconciling => {
                    self.state = JobState::Running;
                    self.awaiting = Phase::Receive;
                    self.known = paths;
                    self.attempts = 0;
                    JobAction::Receive
                },
                _ => self.stop(unexpected),
            },
            JobEvent::Message { sequence, payload } => match (self.state, self.awaiting) {
                (JobState::Running, Phase::Receive) => {
                    self.attempts = 0;
                    self.receive(sequence, payload)
                },
                _ => self.stop(unexpected),
            },
            JobEvent::Uploaded => match (self.state, self.awaiting) {
                (JobState::Running, Phase::Upload) => match self.pending.take() {
                    Some(pending) => self.confirm(pending),
                    None => self.stop(unexpected),
                },
                _ => self.stop(unexpected),
            },
        }
    }
}

} // verus!
