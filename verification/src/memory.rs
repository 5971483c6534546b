//! An object store held in memory.
//!
//! It answers the client's requests as a remote store would, so that the
//! client's operations can be exercised, and reasoned about, without a
//! network: it lists in pages of a chosen size, and can be told to refuse
//! requests with a status or to be unreachable.

use crate::s3::{holds_path, next_step, Client, Completion, CompletionView, Error};
use crate::s3::{Reply, ReplyView, Request, RequestView, Stage, StatusPolicy, Step, StepView};
use crate::s3::StorageError;
use crate::s3::{STATUS_NOT_FOUND, STATUS_NO_CONTENT, STATUS_OK};
use vstd::prelude::*;
use vstd::string::*;

verus! {

/// The status with which the store answers the creation of a bucket that exists.
pub const STATUS_CONFLICT: u16 = 409;

/// How the store treats the requests it gets.
#[derive(Clone, Copy, Debug, PartialEq, Eq, Structural)]
pub enum Mode {
    /// Requests are served.
    Serving,
    /// Creations, writes, reads and removals are refused with this status
    /// and change nothing; lookups and listings are served.
    Refusing(u16),
    /// No request reaches the store: each fails with this error.
    Unreachable(StorageError),
}

/// A stored object.
pub struct ObjectModel {
    pub bucket: Seq<char>,
    pub path: Seq<char>,
    pub data: Seq<u8>,
}

/// The state of the store.
pub struct StoreModel {
    /// The names of the buckets, in the order of their creation.
    pub buckets: Seq<Seq<char>>,
    /// The objects, in the order in which their paths were first written.
    pub objects: Seq<ObjectModel>,
    /// The largest number of paths in one page of a listing.
    pub page_size: nat,
    /// How requests are treated.
    pub mode: Mode,
    /// The bucket names of the creation requests that reached the store.
    pub creations: Seq<Seq<char>>,
}

/// `items` cut into pages of `size` items, the last one possibly shorter.
pub open spec fn paged<A>(items: Seq<A>, size: nat) -> Seq<Seq<A>>
    decreases items.len(),
{
    if size == 0 || items.len() == 0 {
        Seq::empty()
    } else {
        let n = if items.len() < size {
            items.len()
        } else {
            size
        };
        seq![items.take(n as int)] + paged(items.skip(n as int), size)
    }
}

/// The pages of a paging hold the items in their order, none is empty and
/// none holds more than the page size, and items that do not fit in one page
/// make more than one.
pub proof fn lemma_paged<A>(items: Seq<A>, size: nat)
    requires
        size > 0,
    ensures
        paged(items, size).flatten() == items,
        forall|k: int|
            0 <= k < paged(items, size).len() ==> 0 < #[trigger] paged(items, size)[k].len()
                <= size,
        items.len() > size ==> paged(items, size).len() > 1,
    decreases items.len(),
{
    if items.len() > 0 {
        let n = if items.len() < size {
            items.len()
        } else {
            size
        };
        lemma_paged(items.skip(n as int), size);
        assert(paged(items, size).drop_first() =~= paged(items.skip(n as int), size));
    }
}

/// Whether no two of `objects` share their bucket and their path.
pub open spec fn unique_paths(objects: Seq<ObjectModel>) -> bool {
    forall|i: int, j: int|
        0 <= i < j < objects.len() ==> !(#[trigger] objects[i].bucket
            == #[trigger] objects[j].bucket && objects[i].path == objects[j].path)
}

impl StoreModel {
    /// Whether no bucket name and no object path occurs twice, and a page
    /// holds at least one path.
    pub open spec fn well_formed(self) -> bool {
        &&& self.page_size > 0
        &&& self.buckets.no_duplicates()
        &&& unique_paths(self.objects)
    }

    /// Whether the bucket exists.
    pub open spec fn has_bucket(self, bucket: Seq<char>) -> bool {
        self.buckets.contains(bucket)
    }

    /// Whether the object at `index` is the one at `path` in `bucket`.
    pub open spec fn is_at(self, index: int, bucket: Seq<char>, path: Seq<char>) -> bool {
        &&& 0 <= index < self.objects.len()
        &&& self.objects[index].bucket == bucket
        &&& self.objects[index].path == path
    }

    /// Whether an object is stored at `path` in `bucket`.
    pub open spec fn holds(self, bucket: Seq<char>, path: Seq<char>) -> bool {
        exists|index: int| self.is_at(index, bucket, path)
    }

    /// Where the object at `path` in `bucket` is stored, if there is one.
    pub open spec fn position(self, bucket: Seq<char>, path: Seq<char>) -> int {
        choose|index: int| self.is_at(index, bucket, path)
    }

    /// The number of objects stored at `path` in `bucket`.
    pub open spec fn count(self, bucket: Seq<char>, path: Seq<char>) -> nat {
        self.objects.filter(|o: ObjectModel| o.bucket == bucket && o.path == path).len()
    }

    /// The paths in `bucket` that start with `prefix`, in the store's order.
    pub open spec fn paths(self, bucket: Seq<char>, prefix: Seq<char>) -> Seq<Seq<char>> {
        self.objects.filter(
            |o: ObjectModel| o.bucket == bucket && prefix.is_prefix_of(o.path),
        ).map_values(|o: ObjectModel| o.path)
    }

    /// The store's reply to `request`.
    pub open spec fn answer(self, request: RequestView) -> ReplyView {
        match self.mode {
            Mode::Unreachable(error) => ReplyView::Failed(error),
            Mode::Refusing(status) => match request {
                RequestView::BucketExists { bucket } => ReplyView::Exists(self.has_bucket(bucket)),
                RequestView::ListObjects { bucket, prefix } => self.listing(bucket, prefix),
                RequestView::GetObject { .. } => ReplyView::Object { status, data: Seq::empty() },
                _ => ReplyView::Status(status),
            },
            Mode::Serving => match request {
                RequestView::BucketExists { bucket } => ReplyView::Exists(self.has_bucket(bucket)),
                RequestView::CreateBucket { bucket } => ReplyView::Status(
                    if self.has_bucket(bucket) {
                        STATUS_CONFLICT
                    } else {
                        STATUS_OK
                    },
                ),
                RequestView::PutObject { bucket, .. } => ReplyView::Status(
                    if self.has_bucket(bucket) {
                        STATUS_OK
                    } else {
                        STATUS_NOT_FOUND
                    },
                ),
                RequestView::GetObject { bucket, path } => if self.holds(bucket, path) {
                    ReplyView::Object {
                        status: STATUS_OK,
                        data: self.objects[self.position(bucket, path)].data,
                    }
                } else {
                    ReplyView::Object { status: STATUS_NOT_FOUND, data: Seq::empty() }
                },
                RequestView::DeleteObject { bucket, .. } => ReplyView::Status(
                    if self.has_bucket(bucket) {
                        STATUS_NO_CONTENT
                    } else {
                        STATUS_NOT_FOUND
                    },
                ),
                RequestView::ListObjects { bucket, prefix } => self.listing(bucket, prefix),
            },
        }
    }

    /// The store's reply to a listing: the paths under the prefix in pages,
    /// or `StorageError::NoSuchBucket`.
    pub open spec fn listing(self, bucket: Seq<char>, prefix: Seq<char>) -> ReplyView {
        if self.has_bucket(bucket) {
            ReplyView::Listing { pages: paged(self.paths(bucket, prefix), self.page_size) }
        } else {
            ReplyView::Failed(StorageError::NoSuchBucket)
        }
    }

    /// The store after it has served `request`.
    pub open spec fn effect(self, request: RequestView) -> StoreModel {
        match self.mode {
            Mode::Unreachable(_) => self,
            Mode::Refusing(_) => match request {
                RequestView::CreateBucket { bucket } => StoreModel {
                    creations: self.creations.push(bucket),
                    ..self
                },
                _ => self,
            },
            Mode::Serving => match request {
                RequestView::CreateBucket { bucket } => StoreModel {
                    buckets: if self.has_bucket(bucket) {
                        self.buckets
                    } else {
                        self.buckets.push(bucket)
                    },
                    creations: self.creations.push(bucket),
                    ..self
                },
                RequestView::PutObject { bucket, path, data } => if !self.has_bucket(bucket) {
                    self
                } else if self.holds(bucket, path) {
                    StoreModel {
                        objects: self.objects.update(
                            self.position(bucket, path),
                            ObjectModel { bucket, path, data },
                        ),
                        ..self
                    }
                } else {
                    StoreModel {
                        objects: self.objects.push(ObjectModel { bucket, path, data }),
                        ..self
                    }
                },
                RequestView::DeleteObject { bucket, path } => if self.holds(bucket, path) {
                    StoreModel { objects: self.objects.remove(self.position(bucket, path)), ..self }
                } else {
                    self
                },
                _ => self,
            },
        }
    }
}

/// A well-formed store is well-formed after any request.
pub proof fn lemma_effect_well_formed(store: StoreModel, request: RequestView)
    requires
        store.well_formed(),
    ensures
        store.effect(request).well_formed(),
{
    let after = store.effect(request);
    match request {
        RequestView::PutObject { bucket, path, data } => {
            if store.mode == Mode::Serving && store.has_bucket(bucket) && !store.holds(
                bucket,
                path,
            ) {
                assert forall|i: int, j: int| 0 <= i < j < after.objects.len() implies !(
                #[trigger] after.objects[i].bucket == #[trigger] after.objects[j].bucket
                    && after.objects[i].path == after.objects[j].path) by {
                    if j == store.objects.len() {
                        assert(!store.is_at(i, bucket, path));
                    }
                }
            }
        },
        _ => {},
    }
}

/// Among objects with unique paths, the paths under a prefix in a bucket are
/// exactly those of the objects that are there, each once.
pub proof fn lemma_paths(objects: Seq<ObjectModel>, bucket: Seq<char>, prefix: Seq<char>)
    requires
        unique_paths(objects),
    ensures
        ({
            let paths = objects.filter(
                |o: ObjectModel| o.bucket == bucket && prefix.is_prefix_of(o.path),
            ).map_values(|o: ObjectModel| o.path);
            &&& paths.no_duplicates()
            &&& forall|path: Seq<char>|
                paths.contains(path) <==> (prefix.is_prefix_of(path) && exists|i: int|
                    0 <= i < objects.len() && #[trigger] objects[i].bucket == bucket
                        && objects[i].path == path)
        }),
    decreases objects.len(),
{
    reveal(Seq::filter);
    let wanted = |o: ObjectModel| o.bucket == bucket && prefix.is_prefix_of(o.path);
    let path_of = |o: ObjectModel| o.path;
    let paths = objects.filter(wanted).map_values(path_of);
    if objects.len() > 0 {
        let front = objects.drop_last();
        let last = objects.last();
        let front_paths = front.filter(wanted).map_values(path_of);
        lemma_paths(front, bucket, prefix);
        if wanted(last) {
            assert(paths =~= front_paths.push(last.path));
        }
        assert forall|path: Seq<char>|
            paths.contains(path) <==> (prefix.is_prefix_of(path) && exists|i: int|
                0 <= i < objects.len() && #[trigger] objects[i].bucket == bucket && objects[i].path
                    == path) by {
            if prefix.is_prefix_of(path) && exists|i: int|
                0 <= i < objects.len() && #[trigger] objects[i].bucket == bucket && objects[i].path
                    == path {
                let i = choose|i: int|
                    0 <= i < objects.len() && #[trigger] objects[i].bucket == bucket
                        && objects[i].path == path;
                if i < front.len() {
                    assert(front[i] == objects[i]);
                    let k = choose|k: int| 0 <= k < front_paths.len() && front_paths[k] == path;
                    assert(paths[k] == path);
                } else {
                    assert(paths[paths.len() - 1] == path);
                }
            }
        }
    }
}

/// Among objects with unique paths, one object is stored at a path that is
/// held, and none at any other path.
pub proof fn lemma_count(objects: Seq<ObjectModel>, bucket: Seq<char>, path: Seq<char>)
    requires
        unique_paths(objects),
    ensures
        objects.filter(|o: ObjectModel| o.bucket == bucket && o.path == path).len() == (if exists|
            i: int,
        |
            0 <= i < objects.len() && #[trigger] objects[i].bucket == bucket && objects[i].path
                == path {
            1nat
        } else {
            0nat
        }),
    decreases objects.len(),
{
    reveal(Seq::filter);
    let wanted = |o: ObjectModel| o.bucket == bucket && o.path == path;
    if objects.len() > 0 {
        let front = objects.drop_last();
        let last = objects.last();
        lemma_count(front, bucket, path);
        if !wanted(last) && exists|i: int|
            0 <= i < objects.len() && #[trigger] objects[i].bucket == bucket && objects[i].path
                == path {
            let i = choose|i: int|
                0 <= i < objects.len() && #[trigger] objects[i].bucket == bucket
                    && objects[i].path == path;
            assert(front[i] == objects[i]);
        }
    }
}

/// The number of replies that an operation may still need.
pub open spec fn rank(step: StepView) -> nat {
    match step {
        StepView::Send(operation, _) => match operation.stage {
            Stage::Check => 3,
            Stage::Create => 2,
            Stage::Transfer => 1,
        },
        _ => 0,
    }
}

/// What comes of an operation that is run against a store from `step` on:
/// each request is served by the store and its reply handed to the
/// operation, until the operation is finished or has failed. The result is
/// what the operation yields and the store as it is left.
pub open spec fn simulate(policy: StatusPolicy, store: StoreModel, step: StepView) -> (
    Result<CompletionView, Error>,
    StoreModel,
)
    decreases rank(step),
{
    match step {
        StepView::Done(completion) => (Ok(completion), store),
        StepView::Failed(error) => (Err(error), store),
        StepView::Send(operation, request) => simulate(
            policy,
            store.effect(request),
            next_step(policy, operation, store.answer(request)),
        ),
    }
}

/// Tells whether `text` starts with `prefix`, with `str::starts_with`.
#[verifier::external_body]
fn starts_with(text: &str, prefix: &str) -> (found: bool)
    ensures
        found == prefix@.is_prefix_of(text@),
{
    text.starts_with(prefix)
}

/// An object as the store keeps it.
struct StoredObject {
    bucket: String,
    path: String,
    data: Vec<u8>,
}

impl StoredObject {
    spec fn model(self) -> ObjectModel {
        ObjectModel { bucket: self.bucket@, path: self.path@, data: self.data@ }
    }
}

/// An object store held in memory.
pub struct MemoryStore {
    buckets: Vec<String>,
    objects: Vec<StoredObject>,
    page_size: usize,
    mode: Mode,
    creations: Vec<String>,
}

impl View for MemoryStore {
    type V = StoreModel;

    closed spec fn view(&self) -> StoreModel {
        StoreModel {
            buckets: self.buckets.deep_view(),
            objects: self.objects@.map_values(|o: StoredObject| o.model()),
            page_size: self.page_size as nat,
            mode: self.mode,
            creations: self.creations.deep_view(),
        }
    }
}

/// Cuts `paths` into pages of `size` paths.
fn split_pages(paths: Vec<String>, size: usize) -> (pages: Vec<Vec<String>>)
    requires
        size > 0,
    ensures
        pages.deep_view() == paged(paths.deep_view(), size as nat),
{
    let ghost all = paths.deep_view();
    let mut pages: Vec<Vec<String>> = Vec::new();
    let mut page: Vec<String> = Vec::new();
    let ghost mut start: int = 0;
    let mut i: usize = 0;
    proof {
        assert(all.skip(0) =~= all);
    }
    while i < paths.len()
        invariant
            all == paths.deep_view(),
            size > 0,
            0 <= start <= i <= paths.len(),
            i - start < size,
            page.deep_view() == all.subrange(start, i as int),
            pages.deep_view() + paged(all.skip(start), size as nat) == paged(all, size as nat),
        decreases paths.len() - i,
    {
        let ghost old_page = page.deep_view();
        page.push(paths[i].clone());
        i = i + 1;
        proof {
            assert(page.deep_view() =~= old_page.push(all[i - 1]));
        }
        if page.len() == size {
            let ghost full = page.deep_view();
            pages.push(page);
            page = Vec::new();
            proof {
                let rest = all.skip(start);
                assert(rest.take(size as int) =~= full);
                assert(rest.skip(size as int) =~= all.skip(i as int));
                start = i as int;
            }
        }
    }
    if page.len() > 0 {
        let ghost last = page.deep_view();
        pages.push(page);
        proof {
            let rest = all.skip(start);
            assert(rest.take(rest.len() as int) =~= last);
            assert(paged(rest.skip(rest.len() as int), size as nat) =~= Seq::<
                Seq<Seq<char>>,
            >::empty());
        }
    }
    pages
}

impl MemoryStore {
    /// An empty store that serves requests and lists in pages of
    /// `page_size` paths, or of one path where `page_size` is zero.
    pub fn new(page_size: usize) -> (store: MemoryStore)
        ensures
            store@ == (StoreModel {
                buckets: Seq::empty(),
                objects: Seq::empty(),
                page_size: if page_size == 0 {
                    1
                } else {
                    page_size as nat
                },
                mode: Mode::Serving,
                creations: Seq::empty(),
            }),
            store@.well_formed(),
    {
        let store = MemoryStore {
            buckets: Vec::new(),
            objects: Vec::new(),
            page_size: if page_size == 0 {
                1
            } else {
                page_size
            },
            mode: Mode::Serving,
            creations: Vec::new(),
        };
        assert(store@.buckets =~= Seq::empty());
        assert(store@.objects =~= Seq::empty());
        store
    }

    /// Changes how the store treats the requests it gets.
    pub fn set_mode(&mut self, mode: Mode)
        ensures
            final(self)@ == (StoreModel { mode, ..old(self)@ }),
    {
        self.mode = mode;
    }

    /// The number of creation requests that have reached the store.
    pub fn creation_count(&self) -> (count: usize)
        ensures
            count == self@.creations.len(),
    {
        self.creations.len()
    }

    /// The number of buckets.
    pub fn bucket_count(&self) -> (count: usize)
        ensures
            count == self@.buckets.len(),
    {
        self.buckets.len()
    }

    /// The number of stored objects.
    pub fn object_count(&self) -> (count: usize)
        ensures
            count == self@.objects.len(),
    {
        self.objects.len()
    }

    /// Whether the bucket exists.
    fn has_bucket(&self, bucket: &String) -> (found: bool)
        ensures
            found == self@.has_bucket(bucket@),
    {
        holds_path(&self.buckets, bucket)
    }

    /// Where the object at `path` in `bucket` is kept.
    fn find(&self, bucket: &String, path: &String) -> (found: Option<usize>)
        requires
            self@.well_formed(),
        ensures
            match found {
                Some(index) => self@.is_at(index as int, bucket@, path@) && self@.position(
                    bucket@,
                    path@,
                ) == index,
                None => !self@.holds(bucket@, path@),
            },
    {
        let mut i: usize = 0;
        while i < self.objects.len()
            invariant
                i <= self.objects.len(),
                self@.well_formed(),
                forall|k: int| 0 <= k < i ==> !self@.is_at(k, bucket@, path@),
            decreases self.objects.len() - i,
        {
            if self.objects[i].bucket == *bucket && self.objects[i].path == *path {
                return Some(i);
            }
            i = i + 1;
        }
        None
    }

    /// The listing of the paths under `prefix` in `bucket`.
    fn list(&self, bucket: &String, prefix: &String) -> (reply: Reply)
        requires
            self@.well_formed(),
        ensures
            reply@ == self@.listing(bucket@, prefix@),
    {
        if !self.has_bucket(bucket) {
            return Reply::Failed(StorageError::NoSuchBucket);
        }
        let ghost wanted = |o: ObjectModel| o.bucket == bucket@ && prefix@.is_prefix_of(o.path);
        let ghost path_of = |o: ObjectModel| o.path;
        let mut paths: Vec<String> = Vec::new();
        let mut i: usize = 0;
        proof {
            reveal(Seq::filter);
        }
        while i < self.objects.len()
            invariant
                i <= self.objects.len(),
                wanted == (|o: ObjectModel| o.bucket == bucket@ && prefix@.is_prefix_of(o.path)),
                path_of == (|o: ObjectModel| o.path),
                paths.deep_view() == self@.objects.take(i as int).filter(wanted).map_values(
                    path_of,
                ),
            decreases self.objects.len() - i,
        {
            let object = &self.objects[i];
            let ghost before = self@.objects.take(i as int);
            let ghost after = self@.objects.take(i + 1);
            let ghost old_paths = paths.deep_view();
            proof {
                reveal(Seq::filter);
                assert(after.drop_last() =~= before);
            }
            if object.bucket == *bucket && starts_with(object.path.as_str(), prefix.as_str()) {
                paths.push(object.path.clone());
                proof {
                    assert(paths.deep_view() =~= old_paths.push(object.path@));
                }
            }
            i = i + 1;
        }
        proof {
            assert(self@.objects.take(i as int) =~= self@.objects);
        }
        Reply::Listing { pages: split_pages(paths, self.page_size) }
    }

    /// Serves one request.
    pub fn perform(&mut self, request: Request) -> (reply: Reply)
        requires
            old(self)@.well_formed(),
        ensures
            reply@ == old(self)@.answer(request@),
            final(self)@ == old(self)@.effect(request@),
            final(self)@.well_formed(),
    {
        proof {
            lemma_effect_well_formed(self@, request@);
        }
        let ghost before = self@;
        match self.mode {
            Mode::Unreachable(error) => Reply::Failed(error),
            Mode::Refusing(status) => match request {
                Request::BucketExists { bucket } => Reply::Exists(self.has_bucket(&bucket)),
                Request::ListObjects { bucket, prefix } => self.list(&bucket, &prefix),
                Request::GetObject { .. } => Reply::Object { status, data: Vec::new() },
                Request::CreateBucket { bucket } => {
                    self.creations.push(bucket);
                    assert(self@.creations =~= before.creations.push(bucket@));
                    Reply::Status(status)
                },
                _ => Reply::Status(status),
            },
            Mode::Serving => match request {
                Request::BucketExists { bucket } => Reply::Exists(self.has_bucket(&bucket)),
                Request::CreateBucket { bucket } => {
                    let exists = self.has_bucket(&bucket);
                    self.creations.push(bucket.clone());
                    assert(self@.creations =~= before.creations.push(bucket@));
                    if exists {
                        Reply::Status(STATUS_CONFLICT)
                    } else {
                        self.buckets.push(bucket);
                        assert(self@.buckets =~= before.buckets.push(bucket@));
                        Reply::Status(STATUS_OK)
                    }
                },
                Request::PutObject { bucket, path, data } => {
                    if !self.has_bucket(&bucket) {
                        return Reply::Status(STATUS_NOT_FOUND);
                    }
                    let ghost stored = ObjectModel { bucket: bucket@, path: path@, data: data@ };
                    match self.find(&bucket, &path) {
                        Some(index) => {
                            self.objects.set(index, StoredObject { bucket, path, data });
                            assert(self@.objects =~= before.objects.update(index as int, stored));
                        },
                        None => {
                            self.objects.push(StoredObject { bucket, path, data });
                            assert(self@.objects =~= before.objects.push(stored));
                        },
                    }
                    Reply::Status(STATUS_OK)
                },
                Request::GetObject { bucket, path } => match self.find(&bucket, &path) {
                    Some(index) => Reply::Object {
                        status: STATUS_OK,
                        data: self.objects[index].data.clone(),
                    },
                    None => Reply::Object { status: STATUS_NOT_FOUND, data: Vec::new() },
                },
                Request::DeleteObject { bucket, path } => {
                    let exists = self.has_bucket(&bucket);
                    match self.find(&bucket, &path) {
                        Some(index) => {
                            self.objects.remove(index);
                            assert(self@.objects =~= before.objects.remove(index as int));
                        },
                        None => {},
                    }
                    if exists {
                        Reply::Status(STATUS_NO_CONTENT)
                    } else {
                        Reply::Status(STATUS_NOT_FOUND)
                    }
                },
                Request::ListObjects { bucket, prefix } => self.list(&bucket, &prefix),
            },
        }
    }

    /// Runs an operation of `client` against the store from `step` on: sends
    /// each request to the store and hands the reply back, until the
    /// operation is finished or has failed.
    pub fn run(&mut self, client: &Client, step: Step) -> (result: Result<Completion, Error>)
        requires
            old(self)@.well_formed(),
        ensures
            final(self)@.well_formed(),
            final(self)@ == simulate(client.policy_of(), old(self)@, step@).1,
            match simulate(client.policy_of(), old(self)@, step@).0 {
                Ok(completion) => result matches Ok(done) && done@ == completion,
                Err(error) => result == Err::<Completion, Error>(error),
            },
    {
        let ghost first = step@;
        let mut current = step;
        loop
            invariant
                self@.well_formed(),
                first == step@,
                simulate(client.policy_of(), self@, current@) == simulate(
                    client.policy_of(),
                    old(self)@,
                    first,
                ),
            decreases rank(current@),
        {
            match current {
                Step::Done(completion) => {
                    return Ok(completion);
                },
                Step::Failed(error) => {
                    return Err(error);
                },
                Step::Send(operation, request) => {
                    let reply = self.perform(request);
                    current = client.advance(operation, reply);
                },
            }
        }
    }
}
} // verus!
