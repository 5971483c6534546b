//! What holds of the client's operations when they are run against a store.
//!
//! Each statement is about `simulate`, which `MemoryStore::run` computes: the
//! outcome of an operation and the store it leaves behind.

use crate::encoding::{encoded, key_of, lemma_round_trip, Codec, MAX_PAYLOAD_LEN};
use crate::memory::{lemma_count, lemma_effect_well_formed, lemma_paged, lemma_paths, simulate};
use crate::memory::{Mode, ObjectModel, StoreModel};
use crate::s3::{delete_step, download_step, ensure_bucket_step, list_step, upload_step};
use crate::s3::{lemma_distinct_of_no_duplicates, object_path, CompletionView, Error, OutcomeView};
use crate::s3::{ReplyView, RequestView, StatusPolicy, StorageError, STATUS_OK};
use vstd::prelude::*;

verus! {

/// What a served upload leaves behind: the store after an object has been
/// written at `path` in a bucket that is created where it is missing.
pub open spec fn with_object(
    store: StoreModel,
    bucket: Seq<char>,
    path: Seq<char>,
    data: Seq<u8>,
) -> StoreModel {
    let ensured = if store.has_bucket(bucket) {
        store
    } else {
        store.effect(RequestView::CreateBucket { bucket })
    };
    ensured.effect(RequestView::PutObject { bucket, path, data })
}

/// Bucket auto-creation. Against a store that serves requests and lacks the
/// bucket, making sure of the bucket, with creation, sends one creation
/// request and creates it. Doing so again finds the bucket and sends no
/// creation request: the store stays as it is.
pub proof fn lemma_bucket_created_once(policy: StatusPolicy, store: StoreModel, name: Seq<char>)
    requires
        store.well_formed(),
        store.mode == Mode::Serving,
        !store.has_bucket(name),
    ensures
        ({
            let step = ensure_bucket_step(name, true);
            let first = simulate(policy, store, step);
            let second = simulate(policy, first.1, step);
            &&& first.0 == Ok::<CompletionView, Error>(
                CompletionView {
                    outcome: OutcomeView::Bucket { created: true },
                    warnings: Seq::empty(),
                },
            )
            &&& first.1 == (StoreModel {
                buckets: store.buckets.push(name),
                creations: store.creations.push(name),
                ..store
            })
            &&& first.1.has_bucket(name)
            &&& second.0 == Ok::<CompletionView, Error>(
                CompletionView {
                    outcome: OutcomeView::Bucket { created: false },
                    warnings: Seq::empty(),
                },
            )
            &&& second.1 == first.1
        }),
{
    reveal_with_fuel(simulate, 4);
    let created = StoreModel {
        buckets: store.buckets.push(name),
        creations: store.creations.push(name),
        ..store
    };
    assert(created.buckets[store.buckets.len() as int] == name);
}

/// A bucket that exists is never created: whatever the store holds and
/// however it treats requests, making sure of a bucket that exists sends no
/// creation request and leaves the store as it is.
pub proof fn lemma_existing_bucket_kept(
    policy: StatusPolicy,
    store: StoreModel,
    name: Seq<char>,
    create_if_missing: bool,
)
    requires
        store.has_bucket(name),
    ensures
        simulate(policy, store, ensure_bucket_step(name, create_if_missing)).1 == store,
{
    reveal_with_fuel(simulate, 4);
}

/// An upload against a store that serves requests stores the encoded chunk
/// under its content key, creating the bucket where it is missing.
pub proof fn lemma_upload_stores(
    policy: StatusPolicy,
    store: StoreModel,
    payload: Seq<u8>,
    bucket: Seq<char>,
    prefix: Seq<char>,
    codec: Codec,
)
    requires
        store.well_formed(),
        store.mode == Mode::Serving,
        payload.len() <= MAX_PAYLOAD_LEN,
    ensures
        ({
            let path = object_path(prefix, key_of(payload, codec));
            let done = simulate(policy, store, upload_step(payload, bucket, prefix, codec));
            &&& done.0 == Ok::<CompletionView, Error>(
                CompletionView { outcome: OutcomeView::Uploaded { path }, warnings: Seq::empty() },
            )
            &&& done.1 == with_object(store, bucket, path, encoded(payload, codec))
            &&& done.1.well_formed()
            &&& done.1.mode == Mode::Serving
            &&& done.1.has_bucket(bucket)
            &&& done.1.holds(bucket, path)
            &&& done.1.objects[done.1.position(bucket, path)].data == encoded(payload, codec)
        }),
{
    reveal_with_fuel(simulate, 4);
    let path = object_path(prefix, key_of(payload, codec));
    let data = encoded(payload, codec);
    let ensured = if store.has_bucket(bucket) {
        store
    } else {
        store.effect(RequestView::CreateBucket { bucket })
    };
    lemma_effect_well_formed(store, RequestView::CreateBucket { bucket });
    if !store.has_bucket(bucket) {
        assert(ensured.buckets[store.buckets.len() as int] == bucket);
    }
    let put = RequestView::PutObject { bucket, path, data };
    lemma_effect_well_formed(ensured, put);
    let after = ensured.effect(put);
    if ensured.holds(bucket, path) {
        let at = ensured.position(bucket, path);
        assert(after.is_at(at, bucket, path));
    } else {
        assert(after.is_at(ensured.objects.len() as int, bucket, path));
    }
}

/// Idempotent upload. Uploading the same payload under the same codec twice
/// to the same destination leaves the store as the first upload left it,
/// with exactly one object under the derived key, and a listing of the
/// destination prefix holds that key exactly once.
pub proof fn lemma_upload_idempotent(
    policy: StatusPolicy,
    store: StoreModel,
    payload: Seq<u8>,
    bucket: Seq<char>,
    prefix: Seq<char>,
    codec: Codec,
)
    requires
        store.well_formed(),
        store.mode == Mode::Serving,
        payload.len() <= MAX_PAYLOAD_LEN,
    ensures
        ({
            let step = upload_step(payload, bucket, prefix, codec);
            let path = object_path(prefix, key_of(payload, codec));
            let first = simulate(policy, store, step);
            let second = simulate(policy, first.1, step);
            let listed = simulate(policy, second.1, list_step(bucket, prefix));
            &&& second.0 == first.0
            &&& second.1 == first.1
            &&& second.1.count(bucket, path) == 1
            &&& listed.1 == second.1
            &&& listed.0 matches Ok(completion)
            &&& completion.outcome matches OutcomeView::Listed { paths }
            &&& paths.contains(path)
            &&& paths.no_duplicates()
        }),
{
    let step = upload_step(payload, bucket, prefix, codec);
    let path = object_path(prefix, key_of(payload, codec));
    let data = encoded(payload, codec);
    lemma_upload_stores(policy, store, payload, bucket, prefix, codec);
    let first = simulate(policy, store, step);
    lemma_upload_stores(policy, first.1, payload, bucket, prefix, codec);
    let second = simulate(policy, first.1, step);
    let at = first.1.position(bucket, path);
    assert(first.1.objects.update(at, ObjectModel { bucket, path, data }) =~= first.1.objects);
    lemma_count(second.1.objects, bucket, path);
    lemma_listing_complete(policy, second.1, bucket, prefix);
}

/// Listing completeness. Whatever the page size, and so also where more
/// objects lie under the prefix than fit in one page and the store answers
/// with several pages, the listing holds every stored path under the prefix
/// once and nothing else, and leaves the store as it is.
pub proof fn lemma_listing_complete(
    policy: StatusPolicy,
    store: StoreModel,
    bucket: Seq<char>,
    prefix: Seq<char>,
)
    requires
        store.well_formed(),
        store.has_bucket(bucket),
        !(store.mode is Unreachable),
    ensures
        ({
            let listed = simulate(policy, store, list_step(bucket, prefix));
            let paths = store.paths(bucket, prefix);
            &&& listed.1 == store
            &&& listed.0 == Ok::<CompletionView, Error>(
                CompletionView { outcome: OutcomeView::Listed { paths }, warnings: Seq::empty() },
            )
            &&& paths.no_duplicates()
            &&& forall|path: Seq<char>|
                paths.contains(path) <==> (prefix.is_prefix_of(path) && store.holds(bucket, path))
            &&& paths.len() > store.page_size ==> (store.answer(
                RequestView::ListObjects { bucket, prefix },
            ) matches ReplyView::Listing { pages } && pages.len() > 1)
        }),
{
    reveal_with_fuel(simulate, 2);
    let paths = store.paths(bucket, prefix);
    lemma_paths(store.objects, bucket, prefix);
    lemma_paged(paths, store.page_size);
    lemma_distinct_of_no_duplicates(paths);
    assert forall|path: Seq<char>|
        paths.contains(path) <==> (prefix.is_prefix_of(path) && store.holds(bucket, path)) by {
        if paths.contains(path) {
            let i = choose|i: int|
                0 <= i < store.objects.len() && #[trigger] store.objects[i].bucket == bucket
                    && store.objects[i].path == path;
            assert(store.is_at(i, bucket, path));
        }
    }
}

/// A chunk that was uploaded is downloaded again: against a store that
/// serves requests, a download at the path of an upload, under the same
/// codec, yields the payload that was uploaded.
pub proof fn lemma_download_returns_upload(
    policy: StatusPolicy,
    store: StoreModel,
    payload: Seq<u8>,
    bucket: Seq<char>,
    prefix: Seq<char>,
    codec: Codec,
)
    requires
        store.well_formed(),
        store.mode == Mode::Serving,
        payload.len() <= MAX_PAYLOAD_LEN,
    ensures
        ({
            let path = object_path(prefix, key_of(payload, codec));
            let stored = simulate(policy, store, upload_step(payload, bucket, prefix, codec)).1;
            let fetched = simulate(policy, stored, download_step(bucket, path, codec));
            &&& fetched.1 == stored
            &&& fetched.0 == Ok::<CompletionView, Error>(
                CompletionView {
                    outcome: OutcomeView::Downloaded { payload },
                    warnings: Seq::empty(),
                },
            )
        }),
{
    reveal_with_fuel(simulate, 2);
    lemma_upload_stores(policy, store, payload, bucket, prefix, codec);
    lemma_round_trip(payload, codec);
}

/// Removal is idempotent: against a store that serves requests, removing an
/// object succeeds whether or not the object is there, and afterwards it is
/// not there.
pub proof fn lemma_delete_idempotent(
    policy: StatusPolicy,
    store: StoreModel,
    bucket: Seq<char>,
    path: Seq<char>,
)
    requires
        store.well_formed(),
        store.mode == Mode::Serving,
    ensures
        ({
            let step = delete_step(bucket, path);
            let gone = CompletionView { outcome: OutcomeView::Deleted, warnings: Seq::empty() };
            let first = simulate(policy, store, step);
            let second = simulate(policy, first.1, step);
            &&& first.0 == Ok::<CompletionView, Error>(gone)
            &&& !first.1.holds(bucket, path)
            &&& !store.holds(bucket, path) ==> first.1 == store
            &&& second.0 == Ok::<CompletionView, Error>(gone)
            &&& second.1 == first.1
        }),
{
    reveal_with_fuel(simulate, 2);
}

/// The status policy decides. Where the store refuses requests with a
/// status that confirms nothing, an upload fails with that status under the
/// strict policy; under the lenient policy it goes on to the end and
/// succeeds, with the status among its warnings, and every warning is that
/// status. Either way the store keeps its objects.
pub proof fn lemma_status_policy_decides(
    store: StoreModel,
    payload: Seq<u8>,
    bucket: Seq<char>,
    prefix: Seq<char>,
    codec: Codec,
    status: u16,
)
    requires
        store.mode == Mode::Refusing(status),
        status != STATUS_OK,
        payload.len() <= MAX_PAYLOAD_LEN,
    ensures
        ({
            let step = upload_step(payload, bucket, prefix, codec);
            let path = object_path(prefix, key_of(payload, codec));
            let strict = simulate(StatusPolicy::Strict, store, step);
            let lenient = simulate(StatusPolicy::Lenient, store, step);
            &&& strict.0 == Err::<CompletionView, Error>(
                Error::Storage(StorageError::Status(status)),
            )
            &&& strict.1.objects == store.objects
            &&& lenient.0 matches Ok(completion)
            &&& completion.outcome == (OutcomeView::Uploaded { path })
            &&& completion.warnings.len() > 0
            &&& forall|i: int|
                0 <= i < completion.warnings.len() ==> completion.warnings[i] == status
            &&& lenient.1.objects == store.objects
        }),
{
    reveal_with_fuel(simulate, 4);
}

} // verus!
