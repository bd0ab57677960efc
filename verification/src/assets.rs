//! The asset store seen from the cache. The store itself is a directory on
//! disk and is read and written elsewhere; here is what is decided around
//! each access: what a read that missed the cache leaves in the cache and
//! gives the caller, and what a write or a removal does to the cache. The
//! laws at the end say why the cache never serves anything but what the
//! store holds.

use crate::cache::{AssetCache, CacheView};
use crate::encoding::{payload_bytes, render, rendering};
use crate::error::{prefixed, AssetError, AssetFailure};
use vstd::prelude::*;

verus! {

/// What reading an asset from the store gave.
#[derive(Debug, Clone, PartialEq, Eq)]
pub enum ReadOutcome {
    /// The asset's bytes.
    Found(Vec<u8>),
    /// There is no such asset.
    Missing,
    /// The store failed; this holds its message.
    Failed(String),
}

/// The model of a `ReadOutcome`.
pub enum ReadView {
    Found(Seq<u8>),
    Missing,
    Failed(Seq<char>),
}

impl View for ReadOutcome {
    type V = ReadView;

    open spec fn view(&self) -> ReadView {
        match self {
            ReadOutcome::Found(bytes) => ReadView::Found(bytes@),
            ReadOutcome::Missing => ReadView::Missing,
            ReadOutcome::Failed(detail) => ReadView::Failed(detail@),
        }
    }
}

/// The step of a save at which the store failed, with the store's message.
#[derive(Debug, Clone, PartialEq, Eq)]
pub enum SaveFailure {
    /// The directory of the assets could not be made.
    Directory(String),
    /// The file could not be written.
    Write(String),
}

/// The model of a `SaveFailure`.
pub enum SaveFailureView {
    Directory(Seq<char>),
    Write(Seq<char>),
}

impl View for SaveFailure {
    type V = SaveFailureView;

    open spec fn view(&self) -> SaveFailureView {
        match self {
            SaveFailure::Directory(detail) => SaveFailureView::Directory(detail@),
            SaveFailure::Write(detail) => SaveFailureView::Write(detail@),
        }
    }
}

/// Where the asset called `name` lies, relative to the directory that the
/// application owns.
pub open spec fn location(name: Seq<char>) -> Seq<char> {
    "images/"@ + name
}

/// Where the asset called `name` lies, relative to the directory that the
/// application owns.
pub fn asset_location(name: &str) -> (path: String)
    ensures
        path@ == location(name@),
{
    prefixed("images/", name)
}

/// The answer of an operation as a value of the model.
pub open spec fn answer_view(
    answer: Result<String, AssetError>,
) -> Result<Seq<char>, AssetFailure> {
    match answer {
        Ok(text) => Ok(text@),
        Err(error) => Err(error@),
    }
}

/// The message for a read that the store failed.
pub open spec fn read_failure_text(detail: Seq<char>) -> Seq<char> {
    "Failed to read image file: "@ + detail
}

/// The message for a save that the store failed.
pub open spec fn save_failure_text(failure: SaveFailureView) -> Seq<char> {
    match failure {
        SaveFailureView::Directory(detail) => "Failed to create images directory: "@ + detail,
        SaveFailureView::Write(detail) => "Failed to write image file: "@ + detail,
    }
}

/// The message for a removal that the store failed.
pub open spec fn delete_failure_text(detail: Seq<char>) -> Seq<char> {
    "Failed to delete image file: "@ + detail
}

/// What the caller gets for `name` once the store was read: the encoded
/// representation of what was found, or the failure.
pub open spec fn read_answer(name: Seq<char>, read: ReadView) -> Result<Seq<char>, AssetFailure> {
    match read {
        ReadView::Found(bytes) => Ok(rendering(name, bytes)),
        ReadView::Missing => Err(AssetFailure::NotFound(name)),
        ReadView::Failed(detail) => Err(AssetFailure::Io(read_failure_text(detail))),
    }
}

/// The cache once the store was read for `name`: what was found is stored,
/// a failure leaves the cache as it was.
pub open spec fn after_read(cache: CacheView, name: Seq<char>, read: ReadView) -> CacheView {
    match read {
        ReadView::Found(bytes) => cache.stored(name, rendering(name, bytes)),
        _ => cache,
    }
}

/// Completes a read of `name` that missed the cache, with what the store
/// gave. Bytes that were found are encoded, stored in the cache and handed
/// out, and decoding the payload of what is handed out gives those bytes
/// back. A missing asset and a failure of the store are reported and leave
/// the cache as it was.
pub fn finish_get(
    cache: &mut AssetCache,
    name: &str,
    read: ReadOutcome,
) -> (answer: Result<String, AssetError>)
    ensures
        final(cache)@ == after_read(old(cache)@, name@, read@),
        final(cache)@.wf(),
        answer_view(answer) == read_answer(name@, read@),
        match (answer, read) {
            (Ok(url), ReadOutcome::Found(bytes)) => payload_bytes(url@) == Some(bytes@),
            _ => true,
        },
{
    proof {
        use_type_invariant(&*cache);
    }
    match read {
        ReadOutcome::Found(bytes) => {
            let url = render(name, bytes.as_slice());
            cache.store(name, url.clone());
            Ok(url)
        },
        ReadOutcome::Missing => Err(AssetError::NotFound(name.to_owned())),
        ReadOutcome::Failed(detail) => Err(
            AssetError::Io(prefixed("Failed to read image file: ", detail.as_str())),
        ),
    }
}

/// What the caller gets for a save: the path that was written, or the
/// failure of the store.
pub open spec fn save_answer(
    written: Result<String, SaveFailure>,
) -> Result<Seq<char>, AssetFailure> {
    match written {
        Ok(path) => Ok(path@),
        Err(failure) => Err(AssetFailure::Io(save_failure_text(failure@))),
    }
}

/// Completes a save of `name`, with what the store gave. Whatever the store
/// gave, the cache no longer holds an entry for `name`.
pub fn finish_save(
    cache: &mut AssetCache,
    name: &str,
    written: Result<String, SaveFailure>,
) -> (answer: Result<String, AssetError>)
    ensures
        final(cache)@ == old(cache)@.without(name@),
        final(cache)@.wf(),
        answer_view(answer) == save_answer(written),
{
    cache.invalidate(name);
    match written {
        Ok(path) => Ok(path),
        Err(SaveFailure::Directory(detail)) => Err(
            AssetError::Io(prefixed("Failed to create images directory: ", detail.as_str())),
        ),
        Err(SaveFailure::Write(detail)) => Err(
            AssetError::Io(prefixed("Failed to write image file: ", detail.as_str())),
        ),
    }
}

/// Completes a removal of `name`, with what the store gave: nothing where
/// the file is gone or never was there, else the store's message. Whatever
/// the store gave, the cache no longer holds an entry for `name`.
pub fn finish_delete(
    cache: &mut AssetCache,
    name: &str,
    removed: Result<(), String>,
) -> (answer: Result<(), AssetError>)
    ensures
        final(cache)@ == old(cache)@.without(name@),
        final(cache)@.wf(),
        match (answer, removed) {
            (Ok(_), Ok(_)) => true,
            (Err(error), Err(detail)) => error@ == AssetFailure::Io(delete_failure_text(detail@)),
            _ => false,
        },
{
    cache.invalidate(name);
    match removed {
        Ok(_) => Ok(()),
        Err(detail) => Err(
            AssetError::Io(prefixed("Failed to delete image file: ", detail.as_str())),
        ),
    }
}

/// The store as the laws see it: the bytes kept under each name.
pub type StoreView = Map<Seq<char>, Seq<u8>>;

/// What reading `name` gives from a store that does not fail.
pub open spec fn read_of(store: StoreView, name: Seq<char>) -> ReadView {
    if store.contains_key(name) {
        ReadView::Found(store[name])
    } else {
        ReadView::Missing
    }
}

/// A request for `name`: the cache after it, and the answer. A name that is
/// cached is answered from the cache, any other from the store.
pub open spec fn get(
    cache: CacheView,
    store: StoreView,
    name: Seq<char>,
) -> (CacheView, Result<Seq<char>, AssetFailure>) {
    match cache.lookup(name) {
        Some(url) => (cache, Ok(url)),
        None => (after_read(cache, name, read_of(store, name)), read_answer(
            name,
            read_of(store, name),
        )),
    }
}

/// A save of `bytes` under `name` that the store carried out: the cache and
/// the store after it.
pub open spec fn save(
    cache: CacheView,
    store: StoreView,
    name: Seq<char>,
    bytes: Seq<u8>,
) -> (CacheView, StoreView) {
    (cache.without(name), store.insert(name, bytes))
}

/// A removal of `name` that the store carried out: the cache and the store
/// after it.
pub open spec fn delete(
    cache: CacheView,
    store: StoreView,
    name: Seq<char>,
) -> (CacheView, StoreView) {
    (cache.without(name), store.remove(name))
}

/// Every entry of the cache is the encoded representation of what the store
/// holds under the entry's name.
pub open spec fn coherent(cache: CacheView, store: StoreView) -> bool {
    forall|i: int|
        0 <= i < cache.entries.len() ==> store.contains_key(#[trigger] cache.entries[i].0)
            && cache.entries[i].1 == rendering(cache.entries[i].0, store[cache.entries[i].0])
}

/// After a save of `bytes` under `name`, a request for `name` is answered
/// with the encoded representation of `bytes`, whatever the cache held
/// before.
pub proof fn lemma_get_after_save(
    cache: CacheView,
    store: StoreView,
    name: Seq<char>,
    bytes: Seq<u8>,
)
    requires
        cache.wf(),
    ensures
        ({
            let (cache1, store1) = save(cache, store, name, bytes);
            get(cache1, store1, name).1 == Ok::<Seq<char>, AssetFailure>(rendering(name, bytes))
        }),
{
    cache.lemma_without(name, name);
}

/// Where the cache holds the encoded representation of earlier content of
/// `name`, a save of `bytes` under `name` makes the next request for `name`
/// give the encoded representation of `bytes`, not the cached one.
pub proof fn lemma_get_after_resave(
    cache: CacheView,
    store: StoreView,
    name: Seq<char>,
    earlier: Seq<u8>,
    bytes: Seq<u8>,
)
    requires
        cache.wf(),
        cache.lookup(name) == Some(rendering(name, earlier)),
    ensures
        ({
            let (cache1, store1) = save(cache, store, name, bytes);
            &&& cache1.lookup(name) is None
            &&& get(cache1, store1, name).1 == Ok::<Seq<char>, AssetFailure>(
                rendering(name, bytes),
            )
            &&& get(cache1, store1, name).0.lookup(name) == Some(rendering(name, bytes))
        }),
{
    cache.lemma_without(name, name);
    cache.without(name).lemma_lookup_stored(name, rendering(name, bytes));
}

/// After a removal of `name`, a request for `name` is answered with "not
/// found", also where the cache held an entry for it, and nothing is cached.
pub proof fn lemma_get_after_delete(cache: CacheView, store: StoreView, name: Seq<char>)
    requires
        cache.wf(),
    ensures
        ({
            let (cache1, store1) = delete(cache, store, name);
            &&& get(cache1, store1, name).1 == Err::<Seq<char>, AssetFailure>(
                AssetFailure::NotFound(name),
            )
            &&& get(cache1, store1, name).0 == cache1
            &&& cache1.lookup(name) is None
        }),
{
    cache.lemma_without(name, name);
}

/// A cache that is coherent with the store answers every request as the
/// store would: with the encoded representation of what the store holds now,
/// or with "not found".
pub proof fn lemma_get_serves_store(cache: CacheView, store: StoreView, name: Seq<char>)
    requires
        cache.wf(),
        coherent(cache, store),
    ensures
        get(cache, store, name).1 == read_answer(name, read_of(store, name)),
{
    if cache.contains(name) {
        let at = cache.position(name);
        assert(cache.holds_at(name, at));
        assert(store.contains_key(cache.entries[at].0));
    }
}

/// Requests, saves and removals keep the cache well-formed and coherent
/// with the store.
pub proof fn lemma_coherence_is_kept(
    cache: CacheView,
    store: StoreView,
    name: Seq<char>,
    bytes: Seq<u8>,
)
    requires
        cache.wf(),
        coherent(cache, store),
    ensures
        get(cache, store, name).0.wf(),
        coherent(get(cache, store, name).0, store),
        save(cache, store, name, bytes).0.wf(),
        coherent(save(cache, store, name, bytes).0, save(cache, store, name, bytes).1),
        delete(cache, store, name).0.wf(),
        coherent(delete(cache, store, name).0, delete(cache, store, name).1),
{
    cache.lemma_without(name, name);
    let dropped = cache.without(name);
    assert(coherent(dropped, store.insert(name, bytes)) && coherent(dropped, store.remove(name)))
        by {
        assert forall|i: int| 0 <= i < dropped.entries.len() implies dropped.entries[i].0 != name
            && exists|k: int| 0 <= k < cache.entries.len() && cache.entries[k]
            == dropped.entries[i] by {
            if dropped.holds_at(name, i) {
                assert(dropped.contains(name));
            }
            if cache.contains(name) {
                let at = cache.position(name);
                let k = if i < at {
                    i
                } else {
                    i + 1
                };
                assert(cache.entries[k] == dropped.entries[i]);
            } else {
                assert(cache.entries[i] == dropped.entries[i]);
            }
        }
        assert forall|i: int| 0 <= i < dropped.entries.len() implies store.contains_key(
            #[trigger] dropped.entries[i].0,
        ) && dropped.entries[i].1 == rendering(
            dropped.entries[i].0,
            store[dropped.entries[i].0],
        ) by {
            let k = choose|k: int|
                0 <= k < cache.entries.len() && cache.entries[k] == dropped.entries[i];
            assert(store.contains_key(cache.entries[k].0));
        }
    }
    if cache.lookup(name) is None && store.contains_key(name) {
        let value = rendering(name, store[name]);
        cache.lemma_stored_wf(name, value);
        let grown = cache.stored(name, value);
        let shift: int = if cache.entries.len() < cache.capacity {
            0
        } else {
            cache.batch as int
        };
        assert forall|i: int| 0 <= i < grown.entries.len() implies store.contains_key(
            #[trigger] grown.entries[i].0,
        ) && grown.entries[i].1 == rendering(grown.entries[i].0, store[grown.entries[i].0]) by {
            if i < grown.entries.len() - 1 {
                assert(grown.entries[i] == cache.entries[i + shift]);
                assert(store.contains_key(cache.entries[i + shift].0));
            }
        }
    }
}

} // verus!
