//! The image cache: which address is stored in which file, and which
//! addresses are being fetched.
//!
//! The cache itself touches neither the network nor the disk. It decides
//! whether a fetch has to start, names the file that holds an image, and
//! records the images that were stored.

use vstd::prelude::*;
use vstd::string::StringExecFns;
use vstd::utf8::encode_utf8;
use crate::extract::text_views;
use crate::scan::{first_where, lemma_first_where_is, lemma_first_where_none};
use crate::text::{find_last, from_chars, is_last_position, last_position, to_chars};

verus! {

/// The extension of a file whose address shows none.
pub const DEFAULT_EXTENSION: &'static str = "jpg";

/// The MD5 digest of `data`, as 32 lower-case hexadecimal digits.
pub uninterp spec fn md5_hex(data: Seq<u8>) -> Seq<char>;

/// The character is a hexadecimal digit, with small letters.
pub open spec fn is_lower_hex(c: char) -> bool {
    ('0' <= c && c <= '9') || ('a' <= c && c <= 'f')
}

/// The text holds no `/`: it names one entry of a directory.
pub open spec fn is_one_component(name: Seq<char>) -> bool {
    forall|i: int| 0 <= i < name.len() ==> name[i] != '/'
}

/// Computes the digest with `md5::compute` and writes it with the `LowerHex`
/// format of `md5::Digest`, which writes each of the 16 bytes of a digest
/// as two hexadecimal digits with small letters. The contract names the
/// outcome, `md5_hex` of the bytes, and says that it is 32 such digits.
#[verifier::external_body]
fn md5_hex_digest(data: &[u8]) -> (hex: String)
    ensures
        hex@ == md5_hex(data@),
        hex@.len() == 32,
        forall|i: int| 0 <= i < hex@.len() ==> is_lower_hex(#[trigger] hex@[i]),
{
    format!("{:x}", md5::compute(data))
}

/// The path of an address ends at `at`: a query or a fragment begins there.
pub open spec fn ends_path(url: Seq<char>, at: int) -> bool {
    0 <= at < url.len() && (url[at] == '?' || url[at] == '#')
}

/// The path of an address: what stands before its first `?` or `#`.
pub open spec fn path_of(url: Seq<char>) -> Seq<char> {
    match first_where(|at: int| ends_path(url, at), 0, url.len() as int) {
        Some(at) => url.subrange(0, at),
        None => url,
    }
}

/// The trailing segment of the path of an address: what follows the last
/// `/` of the path, or the whole path if it has none.
pub open spec fn trailing_segment(url: Seq<char>) -> Seq<char> {
    let path = path_of(url);
    match last_position(path, '/') {
        Some(at) => path.subrange(at + 1, path.len() as int),
        None => path,
    }
}

/// The extension that an address shows: what follows the last `.` of the
/// trailing segment of its path, or `DEFAULT_EXTENSION` where nothing does.
pub open spec fn extension_of(url: Seq<char>) -> Seq<char> {
    let segment = trailing_segment(url);
    match last_position(segment, '.') {
        Some(at) => if at + 1 < segment.len() {
            segment.subrange(at + 1, segment.len() as int)
        } else {
            DEFAULT_EXTENSION@
        },
        None => DEFAULT_EXTENSION@,
    }
}

/// The name of the file that holds the image of an address: the digest of
/// the address, a dot and the extension.
pub open spec fn file_name_of(url: Seq<char>) -> Seq<char> {
    md5_hex(encode_utf8(url)) + seq!['.'] + extension_of(url)
}

/// The path of the file that holds the image of an address.
pub open spec fn file_path_of(cache_dir: Seq<char>, url: Seq<char>) -> Seq<char> {
    cache_dir + seq!['/'] + file_name_of(url)
}

/// Finds where the path of an address ends.
pub fn path_length(url: &[char]) -> (length: usize)
    ensures
        length <= url@.len(),
        url@.subrange(0, length as int) == path_of(url@),
{
    let ghost holds = |at: int| ends_path(url@, at);
    let mut at: usize = 0;
    while at < url.len()
        invariant
            at <= url@.len(),
            holds == |at: int| ends_path(url@, at),
            forall|earlier: int| 0 <= earlier < at ==> !#[trigger] holds(earlier),
        decreases url.len() - at,
    {
        if url[at] == '?' || url[at] == '#' {
            proof {
                lemma_first_where_is(holds, 0, url@.len() as int, at as int);
            }
            return at;
        }
        at += 1;
    }
    proof {
        lemma_first_where_none(holds, 0, url@.len() as int);
        assert(url@.subrange(0, url@.len() as int) =~= url@);
    }
    at
}

/// Infers the extension of the file from the address of the image.
pub fn infer_extension(url: &str) -> (extension: String)
    ensures
        extension@ == extension_of(url@),
        is_one_component(extension@),
{
    let chars = to_chars(url);
    let length = path_length(chars.as_slice());
    let path = vstd::slice::slice_subrange(chars.as_slice(), 0, length);
    let start: usize = match find_last(path, '/') {
        Some(at) => at + 1,
        None => 0,
    };
    let segment = vstd::slice::slice_subrange(path, start, length);
    assert(segment@ == trailing_segment(url@));
    assert(is_one_component(segment@)) by {
        assert forall|i: int| 0 <= i < segment@.len() implies segment@[i] != '/' by {
            assert(segment@[i] == path@[start + i]);
            if start == 0 && path@[i] == '/' {
                assert(path@.contains('/'));
            }
        }
    }
    proof {
        reveal_strlit("jpg");
    }
    match find_last(segment, '.') {
        Some(at) => {
            if at + 1 < segment.len() {
                let kept = vstd::slice::slice_subrange(segment, at + 1, segment.len());
                assert forall|i: int| 0 <= i < kept@.len() implies kept@[i] != '/' by {
                    assert(kept@[i] == segment@[at + 1 + i]);
                }
                from_chars(kept)
            } else {
                String::from_str(DEFAULT_EXTENSION)
            }
        },
        None => String::from_str(DEFAULT_EXTENSION),
    }
}

/// Derives the name of the file that holds the image of an address. The
/// name is that of one entry of a directory.
pub fn file_name(url: &str) -> (name: String)
    ensures
        name@ == file_name_of(url@),
        is_one_component(name@),
{
    let mut name = md5_hex_digest(url.as_bytes());
    let extension = infer_extension(url);
    proof {
        reveal_strlit(".");
        assert("."@ =~= seq!['.']);
    }
    let ghost hex = name@;
    name.append(".");
    name.append(extension.as_str());
    assert forall|i: int| 0 <= i < name@.len() implies name@[i] != '/' by {
        if i < 32 {
            assert(name@[i] == hex[i]);
            assert(is_lower_hex(hex[i]));
        } else if i > 32 {
            assert(name@[i] == extension@[i - 33]);
        }
    }
    name
}

/// Derives the path of the file that holds the image of an address. The
/// file lies in the cache directory itself: the last `/` of the path is
/// the one behind the directory.
pub fn file_path(cache_dir: &str, url: &str) -> (path: String)
    ensures
        path@ == file_path_of(cache_dir@, url@),
        is_last_position(path@, '/', cache_dir@.len() as int),
{
    let mut path = String::from_str(cache_dir);
    let name = file_name(url);
    proof {
        reveal_strlit("/");
        assert("/"@ =~= seq!['/']);
    }
    path.append("/");
    path.append(name.as_str());
    assert(path@ =~= file_path_of(cache_dir@, url@));
    assert forall|later: int| cache_dir@.len() < later < path@.len() implies path@[later]
        != '/' by {
        assert(path@[later] == name@[later - cache_dir@.len() - 1]);
    }
    path
}

/// One stored image.
#[derive(Debug)]
pub struct CacheEntry {
    /// The address the image was fetched from; the key of the entry.
    pub url: String,
    /// The file that holds the image.
    pub local_path: String,
    /// The size of the image in bytes.
    pub size_bytes: usize,
}

/// What the cache knows of one stored image.
pub struct EntryModel {
    pub local_path: Seq<char>,
    pub size_bytes: int,
}

/// What a request for an image comes to.
#[derive(Clone, Copy, Debug, PartialEq, Eq, Structural)]
pub enum FetchDecision {
    /// Nothing is known of the address: it is now marked as being fetched,
    /// and the caller starts the one fetch.
    StartFetch,
    /// A fetch of the address is under way: nothing is to be done.
    AlreadyPending,
    /// The image is stored: nothing is to be done.
    AlreadyCached,
}

/// How the fetch of one image ended.
#[derive(Clone, Copy, Debug, PartialEq, Eq, Structural)]
pub enum FetchOutcome {
    /// The image was fetched and its file written.
    Stored { size_bytes: usize },
    /// The transport failed or the server answered with no success.
    FetchFailed,
    /// The image was fetched but its file could not be written.
    StorageFailed,
}

/// The kinds of failure that an image can meet with.
#[derive(Clone, Copy, Debug, PartialEq, Eq, Structural)]
pub enum ImageFailure {
    /// The image could not be fetched.
    Fetch,
    /// The image could not be written to its file.
    Storage,
    /// The stored bytes are no image that can be shown.
    Decode,
}

/// What is told of an image that could not be fetched.
pub const FETCH_FAILED: &'static str = "下载图片失败";

/// What is told of an image that could not be written to its file.
pub const STORAGE_FAILED: &'static str = "缓存图片失败";

/// What is told of an image whose bytes cannot be shown.
pub const DECODE_FAILED: &'static str = "图片解码失败";

impl ImageFailure {
    /// Tells of the failure in words.
    pub fn describe(&self) -> (text: &'static str)
        ensures
            text@ == match self {
                ImageFailure::Fetch => FETCH_FAILED@,
                ImageFailure::Storage => STORAGE_FAILED@,
                ImageFailure::Decode => DECODE_FAILED@,
            },
    {
        match self {
            ImageFailure::Fetch => FETCH_FAILED,
            ImageFailure::Storage => STORAGE_FAILED,
            ImageFailure::Decode => DECODE_FAILED,
        }
    }
}

/// The state of the cache: the directory of its files, the stored images by
/// their addresses, and the addresses that are being fetched.
pub struct CacheModel {
    pub cache_dir: Seq<char>,
    pub entries: Map<Seq<char>, EntryModel>,
    pub pending: Set<Seq<char>>,
}

impl CacheModel {
    /// The cache with which a run begins: nothing stored, nothing under way.
    pub open spec fn empty(cache_dir: Seq<char>) -> CacheModel {
        CacheModel { cache_dir, entries: Map::empty(), pending: Set::empty() }
    }

    /// The file of an address, if its image is stored.
    pub open spec fn lookup(self, url: Seq<char>) -> Option<Seq<char>> {
        if self.entries.contains_key(url) {
            Some(self.entries[url].local_path)
        } else {
            None
        }
    }

    /// What a request for the image of `url` comes to.
    pub open spec fn decision(self, url: Seq<char>) -> FetchDecision {
        if self.entries.contains_key(url) {
            FetchDecision::AlreadyCached
        } else if self.pending.contains(url) {
            FetchDecision::AlreadyPending
        } else {
            FetchDecision::StartFetch
        }
    }

    /// The cache after a request for the image of `url`.
    pub open spec fn ensure_fetched(self, url: Seq<char>) -> CacheModel {
        if self.decision(url) == FetchDecision::StartFetch {
            CacheModel { pending: self.pending.insert(url), ..self }
        } else {
            self
        }
    }

    /// The cache after the image of `url` was stored.
    pub open spec fn store(self, url: Seq<char>, size_bytes: int) -> CacheModel {
        CacheModel {
            entries: self.entries.insert(
                url,
                EntryModel { local_path: file_path_of(self.cache_dir, url), size_bytes },
            ),
            pending: self.pending.remove(url),
            ..self
        }
    }

    /// The cache after the fetch of `url` was given up.
    pub open spec fn abandon(self, url: Seq<char>) -> CacheModel {
        CacheModel { pending: self.pending.remove(url), ..self }
    }

    /// The cache after the fetch of `url` ended in `outcome`.
    pub open spec fn complete(self, url: Seq<char>, outcome: FetchOutcome) -> CacheModel {
        match outcome {
            FetchOutcome::Stored { size_bytes } => self.store(url, size_bytes as int),
            _ => self.abandon(url),
        }
    }
}

/// One step in the life of a cache.
pub enum CacheEvent {
    /// The image of `url` was asked for.
    Requested { url: Seq<char> },
    /// The image of `url` was stored.
    Stored { url: Seq<char>, size_bytes: int },
    /// The fetch of `url` was given up.
    Abandoned { url: Seq<char> },
}

/// The cache after one more step.
pub open spec fn after_event(model: CacheModel, event: CacheEvent) -> CacheModel {
    match event {
        CacheEvent::Requested { url } => model.ensure_fetched(url),
        CacheEvent::Stored { url, size_bytes } => model.store(url, size_bytes),
        CacheEvent::Abandoned { url } => model.abandon(url),
    }
}

/// The cache of a run in which the given steps were taken, in their order.
pub open spec fn after_events(cache_dir: Seq<char>, events: Seq<CacheEvent>) -> CacheModel
    decreases events.len(),
{
    if events.len() == 0 {
        CacheModel::empty(cache_dir)
    } else {
        after_event(after_events(cache_dir, events.drop_last()), events.last())
    }
}

/// One of the steps stored the image of `url`.
pub open spec fn was_stored(events: Seq<CacheEvent>, url: Seq<char>) -> bool {
    exists|i: int|
        0 <= i < events.len() && (#[trigger] events[i]) is Stored && events[i]->Stored_url == url
}

/// At any time of a run, an address is looked up with success if and only if
/// an image was stored under exactly that address before; the path it
/// resolves to is the one derived from the address.
pub proof fn lemma_lookup_iff_stored(cache_dir: Seq<char>, events: Seq<CacheEvent>, url: Seq<char>)
    ensures
        after_events(cache_dir, events).cache_dir == cache_dir,
        after_events(cache_dir, events).lookup(url) is Some <==> was_stored(events, url),
        was_stored(events, url) ==> after_events(cache_dir, events).lookup(url) == Some(
            file_path_of(cache_dir, url),
        ),
    decreases events.len(),
{
    if events.len() > 0 {
        let earlier = events.drop_last();
        lemma_lookup_iff_stored(cache_dir, earlier, url);
        if was_stored(earlier, url) {
            let i = choose|i: int|
                0 <= i < earlier.len() && (#[trigger] earlier[i]) is Stored
                    && earlier[i]->Stored_url == url;
            assert(events[i] is Stored && events[i]->Stored_url == url);
        }
        if was_stored(events, url) {
            let i = choose|i: int|
                0 <= i < events.len() && (#[trigger] events[i]) is Stored
                    && events[i]->Stored_url == url;
            if i < earlier.len() {
                assert(earlier[i] is Stored && earlier[i]->Stored_url == url);
            }
        }
        if events.last() is Stored && events.last()->Stored_url == url {
            assert(events[events.len() - 1] is Stored);
        }
    }
}

/// The number of fetches that start when the image of `url` is asked for
/// `requests` times in a row, no fetch coming to an end in between.
pub open spec fn fetches_started(model: CacheModel, url: Seq<char>, requests: nat) -> nat
    decreases requests,
{
    if requests == 0 {
        0
    } else {
        let first: nat = if model.decision(url) == FetchDecision::StartFetch {
            1
        } else {
            0
        };
        first + fetches_started(model.ensure_fetched(url), url, (requests - 1) as nat)
    }
}

/// While an image is stored or being fetched, asking for it starts no fetch.
pub proof fn lemma_known_image_starts_no_fetch(model: CacheModel, url: Seq<char>, requests: nat)
    requires
        model.decision(url) != FetchDecision::StartFetch,
    ensures
        fetches_started(model, url, requests) == 0,
    decreases requests,
{
    if requests > 0 {
        lemma_known_image_starts_no_fetch(model, url, (requests - 1) as nat);
    }
}

/// However often an image that is neither stored nor being fetched is asked
/// for in a row, exactly one fetch starts.
pub proof fn lemma_single_flight(model: CacheModel, url: Seq<char>, requests: nat)
    requires
        requests >= 1,
        model.decision(url) == FetchDecision::StartFetch,
    ensures
        fetches_started(model, url, requests) == 1,
{
    lemma_known_image_starts_no_fetch(model.ensure_fetched(url), url, (requests - 1) as nat);
}

/// A fetch that was given up leaves nothing behind: the next request for
/// the image starts a fetch again.
pub proof fn lemma_failure_is_not_remembered(model: CacheModel, url: Seq<char>)
    requires
        !model.entries.contains_key(url),
    ensures
        model.ensure_fetched(url).abandon(url).decision(url) == FetchDecision::StartFetch,
        model.ensure_fetched(url).abandon(url).lookup(url) is None,
{
}

/// The cache after the images of `urls` were asked for, one after the
/// other, and the addresses for which a fetch is to be started, in that order.
pub open spec fn request_each(model: CacheModel, urls: Seq<Seq<char>>) -> (
    CacheModel,
    Seq<Seq<char>>,
)
    decreases urls.len(),
{
    if urls.len() == 0 {
        (model, Seq::empty())
    } else {
        let (before, started) = request_each(model, urls.drop_last());
        let url = urls.last();
        (
            before.ensure_fetched(url),
            if before.decision(url) == FetchDecision::StartFetch {
                started.push(url)
            } else {
                started
            },
        )
    }
}

/// Asking for a list of images starts a fetch for an address at most once,
/// and only for an address that was neither stored nor being fetched;
/// all of them are marked as being fetched afterwards, and nothing is stored
/// or forgotten.
pub proof fn lemma_request_each_starts_once(model: CacheModel, urls: Seq<Seq<char>>)
    ensures
        ({
            let (after, started) = request_each(model, urls);
            &&& started.no_duplicates()
            &&& forall|i: int|
                0 <= i < started.len() ==> model.decision(#[trigger] started[i])
                    == FetchDecision::StartFetch && urls.contains(started[i])
            &&& after.pending == model.pending.union(started.to_set())
            &&& after.entries == model.entries
            &&& after.cache_dir == model.cache_dir
        }),
    decreases urls.len(),
{
    let (after, started) = request_each(model, urls);
    if urls.len() == 0 {
        assert(after.pending =~= model.pending.union(started.to_set()));
    } else {
        let (before, earlier) = request_each(model, urls.drop_last());
        let url = urls.last();
        lemma_request_each_starts_once(model, urls.drop_last());
        assert(urls[urls.len() - 1] == url);
        assert forall|i: int| 0 <= i < started.len() implies model.decision(#[trigger] started[i])
            == FetchDecision::StartFetch && urls.contains(started[i]) by {
            if i < earlier.len() {
                assert(started[i] == earlier[i]);
                assert(urls.drop_last().contains(earlier[i]));
                let k = choose|k: int|
                    0 <= k < urls.drop_last().len() && urls.drop_last()[k] == earlier[i];
                assert(urls[k] == started[i]);
            }
        }
        if before.decision(url) == FetchDecision::StartFetch {
            assert(!earlier.to_set().contains(url));
            assert(!earlier.contains(url));
            assert forall|i: int, j: int| 0 <= i < j < started.len() implies started[i]
                != started[j] by {
                if j == earlier.len() {
                    assert(earlier.contains(earlier[i]));
                }
            }
        }
        assert(started.no_duplicates());
        assert(after.entries == model.entries);
        assert(after.cache_dir == model.cache_dir);
        assert forall|other: Seq<char>|
            after.pending.contains(other) <==> model.pending.union(started.to_set()).contains(
                other,
            ) by {
            assert(before.pending.contains(other) <==> model.pending.contains(other)
                || earlier.to_set().contains(other));
            if started.contains(other) {
                let i = choose|i: int| 0 <= i < started.len() && started[i] == other;
                if i < earlier.len() {
                    assert(earlier[i] == other);
                    assert(earlier.contains(other));
                }
            }
            if earlier.contains(other) {
                let i = choose|i: int| 0 <= i < earlier.len() && earlier[i] == other;
                assert(started[i] == other);
            }
            if before.decision(url) == FetchDecision::StartFetch && other == url {
                assert(started[started.len() - 1] == other);
            }
        }
        assert(after.pending =~= model.pending.union(started.to_set()));
    }
}

/// Some entry is kept under `url`.
pub open spec fn has_entry(entries: Seq<CacheEntry>, url: Seq<char>) -> bool {
    exists|i: int| 0 <= i < entries.len() && (#[trigger] entries[i]).url@ == url
}

/// The index of an entry kept under `url`.
pub open spec fn entry_index(entries: Seq<CacheEntry>, url: Seq<char>) -> int {
    choose|i: int| 0 <= i < entries.len() && (#[trigger] entries[i]).url@ == url
}

/// No two entries are kept under one address.
pub open spec fn distinct_entries(entries: Seq<CacheEntry>) -> bool {
    forall|i: int, j: int|
        0 <= i < j < entries.len() ==> (#[trigger] entries[i]).url@ != (#[trigger] entries[j]).url@
}

/// The stored images by their addresses.
pub open spec fn entries_model(entries: Seq<CacheEntry>) -> Map<Seq<char>, EntryModel> {
    Map::new(
        |url: Seq<char>| has_entry(entries, url),
        |url: Seq<char>|
            EntryModel {
                local_path: entries[entry_index(entries, url)].local_path@,
                size_bytes: entries[entry_index(entries, url)].size_bytes as int,
            },
    )
}

/// Some marker is kept for `url`.
pub open spec fn has_marker(pending: Seq<String>, url: Seq<char>) -> bool {
    exists|i: int| 0 <= i < pending.len() && (#[trigger] pending[i])@ == url
}

/// No two markers are kept for one address.
pub open spec fn distinct_markers(pending: Seq<String>) -> bool {
    forall|i: int, j: int|
        0 <= i < j < pending.len() ==> (#[trigger] pending[i])@ != (#[trigger] pending[j])@
}

/// The addresses that are being fetched.
pub open spec fn pending_model(pending: Seq<String>) -> Set<Seq<char>> {
    Set::new(|url: Seq<char>| has_marker(pending, url))
}

/// The model of one entry.
pub open spec fn entry_model(entry: CacheEntry) -> EntryModel {
    EntryModel { local_path: entry.local_path@, size_bytes: entry.size_bytes as int }
}

/// With distinct addresses, the entry of an address is the one and only that holds it.
pub proof fn lemma_entry_found(entries: Seq<CacheEntry>, at: int)
    requires
        distinct_entries(entries),
        0 <= at < entries.len(),
    ensures
        has_entry(entries, entries[at].url@),
        entry_index(entries, entries[at].url@) == at,
        entries_model(entries)[entries[at].url@] == entry_model(entries[at]),
{
    let url = entries[at].url@;
    let chosen = entry_index(entries, url);
    if chosen < at {
        assert(entries[chosen].url@ != entries[at].url@);
    } else if at < chosen {
        assert(entries[at].url@ != entries[chosen].url@);
    }
}

/// Writing an entry, in the place of the one with its address or behind
/// all others, keeps the addresses distinct and maps the address to it.
pub proof fn lemma_entry_written(
    before: Seq<CacheEntry>,
    after: Seq<CacheEntry>,
    url: Seq<char>,
    model: EntryModel,
)
    requires
        distinct_entries(before),
        (exists|at: int|
            0 <= at < before.len() && (#[trigger] before[at]).url@ == url && after.len()
                == before.len() && after[at].url@ == url && entry_model(after[at]) == model
                && forall|i: int| 0 <= i < before.len() && i != at ==> after[i] == before[i]) || (
        !has_entry(before, url) && after.len() == before.len() + 1 && after[before.len() as int].url@
            == url && entry_model(after[before.len() as int]) == model && forall|i: int|
            0 <= i < before.len() ==> after[i] == before[i]),
    ensures
        distinct_entries(after),
        entries_model(after) == entries_model(before).insert(url, model),
{
    let at = if has_entry(before, url) {
        choose|at: int|
            0 <= at < before.len() && (#[trigger] before[at]).url@ == url && after.len()
                == before.len() && after[at].url@ == url && entry_model(after[at]) == model
                && forall|i: int| 0 <= i < before.len() && i != at ==> after[i] == before[i]
    } else {
        before.len() as int
    };
    assert(after[at].url@ == url);
    assert forall|i: int, j: int| 0 <= i < j < after.len() implies (#[trigger] after[i]).url@ != (
    #[trigger] after[j]).url@ by {
        if i != at && j != at {
            assert(before[i].url@ != before[j].url@);
        } else if i == at {
            if has_entry(before, url) {
                assert(before[at].url@ != before[j].url@);
            }
        } else {
            if has_entry(before, url) {
                assert(before[i].url@ != before[at].url@);
            } else {
                assert(before[i].url@ != url);
            }
        }
    }
    let old_map = entries_model(before);
    let new_map = entries_model(after);
    assert forall|other: Seq<char>| new_map.contains_key(other) <==> old_map.insert(
        url,
        model,
    ).contains_key(other) by {
        if has_entry(after, other) {
            let i = entry_index(after, other);
            if i != at {
                assert(before[i].url@ == other);
            }
        }
        if has_entry(before, other) {
            let i = entry_index(before, other);
            if i != at {
                assert(after[i].url@ == other);
            } else {
                assert(after[at].url@ == other);
            }
        }
        if other == url {
            assert(after[at].url@ == other);
        }
    }
    assert forall|other: Seq<char>| new_map.contains_key(other) implies new_map[other]
        == old_map.insert(url, model)[other] by {
        let i = entry_index(after, other);
        lemma_entry_found(after, i);
        if i != at {
            assert(before[i].url@ == other);
            lemma_entry_found(before, i);
        }
    }
    assert(new_map =~= old_map.insert(url, model));
}

/// With distinct addresses there are as many stored images as entries.
pub proof fn lemma_entries_domain_len(entries: Seq<CacheEntry>)
    requires
        distinct_entries(entries),
    ensures
        entries_model(entries).dom().finite(),
        entries_model(entries).dom().len() == entries.len(),
    decreases entries.len(),
{
    if entries.len() == 0 {
        assert(entries_model(entries).dom() =~= Set::empty());
    } else {
        let rest = entries.drop_last();
        let last = entries.last();
        lemma_entries_domain_len(rest);
        assert(!has_entry(rest, last.url@)) by {
            if has_entry(rest, last.url@) {
                let i = entry_index(rest, last.url@);
                assert(entries[i].url@ != entries[entries.len() - 1].url@);
            }
        }
        lemma_entry_written(rest, entries, last.url@, entry_model(last));
        assert(entries_model(entries).dom() =~= entries_model(rest).dom().insert(last.url@));
    }
}

/// Finds the entry kept under `url`.
fn find_entry(entries: &Vec<CacheEntry>, url: &String) -> (found: Option<usize>)
    ensures
        match found {
            Some(at) => at < entries@.len() && entries@[at as int].url@ == url@,
            None => !has_entry(entries@, url@),
        },
{
    for i in 0..entries.len()
        invariant
            forall|k: int| 0 <= k < i ==> (#[trigger] entries@[k]).url@ != url@,
    {
        if entries[i].url == *url {
            return Some(i);
        }
    }
    None
}

/// Finds the marker kept for `url`.
fn find_marker(pending: &Vec<String>, url: &String) -> (found: Option<usize>)
    ensures
        match found {
            Some(at) => at < pending@.len() && pending@[at as int]@ == url@,
            None => !has_marker(pending@, url@),
        },
{
    for i in 0..pending.len()
        invariant
            forall|k: int| 0 <= k < i ==> (#[trigger] pending@[k])@ != url@,
    {
        if pending[i] == *url {
            return Some(i);
        }
    }
    None
}

/// The cache of fetched images.
///
/// The entries and the markers are kept in lists, with no address twice:
/// vstd specifies hash maps only for keys whose hashing it has a model of,
/// and `String` is not among them, so nothing could be proved of a map
/// from addresses.
pub struct ImageCache {
    cache_dir: String,
    entries: Vec<CacheEntry>,
    pending: Vec<String>,
}

impl View for ImageCache {
    type V = CacheModel;

    closed spec fn view(&self) -> CacheModel {
        CacheModel {
            cache_dir: self.cache_dir@,
            entries: entries_model(self.entries@),
            pending: pending_model(self.pending@),
        }
    }
}

impl ImageCache {
    #[verifier::type_invariant]
    spec fn well_formed(self) -> bool {
        distinct_entries(self.entries@) && distinct_markers(self.pending@)
    }

    /// Creates the cache of a run: nothing is stored and nothing under way,
    /// whatever the directory holds.
    pub fn new(cache_dir: String) -> (cache: Self)
        ensures
            cache@ == CacheModel::empty(cache_dir@),
    {
        let cache = ImageCache { cache_dir, entries: Vec::new(), pending: Vec::new() };
        assert(cache@.entries =~= Map::empty());
        assert(cache@.pending =~= Set::empty());
        cache
    }

    /// The file that holds the image of `url`, if it is stored. The address
    /// is taken as it is written, letter for letter.
    pub fn get_cached_path(&self, url: &str) -> (path: Option<String>)
        ensures
            match path {
                Some(file) => self@.lookup(url@) == Some(file@),
                None => self@.lookup(url@) is None,
            },
    {
        let key = String::from_str(url);
        match find_entry(&self.entries, &key) {
            Some(at) => {
                proof {
                    use_type_invariant(self);
                }
                Some(self.entries[at].local_path.clone())
            },
            None => None,
        }
    }

    /// The size in bytes of the stored image of `url`, if it is stored.
    pub fn cached_size(&self, url: &str) -> (size: Option<usize>)
        ensures
            match size {
                Some(bytes) => self@.entries.contains_key(url@) && self@.entries[url@].size_bytes
                    == bytes,
                None => !self@.entries.contains_key(url@),
            },
    {
        let key = String::from_str(url);
        match find_entry(&self.entries, &key) {
            Some(at) => {
                proof {
                    use_type_invariant(self);
                    lemma_entry_found(self.entries@, at as int);
                }
                Some(self.entries[at].size_bytes)
            },
            None => None,
        }
    }

    /// The directory of the files of the cache.
    pub fn cache_dir(&self) -> (dir: &str)
        ensures
            dir@ == self@.cache_dir,
    {
        self.cache_dir.as_str()
    }

    /// The number of stored images.
    pub fn len(&self) -> (count: usize)
        ensures
            count == self@.entries.dom().len(),
            self@.entries.dom().finite(),
    {
        proof {
            use_type_invariant(self);
            lemma_entries_domain_len(self.entries@);
        }
        self.entries.len()
    }

    /// Tells whether a fetch of the image of `url` is under way.
    pub fn is_pending(&self, url: &str) -> (pending: bool)
        ensures
            pending == self@.pending.contains(url@),
    {
        let key = String::from_str(url);
        find_marker(&self.pending, &key).is_some()
    }

    /// The path of the file in which the image of `url` is stored, or is to be.
    pub fn target_path(&self, url: &str) -> (path: String)
        ensures
            path@ == file_path_of(self@.cache_dir, url@),
            is_last_position(path@, '/', self@.cache_dir.len() as int),
    {
        file_path(self.cache_dir.as_str(), url)
    }

    /// Asks for the image of `url`. A fetch is to be started only if the image
    /// is neither stored nor being fetched; the address is then marked, so
    /// that any further request, until the fetch has ended, starts none.
    pub fn ensure_fetched(&mut self, url: &str) -> (decision: FetchDecision)
        ensures
            decision == old(self)@.decision(url@),
            final(self)@ == old(self)@.ensure_fetched(url@),
    {
        proof {
            use_type_invariant(&*self);
        }
        let key = String::from_str(url);
        if find_entry(&self.entries, &key).is_some() {
            return FetchDecision::AlreadyCached;
        }
        if find_marker(&self.pending, &key).is_some() {
            return FetchDecision::AlreadyPending;
        }
        let ghost before = self.pending@;
        let mut pending = self.take_pending();
        pending.push(key);
        self.pending = pending;
        proof {
            let after = self.pending@;
            assert forall|other: Seq<char>| has_marker(after, other) <==> (other == url@
                || has_marker(before, other)) by {
                if has_marker(after, other) {
                    let i = choose|i: int| 0 <= i < after.len() && (#[trigger] after[i])@ == other;
                    if i < before.len() {
                        assert(before[i]@ == other);
                    }
                }
                if has_marker(before, other) {
                    let i = choose|i: int|
                        0 <= i < before.len() && (#[trigger] before[i])@ == other;
                    assert(after[i]@ == other);
                }
                if other == url@ {
                    assert(after[before.len() as int]@ == other);
                }
            }
            assert(pending_model(after) =~= pending_model(before).insert(url@));
        }
        FetchDecision::StartFetch
    }

    /// Hands the markers out, to be changed and put back.
    fn take_pending(&mut self) -> (pending: Vec<String>)
        ensures
            pending == old(self).pending,
            final(self).pending@.len() == 0,
            final(self).entries == old(self).entries,
            final(self).cache_dir == old(self).cache_dir,
    {
        proof {
            use_type_invariant(&*self);
        }
        let mut pending: Vec<String> = Vec::new();
        core::mem::swap(&mut self.pending, &mut pending);
        pending
    }

    /// Hands the entries out, to be changed and put back.
    fn take_entries(&mut self) -> (entries: Vec<CacheEntry>)
        ensures
            entries == old(self).entries,
            final(self).entries@.len() == 0,
            final(self).pending == old(self).pending,
            final(self).cache_dir == old(self).cache_dir,
    {
        proof {
            use_type_invariant(&*self);
        }
        let mut entries: Vec<CacheEntry> = Vec::new();
        core::mem::swap(&mut self.entries, &mut entries);
        entries
    }

    /// Asks for each of the images in turn, and lists the addresses for
    /// which a fetch is to be started.
    pub fn request_images(&mut self, urls: &Vec<String>) -> (started: Vec<String>)
        ensures
            (final(self)@, text_views(started@)) == request_each(
                old(self)@,
                text_views(urls@),
            ),
    {
        let mut started: Vec<String> = Vec::new();
        let ghost texts = text_views(urls@);
        assert(texts.take(0) =~= Seq::empty());
        assert(text_views(started@) =~= Seq::empty());
        for i in 0..urls.len()
            invariant
                texts == text_views(urls@),
                (self@, text_views(started@)) == request_each(
                    old(self)@,
                    texts.take(i as int),
                ),
        {
            let ghost before = started@;
            assert(texts.take(i + 1).drop_last() =~= texts.take(i as int));
            assert(texts.take(i + 1).last() == urls@[i as int]@);
            match self.ensure_fetched(urls[i].as_str()) {
                FetchDecision::StartFetch => {
                    started.push(urls[i].clone());
                    assert(text_views(started@) =~= text_views(
                        before,
                    ).push(urls@[i as int]@));
                },
                _ => {},
            }
        }
        assert(texts.take(urls.len() as int) =~= texts);
        started
    }

    /// Takes the marker of `url` away, if there is one.
    fn clear_marker(&mut self, key: &String)
        ensures
            final(self)@.pending == old(self)@.pending.remove(key@),
            final(self)@.entries == old(self)@.entries,
            final(self)@.cache_dir == old(self)@.cache_dir,
            final(self).entries == old(self).entries,
    {
        proof {
            use_type_invariant(&*self);
        }
        let ghost before = self.pending@;
        match find_marker(&self.pending, key) {
            Some(at) => {
                let mut pending = self.take_pending();
                pending.remove(at);
                self.pending = pending;
                proof {
                    let after = self.pending@;
                    assert forall|other: Seq<char>| has_marker(after, other) <==> (other != key@
                        && has_marker(before, other)) by {
                        if has_marker(after, other) {
                            let i = choose|i: int|
                                0 <= i < after.len() && (#[trigger] after[i])@ == other;
                            if i < at {
                                assert(before[i]@ == other);
                            } else {
                                assert(before[i + 1]@ == other);
                            }
                        }
                        if other != key@ && has_marker(before, other) {
                            let i = choose|i: int|
                                0 <= i < before.len() && (#[trigger] before[i])@ == other;
                            if i < at {
                                assert(after[i]@ == other);
                            } else {
                                assert(after[i - 1]@ == other);
                            }
                        }
                    }
                    assert(pending_model(after) =~= pending_model(before).remove(key@));
                }
            },
            None => {
                assert(pending_model(before) =~= pending_model(before).remove(key@));
            },
        }
    }

    /// Records that the image of `url` was written to its file. The entry
    /// takes the place of an earlier one for the same address, and the
    /// marker of the address, if there is one, is taken away.
    ///
    /// The file is the caller's: it must be complete before this is called,
    /// since from now on `get_cached_path` hands its path out.
    pub fn add_to_cache(&mut self, url: &str, image_data: &[u8]) -> (path: String)
        ensures
            path@ == file_path_of(old(self)@.cache_dir, url@),
            is_last_position(path@, '/', old(self)@.cache_dir.len() as int),
            final(self)@ == old(self)@.store(url@, image_data@.len() as int),
    {
        self.record_stored(url, image_data.len())
    }

    /// Records that an image of `size_bytes` bytes was written to the file of `url`.
    pub fn record_stored(&mut self, url: &str, size_bytes: usize) -> (path: String)
        ensures
            path@ == file_path_of(old(self)@.cache_dir, url@),
            is_last_position(path@, '/', old(self)@.cache_dir.len() as int),
            final(self)@ == old(self)@.store(url@, size_bytes as int),
    {
        proof {
            use_type_invariant(&*self);
        }
        let key = String::from_str(url);
        let path = file_path(self.cache_dir.as_str(), url);
        let entry = CacheEntry { url: key.clone(), local_path: path.clone(), size_bytes };
        let ghost before = self.entries@;
        let ghost model = EntryModel { local_path: path@, size_bytes: size_bytes as int };
        let found = find_entry(&self.entries, &key);
        let mut entries = self.take_entries();
        match found {
            Some(at) => {
                entries[at] = entry;
            },
            None => {
                entries.push(entry);
            },
        }
        proof {
            lemma_entry_written(before, entries@, url@, model);
        }
        self.entries = entries;
        self.clear_marker(&key);
        assert(self@.entries == old(self)@.entries.insert(url@, model));
        assert(self@ == old(self)@.store(url@, size_bytes as int));
        path
    }

    /// Records that the fetch of `url` was given up. Nothing is remembered
    /// of the failure: the next request starts a fetch again.
    pub fn abandon_fetch(&mut self, url: &str)
        ensures
            final(self)@ == old(self)@.abandon(url@),
    {
        let key = String::from_str(url);
        self.clear_marker(&key);
    }

    /// Ends the fetch of `url`. A stored image is recorded and its path
    /// returned; a failure is reported by its kind and leaves no entry.
    pub fn complete_fetch(&mut self, url: &str, outcome: FetchOutcome) -> (result: Result<
        String,
        ImageFailure,
    >)
        ensures
            final(self)@ == old(self)@.complete(url@, outcome),
            match outcome {
                FetchOutcome::Stored { size_bytes } => result is Ok && result->Ok_0@
                    == file_path_of(old(self)@.cache_dir, url@),
                FetchOutcome::FetchFailed => result == Err::<String, ImageFailure>(
                    ImageFailure::Fetch,
                ),
                FetchOutcome::StorageFailed => result == Err::<String, ImageFailure>(
                    ImageFailure::Storage,
                ),
            },
    {
        match outcome {
            FetchOutcome::Stored { size_bytes } => Ok(self.record_stored(url, size_bytes)),
            FetchOutcome::FetchFailed => {
                self.abandon_fetch(url);
                Err(ImageFailure::Fetch)
            },
            FetchOutcome::StorageFailed => {
                self.abandon_fetch(url);
                Err(ImageFailure::Storage)
            },
        }
    }
}

} // verus!
