//! Resolution of author identifiers to handles: a bounded in-memory cache in
//! front of a persistent cache and a remote directory.
//!
//! One resolution is a short exchange: the caller feeds
//! [`IdentityCache::resolve_step`] what the last action produced and performs
//! the action it returns. A hit in the persistent cache is returned without
//! being copied into memory.
use crate::event::opt_view;
use lru::LruCache;
use vstd::prelude::*;

verus! {

/// An `lru::LruCache` from identifier to handle. Its hasher type cannot be
/// named to the verifier, so the cache is held opaquely here.
#[verifier::external_body]
pub struct HandleLru {
    inner: LruCache<String, Option<String>>,
}

/// What an in-memory cache holds: identifier to resolved handle.
pub uninterp spec fn lru_contents(c: HandleLru) -> Map<
    Seq<char>,
    Option<Seq<char>>,
>;

/// A cache that holds no identifier.
pub open spec fn no_handles() -> Map<Seq<char>, Option<Seq<char>>> {
    Map::empty()
}

/// The number of entries a cache was made to hold.
pub uninterp spec fn lru_bound(c: HandleLru) -> nat;

/// Relies on `lru::LruCache::new`: an empty cache that holds at most `cap`
/// entries.
#[verifier::external_body]
fn lru_new(cap: usize) -> (r: HandleLru)
    requires
        cap > 0,
    ensures
        lru_contents(r) == no_handles(),
        lru_bound(r) == cap,
{
    HandleLru { inner: LruCache::new(std::num::NonZeroUsize::new(cap).unwrap()) }
}

/// Relies on `lru::LruCache::get`: the value stored under `k`, if any; the
/// entries stay as they were (only their recency order changes).
#[verifier::external_body]
fn lru_get(c: &mut HandleLru, k: &String) -> (r: Option<Option<String>>)
    ensures
        lru_contents(*final(c)) == lru_contents(*old(c)),
        lru_bound(*final(c)) == lru_bound(*old(c)),
        r matches Some(v) ==> lru_contents(*old(c)).contains_key(k@) && lru_contents(
            *old(c),
        )[k@] == opt_view(v),
        r is None ==> !lru_contents(*old(c)).contains_key(k@),
{
    c.inner.get(k).cloned()
}

/// Relies on `lru::LruCache::put`: `k` now maps to `v`. No other entry is
/// added or changed; one is evicted only when `k` was absent and the cache
/// was full.
#[verifier::external_body]
fn lru_put(c: &mut HandleLru, k: String, v: Option<String>)
    ensures
        lru_bound(*final(c)) == lru_bound(*old(c)),
        lru_contents(*final(c)).contains_key(k@),
        lru_contents(*final(c))[k@] == opt_view(v),
        forall|u: Seq<char>|
            u != k@ && #[trigger] lru_contents(*final(c)).contains_key(u) ==> lru_contents(
                *old(c),
            ).contains_key(u) && lru_contents(*final(c))[u] == lru_contents(*old(c))[u],
        lru_contents(*old(c)).contains_key(k@) || lru_contents(*old(c)).dom().len() < lru_bound(
            *old(c),
        ) ==> lru_contents(*final(c)) == lru_contents(*old(c)).insert(k@, opt_view(v)),
{
    c.inner.put(k, v);
}

/// How many identifiers the in-memory cache holds.
pub const CACHE_CAPACITY: usize = 100;

/// Why a resolution failed.
#[derive(Clone, Copy, Debug, PartialEq, Eq, Structural)]
pub enum ResolveError {
    /// The identifier's scheme needs a resolution method that is not offered.
    Unsupported,
    /// The remote lookup failed.
    LookupFailure,
}

/// The public record of an identifier, as far as resolution reads it: its
/// list of known-handle aliases, each `None` where the entry is not a string.
pub struct DidDocument {
    pub also_known_as: Vec<Option<String>>,
}

/// The handle a record names: its last alias, if that is a string.
pub open spec fn handle_of(aliases: Seq<Option<String>>) -> Option<Seq<char>> {
    if aliases.len() == 0 {
        None
    } else {
        opt_view(aliases.last())
    }
}

impl DidDocument {
    /// The handle this record names.
    pub fn handle(&self) -> (r: Option<String>)
        ensures
            opt_view(r) == handle_of(self.also_known_as@),
    {
        let n = self.also_known_as.len();
        if n == 0 {
            None
        } else {
            match &self.also_known_as[n - 1] {
                Some(h) => Some(h.clone()),
                None => None,
            }
        }
    }
}

/// The scheme prefix of identifiers that cannot be resolved here.
pub open spec fn web_prefix() -> Seq<char> {
    "did:web:"@
}

/// Where the public record of `did` is fetched from, or why it cannot be.
pub open spec fn directory_url_of(did: Seq<char>) -> Result<Seq<char>, ResolveError> {
    if did.len() >= 8 && did.take(8) == web_prefix() {
        Err(ResolveError::Unsupported)
    } else {
        Ok("https://plc.directory/"@ + did)
    }
}

/// The address of the public record of `did`.
pub fn directory_url(did: &str) -> (r: Result<String, ResolveError>)
    ensures
        match directory_url_of(did@) {
            Ok(u) => r matches Ok(s) && s@ == u,
            Err(e) => r == Err::<String, ResolveError>(e),
        },
{
    let len = did.unicode_len();
    if len >= 8 {
        let head = did.substring_char(0, 8).to_string();
        if head == String::from_str("did:web:") {
            return Err(ResolveError::Unsupported);
        }
    }
    let mut url = String::from_str("https://plc.directory/");
    url.append(did);
    Ok(url)
}

/// The answer the in-memory tier gives for `did`.
pub open spec fn cached_answer(m: Map<Seq<char>, Option<Seq<char>>>, did: Seq<char>) -> Option<
    Option<Seq<char>>,
> {
    if m.contains_key(did) {
        Some(m[did])
    } else {
        None
    }
}

/// What the previous action of a resolution produced.
pub enum ResolveEvent {
    /// A new resolution begins.
    Start,
    /// The persistent cache holds this handle for the identifier.
    StoreHit(Option<String>),
    /// The persistent cache holds nothing for the identifier.
    StoreMiss,
    /// The remote record was fetched.
    Fetched(DidDocument),
    /// The remote lookup failed.
    FetchFailed,
}

/// What the caller is to do next in a resolution.
pub enum ResolveAction {
    /// The resolution is over with this handle.
    Return(Option<String>),
    /// Look the identifier up in the persistent cache.
    LookupStore,
    /// Fetch the public record at this address.
    Fetch(String),
    /// Write the handle to the persistent cache, then return it.
    Save(Option<String>),
    /// The resolution failed.
    Fail(ResolveError),
}

/// The in-memory tier of identity resolution.
pub struct IdentityCache {
    entries: HandleLru,
}

impl IdentityCache {
    /// Identifier to handle, for each identifier held in memory.
    pub closed spec fn view(&self) -> Map<Seq<char>, Option<Seq<char>>> {
        lru_contents(self.entries)
    }

    pub closed spec fn bound(&self) -> nat {
        lru_bound(self.entries)
    }

    pub open spec fn wf(&self) -> bool {
        self.bound() == CACHE_CAPACITY
    }

    /// An empty cache holding up to [`CACHE_CAPACITY`] identifiers.
    pub fn new() -> (c: Self)
        ensures
            c.wf(),
            c@ == no_handles(),
    {
        IdentityCache { entries: lru_new(CACHE_CAPACITY) }
    }

    /// The handle held in memory for `did`, if it is held.
    pub fn lookup(&mut self, did: &String) -> (r: Option<Option<String>>)
        requires
            old(self).wf(),
        ensures
            final(self).wf(),
            final(self)@ == old(self)@,
            match r {
                Some(v) => cached_answer(old(self)@, did@) == Some(opt_view(v)),
                None => cached_answer(old(self)@, did@) is None,
            },
    {
        lru_get(&mut self.entries, did)
    }

    /// Holds `handle` in memory for `did`.
    pub fn record(&mut self, did: String, handle: Option<String>)
        requires
            old(self).wf(),
        ensures
            final(self).wf(),
            cached_answer(final(self)@, did@) == Some(opt_view(handle)),
            forall|u: Seq<char>|
                u != did@ && #[trigger] final(self)@.contains_key(u) ==> old(self)@.contains_key(u)
                    && final(self)@[u] == old(self)@[u],
    {
        lru_put(&mut self.entries, did, handle);
    }

    /// Advances the resolution of `did` by the outcome `ev` of the previous
    /// action.
    pub fn resolve_step(&mut self, did: &String, ev: ResolveEvent) -> (r: ResolveAction)
        requires
            old(self).wf(),
        ensures
            final(self).wf(),
            ev is Fetched || final(self)@ == old(self)@,
            ev is Start ==> match cached_answer(old(self)@, did@) {
                Some(h) => (r matches ResolveAction::Return(v) && opt_view(v) == h),
                None => r is LookupStore,
            },
            ev matches ResolveEvent::StoreHit(h) ==> (r matches ResolveAction::Return(v)
                && opt_view(v) == opt_view(h)),
            ev is StoreMiss ==> match directory_url_of(did@) {
                Ok(u) => (r matches ResolveAction::Fetch(s) && s@ == u),
                Err(e) => (r matches ResolveAction::Fail(f) && f == e),
            },
            ev matches ResolveEvent::Fetched(doc) ==> (r matches ResolveAction::Save(v) && opt_view(
                v,
            ) == handle_of(doc.also_known_as@) && cached_answer(final(self)@, did@) == Some(
                opt_view(v),
            )),
            ev is Fetched ==> (forall|u: Seq<char>|
                u != did@ && #[trigger] final(self)@.contains_key(u) ==> old(self)@.contains_key(u)
                    && final(self)@[u] == old(self)@[u]),
            ev is FetchFailed ==> (r matches ResolveAction::Fail(f) && f
                == ResolveError::LookupFailure),
    {
        match ev {
            ResolveEvent::Start => match self.lookup(did) {
                Some(h) => ResolveAction::Return(h),
                None => ResolveAction::LookupStore,
            },
            ResolveEvent::StoreHit(h) => ResolveAction::Return(h),
            ResolveEvent::StoreMiss => match directory_url(did.as_str()) {
                Ok(url) => ResolveAction::Fetch(url),
                Err(e) => ResolveAction::Fail(e),
            },
            ResolveEvent::Fetched(doc) => {
                self.record(did.clone(), doc.handle());
                ResolveAction::Save(doc.handle())
            },
            ResolveEvent::FetchFailed => ResolveAction::Fail(ResolveError::LookupFailure),
        }
    }
}

/// Once a resolution has been recorded in memory, a later resolution of the
/// same identifier starts from memory and asks for no remote lookup, as long
/// as the entry is still held.
pub proof fn recorded_resolution_needs_no_lookup(
    m: Map<Seq<char>, Option<Seq<char>>>,
    did: Seq<char>,
    handle: Option<Seq<char>>,
)
    requires
        m.contains_key(did),
        m[did] == handle,
    ensures
        cached_answer(m, did) == Some(handle),
{
}

} // verus!
