use vstd::prelude::*;
use crate::cache::{ResponseCache, CacheEntry, fresh_payload, without, stored, copy_bytes};

verus! {

/// Why a request to the catalog failed.
#[derive(Clone, Copy, Debug, PartialEq, Eq, Structural)]
pub enum ApiError {
    Unauthorized,
    NotFound,
    Network,
    Parse,
}

/// What a caller is to do with a request.
#[derive(Clone, Debug, PartialEq, Eq)]
pub enum RequestStep {
    /// The cache answered; no network call is needed.
    Hit(Vec<u8>),
    /// The same request is outstanding: await its result.
    Join,
    /// No one is fetching it: fetch, then report the outcome with `complete`.
    Fetch,
}

/// Whether a request for `fp` is outstanding in `flights`.
pub open spec fn is_pending(flights: Seq<String>, fp: Seq<char>) -> bool {
    exists|i: int| 0 <= i < flights.len() && #[trigger] flights[i]@ == fp
}

/// No fingerprint is outstanding twice.
pub open spec fn distinct(flights: Seq<String>) -> bool {
    forall|i: int, j: int| 0 <= i < j < flights.len() ==> #[trigger] flights[i]@ != #[trigger] flights[j]@
}

/// Whether a request for `fp` at `now` goes to the network.
pub open spec fn starts_fetch(cache: Seq<CacheEntry>, flights: Seq<String>, fp: Seq<char>, now: u64) -> bool {
    fresh_payload(cache, fp, now) is None && !is_pending(flights, fp)
}

/// While a request for a fingerprint is outstanding, no further request for that
/// fingerprint goes to the network, whatever the cache holds and whenever it comes.
pub proof fn lemma_one_fetch_per_fingerprint(
    cache: Seq<CacheEntry>,
    flights: Seq<String>,
    fp: Seq<char>,
    now: u64,
)
    requires
        is_pending(flights, fp),
    ensures
        !starts_fetch(cache, flights, fp, now),
{
}

/// The keys of the responses that belong to the signed-in user.
pub const USER_CACHE_PATTERN: &'static str = "spot/net/me/*";

/// Drops every cached response that belongs to the signed-in user, so that it is
/// fetched afresh; used on logout and when the credentials change.
pub fn clear_user_cache(client: &mut CachingApiClient)
    requires
        old(client).wf(),
    ensures
        final(client).wf(),
        final(client).pending() == old(client).pending(),
        final(client).cached() == without(old(client).cached(), USER_CACHE_PATTERN@, false),
{
    client.clear_cache_pattern(USER_CACHE_PATTERN);
}

/// A response cache in front of the network, with the table of outstanding requests.
pub struct CachingApiClient {
    cache: ResponseCache,
    in_flight: Vec<String>,
}

impl CachingApiClient {
    /// The fingerprints of the outstanding requests.
    pub closed spec fn pending(&self) -> Seq<String> {
        self.in_flight@
    }

    /// The entries of the response cache.
    pub closed spec fn cached(&self) -> Seq<CacheEntry> {
        self.cache@
    }

    pub open spec fn wf(&self) -> bool {
        distinct(self.pending())
    }

    pub fn new() -> (r: Self)
        ensures
            r.wf(),
            r.pending() == Seq::<String>::empty(),
            r.cached() == Seq::<CacheEntry>::empty(),
    {
        CachingApiClient { cache: ResponseCache::new(), in_flight: Vec::new() }
    }

    /// Drops the cached responses whose key the glob `pattern` matches.
    pub fn clear_cache_pattern(&mut self, pattern: &str)
        requires
            old(self).wf(),
        ensures
            final(self).wf(),
            final(self).pending() == old(self).pending(),
            final(self).cached() == without(old(self).cached(), pattern@, false),
    {
        self.cache.clear_pattern(pattern);
    }

    fn find_pending(&self, fp: &String) -> (r: Option<usize>)
        ensures
            match r {
                Some(i) => i < self.pending().len() && self.pending()[i as int]@ == fp@,
                None => !is_pending(self.pending(), fp@),
            },
    {
        let mut i: usize = 0;
        while i < self.in_flight.len()
            invariant
                0 <= i <= self.in_flight@.len(),
                forall|j: int| 0 <= j < i ==> #[trigger] self.in_flight@[j]@ != fp@,
            decreases self.in_flight@.len() - i,
        {
            if self.in_flight[i] == *fp {
                return Some(i);
            }
            i += 1;
        }
        None
    }

    /// Decides how a request with fingerprint `fingerprint` is served at `now`: from
    /// the cache, by joining the outstanding request, or by a new fetch, which is
    /// then recorded as outstanding.
    pub fn request(&mut self, fingerprint: &str, now: u64) -> (r: RequestStep)
        requires
            old(self).wf(),
        ensures
            final(self).wf(),
            match r {
                RequestStep::Hit(v) => fresh_payload(old(self).cached(), fingerprint@, now) == Some(v@),
                RequestStep::Join => fresh_payload(old(self).cached(), fingerprint@, now) is None
                    && is_pending(old(self).pending(), fingerprint@),
                RequestStep::Fetch => starts_fetch(
                    old(self).cached(),
                    old(self).pending(),
                    fingerprint@,
                    now,
                ),
            },
            r is Hit <==> fresh_payload(old(self).cached(), fingerprint@, now) is Some,
            r is Fetch <==> starts_fetch(old(self).cached(), old(self).pending(), fingerprint@, now),
            r is Fetch ==> final(self).pending().len() == old(self).pending().len() + 1
                && final(self).pending().drop_last() == old(self).pending()
                && final(self).pending().last()@ == fingerprint@,
            !(r is Fetch) ==> final(self).pending() == old(self).pending(),
            !(r is Hit) ==> is_pending(final(self).pending(), fingerprint@),
            r is Hit ==> final(self).cached() == old(self).cached(),
            !(r is Hit) ==> final(self).cached() == without(old(self).cached(), fingerprint@, true),
    {
        match self.cache.get(fingerprint, now) {
            Some(v) => RequestStep::Hit(v),
            None => {
                let fp = fingerprint.to_owned();
                match self.find_pending(&fp) {
                    Some(i) => {
                        assert(self.in_flight@[i as int]@ == fingerprint@);
                        RequestStep::Join
                    },
                    None => {
                        let ghost before = self.in_flight@;
                        self.in_flight.push(fp);
                        assert(self.in_flight@.drop_last() == before);
                        assert(self.in_flight@[before.len() as int]@ == fingerprint@);
                        RequestStep::Fetch
                    },
                }
            },
        }
    }

    /// Records how the fetch for `fingerprint` ended: a success is cached for
    /// `ttl` from `now`, a failure is not; either way the request stops being
    /// outstanding.
    pub fn complete(&mut self, fingerprint: &str, result: &Result<Vec<u8>, ApiError>, ttl: u64, now: u64)
        requires
            old(self).wf(),
            now + ttl <= u64::MAX,
        ensures
            final(self).wf(),
            !is_pending(final(self).pending(), fingerprint@),
            forall|other: Seq<char>|
                other != fingerprint@ ==> (is_pending(final(self).pending(), other) <==> is_pending(
                    old(self).pending(),
                    other,
                )),
            match result {
                Ok(v) => stored(old(self).cached(), fingerprint@, v@, (now + ttl) as u64, final(self).cached()),
                Err(_) => final(self).cached() == old(self).cached(),
            },
    {
        let fp = fingerprint.to_owned();
        match self.find_pending(&fp) {
            Some(i) => {
                let ghost before = self.in_flight@;
                self.in_flight.remove(i);
                assert forall|other: Seq<char>| other != fingerprint@ implies (is_pending(
                    self.in_flight@,
                    other,
                ) <==> is_pending(before, other)) by {
                    if is_pending(before, other) {
                        let k = choose|k: int| 0 <= k < before.len() && #[trigger] before[k]@ == other;
                        if k < i {
                            assert(self.in_flight@[k]@ == other);
                        } else {
                            assert(self.in_flight@[k - 1]@ == other);
                        }
                    }
                    if is_pending(self.in_flight@, other) {
                        let k = choose|k: int| 0 <= k < self.in_flight@.len() && #[trigger] self.in_flight@[k]@ == other;
                        if k < i {
                            assert(before[k]@ == other);
                        } else {
                            assert(before[k + 1]@ == other);
                        }
                    }
                }
                assert(!is_pending(self.in_flight@, fingerprint@)) by {
                    if is_pending(self.in_flight@, fingerprint@) {
                        let k = choose|k: int| 0 <= k < self.in_flight@.len() && #[trigger] self.in_flight@[k]@ == fingerprint@;
                        if k < i {
                            assert(before[k]@ == before[i as int]@);
                        } else {
                            assert(before[k + 1]@ == before[i as int]@);
                        }
                    }
                }
            },
            None => {},
        }
        match result {
            Ok(v) => {
                self.cache.put(fingerprint, copy_bytes(v), ttl, now);
            },
            Err(_) => {},
        }
    }
}

} // verus!
