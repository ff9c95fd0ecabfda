use vstd::prelude::*;

verus! {

/// Whether the glob `p` matches the whole of `k`; a `*` in `p` stands for any
/// run of characters, every other character for itself.
pub open spec fn glob_matches(p: Seq<char>, k: Seq<char>) -> bool
    decreases p.len() + k.len(),
{
    if p.len() == 0 {
        k.len() == 0
    } else if p[0] == '*' {
        glob_matches(p.drop_first(), k) || (k.len() > 0 && glob_matches(p, k.drop_first()))
    } else {
        k.len() > 0 && p[0] == k[0] && glob_matches(p.drop_first(), k.drop_first())
    }
}

/// The characters of `s`, one by one.
pub fn chars_of(s: &str) -> (r: Vec<char>)
    ensures
        r@ == s@,
{
    let n = s.unicode_len();
    let mut r: Vec<char> = Vec::new();
    let mut i: usize = 0;
    while i < n
        invariant
            n == s@.len(),
            0 <= i <= n,
            r@ == s@.subrange(0, i as int),
        decreases n - i,
    {
        r.push(s.get_char(i));
        i += 1;
    }
    assert(r@ == s@);
    r
}

fn glob_from(p: &Vec<char>, k: &Vec<char>, i: usize, j: usize) -> (r: bool)
    requires
        i <= p@.len(),
        j <= k@.len(),
    ensures
        r == glob_matches(p@.subrange(i as int, p@.len() as int), k@.subrange(j as int, k@.len() as int)),
    decreases p@.len() - i + k@.len() - j,
{
    let ghost ps = p@.subrange(i as int, p@.len() as int);
    let ghost ks = k@.subrange(j as int, k@.len() as int);
    if i == p.len() {
        return j == k.len();
    }
    assert(ps.drop_first() == p@.subrange(i + 1, p@.len() as int));
    if j < k.len() {
        assert(ks.drop_first() == k@.subrange(j + 1, k@.len() as int));
    }
    if p[i] == '*' {
        if glob_from(p, k, i + 1, j) {
            true
        } else if j < k.len() {
            glob_from(p, k, i, j + 1)
        } else {
            false
        }
    } else {
        j < k.len() && p[i] == k[j] && glob_from(p, k, i + 1, j + 1)
    }
}

/// Whether the glob `pattern` matches the whole of `key`.
pub fn glob_match(pattern: &str, key: &str) -> (r: bool)
    ensures
        r == glob_matches(pattern@, key@),
{
    let p = chars_of(pattern);
    let k = chars_of(key);
    let r = glob_from(&p, &k, 0, 0);
    assert(p@.subrange(0, p@.len() as int) == p@);
    assert(k@.subrange(0, k@.len() as int) == k@);
    r
}

/// A stored response: its key, its bytes, and the instant from which it is stale.
#[derive(Clone, Debug, PartialEq, Eq)]
pub struct CacheEntry {
    pub key: String,
    pub payload: Vec<u8>,
    pub expires_at: u64,
}

/// The entry that answers for `k` in `s`: the one stored last under that key.
pub open spec fn entry_for(s: Seq<CacheEntry>, k: Seq<char>) -> Option<CacheEntry>
    decreases s.len(),
{
    if s.len() == 0 {
        None
    } else if s.last().key@ == k {
        Some(s.last())
    } else {
        entry_for(s.drop_last(), k)
    }
}

/// What a lookup of `k` at instant `now` returns: the payload of its entry while
/// that entry has not expired.
pub open spec fn fresh_payload(s: Seq<CacheEntry>, k: Seq<char>, now: u64) -> Option<Seq<u8>> {
    match entry_for(s, k) {
        Some(e) => if now < e.expires_at {
            Some(e.payload@)
        } else {
            None
        },
        None => None,
    }
}

/// Whether a removal by `p` takes the key `k`: by equality when `exact`,
/// else by glob.
pub open spec fn selects(p: Seq<char>, exact: bool, k: Seq<char>) -> bool {
    if exact {
        k == p
    } else {
        glob_matches(p, k)
    }
}

/// `s` without the entries whose key `p` selects, the others kept in order.
pub open spec fn without(s: Seq<CacheEntry>, p: Seq<char>, exact: bool) -> Seq<CacheEntry>
    decreases s.len(),
{
    if s.len() == 0 {
        s
    } else if selects(p, exact, s.last().key@) {
        without(s.drop_last(), p, exact)
    } else {
        without(s.drop_last(), p, exact).push(s.last())
    }
}

pub proof fn lemma_entry_for_without(s: Seq<CacheEntry>, p: Seq<char>, exact: bool, k: Seq<char>)
    ensures
        entry_for(without(s, p, exact), k) == if selects(p, exact, k) {
            None
        } else {
            entry_for(s, k)
        },
    decreases s.len(),
{
    if s.len() > 0 {
        lemma_entry_for_without(s.drop_last(), p, exact, k);
        if !selects(p, exact, s.last().key@) {
            let w = without(s.drop_last(), p, exact);
            assert(w.push(s.last()).drop_last() == w);
        }
    }
}

pub(crate) fn copy_bytes(v: &Vec<u8>) -> (r: Vec<u8>)
    ensures
        r@ == v@,
{
    let mut r: Vec<u8> = Vec::new();
    let mut i: usize = 0;
    while i < v.len()
        invariant
            0 <= i <= v@.len(),
            r@ == v@.subrange(0, i as int),
        decreases v@.len() - i,
    {
        r.push(v[i]);
        i += 1;
    }
    assert(r@ == v@);
    r
}

/// A keyed store of responses, each with its own expiry instant.
pub struct ResponseCache {
    entries: Vec<CacheEntry>,
}

impl View for ResponseCache {
    type V = Seq<CacheEntry>;

    closed spec fn view(&self) -> Seq<CacheEntry> {
        self.entries@
    }
}

impl ResponseCache {
    pub fn new() -> (r: Self)
        ensures
            r@ == Seq::<CacheEntry>::empty(),
    {
        ResponseCache { entries: Vec::new() }
    }

    /// Where the entry that answers for `key` stands, if there is one.
    fn position_of_key(&self, key: &String) -> (r: Option<usize>)
        ensures
            match r {
                Some(i) => i < self@.len() && entry_for(self@, key@) == Some(self@[i as int]),
                None => entry_for(self@, key@) is None,
            },
    {
        let mut j: usize = self.entries.len();
        assert(self@.subrange(0, j as int) == self@);
        while j > 0
            invariant
                0 <= j <= self@.len(),
                entry_for(self@, key@) == entry_for(self@.subrange(0, j as int), key@),
            decreases j,
        {
            let ghost sub = self@.subrange(0, j as int);
            assert(sub.last() == self@[j - 1]);
            if self.entries[j - 1].key == *key {
                return Some(j - 1);
            }
            assert(sub.drop_last() == self@.subrange(0, j - 1));
            j -= 1;
        }
        None
    }

    /// The payload stored under `key`, if its entry has not expired at `now`.
    /// An expired entry is dropped on the way.
    pub fn get(&mut self, key: &str, now: u64) -> (r: Option<Vec<u8>>)
        ensures
            match r {
                Some(v) => fresh_payload(old(self)@, key@, now) == Some(v@),
                None => fresh_payload(old(self)@, key@, now) is None,
            },
            fresh_payload(old(self)@, key@, now) is Some ==> final(self)@ == old(self)@,
            fresh_payload(old(self)@, key@, now) is None ==> final(self)@ == without(
                old(self)@,
                key@,
                true,
            ),
    {
        let k = key.to_owned();
        match self.position_of_key(&k) {
            Some(i) => {
                if now < self.entries[i].expires_at {
                    Some(copy_bytes(&self.entries[i].payload))
                } else {
                    self.remove_selected(key, true);
                    None
                }
            },
            None => {
                self.remove_selected(key, true);
                proof {
                    lemma_without_absent(old(self)@, key@);
                }
                None
            },
        }
    }

    /// Stores `payload` under `key`, to expire `ttl` after `now`; an earlier
    /// entry under that key is replaced.
    pub fn put(&mut self, key: &str, payload: Vec<u8>, ttl: u64, now: u64)
        requires
            now + ttl <= u64::MAX,
        ensures
            stored(old(self)@, key@, payload@, (now + ttl) as u64, final(self)@),
    {
        self.remove_selected(key, true);
        let ghost kept = self@;
        self.entries.push(CacheEntry { key: key.to_owned(), payload, expires_at: now + ttl });
        assert(self@.drop_last() == kept);
    }

    /// Drops every entry whose key the glob `pattern` matches, and only those.
    pub fn clear_pattern(&mut self, pattern: &str)
        ensures
            final(self)@ == without(old(self)@, pattern@, false),
            forall|k: Seq<char>| #[trigger]
                entry_for(final(self)@, k) == if glob_matches(pattern@, k) {
                    None
                } else {
                    entry_for(old(self)@, k)
                },
    {
        self.remove_selected(pattern, false);
        assert forall|k: Seq<char>| #[trigger]
            entry_for(self@, k) == if glob_matches(pattern@, k) {
                None
            } else {
                entry_for(old(self)@, k)
            } by {
            lemma_entry_for_without(old(self)@, pattern@, false, k);
        }
    }

    /// Drops every entry whose key `p` selects.
    fn remove_selected(&mut self, p: &str, exact: bool)
        ensures
            final(self)@ == without(old(self)@, p@, exact),
    {
        let key = p.to_owned();
        let mut i: usize = 0;
        while i < self.entries.len()
            invariant
                key@ == p@,
                0 <= i <= self.entries@.len(),
                without(self.entries@, p@, exact) == without(old(self)@, p@, exact),
                forall|j: int| 0 <= j < i ==> !selects(p@, exact, #[trigger] self.entries@[j].key@),
            decreases self.entries@.len() - i,
        {
            let hit = if exact {
                self.entries[i].key == key
            } else {
                glob_match(p, self.entries[i].key.as_str())
            };
            if hit {
                proof {
                    lemma_without_remove(self.entries@, p@, exact, i as int);
                }
                self.entries.remove(i);
            } else {
                i += 1;
            }
        }
        proof {
            lemma_without_none_selected(self.entries@, p@, exact);
        }
    }
}

/// `after` is `before` once `payload` has been put under `key`, to expire at `expires_at`.
pub open spec fn stored(
    before: Seq<CacheEntry>,
    key: Seq<char>,
    payload: Seq<u8>,
    expires_at: u64,
    after: Seq<CacheEntry>,
) -> bool {
    &&& after.len() > 0
    &&& after.drop_last() == without(before, key, true)
    &&& after.last().key@ == key
    &&& after.last().payload@ == payload
    &&& after.last().expires_at == expires_at
}

/// Removing a key that has no entry changes nothing.
pub proof fn lemma_without_absent(s: Seq<CacheEntry>, key: Seq<char>)
    requires
        entry_for(s, key) is None,
    ensures
        without(s, key, true) == s,
    decreases s.len(),
{
    if s.len() > 0 {
        lemma_without_absent(s.drop_last(), key);
        assert(s.drop_last().push(s.last()) == s);
    }
}

/// A put is seen by every later lookup of its key until it expires, and by none
/// after; lookups of other keys see what they saw before it.
pub proof fn lemma_get_after_put(
    before: Seq<CacheEntry>,
    key: Seq<char>,
    payload: Seq<u8>,
    put_at: u64,
    ttl: u64,
    after: Seq<CacheEntry>,
    now: u64,
    other: Seq<char>,
)
    requires
        put_at + ttl <= u64::MAX,
        stored(before, key, payload, (put_at + ttl) as u64, after),
        put_at <= now,
    ensures
        now < put_at + ttl ==> fresh_payload(after, key, now) == Some(payload),
        now >= put_at + ttl ==> fresh_payload(after, key, now) is None,
        other != key ==> fresh_payload(after, other, now) == fresh_payload(before, other, now),
{
    lemma_entry_for_without(before, key, true, other);
}

pub proof fn lemma_without_add(a: Seq<CacheEntry>, b: Seq<CacheEntry>, p: Seq<char>, exact: bool)
    ensures
        without(a + b, p, exact) == without(a, p, exact) + without(b, p, exact),
    decreases b.len(),
{
    if b.len() == 0 {
        assert(a + b == a);
        assert(without(b, p, exact) == b);
    } else {
        lemma_without_add(a, b.drop_last(), p, exact);
        assert((a + b).drop_last() == a + b.drop_last());
        assert((a + b).last() == b.last());
        let x = without(a, p, exact);
        let y = without(b.drop_last(), p, exact);
        assert((x + y).push(b.last()) == x + y.push(b.last()));
    }
}

pub proof fn lemma_without_remove(s: Seq<CacheEntry>, p: Seq<char>, exact: bool, i: int)
    requires
        0 <= i < s.len(),
        selects(p, exact, s[i].key@),
    ensures
        without(s.remove(i), p, exact) == without(s, p, exact),
{
    let a = s.subrange(0, i);
    let b = s.subrange(i + 1, s.len() as int);
    let x = seq![s[i]];
    assert(s == a + x + b);
    assert(s.remove(i) == a + b);
    lemma_without_add(a + x, b, p, exact);
    lemma_without_add(a, x, p, exact);
    lemma_without_add(a, b, p, exact);
    assert(x.drop_last() == Seq::<CacheEntry>::empty());
    assert(x.last() == s[i]);
    assert(without(x.drop_last(), p, exact) == Seq::<CacheEntry>::empty());
    assert(without(x, p, exact) == Seq::<CacheEntry>::empty());
    assert(without(a, p, exact) + Seq::<CacheEntry>::empty() == without(a, p, exact));
}

pub proof fn lemma_without_none_selected(s: Seq<CacheEntry>, p: Seq<char>, exact: bool)
    requires
        forall|j: int| 0 <= j < s.len() ==> !selects(p, exact, #[trigger] s[j].key@),
    ensures
        without(s, p, exact) == s,
    decreases s.len(),
{
    if s.len() > 0 {
        let t = s.drop_last();
        assert forall|j: int| 0 <= j < t.len() implies !selects(p, exact, #[trigger] t[j].key@) by {
            assert(t[j] == s[j]);
        }
        lemma_without_none_selected(t, p, exact);
        assert(!selects(p, exact, s[s.len() - 1].key@));
        assert(t.push(s.last()) == s);
    }
}

} // verus!
