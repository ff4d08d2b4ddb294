//! Time-limited response cache. Time is given in milliseconds on a monotonic
//! clock; the caller reads the clock and passes the reading in.
use vstd::prelude::*;
use vstd::string::*;

verus! {

/// Defines the behavior of the cache for an API call.
#[derive(Debug, Clone, Copy, PartialEq, Eq, Structural)]
pub enum CacheMode {
    /// Read a non-expired entry if present, else fetch and store. (Default)
    Use,
    /// Always fetch, bypassing any entry, and store the new response.
    Refresh,
    /// Always fetch, neither reading nor writing the cache.
    Bypass,
}

impl CacheMode {
    /// The default mode, `Use`.
    pub fn default_mode() -> (m: Self)
        ensures
            m == CacheMode::Use,
    {
        CacheMode::Use
    }
}

/// A cached body and the instant at which it expires.
#[derive(Debug, Clone)]
pub struct CacheEntry {
    pub body: String,
    pub expires_at_ms: u64,
}

/// The entry stored under `key`: the last one wins.
pub open spec fn entry_lookup(s: Seq<(String, CacheEntry)>, key: Seq<char>) -> Option<(Seq<char>, u64)>
    decreases s.len(),
{
    if s.len() == 0 {
        None
    } else if s.last().0@ == key {
        Some((s.last().1.body@, s.last().1.expires_at_ms))
    } else {
        entry_lookup(s.drop_last(), key)
    }
}

/// No key occurs twice.
pub open spec fn distinct_keys(s: Seq<(String, CacheEntry)>) -> bool {
    forall|i: int, j: int| 0 <= i < j < s.len() ==> s[i].0@ != s[j].0@
}

proof fn lemma_entry_lookup_push(s: Seq<(String, CacheEntry)>, e: (String, CacheEntry), k: Seq<char>)
    ensures
        entry_lookup(s.push(e), k) == if e.0@ == k {
            Some((e.1.body@, e.1.expires_at_ms))
        } else {
            entry_lookup(s, k)
        },
{
    assert(s.push(e).drop_last() =~= s);
}

/// With distinct keys, a key that occurs is found at its position, and a key
/// found occurs.
proof fn lemma_entry_lookup_index(s: Seq<(String, CacheEntry)>, k: Seq<char>)
    requires
        distinct_keys(s),
    ensures
        forall|i: int| 0 <= i < s.len() && s[i].0@ == k ==> entry_lookup(s, k) == Some((s[i].1.body@, s[i].1.expires_at_ms)),
        entry_lookup(s, k) is None <==> forall|i: int| 0 <= i < s.len() ==> s[i].0@ != k,
    decreases s.len(),
{
    if s.len() > 0 {
        let t = s.drop_last();
        assert(distinct_keys(t));
        lemma_entry_lookup_index(t, k);
        assert forall|i: int| 0 <= i < s.len() && s[i].0@ == k implies entry_lookup(s, k) == Some(
            (s[i].1.body@, s[i].1.expires_at_ms),
        ) by {
            if i < s.len() - 1 {
                assert(t[i] == s[i]);
            }
        }
        if s.last().0@ != k {
            assert forall|i: int| 0 <= i < t.len() implies t[i] == s[i] by {}
        }
    }
}

/// The cache's state.
#[derive(Debug)]
pub struct CacheInner {
    entries: Vec<(String, CacheEntry)>,
    default_ttl_ms: u64,
}

/// A cache entry is live at `now` while `now` has not passed its expiry.
pub open spec fn live_body(e: Option<(Seq<char>, u64)>, now: u64) -> Option<Seq<char>> {
    match e {
        Some((body, expires)) => if now <= expires {
            Some(body)
        } else {
            None
        },
        None => None,
    }
}

impl CacheInner {
    /// Distinct keys.
    pub closed spec fn wf(&self) -> bool {
        distinct_keys(self.entries@)
    }

    /// The stored body and expiry under `key`, expired or not.
    pub closed spec fn stored(&self, key: Seq<char>) -> Option<(Seq<char>, u64)> {
        entry_lookup(self.entries@, key)
    }

    /// The number of stored entries, expired ones included.
    pub closed spec fn size(&self) -> nat {
        self.entries@.len()
    }

    pub closed spec fn default_ttl(&self) -> u64 {
        self.default_ttl_ms
    }

    /// An empty cache whose entries live `default_ttl_ms` by default.
    pub fn new(default_ttl_ms: u64) -> (c: Self)
        ensures
            c.wf(),
            c.default_ttl() == default_ttl_ms,
            c.size() == 0,
            forall|k: Seq<char>| c.stored(k) is None,
    {
        CacheInner { entries: Vec::new(), default_ttl_ms }
    }

    /// The body under `key` if it has not expired at `now_ms`.
    pub fn get(&self, key: &str, now_ms: u64) -> (r: Option<String>)
        ensures
            match r {
                Some(b) => live_body(self.stored(key@), now_ms) == Some(b@),
                None => live_body(self.stored(key@), now_ms) is None,
            },
    {
        let k = String::from_str(key);
        let n = self.entries.len();
        let mut i = n;
        assert(self.entries@.take(n as int) =~= self.entries@);
        while i > 0
            invariant
                i <= n,
                n == self.entries@.len(),
                k@ == key@,
                entry_lookup(self.entries@, key@) == entry_lookup(self.entries@.take(i as int), key@),
            decreases i,
        {
            let ghost t = self.entries@.take(i as int);
            assert(t.drop_last() =~= self.entries@.take(i - 1));
            assert(t.last() == self.entries@[i - 1]);
            if self.entries[i - 1].0 == k {
                let e = &self.entries[i - 1].1;
                if now_ms <= e.expires_at_ms {
                    return Some(e.body.clone());
                } else {
                    return None;
                }
            }
            i = i - 1;
        }
        None
    }

    /// Stores `body` under `key`, replacing any entry there, to expire
    /// `ttl_override_ms` (or the default time to live) after `now_ms`.
    pub fn put(&mut self, key: &str, body: &str, ttl_override_ms: Option<u64>, now_ms: u64)
        requires
            old(self).wf(),
            now_ms + match ttl_override_ms {
                Some(t) => t,
                None => old(self).default_ttl(),
            } <= u64::MAX,
        ensures
            final(self).wf(),
            final(self).default_ttl() == old(self).default_ttl(),
            forall|k: Seq<char>| #[trigger]
                final(self).stored(k) == if k == key@ {
                    Some(
                        (
                            body@,
                            (now_ms + match ttl_override_ms {
                                Some(t) => t,
                                None => old(self).default_ttl(),
                            }) as u64,
                        ),
                    )
                } else {
                    old(self).stored(k)
                },
            final(self).size() == if old(self).stored(key@) is Some {
                old(self).size()
            } else {
                old(self).size() + 1
            },
    {
        let ttl = match ttl_override_ms {
            Some(t) => t,
            None => self.default_ttl_ms,
        };
        let expires_at_ms = now_ms + ttl;
        let name = String::from_str(key);
        let ghost old_e = self.entries@;
        let mut out: Vec<(String, CacheEntry)> = Vec::new();
        let n = self.entries.len();
        let mut found = false;
        let mut i: usize = 0;
        while i < n
            invariant
                n == self.entries@.len(),
                self.entries@ == old_e,
                distinct_keys(old_e),
                name@ == key@,
                i <= n,
                forall|k: Seq<char>| k != key@ ==> #[trigger] entry_lookup(out@, k) == entry_lookup(
                    old_e.take(i as int),
                    k,
                ),
                forall|a: int| 0 <= a < out.len() ==> (#[trigger] out@[a]).0@ != key@,
                distinct_keys(out@),
                forall|a: int, j: int|
                    0 <= a < out.len() && i <= j < n ==> (#[trigger] out@[a]).0@ != (#[trigger] old_e[j]).0@,
                found <==> exists|j: int| 0 <= j < i && old_e[j].0@ == key@,
                out@.len() == i - (if found { 1int } else { 0int }),
            decreases n - i,
        {
            let same = self.entries[i].0 == name;
            let ghost prev = out@;
            if !same {
                let entry = (
                    self.entries[i].0.clone(),
                    CacheEntry {
                        body: self.entries[i].1.body.clone(),
                        expires_at_ms: self.entries[i].1.expires_at_ms,
                    },
                );
                out.push(entry);
                proof {
                    assert forall|k: Seq<char>| k != key@ implies #[trigger] entry_lookup(out@, k)
                        == entry_lookup(old_e.take(i + 1), k) by {
                        lemma_entry_lookup_push(prev, entry, k);
                        assert(old_e.take(i + 1) =~= old_e.take(i as int).push(old_e[i as int]));
                        lemma_entry_lookup_push(old_e.take(i as int), old_e[i as int], k);
                    }
                    assert(found <==> exists|j: int| 0 <= j < i + 1 && old_e[j].0@ == key@);
                }
            } else {
                proof {
                    assert forall|k: Seq<char>| k != key@ implies #[trigger] entry_lookup(out@, k)
                        == entry_lookup(old_e.take(i + 1), k) by {
                        assert(old_e.take(i + 1) =~= old_e.take(i as int).push(old_e[i as int]));
                        lemma_entry_lookup_push(old_e.take(i as int), old_e[i as int], k);
                    }
                    if found {
                        let j = choose|j: int| 0 <= j < i && old_e[j].0@ == key@;
                        assert(old_e[j].0@ == old_e[i as int].0@);
                    }
                }
                found = true;
            }
            i = i + 1;
        }
        let ghost prev = out@;
        let entry = (name, CacheEntry { body: String::from_str(body), expires_at_ms });
        out.push(entry);
        proof {
            assert(old_e.take(n as int) =~= old_e);
            assert forall|k: Seq<char>| #[trigger]
                entry_lookup(out@, k) == if k == key@ {
                    Some((body@, expires_at_ms))
                } else {
                    entry_lookup(old_e, k)
                } by {
                lemma_entry_lookup_push(prev, entry, k);
            }
            lemma_entry_lookup_index(old_e, key@);
            if entry_lookup(old_e, key@) is Some {
                let j = choose|j: int| 0 <= j < n && old_e[j].0@ == key@;
            }
        }
        self.entries = out;
    }

    /// Drops every entry that has expired at `now_ms`.
    pub fn clear_expired(&mut self, now_ms: u64)
        requires
            old(self).wf(),
        ensures
            final(self).wf(),
            final(self).default_ttl() == old(self).default_ttl(),
            forall|k: Seq<char>| #[trigger]
                final(self).stored(k) == match old(self).stored(k) {
                    Some((b, e)) => if e > now_ms {
                        Some((b, e))
                    } else {
                        None
                    },
                    None => None,
                },
    {
        let ghost old_e = self.entries@;
        let mut out: Vec<(String, CacheEntry)> = Vec::new();
        let n = self.entries.len();
        let mut i: usize = 0;
        while i < n
            invariant
                n == self.entries@.len(),
                self.entries@ == old_e,
                distinct_keys(old_e),
                i <= n,
                distinct_keys(out@),
                forall|a: int, j: int|
                    0 <= a < out.len() && i <= j < n ==> (#[trigger] out@[a]).0@ != (#[trigger] old_e[j]).0@,
                forall|k: Seq<char>| #[trigger] entry_lookup(out@, k) == match entry_lookup(
                    old_e.take(i as int),
                    k,
                ) {
                    Some((b, e)) => if e > now_ms {
                        Some((b, e))
                    } else {
                        None
                    },
                    None => None,
                },
            decreases n - i,
        {
            let ghost prev = out@;
            assert(old_e.take(i + 1) =~= old_e.take(i as int).push(old_e[i as int]));
            if self.entries[i].1.expires_at_ms > now_ms {
                let entry = (
                    self.entries[i].0.clone(),
                    CacheEntry {
                        body: self.entries[i].1.body.clone(),
                        expires_at_ms: self.entries[i].1.expires_at_ms,
                    },
                );
                out.push(entry);
                proof {
                    assert forall|k: Seq<char>| #[trigger] entry_lookup(out@, k) == match entry_lookup(
                        old_e.take(i + 1),
                        k,
                    ) {
                        Some((b, e)) => if e > now_ms {
                            Some((b, e))
                        } else {
                            None
                        },
                        None => None,
                    } by {
                        lemma_entry_lookup_push(prev, entry, k);
                        lemma_entry_lookup_push(old_e.take(i as int), old_e[i as int], k);
                    }
                }
            } else {
                proof {
                    assert forall|k: Seq<char>| #[trigger] entry_lookup(out@, k) == match entry_lookup(
                        old_e.take(i + 1),
                        k,
                    ) {
                        Some((b, e)) => if e > now_ms {
                            Some((b, e))
                        } else {
                            None
                        },
                        None => None,
                    } by {
                        lemma_entry_lookup_push(old_e.take(i as int), old_e[i as int], k);
                        if old_e[i as int].0@ == k {
                            lemma_entry_lookup_index(old_e.take(i as int), k);
                            assert forall|a: int| 0 <= a < i implies old_e.take(i as int)[a].0@ != k by {
                                assert(old_e[a].0@ != old_e[i as int].0@);
                            }
                            lemma_entry_lookup_index(prev, k);
                            assert forall|a: int| 0 <= a < prev.len() implies prev[a].0@ != k by {
                                assert(prev[a].0@ != old_e[i as int].0@);
                            }
                        }
                    }
                }
            }
            i = i + 1;
        }
        assert(old_e.take(n as int) =~= old_e);
        self.entries = out;
    }

    /// Drops every entry.
    pub fn clear(&mut self)
        ensures
            final(self).wf(),
            final(self).default_ttl() == old(self).default_ttl(),
            final(self).size() == 0,
            forall|k: Seq<char>| final(self).stored(k) is None,
    {
        self.entries = Vec::new();
    }

    /// The number of entries, expired ones included.
    pub fn len(&self) -> (n: usize)
        ensures
            n == self.size(),
    {
        self.entries.len()
    }

    /// Whether entries live no time by default (a disabled cache).
    pub fn is_disabled(&self) -> (r: bool)
        ensures
            r == (self.default_ttl() == 0),
    {
        self.default_ttl_ms == 0
    }
}

} // verus!

verus! {

/// The time to live a put gives: the override, else the default.
pub open spec fn ttl_of(default_ttl: u64, ttl_override: Option<u64>) -> u64 {
    match ttl_override {
        Some(t) => t,
        None => default_ttl,
    }
}

/// Response cache; a cache whose default time to live is zero is disabled
/// and stores nothing.
#[derive(Debug)]
pub struct CacheStore {
    inner: CacheInner,
}

impl CacheStore {
    pub closed spec fn wf(&self) -> bool {
        self.inner.wf()
    }

    /// The stored body and expiry under `key`, expired or not.
    pub closed spec fn stored(&self, key: Seq<char>) -> Option<(Seq<char>, u64)> {
        self.inner.stored(key)
    }

    pub closed spec fn size(&self) -> nat {
        self.inner.size()
    }

    pub closed spec fn default_ttl(&self) -> u64 {
        self.inner.default_ttl()
    }

    /// An empty cache whose entries live `default_ttl_ms` by default.
    pub fn new(default_ttl_ms: u64) -> (c: Self)
        ensures
            c.wf(),
            c.default_ttl() == default_ttl_ms,
            c.size() == 0,
            forall|k: Seq<char>| c.stored(k) is None,
    {
        CacheStore { inner: CacheInner::new(default_ttl_ms) }
    }

    /// An empty cache whose entries live five minutes.
    pub fn with_default_ttl() -> (c: Self)
        ensures
            c.wf(),
            c.default_ttl() == 300_000,
            c.size() == 0,
            forall|k: Seq<char>| c.stored(k) is None,
    {
        Self::new(300_000)
    }

    /// A disabled cache.
    pub fn disabled() -> (c: Self)
        ensures
            c.wf(),
            c.default_ttl() == 0,
            c.size() == 0,
            forall|k: Seq<char>| c.stored(k) is None,
    {
        Self::new(0)
    }

    /// The body under `key` if it has not expired at `now_ms`.
    pub fn get(&self, key: &str, now_ms: u64) -> (r: Option<String>)
        ensures
            match r {
                Some(b) => live_body(self.stored(key@), now_ms) == Some(b@),
                None => live_body(self.stored(key@), now_ms) is None,
            },
    {
        self.inner.get(key, now_ms)
    }

    /// Stores `body` under `key` to expire the time to live after `now_ms`;
    /// a disabled cache ignores the call.
    pub fn put(&mut self, key: &str, body: &str, ttl_override_ms: Option<u64>, now_ms: u64)
        requires
            old(self).wf(),
            old(self).default_ttl() != 0 ==> now_ms + ttl_of(old(self).default_ttl(), ttl_override_ms)
                <= u64::MAX,
        ensures
            final(self).wf(),
            final(self).default_ttl() == old(self).default_ttl(),
            old(self).default_ttl() == 0 ==> final(self).size() == old(self).size() && forall|
                k: Seq<char>,
            | #[trigger] final(self).stored(k) == old(self).stored(k),
            old(self).default_ttl() != 0 ==> forall|k: Seq<char>| #[trigger]
                final(self).stored(k) == if k == key@ {
                    Some((body@, (now_ms + ttl_of(old(self).default_ttl(), ttl_override_ms)) as u64))
                } else {
                    old(self).stored(k)
                },
            old(self).default_ttl() != 0 ==> final(self).stored(key@) == Some(
                (
                    body@,
                    (now_ms + match ttl_override_ms {
                        Some(t) => t,
                        None => old(self).default_ttl(),
                    }) as u64,
                ),
            ),
    {
        if self.inner.is_disabled() {
            return;
        }
        self.inner.put(key, body, ttl_override_ms, now_ms);
    }

    /// Drops every entry that has expired at `now_ms`.
    pub fn clear_expired(&mut self, now_ms: u64)
        requires
            old(self).wf(),
        ensures
            final(self).wf(),
            final(self).default_ttl() == old(self).default_ttl(),
            forall|k: Seq<char>| #[trigger]
                final(self).stored(k) == match old(self).stored(k) {
                    Some((b, e)) => if e > now_ms {
                        Some((b, e))
                    } else {
                        None
                    },
                    None => None,
                },
    {
        self.inner.clear_expired(now_ms);
    }

    /// Drops every entry.
    pub fn clear(&mut self)
        ensures
            final(self).wf(),
            final(self).default_ttl() == old(self).default_ttl(),
            final(self).size() == 0,
            forall|k: Seq<char>| final(self).stored(k) is None,
    {
        self.inner.clear();
    }

    /// The number of entries, expired ones included.
    pub fn len(&self) -> (n: usize)
        ensures
            n == self.size(),
    {
        self.inner.len()
    }

    /// Whether the cache is disabled.
    pub fn is_disabled(&self) -> (r: bool)
        ensures
            r == (self.default_ttl() == 0),
    {
        self.inner.is_disabled()
    }

    /// The time to live of entries stored without an override.
    pub fn default_ttl_ms(&self) -> (t: u64)
        ensures
            t == self.default_ttl(),
    {
        self.inner.default_ttl_ms
    }
}

/// Read after write: a body stored at `now` with time to live `ttl` is what a
/// read returns at any time up to `now + ttl`, and other keys read as before.
pub proof fn law_read_after_write(
    before: CacheStore,
    after: CacheStore,
    key: Seq<char>,
    body: Seq<char>,
    ttl: u64,
    now: u64,
    later: u64,
)
    requires
        now + ttl <= u64::MAX,
        forall|k: Seq<char>| #[trigger]
            after.stored(k) == if k == key {
                Some((body, (now + ttl) as u64))
            } else {
                before.stored(k)
            },
    ensures
        now <= later <= now + ttl ==> live_body(after.stored(key), later) == Some(body),
        later > now + ttl ==> live_body(after.stored(key), later) is None,
        forall|k: Seq<char>| k != key ==> live_body(after.stored(k), later) == live_body(before.stored(k), later),
{
    assert(after.stored(key) == Some((body, (now + ttl) as u64)));
}

/// Dropping expired entries at `now` changes no read at `now`, except for an
/// entry that expires exactly at `now`: a read still returns it, but the
/// clean-up drops it.
pub proof fn law_clear_expired_keeps_reads(before: CacheStore, after: CacheStore, now: u64)
    requires
        forall|k: Seq<char>| #[trigger]
            after.stored(k) == match before.stored(k) {
                Some((b, e)) => if e > now {
                    Some((b, e))
                } else {
                    None
                },
                None => None,
            },
    ensures
        forall|k: Seq<char>|
            !(before.stored(k) matches Some((_, e)) && e == now) ==> #[trigger] live_body(
                after.stored(k),
                now,
            ) == live_body(before.stored(k), now),
        forall|k: Seq<char>| #[trigger] after.stored(k) is Some ==> after.stored(k).unwrap().1 > now,
{
    assert forall|k: Seq<char>|
        !(before.stored(k) matches Some((_, e)) && e == now) implies #[trigger] live_body(
            after.stored(k),
            now,
        ) == live_body(before.stored(k), now) by {
        assert(after.stored(k) == match before.stored(k) {
            Some((b, e)) => if e > now {
                Some((b, e))
            } else {
                None
            },
            None => None,
        });
    }
    assert forall|k: Seq<char>| #[trigger] after.stored(k) is Some implies after.stored(k).unwrap().1 > now by {
        assert(after.stored(k) == match before.stored(k) {
            Some((b, e)) => if e > now {
                Some((b, e))
            } else {
                None
            },
            None => None,
        });
    }
}


/// A time-to-live override wins over the default, longer or shorter: a put
/// with override `t` on an enabled cache stores its body to expire at
/// `now + t`, so a read at any time up to then returns it and a later read
/// does not; a put without one expires at `now` plus the default.
pub proof fn law_override_sets_expiry(
    before: CacheStore,
    after: CacheStore,
    key: Seq<char>,
    body: Seq<char>,
    ttl_override: Option<u64>,
    now: u64,
    later: u64,
)
    requires
        before.default_ttl() != 0,
        now + ttl_of(before.default_ttl(), ttl_override) <= u64::MAX,
        forall|k: Seq<char>| #[trigger]
            after.stored(k) == if k == key {
                Some((body, (now + ttl_of(before.default_ttl(), ttl_override)) as u64))
            } else {
                before.stored(k)
            },
    ensures
        ttl_override matches Some(t) ==> after.stored(key) == Some((body, (now + t) as u64)),
        ttl_override matches Some(t) ==> (now <= later <= now + t ==> live_body(after.stored(key), later)
            == Some(body)),
        ttl_override matches Some(t) ==> (later > now + t ==> live_body(after.stored(key), later) is None),
        ttl_override is None ==> after.stored(key) == Some(
            (body, (now + before.default_ttl()) as u64),
        ),
{
    assert(after.stored(key) == Some((body, (now + ttl_of(before.default_ttl(), ttl_override)) as u64)));
}

} // verus!
