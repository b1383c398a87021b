//! Tenant resolution: hostname normalization, the static tenant directory,
//! and a bounded, time-expiring read-through cache in front of it.

use vstd::prelude::*;
use crate::config::{CacheConfig, DomainConfig, DomainConfigModel, invert, keys_of, vals_of};
use crate::error::ProxyError;
use crate::text::{chars_eq_str, chars_to_string, starts_with_chars, starts_with_lit, str_to_chars};

verus! {

/// The label stripped from the front of a hostname before lookup.
pub open spec fn www_prefix() -> Seq<char> {
    seq!['w', 'w', 'w', '.']
}

/// `h` with one leading `www.` label removed, if present.
pub open spec fn normalize_host(h: Seq<char>) -> Seq<char> {
    if starts_with_lit(h, www_prefix()) {
        h.skip(4)
    } else {
        h
    }
}

/// The tenant directory as a sequence of (hostname, tenant model) pairs.
pub type DirModel = Seq<(Seq<char>, DomainConfigModel)>;

/// The tenant bound to `k` by the first directory pair that carries it.
pub open spec fn dir_get(d: DirModel, k: Seq<char>) -> Option<DomainConfigModel>
    decreases d.len(),
{
    if d.len() == 0 {
        None
    } else if d[0].0 == k {
        Some(d[0].1)
    } else {
        dir_get(d.drop_first(), k)
    }
}

/// `m` with its derived fields recomputed from `slug_to_page`.
pub open spec fn with_derived(m: DomainConfigModel) -> DomainConfigModel {
    DomainConfigModel {
        page_to_slug: invert(m.slug_to_page),
        slugs: keys_of(m.slug_to_page),
        pages: vals_of(m.slug_to_page),
        ..m
    }
}

/// What resolution returns for hostname `h` against directory `d`: the
/// directory entry under the normalized hostname, with derived fields
/// computed, or nothing.
pub open spec fn resolve_model(d: DirModel, h: Seq<char>) -> Option<DomainConfigModel> {
    match dir_get(d, normalize_host(h)) {
        Some(m) => Some(with_derived(m)),
        None => None,
    }
}

/// Resolving a hostname and resolving the same hostname with a `www.`
/// label prepended return the same outcome, for every hostname that does
/// not itself start with `www.`.
pub proof fn lemma_resolve_www_insensitive(d: DirModel, h: Seq<char>)
    requires
        !starts_with_lit(h, www_prefix()),
    ensures
        resolve_model(d, www_prefix() + h) == resolve_model(d, h),
{
    let wh = www_prefix() + h;
    assert(wh.subrange(0, 4) =~= www_prefix());
    assert(wh.skip(4) =~= h);
}

/// One cached resolution: the normalized hostname, the tenant snapshot,
/// and the moment the entry stops being served.
pub struct CacheEntry {
    pub host: String,
    pub config: DomainConfig,
    pub expires_at: u64,
}

/// No two entries carry the same hostname.
pub open spec fn hosts_unique(s: Seq<CacheEntry>) -> bool {
    forall|i: int, j: int|
        0 <= i < j < s.len() ==> (#[trigger] s[i]).host@ != (#[trigger] s[j]).host@
}

/// Removing the entry at `k` keeps hostnames unique, keeps only entries
/// that were present, and leaves no entry with the removed hostname.
proof fn lemma_remove_entry(s: Seq<CacheEntry>, k: int)
    requires
        0 <= k < s.len(),
        hosts_unique(s),
    ensures
        hosts_unique(s.remove(k)),
        forall|a: int|
            0 <= a < s.remove(k).len() ==> exists|j: int|
                0 <= j < s.len() && #[trigger] s.remove(k)[a] == s[j],
        forall|a: int|
            0 <= a < s.remove(k).len() ==> (#[trigger] s.remove(k)[a]).host@ != s[k].host@,
        forall|j: int| 0 <= j < k ==> s.remove(k)[j] == #[trigger] s[j],
        forall|j: int| k < j < s.len() ==> s.remove(k)[j - 1] == #[trigger] s[j],
{
    s.remove_ensures(k);
    let t = s.remove(k);
    assert forall|a: int| 0 <= a < t.len() implies exists|j: int|
        0 <= j < s.len() && #[trigger] t[a] == s[j] by {
        if a < k {
            assert(t[a] == s[a]);
        } else {
            assert(t[a] == s[a + 1]);
        }
    }
    assert forall|a: int| 0 <= a < t.len() implies (#[trigger] t[a]).host@ != s[k].host@ by {
        if a < k {
            assert(t[a] == s[a]);
        } else {
            assert(t[a] == s[a + 1]);
        }
    }
    assert forall|a: int, b: int| 0 <= a < b < t.len() implies (#[trigger] t[a]).host@ != (
    #[trigger] t[b]).host@ by {
        if b < k {
            assert(t[a] == s[a] && t[b] == s[b]);
        } else if a < k {
            assert(t[a] == s[a] && t[b] == s[b + 1]);
        } else {
            assert(t[a] == s[a + 1] && t[b] == s[b + 1]);
        }
    }
}

/// A bounded key-value store over normalized hostnames with per-entry
/// expiry; least-recently-inserted entries leave first under capacity
/// pressure.
pub struct ResolutionCache {
    pub entries: Vec<CacheEntry>,
    pub max_capacity: u64,
    pub time_to_live_secs: u64,
}

impl ResolutionCache {
    /// Hostnames are unique and the entry count stays within capacity.
    pub open spec fn wf(self) -> bool {
        &&& hosts_unique(self.entries@)
        &&& self.entries@.len() <= self.max_capacity
    }

    /// An empty cache with the given bounds.
    pub fn new(cfg: &CacheConfig) -> (r: Self)
        ensures
            r.wf(),
            r.entries@.len() == 0,
            r.max_capacity == cfg.max_capacity,
            r.time_to_live_secs == cfg.time_to_live_secs,
    {
        ResolutionCache {
            entries: Vec::new(),
            max_capacity: cfg.max_capacity,
            time_to_live_secs: cfg.time_to_live_secs,
        }
    }

    /// The entry stored under `host` that is still live at `now`, if any:
    /// a miss means every entry under that hostname has expired or none
    /// exists.
    pub fn lookup(&self, host: &[char], now: u64) -> (r: Option<&DomainConfig>)
        ensures
            r matches Some(c) ==> exists|i: int|
                0 <= i < self.entries@.len() && (#[trigger] self.entries@[i]).host@ == host@ && now
                    < self.entries@[i].expires_at && c@ == self.entries@[i].config@,
            r is None ==> forall|i: int|
                0 <= i < self.entries@.len() && (#[trigger] self.entries@[i]).host@ == host@ ==> now
                    >= self.entries@[i].expires_at,
    {
        let n = self.entries.len();
        let mut i: usize = 0;
        while i < n
            invariant
                n == self.entries@.len(),
                0 <= i <= n,
                forall|k: int|
                    0 <= k < i && (#[trigger] self.entries@[k]).host@ == host@ ==> now
                        >= self.entries@[k].expires_at,
            decreases n - i,
        {
            if chars_eq_str(host, self.entries[i].host.as_str()) && now
                < self.entries[i].expires_at {
                return Some(&self.entries[i].config);
            }
            i = i + 1;
        }
        None
    }

    /// Stores `config` under `host`, evicting first any entry with the same
    /// hostname and then, at capacity, the least recently inserted entry.
    /// Every surviving entry was already present; when the capacity is not
    /// zero the new entry is present afterwards.
    pub fn insert(&mut self, host: String, config: DomainConfig, now: u64)
        requires
            old(self).wf(),
        ensures
            final(self).wf(),
            final(self).max_capacity == old(self).max_capacity,
            final(self).time_to_live_secs == old(self).time_to_live_secs,
            forall|i: int|
                0 <= i < final(self).entries@.len() ==> (exists|j: int|
                    0 <= j < old(self).entries@.len() && #[trigger] final(self).entries@[i] == old(
                    self).entries@[j]) || ((final(self).entries@[i]).host@ == host@ && (final(
                    self).entries@[i]).config@ == config@),
            old(self).max_capacity > 0 ==> final(self).entries@.len() > 0 && final(
                self).entries@.last().host@ == host@ && final(self).entries@.last().config@
                == config@,
            old(self).entries@.len() < old(self).max_capacity ==> forall|j: int|
                0 <= j < old(self).entries@.len() && (#[trigger] old(self).entries@[j]).host@
                    != host@ ==> exists|i: int|
                    0 <= i < final(self).entries@.len() && final(self).entries@[i] == old(
                    self).entries@[j],
    {
        if self.max_capacity == 0 {
            return ;
        }
        let ghost e0 = self.entries@;
        let n = self.entries.len();
        let mut found: Option<usize> = None;
        let mut i: usize = 0;
        while i < n
            invariant
                n == self.entries@.len(),
                self.entries@ == e0,
                0 <= i <= n,
                match found {
                    Some(k) => 0 <= k < i <= n && e0[k as int].host@ == host@,
                    None => forall|k: int| 0 <= k < i ==> (#[trigger] e0[k]).host@ != host@,
                },
            decreases n - i,
        {
            if found.is_none() && string_eq(&self.entries[i].host, &host) {
                found = Some(i);
            }
            i = i + 1;
        }
        if let Some(k) = found {
            self.entries.remove(k);
            proof {
                lemma_remove_entry(e0, k as int);
            }
        }
        let ghost e1 = self.entries@;
        proof {
            // every entry of e1 is an old entry, none carries `host`
            assert forall|a: int| 0 <= a < e1.len() implies (exists|j: int|
                0 <= j < e0.len() && #[trigger] e1[a] == e0[j]) && e1[a].host@ != host@ by {
                match found {
                    Some(k) => {
                        let j = choose|j: int| 0 <= j < e0.len() && e1[a] == e0[j];
                    },
                    None => {
                        assert(e1[a] == e0[a]);
                    },
                }
            }
        }
        if self.entries.len() as u64 >= self.max_capacity {
            proof {
                lemma_remove_entry(e1, 0);
            }
            self.entries.remove(0);
        }
        let ghost e2 = self.entries@;
        proof {
            assert(hosts_unique(e2));
            assert forall|a: int| 0 <= a < e2.len() implies (exists|j: int|
                0 <= j < e0.len() && #[trigger] e2[a] == e0[j]) && e2[a].host@ != host@ by {
                if e2 != e1 {
                    let j1 = choose|j1: int| 0 <= j1 < e1.len() && e2[a] == e1[j1];
                    assert(e1[j1].host@ != host@);
                }
            }
        }
        let expires_at = if u64::MAX - self.time_to_live_secs < now {
            u64::MAX
        } else {
            now + self.time_to_live_secs
        };
        self.entries.push(CacheEntry { host, config, expires_at });
        proof {
            let e3 = self.entries@;
            assert forall|a: int, b: int| 0 <= a < b < e3.len() implies (#[trigger] e3[a]).host@
                != (#[trigger] e3[b]).host@ by {
                if b < e3.len() - 1 {
                    assert(e3[a] == e2[a] && e3[b] == e2[b]);
                } else {
                    assert(e3[a] == e2[a]);
                }
            }
            if e0.len() < old(self).max_capacity {
                assert(e2 == e1);
                assert forall|j: int|
                    0 <= j < e0.len() && (#[trigger] e0[j]).host@ != e3.last().host@ implies exists|
                i: int| 0 <= i < e3.len() && e3[i] == e0[j] by {
                    match found {
                        Some(k) => {
                            assert(e0[k as int].host@ == e3.last().host@);
                            if j < k {
                                assert(e1[j] == e0[j]);
                                assert(e3[j] == e0[j]);
                            } else {
                                assert(e1[j - 1] == e0[j]);
                                assert(e3[j - 1] == e0[j]);
                            }
                        },
                        None => {
                            assert(e3[j] == e0[j]);
                        },
                    }
                }
            }
        }
    }
}

/// True when the two strings have the same characters.
fn string_eq(a: &String, b: &String) -> (r: bool)
    ensures
        r == (a@ == b@),
{
    a.eq(b)
}

/// The static tenant directory with its read-through resolution cache.
pub struct Resolver {
    pub domains: Vec<(String, DomainConfig)>,
    pub cache: ResolutionCache,
}

impl Resolver {
    /// The directory's model.
    pub open spec fn dir(self) -> DirModel {
        Seq::new(self.domains@.len(), |i: int| (self.domains@[i].0@, self.domains@[i].1@))
    }

    /// The cache is well formed and every cached entry holds exactly the
    /// directory's tenant for its hostname, derived fields computed.
    pub open spec fn wf(self) -> bool {
        &&& self.cache.wf()
        &&& forall|i: int|
            0 <= i < self.cache.entries@.len() ==> dir_get(
                self.dir(),
                (#[trigger] self.cache.entries@[i]).host@,
            ) is Some && self.cache.entries@[i].config@ == with_derived(
                dir_get(self.dir(), self.cache.entries@[i].host@)->0,
            )
    }

    /// A resolver over the given directory, with an empty cache.
    pub fn new(domains: Vec<(String, DomainConfig)>, cache_cfg: &CacheConfig) -> (r: Self)
        ensures
            r.wf(),
            r.domains == domains,
            r.cache.entries@.len() == 0,
    {
        Resolver { domains, cache: ResolutionCache::new(cache_cfg) }
    }

    /// Resolves `hostname` to its tenant: the hostname is normalized, the
    /// cache is consulted, and on a miss the directory entry (derived
    /// fields computed) is cached and returned. Fails exactly when the
    /// directory has no entry for the normalized hostname.
    pub fn get_domain_config(&mut self, hostname: &str, now_secs: u64) -> (r: Result<
        DomainConfig,
        ProxyError,
    >)
        requires
            old(self).wf(),
        ensures
            final(self).wf(),
            final(self).domains == old(self).domains,
            r is Ok <==> resolve_model(old(self).dir(), hostname@) is Some,
            r matches Ok(cfg) ==> Some(cfg@) == resolve_model(old(self).dir(), hostname@),
            r matches Err(e) ==> (e matches ProxyError::DomainNotFound(d) && d@ == normalize_host(
                hostname@,
            )),
            r is Err ==> *final(self) == *old(self),
    {
        let hchars = str_to_chars(hostname);
        let hs = hchars.as_slice();
        let www: [char; 4] = ['w', 'w', 'w', '.'];
        proof {
            assert(www@ =~= www_prefix());
        }
        let is_www = starts_with_chars(hs, &www);
        let norm: &[char] = if is_www {
            &hs[4..hs.len()]
        } else {
            hs
        };
        proof {
            if is_www {
                assert(norm@ =~= hostname@.skip(4));
            }
            assert(norm@ == normalize_host(hostname@));
        }

        let cached = self.cache.lookup(norm, now_secs);
        if let Some(c) = cached {
            let out = c.clone();
            proof {
                let i = choose|i: int|
                    0 <= i < self.cache.entries@.len() && (#[trigger] self.cache.entries@[
                    i]).host@ == norm@ && now_secs < self.cache.entries@[i].expires_at && c@
                        == self.cache.entries@[i].config@;
                assert(dir_get(self.dir(), self.cache.entries@[i].host@) is Some);
            }
            return Ok(out);
        }

        let nd = self.domains.len();
        let ghost dm = self.dir();
        proof {
            assert(dm.skip(0) =~= dm);
        }
        let mut i: usize = 0;
        while i < nd
            invariant
                *self == *old(self),
                old(self).wf(),
                nd == self.domains@.len(),
                0 <= i <= nd,
                dm == self.dir(),
                dir_get(dm, norm@) == dir_get(dm.skip(i as int), norm@),
                norm@ == normalize_host(hostname@),
            decreases nd - i,
        {
            proof {
                assert(dm.skip(i as int).drop_first() =~= dm.skip(i + 1));
            }
            if chars_eq_str(norm, self.domains[i].0.as_str()) {
                let mut cfg = self.domains[i].1.clone();
                cfg.compute_derived_fields();
                proof {
                    assert(dir_get(dm, norm@) == Some(dm[i as int].1));
                    assert(cfg@ =~= with_derived(dm[i as int].1));
                }
                let host_string = chars_to_string(norm);
                let ghost cache0 = self.cache;
                self.cache.insert(host_string, cfg.clone(), now_secs);
                proof {
                    assert forall|a: int| 0 <= a < self.cache.entries@.len() implies dir_get(
                        self.dir(),
                        (#[trigger] self.cache.entries@[a]).host@,
                    ) is Some && self.cache.entries@[a].config@ == with_derived(
                        dir_get(self.dir(), self.cache.entries@[a].host@)->0,
                    ) by {
                        let e = self.cache.entries@[a];
                        if exists|j: int|
                            0 <= j < cache0.entries@.len() && e == cache0.entries@[j] {
                            let j = choose|j: int|
                                0 <= j < cache0.entries@.len() && e == cache0.entries@[j];
                            assert(old(self).cache.entries@[j] == cache0.entries@[j]);
                            assert(dir_get(dm, cache0.entries@[j].host@) is Some);
                        }
                    }
                }
                return Ok(cfg);
            }
            i = i + 1;
        }
        proof {
            assert(dm.skip(nd as int) =~= Seq::<(Seq<char>, DomainConfigModel)>::empty());
        }
        Err(ProxyError::DomainNotFound(chars_to_string(norm)))
    }
}

} // verus!
