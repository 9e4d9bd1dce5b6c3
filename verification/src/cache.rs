//! The address-resolution cache: a small, bounded map from an IPv4 address
//! to the link-layer (MAC) address last observed for it. A new key is
//! rejected once the cache is full; an existing key is overwritten in place;
//! entries are never evicted.

use vstd::prelude::*;

verus! {

/// How many distinct IPv4 addresses the cache can hold.
pub const CACHE_CAPACITY: usize = 8;

/// One learned mapping, with the IPv4 address as a big-endian 32-bit key.
struct CacheEntry {
    ip: u32,
    mac: [u8; 6],
}

/// Whether some entry of `s` carries the key `ip`.
pub open spec fn cache_contains(s: Seq<(u32, Seq<u8>)>, ip: u32) -> bool {
    exists|i: int| 0 <= i < s.len() && s[i].0 == ip
}

/// The index of the entry carrying `ip`; meaningful only under `cache_wf`,
/// where it is unique.
pub open spec fn cache_index_of(s: Seq<(u32, Seq<u8>)>, ip: u32) -> int {
    choose|i: int| 0 <= i < s.len() && s[i].0 == ip
}

/// What a lookup resolves `ip` to: the MAC of its entry, if one exists.
pub open spec fn cache_resolve(s: Seq<(u32, Seq<u8>)>, ip: u32) -> Option<Seq<u8>> {
    if cache_contains(s, ip) {
        Some(s[cache_index_of(s, ip)].1)
    } else {
        None
    }
}

/// Well-formedness: within capacity, and no key appears twice.
pub open spec fn cache_wf(s: Seq<(u32, Seq<u8>)>) -> bool {
    &&& s.len() <= CACHE_CAPACITY
    &&& forall|i: int, j: int| 0 <= i < j < s.len() ==> s[i].0 != s[j].0
}

/// What observing `(ip, mac)` does to the entries: overwrite the entry that
/// already carries `ip`, else append while there is room, else reject.
pub open spec fn cache_observe(s: Seq<(u32, Seq<u8>)>, ip: u32, mac: Seq<u8>) -> Seq<
    (u32, Seq<u8>),
> {
    if cache_contains(s, ip) {
        s.update(cache_index_of(s, ip), (ip, mac))
    } else if s.len() < CACHE_CAPACITY {
        s.push((ip, mac))
    } else {
        s
    }
}

/// Observing keeps well-formedness.
pub proof fn lemma_observe_wf(s: Seq<(u32, Seq<u8>)>, ip: u32, mac: Seq<u8>)
    requires
        cache_wf(s),
    ensures
        cache_wf(cache_observe(s, ip, mac)),
{
}

/// After observing `(ip, mac)`, `ip` resolves to `mac` — unless the cache
/// was full and did not know `ip`, in which case nothing was learned.
pub proof fn lemma_observe_learns(s: Seq<(u32, Seq<u8>)>, ip: u32, mac: Seq<u8>)
    requires
        cache_wf(s),
    ensures
        cache_contains(s, ip) || s.len() < CACHE_CAPACITY ==> cache_resolve(
            cache_observe(s, ip, mac),
            ip,
        ) == Some(mac),
{
    let s2 = cache_observe(s, ip, mac);
    if cache_contains(s, ip) {
        let i = cache_index_of(s, ip);
        assert(s2[i].0 == ip);
        assert(cache_contains(s2, ip));
        let j = cache_index_of(s2, ip);
        assert(0 <= j < s2.len() && s2[j].0 == ip);
        if i != j {
            assert(s[j].0 == ip);
        }
    } else if s.len() < CACHE_CAPACITY {
        let n = s.len() as int;
        assert(s2[n].0 == ip);
        assert(cache_contains(s2, ip));
        let j = cache_index_of(s2, ip);
        if j != n {
            assert(s[j].0 == ip);
        }
    }
}

/// A full cache rejects a key it does not hold: the entries do not change
/// and the key stays unresolvable.
pub proof fn lemma_observe_full_rejects(s: Seq<(u32, Seq<u8>)>, ip: u32, mac: Seq<u8>)
    requires
        cache_wf(s),
        s.len() == CACHE_CAPACITY,
        !cache_contains(s, ip),
    ensures
        cache_observe(s, ip, mac) == s,
        cache_resolve(cache_observe(s, ip, mac), ip) is None,
{
}

/// Observing one key never disturbs what any other key resolves to.
pub proof fn lemma_observe_preserves_others(
    s: Seq<(u32, Seq<u8>)>,
    ip: u32,
    mac: Seq<u8>,
    other: u32,
)
    requires
        cache_wf(s),
        other != ip,
    ensures
        cache_resolve(cache_observe(s, ip, mac), other) == cache_resolve(s, other),
{
    let s2 = cache_observe(s, ip, mac);
    if cache_contains(s, ip) {
        let i = cache_index_of(s, ip);
        assert(0 <= i < s.len() && s[i].0 == ip);
        if cache_contains(s2, other) {
            let j = cache_index_of(s2, other);
            assert(0 <= j < s2.len() && s2[j].0 == other);
            assert(j != i);
            assert(s[j].0 == other);
            assert(cache_contains(s, other));
            let j0 = cache_index_of(s, other);
            assert(s[j0].0 == other);
            if j0 != j {
                assert(false);
            }
        } else if cache_contains(s, other) {
            let j = cache_index_of(s, other);
            assert(j != i);
            assert(s2[j].0 == other);
        }
    } else if s.len() < CACHE_CAPACITY {
        let n = s.len() as int;
        if cache_contains(s2, other) {
            let j = cache_index_of(s2, other);
            assert(j != n);
            assert(s[j].0 == other);
            assert(cache_contains(s, other));
            let j0 = cache_index_of(s, other);
            if j0 != j {
                assert(false);
            }
        } else if cache_contains(s, other) {
            let j = cache_index_of(s, other);
            assert(s2[j].0 == other);
        }
    }
}

/// The bounded IPv4-to-MAC cache itself.
pub struct ArpCache {
    entries: Vec<CacheEntry>,
}

impl View for ArpCache {
    type V = Seq<(u32, Seq<u8>)>;

    closed spec fn view(&self) -> Seq<(u32, Seq<u8>)> {
        self.entries@.map_values(|e: CacheEntry| (e.ip, e.mac@))
    }
}

impl ArpCache {
    /// Every cache built or mutated through this interface satisfies this.
    pub open spec fn wf(&self) -> bool {
        cache_wf(self@)
    }

    /// An empty cache.
    pub fn new() -> (r: ArpCache)
        ensures
            r.wf(),
            r@ == Seq::<(u32, Seq<u8>)>::empty(),
    {
        let r = ArpCache { entries: Vec::new() };
        proof {
            assert(r@ =~= Seq::<(u32, Seq<u8>)>::empty());
        }
        r
    }

    /// The MAC learned for `ip`, if any.
    pub fn lookup(&self, ip: u32) -> (r: Option<[u8; 6]>)
        requires
            self.wf(),
        ensures
            r matches Some(m) ==> cache_resolve(self@, ip) == Some(m@),
            r is None ==> cache_resolve(self@, ip) is None,
    {
        let n = self.entries.len();
        let mut i: usize = 0;
        while i < n
            invariant
                self.wf(),
                n == self@.len(),
                n == self.entries@.len(),
                0 <= i <= n,
                forall|j: int| 0 <= j < i ==> self@[j].0 != ip,
            decreases n - i,
        {
            proof {
                assert(self@[i as int] == (self.entries@[i as int].ip, self.entries@[i as int].mac@));
            }
            if self.entries[i].ip == ip {
                proof {
                    assert(cache_contains(self@, ip));
                    let j = cache_index_of(self@, ip);
                    assert(0 <= j < self@.len() && self@[j].0 == ip);
                    if j != i as int {
                        assert(false);
                    }
                }
                return Some(self.entries[i].mac);
            }
            i = i + 1;
        }
        proof {
            assert(!cache_contains(self@, ip));
        }
        None
    }

    /// Learn that `ip` was seen with `mac`: overwrite the entry for `ip` if
    /// one exists, append if there is room, and reject the key otherwise.
    pub fn observe(&mut self, ip: u32, mac: [u8; 6])
        requires
            old(self).wf(),
        ensures
            final(self).wf(),
            final(self)@ == cache_observe(old(self)@, ip, mac@),
    {
        let ghost s0 = self@;
        let n = self.entries.len();
        let mut i: usize = 0;
        while i < n
            invariant
                cache_wf(self@),
                self@ == s0,
                s0 == old(self)@,
                n == s0.len(),
                n == self.entries@.len(),
                0 <= i <= n,
                forall|j: int| 0 <= j < i ==> self@[j].0 != ip,
            decreases n - i,
        {
            proof {
                assert(self@[i as int] == (self.entries@[i as int].ip, self.entries@[i as int].mac@));
            }
            if self.entries[i].ip == ip {
                self.entries.set(i, CacheEntry { ip, mac });
                proof {
                    assert(cache_contains(s0, ip));
                    let j = cache_index_of(s0, ip);
                    assert(0 <= j < s0.len() && s0[j].0 == ip);
                    if j != i as int {
                        assert(false);
                    }
                    assert(self@ =~= cache_observe(s0, ip, mac@));
                    lemma_observe_wf(s0, ip, mac@);
                }
                return ;
            }
            i = i + 1;
        }
        proof {
            assert(!cache_contains(s0, ip));
        }
        if self.entries.len() < CACHE_CAPACITY {
            self.entries.push(CacheEntry { ip, mac });
            proof {
                assert(self@ =~= cache_observe(s0, ip, mac@));
                lemma_observe_wf(s0, ip, mac@);
            }
        } else {
            proof {
                assert(self@ =~= cache_observe(s0, ip, mac@));
            }
        }
    }

    /// How many addresses are currently cached.
    pub fn len(&self) -> (r: usize)
        ensures
            r == self@.len(),
    {
        let n = self.entries.len();
        proof {
            assert(self@.len() == self.entries@.len());
        }
        n
    }
}

} // verus!
