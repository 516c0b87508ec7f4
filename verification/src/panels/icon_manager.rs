//! Bookkeeping of the ROM icon cache: the load queue, which icons are loaded
//! or failed, and which are dropped when they expire or the cache is full.
//!
//! The textures themselves, the loader threads and the clock live in the
//! application; it hands in load results and the current time in milliseconds.
use vstd::prelude::*;

use crate::catalog::NameSet;
use crate::models::{contains_name, names};

verus! {

/// What is known of one ROM's icon.
pub struct IconInfo {
    /// The ROM the icon belongs to.
    pub path: String,
    /// Whether the icon loaded; a failed icon is not loaded again.
    pub loaded: bool,
    /// When the icon was last shown, in milliseconds of the application clock.
    pub last_accessed_ms: u64,
}

/// Upper bound on loader threads.
pub const MAX_LOADER_THREADS: usize = 8;

/// Idle time after which the cache is cleaned up, in milliseconds.
pub const CLEANUP_INTERVAL_MS: u64 = 60_000;

/// The names of the records.
pub open spec fn info_names(info: Seq<IconInfo>) -> Seq<Seq<char>> {
    info.map_values(|r: IconInfo| r.path@)
}

/// A record as plain values: name, whether it loaded, last access time.
pub open spec fn record_of(r: IconInfo) -> (Seq<char>, bool, u64) {
    (r.path@, r.loaded, r.last_accessed_ms)
}

/// The records as plain values.
pub open spec fn records(info: Seq<IconInfo>) -> Seq<(Seq<char>, bool, u64)> {
    info.map_values(|r: IconInfo| record_of(r))
}

/// An icon not shown for longer than the lifetime (in whole seconds) has expired.
pub open spec fn expired(r: (Seq<char>, bool, u64), now_ms: u64, lifetime_secs: u64) -> bool {
    (if now_ms >= r.2 {
        (now_ms - r.2) / 1000
    } else {
        0
    }) > lifetime_secs
}

/// Some record named `n` has expired.
pub open spec fn expired_name(recs: Seq<(Seq<char>, bool, u64)>, n: Seq<char>, now_ms: u64, lifetime_secs: u64) -> bool {
    exists|k: int| 0 <= k < recs.len() && #[trigger] recs[k].0 == n && expired(recs[k], now_ms, lifetime_secs)
}

/// Position of the first record with the earliest access time.
pub open spec fn first_oldest(recs: Seq<(Seq<char>, bool, u64)>) -> int
    decreases recs.len(),
{
    if recs.len() <= 1 {
        0
    } else {
        let m = first_oldest(recs.drop_last());
        if recs.last().2 < recs[m].2 {
            recs.len() - 1
        } else {
            m
        }
    }
}

/// Drops the `count` least recently shown icons, one at a time (the first of
/// equally old records first), from the records and from the loaded icons.
pub open spec fn evict_oldest(recs: Seq<(Seq<char>, bool, u64)>, icons: Seq<Seq<char>>, count: nat) -> (
    Seq<(Seq<char>, bool, u64)>,
    Seq<Seq<char>>,
)
    decreases count,
{
    if count == 0 || recs.len() == 0 {
        (recs, icons)
    } else {
        let m = first_oldest(recs);
        let name = recs[m].0;
        evict_oldest(recs.remove(m), icons.filter(|n: Seq<char>| n != name), (count - 1) as nat)
    }
}

/// The records and loaded icons after a cleanup at `now_ms`: expired icons
/// go first; if more icons than the capacity are still loaded, the least
/// recently shown records go until the excess is covered.
pub open spec fn cleanup_spec(
    recs: Seq<(Seq<char>, bool, u64)>,
    icons: Seq<Seq<char>>,
    now_ms: u64,
    lifetime_secs: u64,
    max_cached: usize,
) -> (Seq<(Seq<char>, bool, u64)>, Seq<Seq<char>>) {
    let recs1 = recs.filter(|r: (Seq<char>, bool, u64)| !expired(r, now_ms, lifetime_secs));
    let icons1 = icons.filter(|n: Seq<char>| !expired_name(recs, n, now_ms, lifetime_secs));
    let excess: nat = if icons1.len() > max_cached {
        (icons1.len() - max_cached) as nat
    } else {
        0
    };
    evict_oldest(recs1, icons1, excess)
}

/// `num_cpus::get`: the number of logical CPUs this process may use; its
/// documentation promises at least one. Nothing else is stated: the count
/// depends on the machine.
#[verifier::external_body]
fn available_cpus() -> (r: usize)
    ensures
        r >= 1,
{
    num_cpus::get()
}

/// Icon bookkeeping; the application keeps one texture per loaded name.
pub struct IconManager {
    /// Names whose icon is loaded.
    pub rom_icons: Vec<String>,
    /// Names waiting to be loaded, oldest first.
    pub icon_load_queue: Vec<String>,
    /// One record per name that finished loading, successfully or not.
    pub icon_info: Vec<IconInfo>,
    pub last_icon_cleanup_ms: u64,
    pub max_cached_icons: usize,
    /// Seconds an icon may go unshown before it is dropped.
    pub icon_lifetime: u64,
    pub max_concurrent_loads: usize,
    pub thread_pool_initialized: bool,
}

impl IconManager {
    /// No name occurs twice among the loaded icons, the records or the queue.
    pub open spec fn wf(&self) -> bool {
        &&& names(self.rom_icons@).no_duplicates()
        &&& info_names(self.icon_info@).no_duplicates()
        &&& names(self.icon_load_queue@).no_duplicates()
    }

    /// An empty cache with the given capacity, a five-minute lifetime and as
    /// many loader threads as this machine has CPUs, at most eight.
    pub fn new(max_cached_icons: usize, now_ms: u64) -> (r: Self)
        ensures
            r.wf(),
            r.rom_icons@.len() == 0,
            r.icon_load_queue@.len() == 0,
            r.icon_info@.len() == 0,
            r.last_icon_cleanup_ms == now_ms,
            r.max_cached_icons == max_cached_icons,
            r.icon_lifetime == 300,
            1 <= r.max_concurrent_loads <= MAX_LOADER_THREADS,
            !r.thread_pool_initialized,
    {
        let cpus = available_cpus();
        Self::with_cpu_count(max_cached_icons, now_ms, cpus)
    }

    /// An empty cache with the given capacity, a five-minute lifetime and one
    /// loader thread per CPU of `cpus`, at most eight.
    pub fn with_cpu_count(max_cached_icons: usize, now_ms: u64, cpus: usize) -> (r: Self)
        ensures
            r.wf(),
            r.rom_icons@.len() == 0,
            r.icon_load_queue@.len() == 0,
            r.icon_info@.len() == 0,
            r.last_icon_cleanup_ms == now_ms,
            r.max_cached_icons == max_cached_icons,
            r.icon_lifetime == 300,
            r.max_concurrent_loads == if cpus < MAX_LOADER_THREADS {
                cpus
            } else {
                MAX_LOADER_THREADS
            },
            !r.thread_pool_initialized,
    {
        let loaders = if cpus < MAX_LOADER_THREADS {
            cpus
        } else {
            MAX_LOADER_THREADS
        };
        let r = IconManager {
            rom_icons: Vec::new(),
            icon_load_queue: Vec::new(),
            icon_info: Vec::new(),
            last_icon_cleanup_ms: now_ms,
            max_cached_icons,
            icon_lifetime: 300,
            max_concurrent_loads: loaders,
            thread_pool_initialized: false,
        };
        assert(names(r.rom_icons@) =~= Seq::<Seq<char>>::empty());
        assert(info_names(r.icon_info@) =~= Seq::<Seq<char>>::empty());
        assert(names(r.icon_load_queue@) =~= Seq::<Seq<char>>::empty());
        r
    }

    /// Position of the record named `name`.
    fn find_info(&self, name: &str) -> (r: Option<usize>)
        ensures
            match r {
                Some(k) => k < self.icon_info@.len() && self.icon_info@[k as int].path@ == name@
                    && info_names(self.icon_info@).contains(name@),
                None => !info_names(self.icon_info@).contains(name@),
            },
    {
        let mut k: usize = 0;
        while k < self.icon_info.len()
            invariant
                k <= self.icon_info@.len(),
                forall|j: int| 0 <= j < k ==> (#[trigger] self.icon_info@[j]).path@ != name@,
            decreases self.icon_info@.len() - k,
        {
            if crate::text::same_text(self.icon_info[k].path.as_str(), name) {
                assert(info_names(self.icon_info@)[k as int] == name@);
                return Some(k);
            }
            k = k + 1;
        }
        assert forall|j: int| 0 <= j < info_names(self.icon_info@).len() implies info_names(self.icon_info@)[j] != name@ by {
            assert(info_names(self.icon_info@)[j] == self.icon_info@[j].path@);
        }
        None
    }

    /// Queues an icon for loading when lazy loading is on and the name is
    /// neither loaded, nor known to have failed, nor already queued.
    pub fn queue_icon_load(&mut self, rom_name: String, enable_lazy_icons: bool)
        requires
            old(self).wf(),
        ensures
            final(self).wf(),
            names(final(self).icon_load_queue@) == if enable_lazy_icons && !names(old(self).rom_icons@).contains(rom_name@)
                && !info_names(old(self).icon_info@).contains(rom_name@) && !names(old(self).icon_load_queue@).contains(rom_name@) {
                names(old(self).icon_load_queue@).push(rom_name@)
            } else {
                names(old(self).icon_load_queue@)
            },
            *final(self) == (IconManager {
                icon_load_queue: final(self).icon_load_queue,
                ..*old(self)
            }),
    {
        if enable_lazy_icons && !contains_name(&self.rom_icons, rom_name.as_str())
            && self.find_info(rom_name.as_str()).is_none() && !contains_name(&self.icon_load_queue, rom_name.as_str()) {
            let ghost before = names(self.icon_load_queue@);
            self.icon_load_queue.push(rom_name);
            assert(names(self.icon_load_queue@) =~= before.push(rom_name@));
        }
    }

    /// Takes up to `max_per_frame` names from the front of the queue and
    /// returns those whose icon is not loaded yet.
    pub fn take_icons_to_load(&mut self, max_per_frame: usize) -> (r: Vec<String>)
        requires
            old(self).wf(),
        ensures
            final(self).wf(),
            ({
                let k = if max_per_frame < old(self).icon_load_queue@.len() {
                    max_per_frame as int
                } else {
                    old(self).icon_load_queue@.len() as int
                };
                &&& names(final(self).icon_load_queue@) == names(old(self).icon_load_queue@).skip(k)
                &&& names(r@) == names(old(self).icon_load_queue@).take(k).filter(
                    |n: Seq<char>| !names(old(self).rom_icons@).contains(n),
                )
            }),
            *final(self) == (IconManager {
                icon_load_queue: final(self).icon_load_queue,
                ..*old(self)
            }),
    {
        let ghost q = names(self.icon_load_queue@);
        let ghost p = |n: Seq<char>| !names(self.rom_icons@).contains(n);
        let k = if max_per_frame < self.icon_load_queue.len() {
            max_per_frame
        } else {
            self.icon_load_queue.len()
        };
        let mut taken: Vec<String> = Vec::new();
        let mut rest: Vec<String> = Vec::new();
        let mut i: usize = 0;
        while i < self.icon_load_queue.len()
            invariant
                k <= self.icon_load_queue@.len(),
                q == names(self.icon_load_queue@),
                p == (|n: Seq<char>| !names(self.rom_icons@).contains(n)),
                i <= self.icon_load_queue@.len(),
                names(taken@) == q.take(if i < k { i as int } else { k as int }).filter(p),
                names(rest@) == if i < k { Seq::<Seq<char>>::empty() } else { q.subrange(k as int, i as int) },
            decreases self.icon_load_queue@.len() - i,
        {
            let name = self.icon_load_queue[i].clone();
            proof {
                assert(q[i as int] == self.icon_load_queue@[i as int]@);
                assert(name@ == q[i as int]);
            }
            if i < k {
                proof {
                    assert(q.take(i + 1) =~= q.take(i as int).push(q[i as int]));
                    q.take(i as int).lemma_filter_push(q[i as int], p);
                }
                if !contains_name(&self.rom_icons, name.as_str()) {
                    let ghost before = names(taken@);
                    taken.push(name);
                    assert(names(taken@) =~= before.push(q[i as int]));
                }
                if i + 1 == k {
                    assert(names(rest@) =~= q.subrange(k as int, i + 1));
                }
            } else {
                let ghost before = names(rest@);
                rest.push(name);
                assert(names(rest@) =~= before.push(q[i as int]));
                assert(names(rest@) =~= q.subrange(k as int, i + 1));
            }
            i = i + 1;
        }
        if k == 0 {
            assert(names(rest@) =~= q.subrange(0, i as int));
        }
        assert(q.subrange(k as int, q.len() as int) =~= q.skip(k as int));
        proof {
            let qs = q.skip(k as int);
            assert forall|a: int, b: int| 0 <= a < b < qs.len() implies qs[a] != qs[b] by {
                assert(qs[a] == q[a + k]);
                assert(qs[b] == q[b + k]);
            }
        }
        self.icon_load_queue = rest;
        taken
    }

    /// Records the outcome of loading `rom_name` at `now_ms`: a loaded icon
    /// joins the loaded icons; either way its record says whether it loaded
    /// and that it was just accessed.
    pub fn record_icon_result(&mut self, rom_name: String, success: bool, now_ms: u64)
        requires
            old(self).wf(),
        ensures
            final(self).wf(),
            names(final(self).rom_icons@).to_set() == if success {
                names(old(self).rom_icons@).to_set().insert(rom_name@)
            } else {
                names(old(self).rom_icons@).to_set()
            },
            info_names(final(self).icon_info@).to_set() == info_names(old(self).icon_info@).to_set().insert(rom_name@),
            forall|n: Seq<char>| #[trigger] names(final(self).rom_icons@).contains(n) == (names(old(self).rom_icons@).contains(n) || (success && n == rom_name@)),
            forall|n: Seq<char>| #[trigger] info_names(final(self).icon_info@).contains(n) == (info_names(old(self).icon_info@).contains(n) || n == rom_name@),
            forall|k: int| 0 <= k < final(self).icon_info@.len() ==> ({
                let r = #[trigger] final(self).icon_info@[k];
                if r.path@ == rom_name@ {
                    r.loaded == success && r.last_accessed_ms == now_ms
                } else {
                    old(self).icon_info@.contains(r)
                }
            }),
            *final(self) == (IconManager {
                rom_icons: final(self).rom_icons,
                icon_info: final(self).icon_info,
                ..*old(self)
            }),
    {
        let ghost rn = rom_name@;
        if success && !contains_name(&self.rom_icons, rom_name.as_str()) {
            let ghost before = names(self.rom_icons@);
            self.rom_icons.push(rom_name.clone());
            assert(names(self.rom_icons@) =~= before + seq![rom_name@]);
            proof {
                Seq::lemma_to_set_insert_commutes(before, rom_name@);
            }
        } else if success {
            let ghost ns = names(self.rom_icons@);
            assert(ns.contains(rom_name@));
            assert(ns.to_set().contains(rom_name@));
            assert(ns.to_set() =~= ns.to_set().insert(rom_name@));
        }
        let record = IconInfo { path: rom_name, loaded: success, last_accessed_ms: now_ms };
        let ghost old_info = self.icon_info@;
        let ghost rv = record;
        match self.find_info(record.path.as_str()) {
            Some(k) => {
                self.icon_info.set(k, record);
                proof {
                    assert forall|a: int| 0 <= a < info_names(self.icon_info@).len() implies info_names(self.icon_info@)[a] == info_names(old_info)[a] by {
                        assert(info_names(self.icon_info@)[a] == self.icon_info@[a].path@);
                        assert(info_names(old_info)[a] == old_info[a].path@);
                    }
                    assert(info_names(self.icon_info@) =~= info_names(old_info));
                    assert(info_names(old_info)[k as int] == rv.path@);
                    assert(info_names(old_info).contains(rv.path@));
                    assert(info_names(old_info).to_set().contains(rv.path@));
                    assert(info_names(old_info).to_set() =~= info_names(old_info).to_set().insert(rv.path@));
                    assert forall|j: int| 0 <= j < self.icon_info@.len() && j != k implies old_info.contains(#[trigger] self.icon_info@[j]) by {
                        assert(self.icon_info@[j] == old_info[j]);
                    }
                    assert forall|j: int| 0 <= j < self.icon_info@.len() && j != k implies (#[trigger] self.icon_info@[j]).path@ != rv.path@ by {
                        assert(info_names(old_info)[j] == old_info[j].path@);
                    }
                }
            },
            None => {
                self.icon_info.push(record);
                proof {
                    assert(info_names(self.icon_info@) =~= info_names(old_info) + seq![rv.path@]);
                    Seq::lemma_to_set_insert_commutes(info_names(old_info), rv.path@);
                    assert forall|j: int| 0 <= j < old_info.len() implies old_info.contains(#[trigger] self.icon_info@[j]) && self.icon_info@[j].path@ != rv.path@ by {
                        assert(self.icon_info@[j] == old_info[j]);
                        assert(info_names(old_info)[j] == old_info[j].path@);
                    }
                }
            },
        }
        proof {
            assert forall|n: Seq<char>| #[trigger] names(self.rom_icons@).contains(n) == (names(old(self).rom_icons@).contains(n) || (success && n == rn)) by {
                assert(names(self.rom_icons@).to_set().contains(n) == names(self.rom_icons@).contains(n));
                assert(names(old(self).rom_icons@).to_set().contains(n) == names(old(self).rom_icons@).contains(n));
            }
            assert forall|n: Seq<char>| #[trigger] info_names(self.icon_info@).contains(n) == (info_names(old(self).icon_info@).contains(n) || n == rn) by {
                assert(info_names(self.icon_info@).to_set().contains(n) == info_names(self.icon_info@).contains(n));
                assert(info_names(old(self).icon_info@).to_set().contains(n) == info_names(old(self).icon_info@).contains(n));
            }
        }
    }

    /// The icon of `rom_name` is being shown at `now_ms`: its record, if any,
    /// is marked accessed. Returns whether the ROM has an icon of its own
    /// (otherwise the default icon is shown).
    pub fn get_rom_icon(&mut self, rom_name: &str, now_ms: u64) -> (r: bool)
        requires
            old(self).wf(),
        ensures
            final(self).wf(),
            r == names(old(self).rom_icons@).contains(rom_name@),
            *final(self) == (IconManager {
                icon_info: final(self).icon_info,
                ..*old(self)
            }),
            final(self).icon_info@.len() == old(self).icon_info@.len(),
            forall|k: int| 0 <= k < final(self).icon_info@.len() ==> ({
                let r = #[trigger] final(self).icon_info@[k];
                let o = old(self).icon_info@[k];
                r.path@ == o.path@ && r.loaded == o.loaded && r.last_accessed_ms == if o.path@ == rom_name@ {
                    now_ms
                } else {
                    o.last_accessed_ms
                }
            }),
    {
        match self.find_info(rom_name) {
            Some(k) => {
                let ghost old_info = self.icon_info@;
                let old = &self.icon_info[k];
                let updated = IconInfo { path: old.path.clone(), loaded: old.loaded, last_accessed_ms: now_ms };
                self.icon_info.set(k, updated);
                proof {
                    assert forall|a: int| 0 <= a < info_names(self.icon_info@).len() implies info_names(self.icon_info@)[a] == info_names(old_info)[a] by {
                        assert(info_names(self.icon_info@)[a] == self.icon_info@[a].path@);
                        assert(info_names(old_info)[a] == old_info[a].path@);
                    }
                    assert(info_names(self.icon_info@) =~= info_names(old_info));
                    assert forall|j: int| 0 <= j < old_info.len() && j != k implies old_info[j].path@ != rom_name@ by {
                        assert(info_names(old_info)[j] == old_info[j].path@);
                        assert(info_names(old_info)[k as int] == old_info[k as int].path@);
                    }
                }
            },
            None => {
                assert forall|j: int| 0 <= j < self.icon_info@.len() implies self.icon_info@[j].path@ != rom_name@ by {
                    assert(info_names(self.icon_info@)[j] == self.icon_info@[j].path@);
                }
            },
        }
        contains_name(&self.rom_icons, rom_name)
    }

    /// Forgets every icon and empties the queue.
    pub fn clear_cache(&mut self)
        ensures
            final(self).wf(),
            final(self).rom_icons@.len() == 0,
            final(self).icon_info@.len() == 0,
            final(self).icon_load_queue@.len() == 0,
            *final(self) == (IconManager {
                rom_icons: final(self).rom_icons,
                icon_info: final(self).icon_info,
                icon_load_queue: final(self).icon_load_queue,
                ..*old(self)
            }),
    {
        self.rom_icons = Vec::new();
        self.icon_info = Vec::new();
        self.icon_load_queue = Vec::new();
        assert(names(self.rom_icons@) =~= Seq::<Seq<char>>::empty());
        assert(info_names(self.icon_info@) =~= Seq::<Seq<char>>::empty());
        assert(names(self.icon_load_queue@) =~= Seq::<Seq<char>>::empty());
    }

    /// Number of loaded icons, queued names and records.
    pub fn get_cache_stats(&self) -> (r: (usize, usize, usize))
        ensures
            r.0 == self.rom_icons@.len() && r.1 == self.icon_load_queue@.len() && r.2 == self.icon_info@.len(),
    {
        (self.rom_icons.len(), self.icon_load_queue.len(), self.icon_info.len())
    }

    /// A cleanup is due once a minute.
    pub fn needs_cleanup(&self, now_ms: u64) -> (r: bool)
        ensures
            r == (now_ms >= self.last_icon_cleanup_ms && now_ms - self.last_icon_cleanup_ms > CLEANUP_INTERVAL_MS),
    {
        now_ms >= self.last_icon_cleanup_ms && now_ms - self.last_icon_cleanup_ms > CLEANUP_INTERVAL_MS
    }

    /// Number of loader threads and whether the loader pool was started.
    pub fn get_thread_pool_stats(&self) -> (r: (usize, bool))
        ensures
            r == (self.max_concurrent_loads, self.thread_pool_initialized),
    {
        (self.max_concurrent_loads, self.thread_pool_initialized)
    }
}


/// Filtering keeps a sequence free of duplicates.
pub proof fn lemma_filter_distinct<A>(s: Seq<A>, p: spec_fn(A) -> bool)
    requires
        s.no_duplicates(),
    ensures
        s.filter(p).no_duplicates(),
    decreases s.len(),
{
    reveal(Seq::filter);
    if s.len() > 0 {
        let init = s.drop_last();
        assert forall|a: int, b: int| 0 <= a < b < init.len() implies init[a] != init[b] by {
            assert(init[a] == s[a] && init[b] == s[b]);
        }
        lemma_filter_distinct(init, p);
        if p(s.last()) && init.filter(p).contains(s.last()) {
            init.lemma_filter_contains_rev(p, s.last());
            let w = choose|w: int| 0 <= w < init.len() && init[w] == s.last();
            assert(s[w] == s[s.len() - 1]);
        }
    }
}

/// Whether a record has expired at `now_ms`.
fn is_expired(r: &IconInfo, now_ms: u64, lifetime: u64) -> (b: bool)
    ensures
        b == expired(record_of(*r), now_ms, lifetime),
{
    let age = if now_ms >= r.last_accessed_ms {
        (now_ms - r.last_accessed_ms) / 1000
    } else {
        0
    };
    age > lifetime
}

/// A copy of a record.
fn copy_record(r: &IconInfo) -> (c: IconInfo)
    ensures
        record_of(c) == record_of(*r),
{
    IconInfo { path: r.path.clone(), loaded: r.loaded, last_accessed_ms: r.last_accessed_ms }
}

/// Position of the first record with the earliest access time.
fn first_oldest_index(info: &Vec<IconInfo>) -> (m: usize)
    requires
        info@.len() > 0,
    ensures
        m == first_oldest(records(info@)),
        m < info@.len(),
{
    let ghost rs = records(info@);
    let mut m: usize = 0;
    let mut k: usize = 1;
    assert(rs.take(1).len() == 1);
    while k < info.len()
        invariant
            rs == records(info@),
            1 <= k <= info@.len(),
            m < k,
            m == first_oldest(rs.take(k as int)),
        decreases info@.len() - k,
    {
        proof {
            let t = rs.take(k + 1);
            assert(t.drop_last() =~= rs.take(k as int));
            assert(t.last() == rs[k as int]);
            assert(t[m as int] == rs.take(k as int)[m as int]);
            assert(rs[k as int] == record_of(info@[k as int]));
            assert(rs[m as int] == record_of(info@[m as int]));
        }
        if info[k].last_accessed_ms < info[m].last_accessed_ms {
            m = k;
        }
        k = k + 1;
    }
    assert(rs.take(k as int) =~= rs);
    m
}

/// The names other than `name`, in order.
fn without_name(icons: &Vec<String>, name: &str) -> (r: Vec<String>)
    ensures
        names(r@) == names(icons@).filter(|n: Seq<char>| n != name@),
{
    let ghost ns = names(icons@);
    let ghost p = |n: Seq<char>| n != name@;
    let mut r: Vec<String> = Vec::new();
    let mut k: usize = 0;
    while k < icons.len()
        invariant
            ns == names(icons@),
            p == (|n: Seq<char>| n != name@),
            k <= icons@.len(),
            names(r@) == ns.take(k as int).filter(p),
        decreases icons@.len() - k,
    {
        proof {
            assert(ns.take(k + 1) =~= ns.take(k as int).push(ns[k as int]));
            ns.take(k as int).lemma_filter_push(ns[k as int], p);
            assert(ns[k as int] == icons@[k as int]@);
        }
        if !crate::text::same_text(icons[k].as_str(), name) {
            let ghost before = names(r@);
            r.push(icons[k].clone());
            assert(names(r@) =~= before.push(ns[k as int]));
        }
        k = k + 1;
    }
    assert(ns.take(k as int) =~= ns);
    r
}

impl IconManager {
    /// Drops expired icons, then the least recently shown ones while more
    /// icons than the capacity are loaded (see `cleanup_spec`), and notes the
    /// cleanup time.
    pub fn cleanup_old_icons(&mut self, now_ms: u64)
        requires
            old(self).wf(),
        ensures
            final(self).wf(),
            (records(final(self).icon_info@), names(final(self).rom_icons@)) == cleanup_spec(
                records(old(self).icon_info@),
                names(old(self).rom_icons@),
                now_ms,
                old(self).icon_lifetime,
                old(self).max_cached_icons,
            ),
            final(self).last_icon_cleanup_ms == now_ms,
            *final(self) == (IconManager {
                rom_icons: final(self).rom_icons,
                icon_info: final(self).icon_info,
                last_icon_cleanup_ms: final(self).last_icon_cleanup_ms,
                ..*old(self)
            }),
    {
        let lifetime = self.icon_lifetime;
        let ghost rs = records(self.icon_info@);
        let ghost ns = names(self.rom_icons@);
        let ghost keep = |r: (Seq<char>, bool, u64)| !expired(r, now_ms, lifetime);
        let ghost keep_name = |n: Seq<char>| !expired_name(rs, n, now_ms, lifetime);
        // Names of expired records, and the records that stay.
        let mut gone = NameSet::new(self.icon_info.len());
        let mut info1: Vec<IconInfo> = Vec::new();
        let mut k: usize = 0;
        while k < self.icon_info.len()
            invariant
                rs == records(self.icon_info@),
                info_names(self.icon_info@).no_duplicates(),
                keep == (|r: (Seq<char>, bool, u64)| !expired(r, now_ms, lifetime)),
                k <= self.icon_info@.len(),
                gone.wf(),
                forall|n: Seq<char>| #[trigger] gone.view_set().contains(n) == expired_name(rs.take(k as int), n, now_ms, lifetime),
                records(info1@) == rs.take(k as int).filter(keep),
                info_names(info1@).no_duplicates(),
                forall|j: int| 0 <= j < info1@.len() ==> exists|q: int| 0 <= q < k && #[trigger] info1@[j].path@ == self.icon_info@[q].path@,
            decreases self.icon_info@.len() - k,
        {
            let r = &self.icon_info[k];
            let ghost rk = rs[k as int];
            proof {
                assert(rk == record_of(self.icon_info@[k as int]));
                assert(rs.take(k + 1) =~= rs.take(k as int).push(rk));
                rs.take(k as int).lemma_filter_push(rk, keep);
            }
            let ghost before_set = gone.view_set();
            if is_expired(r, now_ms, lifetime) {
                gone.insert(r.path.as_str());
            }
            assert forall|n: Seq<char>| #[trigger] gone.view_set().contains(n) == expired_name(rs.take(k + 1), n, now_ms, lifetime) by {
                let t = rs.take(k + 1);
                if expired_name(rs.take(k as int), n, now_ms, lifetime) {
                    let w = choose|w: int| 0 <= w < rs.take(k as int).len() && #[trigger] rs.take(k as int)[w].0 == n && expired(rs.take(k as int)[w], now_ms, lifetime);
                    assert(t[w] == rs.take(k as int)[w]);
                }
                if expired_name(t, n, now_ms, lifetime) {
                    let w = choose|w: int| 0 <= w < t.len() && #[trigger] t[w].0 == n && expired(t[w], now_ms, lifetime);
                    if w < k {
                        assert(t[w] == rs.take(k as int)[w]);
                    }
                }
                if n == rk.0 && expired(rk, now_ms, lifetime) {
                    assert(t[k as int] == rk);
                }
            }
            if !is_expired(r, now_ms, lifetime) {
                let c = copy_record(r);
                let ghost before = info1@;
                info1.push(c);
                proof {
                    assert(records(info1@) =~= records(before).push(rk));
                    assert forall|a: int, b: int| 0 <= a < b < info_names(info1@).len() implies info_names(info1@)[a] != info_names(info1@)[b] by {
                        assert(info_names(info1@)[a] == info1@[a].path@);
                        assert(info_names(info1@)[b] == info1@[b].path@);
                        if b < before.len() {
                            assert(info_names(before)[a] == before[a].path@);
                            assert(info_names(before)[b] == before[b].path@);
                        } else {
                            let q = choose|q: int| 0 <= q < k && #[trigger] info1@[a].path@ == self.icon_info@[q].path@;
                            assert(info1@[a] == before[a]);
                            assert(info_names(self.icon_info@)[q] == self.icon_info@[q].path@);
                            assert(info_names(self.icon_info@)[k as int] == self.icon_info@[k as int].path@);
                        }
                    }
                    assert forall|j: int| 0 <= j < info1@.len() implies exists|q: int| 0 <= q < k + 1 && #[trigger] info1@[j].path@ == self.icon_info@[q].path@ by {
                        if j < before.len() {
                            assert(info1@[j] == before[j]);
                        } else {
                            assert(info1@[j].path@ == self.icon_info@[k as int].path@);
                        }
                    }
                }
            }
            k = k + 1;
        }
        assert(rs.take(k as int) =~= rs);
        // Loaded icons whose record did not expire.
        let mut icons1: Vec<String> = Vec::new();
        let mut j: usize = 0;
        while j < self.rom_icons.len()
            invariant
                ns == names(self.rom_icons@),
                keep_name == (|n: Seq<char>| !expired_name(rs, n, now_ms, lifetime)),
                gone.wf(),
                forall|n: Seq<char>| #[trigger] gone.view_set().contains(n) == expired_name(rs, n, now_ms, lifetime),
                j <= self.rom_icons@.len(),
                names(icons1@) == ns.take(j as int).filter(keep_name),
            decreases self.rom_icons@.len() - j,
        {
            proof {
                assert(ns.take(j + 1) =~= ns.take(j as int).push(ns[j as int]));
                ns.take(j as int).lemma_filter_push(ns[j as int], keep_name);
                assert(ns[j as int] == self.rom_icons@[j as int]@);
            }
            if !gone.contains(self.rom_icons[j].as_str()) {
                let ghost before = names(icons1@);
                icons1.push(self.rom_icons[j].clone());
                assert(names(icons1@) =~= before.push(ns[j as int]));
            }
            j = j + 1;
        }
        assert(ns.take(j as int) =~= ns);
        proof {
            lemma_filter_distinct(ns, keep_name);
        }
        // Least recently shown records go while the cache is over capacity.
        let mut left: usize = if icons1.len() > self.max_cached_icons {
            icons1.len() - self.max_cached_icons
        } else {
            0
        };
        let ghost target = evict_oldest(records(info1@), names(icons1@), left as nat);
        while left > 0 && info1.len() > 0
            invariant
                evict_oldest(records(info1@), names(icons1@), left as nat) == target,
                info_names(info1@).no_duplicates(),
                names(icons1@).no_duplicates(),
            decreases left,
        {
            let m = first_oldest_index(&info1);
            let ghost before = info1@;
            let ghost icons_before = names(icons1@);
            let ghost name = records(before)[m as int].0;
            proof {
                assert(evict_oldest(records(before), icons_before, left as nat) == evict_oldest(
                    records(before).remove(m as int),
                    icons_before.filter(|n: Seq<char>| n != name),
                    (left - 1) as nat,
                ));
            }
            let victim = info1.remove(m);
            proof {
                assert(records(info1@) =~= records(before).remove(m as int));
                assert(records(before)[m as int].0 == victim.path@);
                assert forall|a: int, b: int| 0 <= a < b < info_names(info1@).len() implies info_names(info1@)[a] != info_names(info1@)[b] by {
                    assert(info_names(info1@)[a] == info1@[a].path@);
                    assert(info_names(info1@)[b] == info1@[b].path@);
                    let oa = if a < m { a } else { a + 1 };
                    let ob = if b < m { b } else { b + 1 };
                    assert(info1@[a] == before[oa]);
                    assert(info1@[b] == before[ob]);
                    assert(info_names(before)[oa] == before[oa].path@);
                    assert(info_names(before)[ob] == before[ob].path@);
                }
                lemma_filter_distinct(names(icons1@), |n: Seq<char>| n != victim.path@);
            }
            icons1 = without_name(&icons1, victim.path.as_str());
            proof {
                assert((|n: Seq<char>| n != victim.path@) =~= (|n: Seq<char>| n != name));
            }
            left = left - 1;
        }
        self.icon_info = info1;
        self.rom_icons = icons1;
        self.last_icon_cleanup_ms = now_ms;
    }

    /// Forgets the icon of `rom_name`.
    pub fn remove_from_cache(&mut self, rom_name: &str)
        requires
            old(self).wf(),
        ensures
            final(self).wf(),
            names(final(self).rom_icons@) == names(old(self).rom_icons@).filter(|n: Seq<char>| n != rom_name@),
            !info_names(final(self).icon_info@).contains(rom_name@),
            forall|k: int| 0 <= k < final(self).icon_info@.len() ==> old(self).icon_info@.contains(#[trigger] final(self).icon_info@[k]),
            *final(self) == (IconManager {
                rom_icons: final(self).rom_icons,
                icon_info: final(self).icon_info,
                ..*old(self)
            }),
    {
        let ghost old_icons = names(self.rom_icons@);
        proof {
            lemma_filter_distinct(old_icons, |n: Seq<char>| n != rom_name@);
        }
        self.rom_icons = without_name(&self.rom_icons, rom_name);
        match self.find_info(rom_name) {
            Some(m) => {
                let ghost before = self.icon_info@;
                self.icon_info.remove(m);
                proof {
                    assert forall|a: int, b: int| 0 <= a < b < info_names(self.icon_info@).len() implies info_names(self.icon_info@)[a] != info_names(self.icon_info@)[b] by {
                        let oa = if a < m { a } else { a + 1 };
                        let ob = if b < m { b } else { b + 1 };
                        assert(self.icon_info@[a] == before[oa]);
                        assert(self.icon_info@[b] == before[ob]);
                        assert(info_names(self.icon_info@)[a] == info_names(before)[oa]);
                        assert(info_names(self.icon_info@)[b] == info_names(before)[ob]);
                    }
                    assert forall|j: int| 0 <= j < info_names(self.icon_info@).len() implies info_names(self.icon_info@)[j] != rom_name@ by {
                        let oj = if j < m { j } else { j + 1 };
                        assert(self.icon_info@[j] == before[oj]);
                        assert(info_names(self.icon_info@)[j] == info_names(before)[oj]);
                        assert(info_names(before)[m as int] == rom_name@);
                    }
                    assert forall|k: int| 0 <= k < self.icon_info@.len() implies before.contains(#[trigger] self.icon_info@[k]) by {
                        let ok = if k < m { k } else { k + 1 };
                        assert(self.icon_info@[k] == before[ok]);
                    }
                }
            },
            None => {},
        }
    }
}

} // verus!
