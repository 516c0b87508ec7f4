//! Filter-result management: the cached result of the shared filter engine,
//! its per-filter search cache, and debounced search input.
//!
//! The hardware mapping (CPU/device/sound INI files) and the enhanced search
//! engine (fuzzy, full-text, regex) are computed by the application; their
//! answers come in as plain values and this module decides what to keep.
use vstd::prelude::*;

use super::game_list::RowData;
use crate::catalog::CloneIndex;
use crate::filtering::{
    categorized_candidates, categorized_spec, field_search, field_search_spec, is_enhanced_mode,
    retain_in, retain_in_spec,
};
use crate::models::{
    names, toggle_favorite, toggled_favorites, AvailabilityFilters, FilterCategory, FilterSettings, Game, OtherFilters, SearchMode,
    StatusFilters,
};
use crate::text::{
    chars_of, char_lowercase, lowercase, same_text, seq_starts_with, starts_with_chars,
    to_lowercase,
};

verus! {

/// Default capacity of the search cache.
pub const DEFAULT_MAX_CACHE_SIZE: usize = 100;

/// Answers of the hardware mapping for the current filter, one per game:
/// whether the game matches the CPU/device/sound filter fields, and whether it
/// uses hardware matching the search text in a hardware search mode.
pub struct HardwareMatches {
    pub filter_hits: Vec<bool>,
    pub search_hits: Vec<bool>,
}

/// The hardware filter answers, if a mapping is loaded.
pub open spec fn hw_filter_hits(h: Option<&HardwareMatches>) -> Option<Seq<bool>> {
    match h {
        Some(m) => Some(m.filter_hits@),
        None => None,
    }
}

/// The hardware search answers, if a mapping is loaded.
pub open spec fn hw_search_hits(h: Option<&HardwareMatches>) -> Option<Seq<bool>> {
    match h {
        Some(m) => Some(m.search_hits@),
        None => None,
    }
}

/// The enhanced engine's answer: `None` when no engine is available,
/// `Some(Err(..))` for an invalid query, `Some(Ok(indices))` otherwise.
pub open spec fn enhanced_view(e: Option<Result<Vec<usize>, String>>) -> Option<Seq<usize>> {
    match e {
        Some(Ok(v)) => Some(v@),
        _ => None,
    }
}

/// The final filter result for the current settings: the games passing all
/// facets, narrowed by the search text when there is one. Field modes keep
/// the games whose lowercase field contains the lowercase query; enhanced
/// modes keep the candidates that the engine returned, and nothing when the
/// engine is missing or rejected the query.
pub open spec fn filter_result_spec(
    games: Seq<Game>,
    fs: FilterSettings,
    favorites: Seq<Seq<char>>,
    hw_filter: Option<Seq<bool>>,
    hw_search: Option<Seq<bool>>,
    enhanced: Option<Seq<usize>>,
) -> Seq<usize> {
    let candidates = categorized_spec(fs, games, favorites, hw_filter, games.len() as int);
    if fs.search_text@.len() == 0 {
        candidates
    } else if is_enhanced_mode(fs.search_mode) {
        match enhanced {
            Some(r) => retain_in_spec(candidates, r),
            None => Seq::empty(),
        }
    } else {
        field_search_spec(games, candidates, fs.search_mode, lowercase(fs.search_text@), hw_search)
    }
}

/// The filter state that a cached search result belongs to.
pub struct SearchCacheKey {
    pub search_text: String,
    pub search_mode: SearchMode,
    pub availability: AvailabilityFilters,
    pub status: StatusFilters,
    pub other: OtherFilters,
    pub manufacturers: Vec<String>,
    pub year_from: String,
    pub year_to: String,
    pub cpu_filter: String,
    pub device_filter: String,
    pub sound_filter: String,
    pub hide_romless_systems: bool,
}

/// A cache key as plain values; the manufacturers form a set.
pub struct KeyView {
    pub search_text: Seq<char>,
    pub search_mode: SearchMode,
    pub availability: AvailabilityFilters,
    pub status: StatusFilters,
    pub other: OtherFilters,
    pub manufacturers: Set<Seq<char>>,
    pub year_from: Seq<char>,
    pub year_to: Seq<char>,
    pub cpu_filter: Seq<char>,
    pub device_filter: Seq<char>,
    pub sound_filter: Seq<char>,
    pub hide_romless_systems: bool,
}

impl SearchCacheKey {
    /// The key as plain values.
    pub open spec fn view_key(&self) -> KeyView {
        KeyView {
            search_text: self.search_text@,
            search_mode: self.search_mode,
            availability: self.availability,
            status: self.status,
            other: self.other,
            manufacturers: names(self.manufacturers@).to_set(),
            year_from: self.year_from@,
            year_to: self.year_to@,
            cpu_filter: self.cpu_filter@,
            device_filter: self.device_filter@,
            sound_filter: self.sound_filter@,
            hide_romless_systems: self.hide_romless_systems,
        }
    }
}

/// The cache key of a filter state.
pub open spec fn key_of(fs: FilterSettings) -> KeyView {
    KeyView {
        search_text: fs.search_text@,
        search_mode: fs.search_mode,
        availability: fs.availability_filters,
        status: fs.status_filters,
        other: fs.other_filters,
        manufacturers: names(fs.selected_manufacturers@).to_set(),
        year_from: fs.year_from@,
        year_to: fs.year_to@,
        cpu_filter: fs.cpu_filter@,
        device_filter: fs.device_filter@,
        sound_filter: fs.sound_filter@,
        hide_romless_systems: fs.hide_romless_systems,
    }
}

/// Whether every name of `a` is in `b`.
fn names_within(a: &Vec<String>, b: &Vec<String>) -> (r: bool)
    ensures
        r == (forall|k: int| 0 <= k < a@.len() ==> names(b@).contains(#[trigger] a@[k]@)),
{
    let mut i: usize = 0;
    while i < a.len()
        invariant
            i <= a.len(),
            forall|k: int| 0 <= k < i ==> names(b@).contains(#[trigger] a@[k]@),
        decreases a.len() - i,
    {
        if !crate::models::contains_name(b, a[i].as_str()) {
            return false;
        }
        i = i + 1;
    }
    true
}

/// Whether two name lists hold the same set of names.
pub fn same_name_set(a: &Vec<String>, b: &Vec<String>) -> (r: bool)
    ensures
        r == (names(a@).to_set() == names(b@).to_set()),
{
    let ab = names_within(a, b);
    let ba = names_within(b, a);
    proof {
        if ab && ba {
            assert forall|x: Seq<char>| names(a@).to_set().contains(x) <==> names(
                b@,
            ).to_set().contains(x) by {
                if names(a@).contains(x) {
                    let k = choose|k: int| 0 <= k < names(a@).len() && names(a@)[k] == x;
                    assert(names(b@).contains(a@[k]@));
                }
                if names(b@).contains(x) {
                    let k = choose|k: int| 0 <= k < names(b@).len() && names(b@)[k] == x;
                    assert(names(a@).contains(b@[k]@));
                }
            }
            assert(names(a@).to_set() =~= names(b@).to_set());
        }
        if !ab {
            let k = choose|k: int| 0 <= k < a@.len() && !names(b@).contains(#[trigger] a@[k]@);
            assert(names(a@)[k] == a@[k]@);
            assert(names(a@).to_set().contains(a@[k]@));
        }
        if !ba {
            let k = choose|k: int| 0 <= k < b@.len() && !names(a@).contains(#[trigger] b@[k]@);
            assert(names(b@)[k] == b@[k]@);
            assert(names(b@).to_set().contains(b@[k]@));
        }
    }
    ab && ba
}

impl SearchCacheKey {
    /// Whether two keys describe the same filter state.
    pub fn matches(&self, other: &SearchCacheKey) -> (r: bool)
        ensures
            r == (self.view_key() == other.view_key()),
    {
        let r = same_text(self.search_text.as_str(), other.search_text.as_str())
            && self.search_mode == other.search_mode && self.availability == other.availability
            && self.status == other.status && self.other == other.other && same_name_set(
            &self.manufacturers,
            &other.manufacturers,
        ) && same_text(self.year_from.as_str(), other.year_from.as_str()) && same_text(
            self.year_to.as_str(),
            other.year_to.as_str(),
        ) && same_text(self.cpu_filter.as_str(), other.cpu_filter.as_str()) && same_text(
            self.device_filter.as_str(),
            other.device_filter.as_str(),
        ) && same_text(self.sound_filter.as_str(), other.sound_filter.as_str())
            && self.hide_romless_systems == other.hide_romless_systems;
        r
    }
}

/// The result stored last under a key equal to `k`, if any.
pub open spec fn cache_lookup(entries: Seq<(SearchCacheKey, Vec<usize>)>, k: KeyView) -> Option<
    Seq<usize>,
>
    decreases entries.len(),
{
    if entries.len() == 0 {
        None
    } else if entries.last().0.view_key() == k {
        Some(entries.last().1@)
    } else {
        cache_lookup(entries.drop_last(), k)
    }
}

/// The result stored last under the search text `t`, if any.
pub open spec fn text_lookup(entries: Seq<(String, Vec<usize>)>, t: Seq<char>) -> Option<Seq<usize>>
    decreases entries.len(),
{
    if entries.len() == 0 {
        None
    } else if entries.last().0@ == t {
        Some(entries.last().1@)
    } else {
        text_lookup(entries.drop_last(), t)
    }
}

/// Catalogue-wide data kept for filtering: the clones of each parent,
/// favorites, the manager's cache of final results per filter state, and the
/// list widgets' cache of matches per plain search text. The two caches never
/// answer for each other.
pub struct GameIndex {
    pub clones: CloneIndex,
    pub favorites: Vec<String>,
    pub text_cache: Vec<(String, Vec<usize>)>,
    pub search_cache: Vec<(SearchCacheKey, Vec<usize>)>,
    pub max_cache_size: usize,
}

impl GameIndex {
    /// An index of the catalogue with the given favorites and an empty search cache.
    pub fn build(games: &Vec<Game>, favorites: &Vec<String>) -> (r: GameIndex)
        ensures
            r.clones.describes(games@),
            names(r.favorites@) == names(favorites@),
            r.text_cache@.len() == 0,
            r.search_cache@.len() == 0,
            r.max_cache_size == DEFAULT_MAX_CACHE_SIZE,
    {
        GameIndex {
            clones: CloneIndex::build(games),
            favorites: super::software_list_panel::clone_strings(favorites),
            text_cache: Vec::new(),
            search_cache: Vec::new(),
            max_cache_size: DEFAULT_MAX_CACHE_SIZE,
        }
    }

    /// Position of the last cache entry whose key equals `key`.
    fn find_cached(&self, key: &SearchCacheKey) -> (r: Option<usize>)
        ensures
            match r {
                Some(p) => p < self.search_cache@.len() && self.search_cache@[p as int].0.view_key()
                    == key.view_key() && forall|q: int|
                    p < q < self.search_cache@.len() ==> (#[trigger] self.search_cache@[q]).0.view_key()
                        != key.view_key(),
                None => forall|q: int|
                    0 <= q < self.search_cache@.len() ==> (#[trigger] self.search_cache@[q]).0.view_key()
                        != key.view_key(),
            },
    {
        let mut i = self.search_cache.len();
        while i > 0
            invariant
                i <= self.search_cache@.len(),
                forall|q: int|
                    i <= q < self.search_cache@.len() ==> (#[trigger] self.search_cache@[q]).0.view_key()
                        != key.view_key(),
            decreases i,
        {
            if self.search_cache[i - 1].0.matches(key) {
                return Some(i - 1);
            }
            i = i - 1;
        }
        None
    }

    /// The cached result for the filter state `key`, if any.
    pub fn get_cached_search(&self, key: &SearchCacheKey) -> (r: Option<&Vec<usize>>)
        ensures
            match r {
                Some(v) => cache_lookup(self.search_cache@, key.view_key()) == Some(v@),
                None => cache_lookup(self.search_cache@, key.view_key()) is None,
            },
    {
        let found = self.find_cached(key);
        proof {
            lemma_lookup_last_match(self.search_cache@, key.view_key(), found);
        }
        match found {
            Some(p) => Some(&self.search_cache[p].1),
            None => None,
        }
    }

    /// Stores a result for a filter state; the oldest entry makes room when
    /// the cache is full. A cache of capacity zero stores nothing.
    pub fn cache_search(&mut self, key: SearchCacheKey, result: Vec<usize>)
        ensures
            old(self).max_cache_size > 0 ==> cache_lookup(
                final(self).search_cache@,
                key.view_key(),
            ) == Some(result@),
            old(self).max_cache_size == 0 ==> final(self).search_cache == old(self).search_cache,
            old(self).search_cache@.len() <= old(self).max_cache_size ==> final(self).search_cache@.len() <= final(self).max_cache_size,
            *final(self) == (GameIndex { search_cache: final(self).search_cache, ..*old(self) }),
    {
        if self.max_cache_size == 0 {
            return ;
        }
        let ghost kv = key.view_key();
        let ghost rv = result@;
        match self.find_cached(&key) {
            Some(p) => {
                let ghost before = self.search_cache@;
                self.search_cache.set(p, (key, result));
                proof {
                    lemma_lookup_after_set(before, p as int, self.search_cache@, kv, rv);
                }
            },
            None => {
                if self.search_cache.len() >= self.max_cache_size {
                    self.search_cache.remove(0);
                }
                self.search_cache.push((key, result));
                assert(self.search_cache@.drop_last() =~= self.search_cache@.drop_last());
            },
        }
    }

    /// Drops every cached result.
    pub fn clear_cache(&mut self)
        ensures
            final(self).search_cache@.len() == 0,
            final(self).text_cache@.len() == 0,
            *final(self) == (GameIndex {
                search_cache: final(self).search_cache,
                text_cache: final(self).text_cache,
                ..*old(self)
            }),
    {
        self.search_cache = Vec::new();
        self.text_cache = Vec::new();
    }

    /// Position of the last text-cache entry for `text`.
    fn find_text(&self, text: &str) -> (r: Option<usize>)
        ensures
            match r {
                Some(p) => p < self.text_cache@.len() && self.text_cache@[p as int].0@ == text@
                    && forall|q: int| p < q < self.text_cache@.len() ==> (#[trigger] self.text_cache@[q]).0@ != text@,
                None => forall|q: int| 0 <= q < self.text_cache@.len() ==> (#[trigger] self.text_cache@[q]).0@ != text@,
            },
    {
        let mut i = self.text_cache.len();
        while i > 0
            invariant
                i <= self.text_cache@.len(),
                forall|q: int| i <= q < self.text_cache@.len() ==> (#[trigger] self.text_cache@[q]).0@ != text@,
            decreases i,
        {
            if same_text(self.text_cache[i - 1].0.as_str(), text) {
                return Some(i - 1);
            }
            i = i - 1;
        }
        None
    }

    /// The cached matches of a plain search text, if any.
    pub fn get_cached_text_search(&self, text: &str) -> (r: Option<&Vec<usize>>)
        ensures
            match r {
                Some(v) => text_lookup(self.text_cache@, text@) == Some(v@),
                None => text_lookup(self.text_cache@, text@) is None,
            },
    {
        let found = self.find_text(text);
        proof {
            lemma_text_lookup_last_match(self.text_cache@, text@, found);
        }
        match found {
            Some(p) => Some(&self.text_cache[p].1),
            None => None,
        }
    }

    /// Stores the matches of a plain search text; the oldest entry makes room
    /// when the cache is full. A cache of capacity zero stores nothing.
    pub fn cache_text_search(&mut self, text: String, result: Vec<usize>)
        ensures
            old(self).max_cache_size > 0 ==> text_lookup(final(self).text_cache@, text@) == Some(result@),
            old(self).max_cache_size == 0 ==> final(self).text_cache == old(self).text_cache,
            *final(self) == (GameIndex { text_cache: final(self).text_cache, ..*old(self) }),
    {
        if self.max_cache_size == 0 {
            return ;
        }
        let ghost t = text@;
        let ghost rv = result@;
        match self.find_text(text.as_str()) {
            Some(p) => {
                let ghost before = self.text_cache@;
                self.text_cache.set(p, (text, result));
                proof {
                    lemma_text_lookup_after_set(before, p as int, self.text_cache@, t, rv);
                }
            },
            None => {
                if self.text_cache.len() >= self.max_cache_size {
                    self.text_cache.remove(0);
                }
                self.text_cache.push((text, result));
            },
        }
    }

    /// Replaces the favorites.
    pub fn update_favorites(&mut self, favorites: &Vec<String>)
        ensures
            names(final(self).favorites@) == names(favorites@),
            *final(self) == (GameIndex { favorites: final(self).favorites, ..*old(self) }),
    {
        self.favorites = super::software_list_panel::clone_strings(favorites);
    }
}

proof fn lemma_text_lookup_last_match(entries: Seq<(String, Vec<usize>)>, t: Seq<char>, found: Option<usize>)
    requires
        match found {
            Some(p) => p < entries.len() && entries[p as int].0@ == t && forall|q: int|
                p < q < entries.len() ==> (#[trigger] entries[q]).0@ != t,
            None => forall|q: int| 0 <= q < entries.len() ==> (#[trigger] entries[q]).0@ != t,
        },
    ensures
        text_lookup(entries, t) == match found {
            Some(p) => Some(entries[p as int].1@),
            None => None,
        },
    decreases entries.len(),
{
    if entries.len() > 0 {
        let rest = entries.drop_last();
        assert(entries[entries.len() - 1] == entries.last());
        match found {
            Some(p) => {
                if (p as int) < entries.len() - 1 {
                    assert forall|q: int| p < q < rest.len() implies (#[trigger] rest[q]).0@ != t by {
                        assert(rest[q] == entries[q]);
                    }
                    assert(rest[p as int] == entries[p as int]);
                    lemma_text_lookup_last_match(rest, t, found);
                }
            },
            None => {
                assert forall|q: int| 0 <= q < rest.len() implies (#[trigger] rest[q]).0@ != t by {
                    assert(rest[q] == entries[q]);
                }
                lemma_text_lookup_last_match(rest, t, found);
            },
        }
    }
}

proof fn lemma_text_lookup_after_set(
    before: Seq<(String, Vec<usize>)>,
    p: int,
    after: Seq<(String, Vec<usize>)>,
    t: Seq<char>,
    v: Seq<usize>,
)
    requires
        0 <= p < before.len(),
        after.len() == before.len(),
        after[p].0@ == t,
        after[p].1@ == v,
        forall|q: int| 0 <= q < before.len() && q != p ==> after[q] == before[q],
        forall|q: int| p < q < before.len() ==> (#[trigger] before[q]).0@ != t,
    ensures
        text_lookup(after, t) == Some(v),
    decreases after.len(),
{
    if p < after.len() - 1 {
        assert(after[after.len() - 1] == before[before.len() - 1]);
        let a2 = after.drop_last();
        let b2 = before.drop_last();
        assert forall|q: int| 0 <= q < b2.len() && q != p implies a2[q] == b2[q] by {
            assert(a2[q] == after[q]);
            assert(b2[q] == before[q]);
        }
        assert forall|q: int| p < q < b2.len() implies (#[trigger] b2[q]).0@ != t by {
            assert(b2[q] == before[q]);
        }
        lemma_text_lookup_after_set(b2, p, a2, t, v);
    }
}

proof fn lemma_lookup_last_match(
    entries: Seq<(SearchCacheKey, Vec<usize>)>,
    k: KeyView,
    found: Option<usize>,
)
    requires
        match found {
            Some(p) => p < entries.len() && entries[p as int].0.view_key() == k && forall|q: int|
                p < q < entries.len() ==> (#[trigger] entries[q]).0.view_key() != k,
            None => forall|q: int| 0 <= q < entries.len() ==> (#[trigger] entries[q]).0.view_key() != k,
        },
    ensures
        cache_lookup(entries, k) == match found {
            Some(p) => Some(entries[p as int].1@),
            None => None,
        },
    decreases entries.len(),
{
    if entries.len() > 0 {
        let rest = entries.drop_last();
        match found {
            Some(p) => {
                if (p as int) < entries.len() - 1 {
                    assert(entries[entries.len() - 1] == entries.last());
                    assert forall|q: int| p < q < rest.len() implies (#[trigger] rest[q]).0.view_key()
                        != k by {
                        assert(rest[q] == entries[q]);
                    }
                    assert(rest[p as int] == entries[p as int]);
                    lemma_lookup_last_match(rest, k, found);
                }
            },
            None => {
                assert(entries[entries.len() - 1] == entries.last());
                assert forall|q: int| 0 <= q < rest.len() implies (#[trigger] rest[q]).0.view_key()
                    != k by {
                    assert(rest[q] == entries[q]);
                }
                lemma_lookup_last_match(rest, k, found);
            },
        }
    }
}

proof fn lemma_lookup_after_set(
    before: Seq<(SearchCacheKey, Vec<usize>)>,
    p: int,
    after: Seq<(SearchCacheKey, Vec<usize>)>,
    k: KeyView,
    v: Seq<usize>,
)
    requires
        0 <= p < before.len(),
        after.len() == before.len(),
        after[p].0.view_key() == k,
        after[p].1@ == v,
        forall|q: int| 0 <= q < before.len() && q != p ==> after[q] == before[q],
        forall|q: int| p < q < before.len() ==> (#[trigger] before[q]).0.view_key() != k,
    ensures
        cache_lookup(after, k) == Some(v),
    decreases after.len(),
{
    if p < after.len() - 1 {
        assert(after[after.len() - 1] == before[before.len() - 1]);
        let a2 = after.drop_last();
        let b2 = before.drop_last();
        assert forall|q: int| 0 <= q < b2.len() && q != p implies a2[q] == b2[q] by {
            assert(a2[q] == after[q]);
            assert(b2[q] == before[q]);
        }
        assert forall|q: int| p < q < b2.len() implies (#[trigger] b2[q]).0.view_key() != k by {
            assert(b2[q] == before[q]);
        }
        lemma_lookup_after_set(b2, p, a2, k, v);
    }
}

/// Counters describing the manager's state.
#[derive(Debug, Clone, Copy)]
pub struct GameIndexStats {
    pub has_index: bool,
    pub filtered_count: usize,
    pub cache_dirty: bool,
    pub search_cache_size: usize,
    pub max_cache_size: usize,
    pub last_update_ms: u64,
}

/// Keeps the filter result of the shared engine up to date.
pub struct GameIndexManager {
    pub game_index: Option<GameIndex>,
    pub filtered_games_cache: Vec<usize>,
    pub filter_cache_dirty: bool,
    pub last_hide_romless_systems: bool,
    /// Time of the last result update, in milliseconds of the application clock.
    pub last_filter_update_ms: u64,
    /// When the pending search was typed, in milliseconds of the application clock.
    pub search_debounce_started_ms: Option<u64>,
    pub pending_search: Option<String>,
    /// Whether the application has an enhanced search engine.
    pub has_enhanced_engine: bool,
    pub search_debounce_ms: u64,
    pub max_cache_size: usize,
}

/// The favorites the filter uses: those of the index, none without an index.
pub open spec fn index_favorites(index: Option<GameIndex>) -> Seq<Seq<char>> {
    match index {
        Some(i) => names(i.favorites@),
        None => Seq::empty(),
    }
}

/// The filter result would be recomputed by an update with these settings.
pub open spec fn update_needed(m: GameIndexManager, fs: FilterSettings) -> bool {
    m.filter_cache_dirty || m.last_hide_romless_systems != fs.hide_romless_systems
}

impl GameIndexManager {
    /// A manager with no index, a dirty result and the default settings.
    pub fn new() -> (r: Self)
        ensures
            r.game_index is None,
            r.filtered_games_cache@.len() == 0,
            r.filter_cache_dirty,
            r.last_hide_romless_systems,
            r.pending_search is None,
            r.search_debounce_started_ms is None,
            r.has_enhanced_engine,
            r.search_debounce_ms == 300,
            r.max_cache_size == 100,
    {
        GameIndexManager {
            game_index: None,
            filtered_games_cache: Vec::new(),
            filter_cache_dirty: true,
            last_hide_romless_systems: true,
            last_filter_update_ms: 0,
            search_debounce_started_ms: None,
            pending_search: None,
            has_enhanced_engine: true,
            search_debounce_ms: 300,
            max_cache_size: 100,
        }
    }

    /// The manager with other performance settings.
    pub fn with_settings(self, search_debounce_ms: u64, max_cache_size: usize) -> (r: Self)
        ensures
            r.search_debounce_ms == search_debounce_ms,
            r.max_cache_size == max_cache_size,
            r.filter_cache_dirty == self.filter_cache_dirty,
            r.filtered_games_cache == self.filtered_games_cache,
    {
        let mut s = self;
        s.search_debounce_ms = search_debounce_ms;
        s.max_cache_size = max_cache_size;
        s
    }

    /// Builds the index for a newly loaded catalogue; the result must be recomputed.
    pub fn build_game_index(&mut self, games: &Vec<Game>, favorites: &Vec<String>)
        ensures
            final(self).game_index matches Some(i) && i.clones.describes(games@) && names(i.favorites@) == names(favorites@)
                && i.search_cache@.len() == 0,
            *final(self) == (GameIndexManager {
                game_index: final(self).game_index,
                filter_cache_dirty: true,
                ..*old(self)
            }),
    {
        self.game_index = Some(GameIndex::build(games, favorites));
        self.filter_cache_dirty = true;
    }

    /// The favorites the filter uses.
    pub fn favorites(&self) -> (r: Vec<String>)
        ensures
            names(r@) == index_favorites(self.game_index),
    {
        match &self.game_index {
            Some(index) => super::software_list_panel::clone_strings(&index.favorites),
            None => {
                let r: Vec<String> = Vec::new();
                assert(names(r@) =~= Seq::<Seq<char>>::empty());
                r
            },
        }
    }

    /// Whether `update_filtered_games_cache` would recompute the result.
    pub fn needs_update(&self, filter_settings: &FilterSettings) -> (r: bool)
        ensures
            r == update_needed(*self, *filter_settings),
    {
        self.filter_cache_dirty || self.last_hide_romless_systems
            != filter_settings.hide_romless_systems
    }

    /// The games passing all facets for these settings: the candidates that
    /// the enhanced engine is asked to rank.
    pub fn candidates_for(
        &self,
        games: &Vec<Game>,
        filter_settings: &FilterSettings,
        hardware: Option<&HardwareMatches>,
    ) -> (r: Vec<usize>)
        ensures
            r@ == categorized_spec(
                *filter_settings,
                games@,
                index_favorites(self.game_index),
                hw_filter_hits(hardware),
                games@.len() as int,
            ),
    {
        let favorites = self.favorites();
        let hits: Option<&Vec<bool>> = match hardware {
            Some(h) => Some(&h.filter_hits),
            None => None,
        };
        categorized_candidates(games, filter_settings, &favorites, hits)
    }

    /// The search-cache key of a filter state.
    pub fn filtered_search_cache_key(filters: &FilterSettings) -> (k: SearchCacheKey)
        ensures
            k.view_key() == key_of(*filters),
    {
        SearchCacheKey {
            search_text: filters.search_text.clone(),
            search_mode: filters.search_mode,
            availability: filters.availability_filters,
            status: filters.status_filters,
            other: filters.other_filters,
            manufacturers: super::software_list_panel::clone_strings(
                &filters.selected_manufacturers,
            ),
            year_from: filters.year_from.clone(),
            year_to: filters.year_to.clone(),
            cpu_filter: filters.cpu_filter.clone(),
            device_filter: filters.device_filter.clone(),
            sound_filter: filters.sound_filter.clone(),
            hide_romless_systems: filters.hide_romless_systems,
        }
    }

    /// Computes the filter result without consulting the cache.
    pub fn compute_filter_result(
        &self,
        games: &Vec<Game>,
        filter_settings: &FilterSettings,
        hardware: Option<&HardwareMatches>,
        enhanced: &Option<Result<Vec<usize>, String>>,
    ) -> (r: Vec<usize>)
        ensures
            r@ == filter_result_spec(
                games@,
                *filter_settings,
                index_favorites(self.game_index),
                hw_filter_hits(hardware),
                hw_search_hits(hardware),
                enhanced_view(*enhanced),
            ),
    {
        let candidates = self.candidates_for(games, filter_settings, hardware);
        if filter_settings.search_text.as_str().is_empty() {
            return candidates;
        }
        match filter_settings.search_mode {
            SearchMode::FuzzySearch | SearchMode::FullText | SearchMode::Regex => {
                // Invalid patterns/queries must not silently turn into literal
                // title searches with different matching rules.
                match enhanced {
                    Some(Ok(results)) => retain_in(&candidates, results),
                    _ => Vec::new(),
                }
            },
            _ => {
                let query = chars_of(to_lowercase(filter_settings.search_text.as_str()).as_str());
                let hits: Option<&Vec<bool>> = match hardware {
                    Some(h) => Some(&h.search_hits),
                    None => None,
                };
                field_search(games, &candidates, filter_settings.search_mode, &query, hits)
            },
        }
    }

    /// Brings the filter result up to date for the given settings.
    ///
    /// Nothing happens while the result is clean and the ROM-requirement
    /// exclusion is unchanged. With an index and a search text, a result
    /// cached for exactly this filter state is reused; otherwise the result is
    /// computed and cached under that state.
    pub fn update_filtered_games_cache(
        &mut self,
        games: &Vec<Game>,
        selected_filter: FilterCategory,
        filter_settings: &FilterSettings,
        hidden_categories: &Vec<String>,
        hardware: Option<&HardwareMatches>,
        enhanced: Option<Result<Vec<usize>, String>>,
        now_ms: u64,
    )
        ensures
            !update_needed(*old(self), *filter_settings) ==> *final(self) == *old(self),
            update_needed(*old(self), *filter_settings) ==> {
                let expected = filter_result_spec(
                    games@,
                    *filter_settings,
                    index_favorites(old(self).game_index),
                    hw_filter_hits(hardware),
                    hw_search_hits(hardware),
                    enhanced_view(enhanced),
                );
                let key = key_of(*filter_settings);
                &&& !final(self).filter_cache_dirty
                &&& final(self).last_hide_romless_systems == filter_settings.hide_romless_systems
                &&& final(self).last_filter_update_ms == now_ms
                &&& match old(self).game_index {
                    Some(idx) if filter_settings.search_text@.len() != 0 => match cache_lookup(
                        idx.search_cache@,
                        key,
                    ) {
                        Some(cached) => final(self).filtered_games_cache@ == cached
                            && final(self).game_index == old(self).game_index,
                        None => final(self).filtered_games_cache@ == expected && (final(self).game_index
                            matches Some(nidx) && nidx == (GameIndex {
                            search_cache: nidx.search_cache,
                            ..idx
                        }) && (idx.max_cache_size > 0 ==> cache_lookup(nidx.search_cache@, key)
                            == Some(expected)) && (idx.max_cache_size == 0 ==> nidx == idx)),
                    },
                    _ => final(self).filtered_games_cache@ == expected && final(self).game_index
                        == old(self).game_index,
                }
            },
            index_favorites(final(self).game_index) == index_favorites(old(self).game_index),
            update_needed(*old(self), *filter_settings) ==> *final(self) == (GameIndexManager {
                game_index: final(self).game_index,
                filtered_games_cache: final(self).filtered_games_cache,
                filter_cache_dirty: false,
                last_hide_romless_systems: filter_settings.hide_romless_systems,
                last_filter_update_ms: now_ms,
                ..*old(self)
            }),
    {
        if !self.needs_update(filter_settings) {
            return ;
        }
        let search_empty = filter_settings.search_text.as_str().is_empty();
        let mut done = false;
        if !search_empty {
            let key = Self::filtered_search_cache_key(filter_settings);
            let cached: Option<Vec<usize>> = match &self.game_index {
                Some(index) => match index.get_cached_search(&key) {
                    Some(v) => Some(v.clone()),
                    None => None,
                },
                None => None,
            };
            match cached {
                Some(v) => {
                    assert(v@ =~= v@);
                    self.filtered_games_cache = v;
                    done = true;
                },
                None => {
                    if self.game_index.is_some() {
                        let result = self.compute_filter_result(
                            games,
                            filter_settings,
                            hardware,
                            &enhanced,
                        );
                        let ghost res = result@;
                        let mut index = self.game_index.take().unwrap();
                        index.cache_search(key, result.clone());
                        self.game_index = Some(index);
                        self.filtered_games_cache = result;
                        done = true;
                    }
                },
            }
        }
        if !done {
            self.filtered_games_cache = self.compute_filter_result(
                games,
                filter_settings,
                hardware,
                &enhanced,
            );
        }
        self.filter_cache_dirty = false;
        self.last_hide_romless_systems = filter_settings.hide_romless_systems;
        self.last_filter_update_ms = now_ms;
    }

    /// Records typed search text; it is applied after the debounce delay.
    pub fn handle_search_input(&mut self, new_text: String, now_ms: u64)
        ensures
            *final(self) == (GameIndexManager {
                pending_search: Some(new_text),
                search_debounce_started_ms: Some(now_ms),
                ..*old(self)
            }),
    {
        self.pending_search = Some(new_text);
        self.search_debounce_started_ms = Some(now_ms);
    }

    /// Returns the pending search once the debounce delay has passed, and
    /// marks the result dirty.
    pub fn process_pending_search(&mut self, now_ms: u64) -> (r: Option<String>)
        ensures
            ({
                let ready = old(self).pending_search is Some && (
                old(self).search_debounce_started_ms matches Some(t) && now_ms >= t && now_ms - t
                    >= old(self).search_debounce_ms);
                &&& ready ==> r == old(self).pending_search && *final(self) == (GameIndexManager {
                    pending_search: None,
                    search_debounce_started_ms: None,
                    filter_cache_dirty: true,
                    ..*old(self)
                })
                &&& !ready ==> r is None && *final(self) == *old(self)
            }),
    {
        match (&self.pending_search, self.search_debounce_started_ms) {
            (Some(_), Some(started)) => {
                if now_ms >= started && now_ms - started >= self.search_debounce_ms {
                    let result = self.pending_search.take();
                    self.search_debounce_started_ms = None;
                    self.filter_cache_dirty = true;
                    return result;
                }
                None
            },
            _ => None,
        }
    }

    /// Whether search text is waiting for the debounce delay.
    pub fn has_pending_search(&self) -> (r: bool)
        ensures
            r == self.pending_search is Some,
    {
        self.pending_search.is_some()
    }

    /// Whether the debounce delay `debounce_ms` has passed since the last input.
    pub fn should_process_pending_search(&self, debounce_ms: u64, now_ms: u64) -> (r: bool)
        ensures
            r == (self.search_debounce_started_ms matches Some(t) && now_ms >= t && now_ms - t
                >= debounce_ms),
    {
        match self.search_debounce_started_ms {
            Some(started) => now_ms >= started && now_ms - started >= debounce_ms,
            None => false,
        }
    }

    /// The current filter result.
    pub fn get_filtered_games(&self) -> (r: &Vec<usize>)
        ensures
            r == self.filtered_games_cache,
    {
        &self.filtered_games_cache
    }

    /// Whether the filter result must be recomputed.
    pub fn is_cache_dirty(&self) -> (r: bool)
        ensures
            r == self.filter_cache_dirty,
    {
        self.filter_cache_dirty
    }

    /// Requests a recomputation of the filter result.
    pub fn mark_cache_dirty(&mut self)
        ensures
            *final(self) == (GameIndexManager { filter_cache_dirty: true, ..*old(self) }),
    {
        self.filter_cache_dirty = true;
    }

    /// Size and capacity of the search cache.
    pub fn get_cache_stats(&self) -> (r: (usize, usize))
        ensures
            r == match self.game_index {
                Some(i) => (i.search_cache@.len() as usize, i.max_cache_size),
                None => (0usize, self.max_cache_size),
            },
    {
        match &self.game_index {
            Some(index) => (index.search_cache.len(), index.max_cache_size),
            None => (0, self.max_cache_size),
        }
    }

    /// Replaces the favorites; cached results are dropped and the result is dirty.
    pub fn update_favorites(&mut self, favorites: &Vec<String>)
        ensures
            match old(self).game_index {
                Some(o) => final(self).game_index matches Some(i) && names(i.favorites@)
                    == names(favorites@) && i.search_cache@.len() == 0 && i.text_cache@.len() == 0
                    && i == (GameIndex {
                    favorites: i.favorites,
                    search_cache: i.search_cache,
                    text_cache: i.text_cache,
                    ..o
                }),
                None => final(self).game_index is None,
            },
            *final(self) == (GameIndexManager {
                game_index: final(self).game_index,
                filter_cache_dirty: true,
                ..*old(self)
            }),
    {
        match self.game_index.take() {
            Some(mut index) => {
                index.update_favorites(favorites);
                index.clear_cache();
                self.game_index = Some(index);
            },
            None => {},
        }
        self.filter_cache_dirty = true;
    }

    /// Marks a game as favorite or unmarks it, and hands the new favorites to
    /// the index (which drops its cached results); the result is dirty. The
    /// caller then saves the configuration.
    pub fn toggle_favorite(&mut self, favorites: &mut Vec<String>, rom_name: &str)
        ensures
            names(final(favorites)@) == toggled_favorites(names(old(favorites)@), rom_name@),
            match old(self).game_index {
                Some(o) => final(self).game_index matches Some(i) && names(i.favorites@)
                    == names(final(favorites)@) && i.search_cache@.len() == 0
                    && i.text_cache@.len() == 0 && i == (GameIndex {
                    favorites: i.favorites,
                    search_cache: i.search_cache,
                    text_cache: i.text_cache,
                    ..o
                }),
                None => final(self).game_index is None,
            },
            *final(self) == (GameIndexManager {
                game_index: final(self).game_index,
                filter_cache_dirty: true,
                ..*old(self)
            }),
    {
        toggle_favorite(favorites, rom_name);
        self.update_favorites(favorites);
    }

    /// The enhanced search settings changed: cached results are dropped and
    /// the result is dirty.
    pub fn configure_enhanced_search(&mut self)
        ensures
            match old(self).game_index {
                Some(i) => final(self).game_index matches Some(n) && n.search_cache@.len() == 0
                    && n.text_cache@.len() == 0 && n == (GameIndex {
                    search_cache: n.search_cache,
                    text_cache: n.text_cache,
                    ..i
                }),
                None => final(self).game_index is None,
            },
            *final(self) == (GameIndexManager {
                game_index: final(self).game_index,
                filter_cache_dirty: true,
                ..*old(self)
            }),
    {
        match self.game_index.take() {
            Some(mut index) => {
                index.clear_cache();
                self.game_index = Some(index);
            },
            None => {},
        }
        self.filter_cache_dirty = true;
    }

    /// Whether an enhanced search engine is available.
    pub fn has_enhanced_search(&self) -> (r: bool)
        ensures
            r == self.has_enhanced_engine,
    {
        self.has_enhanced_engine
    }

    /// The game of the first row whose title starts with `character`, ignoring case.
    pub fn jump_to_game_starting_with(
        &self,
        games: &Vec<Game>,
        character: char,
        expanded_rows_cache: &Vec<RowData>,
    ) -> (r: Option<usize>)
        ensures
            match r {
                Some(g) => exists|k: int|
                    0 <= k < expanded_rows_cache@.len() && expanded_rows_cache@[k].game_idx == g
                        && jump_target(games@, expanded_rows_cache@[k], character) && forall|
                        j: int,
                    |
                        0 <= j < k ==> !jump_target(
                            games@,
                            #[trigger] expanded_rows_cache@[j],
                            character,
                        ),
                None => forall|k: int|
                    0 <= k < expanded_rows_cache@.len() ==> !jump_target(
                        games@,
                        #[trigger] expanded_rows_cache@[k],
                        character,
                    ),
            },
    {
        let prefix = chars_of(crate::text::char_to_lowercase(character).as_str());
        let mut k: usize = 0;
        while k < expanded_rows_cache.len()
            invariant
                k <= expanded_rows_cache.len(),
                prefix@ == char_lowercase(character),
                forall|j: int| 0 <= j < k ==> !jump_target(
                    games@,
                    #[trigger] expanded_rows_cache@[j],
                    character,
                ),
            decreases expanded_rows_cache.len() - k,
        {
            let row = expanded_rows_cache[k];
            if row.game_idx < games.len() {
                let title = chars_of(
                    to_lowercase(games[row.game_idx].description.as_str()).as_str(),
                );
                if starts_with_chars(&title, &prefix) {
                    return Some(row.game_idx);
                }
            }
            k = k + 1;
        }
        None
    }

    /// Forgets the index, the result and any pending search.
    pub fn reset(&mut self, now_ms: u64)
        ensures
            final(self).filtered_games_cache@.len() == 0,
            *final(self) == (GameIndexManager {
                game_index: None,
                filtered_games_cache: final(self).filtered_games_cache,
                filter_cache_dirty: true,
                search_debounce_started_ms: None,
                pending_search: None,
                last_filter_update_ms: now_ms,
                ..*old(self)
            }),
    {
        self.game_index = None;
        self.filtered_games_cache = Vec::new();
        self.filter_cache_dirty = true;
        self.search_debounce_started_ms = None;
        self.pending_search = None;
        self.last_filter_update_ms = now_ms;
    }

    /// Counters describing the manager.
    pub fn get_stats(&self) -> (r: GameIndexStats)
        ensures
            r.has_index == self.game_index is Some,
            r.filtered_count == self.filtered_games_cache@.len(),
            r.cache_dirty == self.filter_cache_dirty,
            (r.search_cache_size, r.max_cache_size) == match self.game_index {
                Some(i) => (i.search_cache@.len() as usize, i.max_cache_size),
                None => (0usize, self.max_cache_size),
            },
            r.last_update_ms == self.last_filter_update_ms,
    {
        let (size, max) = self.get_cache_stats();
        GameIndexStats {
            has_index: self.game_index.is_some(),
            filtered_count: self.filtered_games_cache.len(),
            cache_dirty: self.filter_cache_dirty,
            search_cache_size: size,
            max_cache_size: max,
            last_update_ms: self.last_filter_update_ms,
        }
    }
}

/// Row `row` shows a game whose lowercase title starts with the lowercase `character`.
pub open spec fn jump_target(games: Seq<Game>, row: RowData, character: char) -> bool {
    row.game_idx < games.len() && seq_starts_with(
        lowercase(games[row.game_idx as int].description@),
        char_lowercase(character),
    )
}

/// A result stored for a filter state is what a later lookup of an equal
/// state returns.
pub proof fn lemma_cache_returns_what_was_stored(
    before: Seq<(SearchCacheKey, Vec<usize>)>,
    key: SearchCacheKey,
    result: Vec<usize>,
)
    ensures
        cache_lookup(before.push((key, result)), key.view_key()) == Some(result@),
{
    assert(before.push((key, result)).last() == (key, result));
}

/// Matches stored for a search text are what a later lookup of that text
/// returns.
pub proof fn lemma_text_cache_returns_what_was_stored(
    before: Seq<(String, Vec<usize>)>,
    text: String,
    result: Vec<usize>,
)
    ensures
        text_lookup(before.push((text, result)), text@) == Some(result@),
{
    assert(before.push((text, result)).last() == (text, result));
}

} // verus!
