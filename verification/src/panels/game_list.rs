//! Rows of the legacy game table: filtering, ROM-set de-duplication, sorting
//! and clone expansion.
//!
//! The table keeps the catalogue indices that pass the filters and the rows
//! it shows for them; drawing is left to the application, which reads the
//! rows through `row_count`, `game_idx_at_row` and `row_for_game_idx`.
use vstd::prelude::*;
use vstd::seq_lib::group_seq_properties;

use super::game_index_manager::{text_lookup, GameIndex};
use crate::filtering::{
    availability_match, driver_is_working, field_search, field_search_match, field_search_spec,
    is_favorite, opt_hits, others_match, status_match,
};
use crate::models::{
    FilterCategory, manufacturer_spec, names, rom_requirement_spec, status_description_spec, FilterSettings, Game, RomSetType, RomStatus,
};
use crate::catalog::{clones_of, CloneIndex, NameSet};
use crate::sorting::{directed_order, stable_sort_by_keys};
use crate::text::{chars_of, lowercase, same_text, to_lowercase};

verus! {

broadcast use group_seq_properties;

/// One row of the game table.
#[derive(Debug, Clone, Copy, PartialEq, Eq, Structural)]
pub struct RowData {
    /// Index of the game in the catalogue.
    pub game_idx: usize,
    /// Whether the row shows a clone.
    pub is_clone: bool,
    /// Indentation level in the parent/clone hierarchy.
    pub indent_level: u32,
    /// Catalogue index of the parent row, for an expanded clone.
    pub parent_idx: Option<usize>,
}

/// The column the table is sorted by.
#[derive(Debug, Clone, Copy, PartialEq, Eq, Hash, Structural)]
pub enum SortColumn {
    Name,
    Manufacturer,
    Year,
    Status,
    Category,
}

// ---------------------------------------------------------------------------
// Filter specifications
// ---------------------------------------------------------------------------

/// The catver category filter: when one is set, only games of that category pass.
pub open spec fn catver_match(fs: FilterSettings, g: Game) -> bool {
    match fs.catver_category {
        Some(c) => g.category@ == c@,
        None => true,
    }
}

/// The facets of the legacy table: ROM requirement, availability, working
/// state, others and manufacturer, combined with AND.
pub open spec fn legacy_facets_match(fs: FilterSettings, g: Game, favorites: Seq<Seq<char>>) -> bool {
    &&& rom_requirement_spec(fs, g.requires_roms)
    &&& availability_match(fs, g)
    &&& status_match(fs, g)
    &&& others_match(fs, g, favorites)
    &&& manufacturer_spec(fs, g.manufacturer@)
}

/// Valid catalogue indices passing the legacy facets.
pub open spec fn legacy_pred(games: Seq<Game>, fs: FilterSettings, favorites: Seq<Seq<char>>) -> spec_fn(usize) -> bool {
    |i: usize| i < games.len() && legacy_facets_match(fs, games[i as int], favorites)
}

/// Valid catalogue indices passing the catver category filter.
pub open spec fn catver_pred(games: Seq<Game>, fs: FilterSettings) -> spec_fn(usize) -> bool {
    |i: usize| i < games.len() && catver_match(fs, games[i as int])
}

/// Valid catalogue indices passing the field search for the lowercase query.
pub open spec fn search_pred(games: Seq<Game>, fs: FilterSettings, hw: Option<Seq<bool>>) -> spec_fn(usize) -> bool {
    |i: usize| i < games.len() && field_search_match(games, i as int, fs.search_mode, lowercase(fs.search_text@), hw)
}

/// The indices `0..n`.
pub open spec fn all_indices(n: nat) -> Seq<usize> {
    Seq::new(n, |i: int| i as usize)
}

/// The game-by-game test of `filter_manual`: facets, catver category, and the
/// field search unless the lowercase query is empty.
pub open spec fn manual_pred(
    games: Seq<Game>,
    fs: FilterSettings,
    favorites: Seq<Seq<char>>,
    hw: Option<Seq<bool>>,
) -> spec_fn(usize) -> bool {
    |i: usize|
        i < games.len() && legacy_facets_match(fs, games[i as int], favorites) && catver_match(
            fs,
            games[i as int],
        ) && (lowercase(fs.search_text@).len() == 0 || field_search_match(
            games,
            i as int,
            fs.search_mode,
            lowercase(fs.search_text@),
            hw,
        ))
}

/// What `filter_manual` returns.
pub open spec fn filter_manual_spec(
    games: Seq<Game>,
    fs: FilterSettings,
    favorites: Seq<Seq<char>>,
    hw: Option<Seq<bool>>,
) -> Seq<usize> {
    all_indices(games.len()).filter(manual_pred(games, fs, favorites, hw))
}

/// What `filter_with_index` returns: cached matches of the search text are
/// taken as the candidates, and the facets and the catver category still
/// exclude from them; otherwise facets, catver category and (for a non-empty
/// query) the field search run over the whole catalogue.
pub open spec fn filter_with_index_spec(
    games: Seq<Game>,
    fs: FilterSettings,
    favorites: Seq<Seq<char>>,
    cached: Option<Seq<usize>>,
    hw: Option<Seq<bool>>,
) -> Seq<usize> {
    if fs.search_text@.len() != 0 && cached is Some {
        cached->0.filter(legacy_pred(games, fs, favorites)).filter(catver_pred(games, fs))
    } else {
        let base = all_indices(games.len()).filter(legacy_pred(games, fs, favorites)).filter(
            catver_pred(games, fs),
        );
        if fs.search_text@.len() == 0 {
            base
        } else {
            base.filter(search_pred(games, fs, hw))
        }
    }
}

// ---------------------------------------------------------------------------
// Lemmas on filtered sequences
// ---------------------------------------------------------------------------

/// The recursive field search is the filter by the search predicate.
pub proof fn lemma_field_search_is_filter(
    games: Seq<Game>,
    s: Seq<usize>,
    fs: FilterSettings,
    hw: Option<Seq<bool>>,
)
    ensures
        field_search_spec(games, s, fs.search_mode, lowercase(fs.search_text@), hw) == s.filter(
            search_pred(games, fs, hw),
        ),
    decreases s.len(),
{
    if s.len() == 0 {
        reveal(Seq::filter);
    } else {
        lemma_field_search_is_filter(games, s.drop_last(), fs, hw);
        assert(s.drop_last().push(s.last()) =~= s);
        s.drop_last().lemma_filter_push(s.last(), search_pred(games, fs, hw));
    }
}

/// Filtering twice is filtering once by both predicates.
pub proof fn lemma_filter_filter(s: Seq<usize>, p: spec_fn(usize) -> bool, q: spec_fn(usize) -> bool)
    ensures
        s.filter(p).filter(q) == s.filter(|x: usize| p(x) && q(x)),
    decreases s.len(),
{
    let pq = |x: usize| p(x) && q(x);
    if s.len() == 0 {
        reveal(Seq::filter);
        assert(s.filter(p) =~= Seq::<usize>::empty());
    } else {
        let init = s.drop_last();
        let x = s.last();
        lemma_filter_filter(init, p, q);
        assert(init.push(x) =~= s);
        init.lemma_filter_push(x, p);
        init.lemma_filter_push(x, pq);
        if p(x) {
            init.filter(p).lemma_filter_push(x, q);
        }
    }
}

/// Filters by predicates that agree on the elements of `s` select the same entries.
pub proof fn lemma_filter_congruent(s: Seq<usize>, p: spec_fn(usize) -> bool, q: spec_fn(usize) -> bool)
    requires
        forall|k: int| 0 <= k < s.len() ==> p(#[trigger] s[k]) == q(s[k]),
    ensures
        s.filter(p) == s.filter(q),
    decreases s.len(),
{
    reveal(Seq::filter);
    if s.len() > 0 {
        let init = s.drop_last();
        assert forall|k: int| 0 <= k < init.len() implies p(#[trigger] init[k]) == q(init[k]) by {
            assert(init[k] == s[k]);
        }
        lemma_filter_congruent(init, p, q);
        assert(p(s.last()) == q(s.last()));
    }
}

/// The indices `0..n+1` are the indices `0..n` followed by `n`.
pub proof fn lemma_all_indices_push(n: nat)
    requires
        n < usize::MAX,
    ensures
        all_indices(n + 1) == all_indices(n).push(n as usize),
{
    assert(all_indices(n + 1) =~= all_indices(n).push(n as usize));
}

// ---------------------------------------------------------------------------
// Executable filters
// ---------------------------------------------------------------------------

/// Whether game `i` passes the legacy facets.
pub fn legacy_facets_hit(games: &Vec<Game>, i: usize, fs: &FilterSettings, favorites: &Vec<String>) -> (r: bool)
    requires
        i < games.len(),
    ensures
        r == legacy_facets_match(*fs, games@[i as int], names(favorites@)),
{
    let g = &games[i];
    let avail = fs.availability_filters;
    let availability_ok = (!avail.show_available && !avail.show_unavailable) || (
    avail.show_available && g.status == RomStatus::Available) || (avail.show_unavailable
        && g.status != RomStatus::Available);
    let st = fs.status_filters;
    let working = driver_is_working(g);
    let status_ok = (!st.show_working && !st.show_not_working) || (st.show_working && working)
        || (st.show_not_working && !working);
    let o = fs.other_filters;
    let others_ok = (!o.show_favorites && !o.show_parents_only && !o.show_chd_games) || (
    o.show_favorites && is_favorite(favorites, g.name.as_str())) || (o.show_parents_only
        && !g.is_clone) || (o.show_chd_games && g.requires_chd);
    fs.rom_requirement_matches(g.requires_roms) && availability_ok && status_ok && others_ok
        && fs.manufacturer_matches(g.manufacturer.as_str())
}

/// Whether game `i` passes the catver category filter.
pub fn catver_hit(games: &Vec<Game>, i: usize, fs: &FilterSettings) -> (r: bool)
    requires
        i < games.len(),
    ensures
        r == catver_match(*fs, games@[i as int]),
{
    match &fs.catver_category {
        Some(c) => same_text(games[i].category.as_str(), c.as_str()),
        None => true,
    }
}


/// Copies the indices of a vector.
pub fn copy_indices(v: &Vec<usize>) -> (r: Vec<usize>)
    ensures
        r@ == v@,
{
    let mut r: Vec<usize> = Vec::new();
    let mut k: usize = 0;
    while k < v.len()
        invariant
            k <= v.len(),
            r@ == v@.take(k as int),
        decreases v.len() - k,
    {
        r.push(v[k]);
        k = k + 1;
        assert(r@ =~= v@.take(k as int));
    }
    assert(v@.take(k as int) =~= v@);
    r
}

/// The legacy game table: filter results, expanded rows and view state.
pub struct GameList {
    pub sort_column: SortColumn,
    pub sort_ascending: bool,
    /// First row of the visible window.
    pub visible_start: usize,
    /// Row after the last row of the visible window.
    pub visible_end: usize,
    /// Catalogue indices that passed the filters, in display order.
    pub filtered_indices_cache: Vec<usize>,
    /// The rows shown: each filtered game, followed by its expanded clones.
    pub expanded_rows_cache: Vec<RowData>,
    pub cache_valid: bool,
    /// Hash of the filter state the cache was built for.
    pub last_filter_hash: u64,
    /// The search text the cache was built for.
    pub last_search_text: String,
    /// A row to scroll to on the next frame.
    pub scroll_to_row: Option<usize>,
}

impl GameList {
    /// An empty table sorted by name, ascending, whose cache must be built.
    pub fn new() -> (r: Self)
        ensures
            r.sort_column == SortColumn::Name,
            r.sort_ascending,
            r.visible_start == 0,
            r.visible_end == 50,
            r.filtered_indices_cache@.len() == 0,
            r.expanded_rows_cache@.len() == 0,
            !r.cache_valid,
            r.last_filter_hash == 0,
            r.last_search_text@.len() == 0,
            r.scroll_to_row is None,
    {
        GameList {
            sort_column: SortColumn::Name,
            sort_ascending: true,
            visible_start: 0,
            visible_end: 50,
            filtered_indices_cache: Vec::new(),
            expanded_rows_cache: Vec::new(),
            cache_valid: false,
            last_filter_hash: 0,
            last_search_text: String::new(),
            scroll_to_row: None,
        }
    }

    /// Records the filter state of this frame; a different filter hash or
    /// search text makes the cache stale.
    pub fn note_filter_state(&mut self, filter_hash: u64, search_text: &str)
        ensures
            final(self).last_filter_hash == filter_hash,
            final(self).last_search_text@ == search_text@,
            final(self).cache_valid == (old(self).cache_valid && filter_hash == old(self).last_filter_hash
                && search_text@ == old(self).last_search_text@),
            *final(self) == (GameList {
                cache_valid: final(self).cache_valid,
                last_filter_hash: filter_hash,
                last_search_text: final(self).last_search_text,
                ..*old(self)
            }),
    {
        if filter_hash != self.last_filter_hash || !same_text(search_text, self.last_search_text.as_str()) {
            self.cache_valid = false;
            self.last_filter_hash = filter_hash;
            self.last_search_text = search_text.to_string();
        }
    }

    /// Marks the cache stale; nothing else changes.
    pub fn invalidate_cache(&mut self)
        ensures
            *final(self) == (GameList { cache_valid: false, ..*old(self) }),
    {
        self.cache_valid = false;
    }

    /// Number of rows shown.
    pub fn row_count(&self) -> (r: usize)
        ensures
            r == self.expanded_rows_cache@.len(),
    {
        self.expanded_rows_cache.len()
    }

    /// The catalogue index shown in `row`, if there is such a row.
    pub fn game_idx_at_row(&self, row: usize) -> (r: Option<usize>)
        ensures
            r == (if row < self.expanded_rows_cache@.len() {
                Some(self.expanded_rows_cache@[row as int].game_idx)
            } else {
                None
            }),
    {
        if row < self.expanded_rows_cache.len() {
            Some(self.expanded_rows_cache[row].game_idx)
        } else {
            None
        }
    }

    /// The first row showing the game `game_idx`, if any.
    pub fn row_for_game_idx(&self, game_idx: usize) -> (r: Option<usize>)
        ensures
            match r {
                Some(row) => row < self.expanded_rows_cache@.len()
                    && self.expanded_rows_cache@[row as int].game_idx == game_idx && forall|k: int|
                    0 <= k < row ==> (#[trigger] self.expanded_rows_cache@[k]).game_idx != game_idx,
                None => forall|k: int|
                    0 <= k < self.expanded_rows_cache@.len()
                        ==> (#[trigger] self.expanded_rows_cache@[k]).game_idx != game_idx,
            },
    {
        let mut k: usize = 0;
        while k < self.expanded_rows_cache.len()
            invariant
                k <= self.expanded_rows_cache@.len(),
                forall|j: int| 0 <= j < k ==> (#[trigger] self.expanded_rows_cache@[j]).game_idx != game_idx,
            decreases self.expanded_rows_cache@.len() - k,
        {
            if self.expanded_rows_cache[k].game_idx == game_idx {
                return Some(k);
            }
            k = k + 1;
        }
        None
    }

}

/// Keeps the indices that name a game passing the legacy facets, in order.
pub fn categorized_entries(
    games: &Vec<Game>,
    filters: &FilterSettings,
    favorites: &Vec<String>,
    indices: Vec<usize>,
) -> (r: Vec<usize>)
    ensures
        r@ == indices@.filter(legacy_pred(games@, *filters, names(favorites@))),
{
    let ghost p = legacy_pred(games@, *filters, names(favorites@));
    let mut r: Vec<usize> = Vec::new();
    let mut k: usize = 0;
    while k < indices.len()
        invariant
            k <= indices.len(),
            p == legacy_pred(games@, *filters, names(favorites@)),
            r@ == indices@.take(k as int).filter(p),
        decreases indices.len() - k,
    {
        let i = indices[k];
        proof {
            assert(indices@.take(k + 1) =~= indices@.take(k as int).push(i));
            indices@.take(k as int).lemma_filter_push(i, p);
        }
        if i < games.len() && legacy_facets_hit(games, i, filters, favorites) {
            r.push(i);
        }
        k = k + 1;
    }
    assert(indices@.take(k as int) =~= indices@);
    r
}

/// Keeps the indices that name a game of the selected catver category.
fn retain_catver(games: &Vec<Game>, filters: &FilterSettings, indices: Vec<usize>) -> (r: Vec<usize>)
    ensures
        r@ == indices@.filter(catver_pred(games@, *filters)),
{
    let ghost p = catver_pred(games@, *filters);
    let mut r: Vec<usize> = Vec::new();
    let mut k: usize = 0;
    while k < indices.len()
        invariant
            k <= indices.len(),
            p == catver_pred(games@, *filters),
            r@ == indices@.take(k as int).filter(p),
        decreases indices.len() - k,
    {
        let i = indices[k];
        proof {
            assert(indices@.take(k + 1) =~= indices@.take(k as int).push(i));
            indices@.take(k as int).lemma_filter_push(i, p);
        }
        if i < games.len() && catver_hit(games, i, filters) {
            r.push(i);
        }
        k = k + 1;
    }
    assert(indices@.take(k as int) =~= indices@);
    r
}

/// Filters the catalogue game by game without an index: facets, catver
/// category, and the field search for a non-empty query. Hardware search
/// modes use `hardware_hits`, the hardware mapping's answer per game.
pub fn manual_entries(
    games: &Vec<Game>,
    filters: &FilterSettings,
    favorites: &Vec<String>,
    hardware_hits: Option<&Vec<bool>>,
) -> (r: Vec<usize>)
    ensures
        r@ == filter_manual_spec(games@, *filters, names(favorites@), opt_hits(hardware_hits)),
{
    let lower = chars_of(to_lowercase(filters.search_text.as_str()).as_str());
    let ghost p = manual_pred(games@, *filters, names(favorites@), opt_hits(hardware_hits));
    let mut r: Vec<usize> = Vec::new();
    let mut i: usize = 0;
    while i < games.len()
        invariant
            i <= games.len(),
            lower@ == lowercase(filters.search_text@),
            p == manual_pred(games@, *filters, names(favorites@), opt_hits(hardware_hits)),
            r@ == all_indices(i as nat).filter(p),
        decreases games.len() - i,
    {
        proof {
            lemma_all_indices_push(i as nat);
            all_indices(i as nat).lemma_filter_push(i, p);
        }
        if legacy_facets_hit(games, i, filters, favorites) && catver_hit(games, i, filters) && (
        lower.len() == 0 || crate::filtering::field_search_hit(
            games,
            i,
            filters.search_mode,
            &lower,
            hardware_hits,
        )) {
            r.push(i);
        }
        i = i + 1;
    }
    r
}

/// Filters the catalogue with the index: cached matches of a non-empty search
/// text only get the facets applied again;
/// otherwise facets, catver category and field search run over the whole
/// catalogue, the field search in parallel for large candidate lists.
pub fn indexed_entries(
    games: &Vec<Game>,
    filters: &FilterSettings,
    favorites: &Vec<String>,
    index: &GameIndex,
    hardware_hits: Option<&Vec<bool>>,
) -> (r: Vec<usize>)
    ensures
        r@ == filter_with_index_spec(
            games@,
            *filters,
            names(favorites@),
            text_lookup(index.text_cache@, filters.search_text@),
            opt_hits(hardware_hits),
        ),
{
    if !filters.search_text.as_str().is_empty() {
        match index.get_cached_text_search(filters.search_text.as_str()) {
            Some(cached) => {
                let candidates = categorized_entries(
                    games,
                    filters,
                    favorites,
                    copy_indices(cached),
                );
                return retain_catver(games, filters, candidates);
            },
            None => {},
        }
    }
    let mut all: Vec<usize> = Vec::new();
    let mut i: usize = 0;
    while i < games.len()
        invariant
            i <= games.len(),
            all@ == all_indices(i as nat),
        decreases games.len() - i,
    {
        proof {
            lemma_all_indices_push(i as nat);
        }
        all.push(i);
        i = i + 1;
    }
    let result = categorized_entries(games, filters, favorites, all);
    let result = retain_catver(games, filters, result);
    if filters.search_text.as_str().is_empty() {
        result
    } else {
        let lower = chars_of(to_lowercase(filters.search_text.as_str()).as_str());
        let found = field_search(games, &result, filters.search_mode, &lower, hardware_hits);
        proof {
            lemma_field_search_is_filter(games@, result@, *filters, opt_hits(hardware_hits));
        }
        found
    }
}


impl GameList {
    /// Keeps the indices that name a game passing the legacy facets, in order.
    pub fn apply_categorized_filters(
        &self,
        games: &Vec<Game>,
        filters: &FilterSettings,
        favorites: &Vec<String>,
        indices: Vec<usize>,
    ) -> (r: Vec<usize>)
        ensures
            r@ == indices@.filter(legacy_pred(games@, *filters, names(favorites@))),
    {
        categorized_entries(games, filters, favorites, indices)
    }

    /// The game-by-game filter (see `manual_entries`); the category does not
    /// take part.
    pub fn filter_manual(
        &self,
        games: &Vec<Game>,
        filters: &FilterSettings,
        favorites: &Vec<String>,
        _category: FilterCategory,
        hardware_hits: Option<&Vec<bool>>,
    ) -> (r: Vec<usize>)
        ensures
            r@ == filter_manual_spec(games@, *filters, names(favorites@), opt_hits(hardware_hits)),
    {
        manual_entries(games, filters, favorites, hardware_hits)
    }

    /// The index-based filter (see `indexed_entries`); the category does not
    /// take part.
    pub fn filter_with_index(
        &self,
        games: &Vec<Game>,
        filters: &FilterSettings,
        favorites: &Vec<String>,
        index: &GameIndex,
        _category: FilterCategory,
        hardware_hits: Option<&Vec<bool>>,
    ) -> (r: Vec<usize>)
        ensures
            r@ == filter_with_index_spec(
                games@,
                *filters,
                names(favorites@),
                text_lookup(index.text_cache@, filters.search_text@),
                opt_hits(hardware_hits),
            ),
    {
        indexed_entries(games, filters, favorites, index, hardware_hits)
    }
}


// ---------------------------------------------------------------------------
// ROM-set de-duplication
// ---------------------------------------------------------------------------

/// `name` is the name of a ROM-less game that the ROM-requirement exclusion hides.
pub open spec fn hidden_romless_parent(games: Seq<Game>, fs: FilterSettings, name: Seq<char>) -> bool {
    fs.hide_romless_systems && exists|j: int|
        0 <= j < games.len() && !games[j].requires_roms && #[trigger] games[j].name@ == name
}

/// A ROM-requiring clone whose parent is hidden by the ROM-requirement
/// exclusion: it stays reachable as a row of its own.
pub open spec fn standalone_child(games: Seq<Game>, fs: FilterSettings, g: Game) -> bool {
    g.is_clone && g.requires_roms && match g.parent {
        Some(p) => hidden_romless_parent(games, fs, p@),
        None => false,
    }
}

/// Valid indices of parents and of standalone children.
pub open spec fn parent_or_standalone(games: Seq<Game>, fs: FilterSettings) -> spec_fn(usize) -> bool {
    |i: usize| i < games.len() && (!games[i as int].is_clone || standalone_child(games, fs, games[i as int]))
}

/// Some valid entry of `s` is a parent game named `name`.
pub open spec fn listed_parent(games: Seq<Game>, s: Seq<usize>, name: Seq<char>) -> bool {
    exists|k: int|
        0 <= k < s.len() && s[k] < games.len() && !games[s[k] as int].is_clone && #[trigger] games[s[k] as int].name@ == name
}

/// With automatic clone expansion: parents, standalone children, and (when an
/// index is present) clones whose parent is among the entries.
pub open spec fn auto_expand_pred(games: Seq<Game>, fs: FilterSettings, s: Seq<usize>, has_index: bool) -> spec_fn(usize) -> bool {
    |i: usize|
        i < games.len() && (!games[i as int].is_clone || standalone_child(games, fs, games[i as int]) || (
        has_index && match games[i as int].parent {
            Some(p) => listed_parent(games, s, p@),
            None => false,
        }))
}

/// Valid entries of `s` that are clones.
pub open spec fn clone_pred(games: Seq<Game>) -> spec_fn(usize) -> bool {
    |i: usize| i < games.len() && games[i as int].is_clone
}

/// The entries that the ROM-set type lets through. An unknown type counts as
/// a non-merged or split set when more than 30% of the entries are clones.
pub open spec fn rom_set_stage(games: Seq<Game>, fs: FilterSettings, s: Seq<usize>, has_index: bool) -> Seq<usize> {
    if fs.auto_expand_clones {
        s.filter(auto_expand_pred(games, fs, s, has_index))
    } else {
        match fs.rom_set_type {
            RomSetType::Merged => s.filter(parent_or_standalone(games, fs)),
            RomSetType::Unknown => if 10 * s.filter(clone_pred(games)).len() > 3 * s.len()
                && !fs.show_clones_in_split {
                s.filter(parent_or_standalone(games, fs))
            } else {
                s
            },
            _ => if fs.show_clones_in_split {
                s
            } else {
                s.filter(parent_or_standalone(games, fs))
            },
        }
    }
}

/// Some entry of `s` names a game called `name`.
pub open spec fn name_listed(games: Seq<Game>, s: Seq<usize>, name: Seq<char>) -> bool {
    exists|k: int| 0 <= k < s.len() && #[trigger] games[s[k] as int].name@ == name
}

/// The valid entries of `s` whose name did not occur in an earlier kept entry.
pub open spec fn dedup_by_name(games: Seq<Game>, s: Seq<usize>) -> Seq<usize>
    decreases s.len(),
{
    if s.len() == 0 {
        Seq::empty()
    } else {
        let prev = dedup_by_name(games, s.drop_last());
        let i = s.last();
        if i < games.len() && !name_listed(games, prev, games[i as int].name@) {
            prev.push(i)
        } else {
            prev
        }
    }
}

/// What `apply_rom_set_filtering` returns.
pub open spec fn rom_set_filter_spec(games: Seq<Game>, fs: FilterSettings, s: Seq<usize>, has_index: bool) -> Seq<usize> {
    dedup_by_name(games, rom_set_stage(games, fs, s, has_index))
}

/// The entries of a de-duplicated sequence are valid and have distinct names.
pub proof fn lemma_dedup_distinct(games: Seq<Game>, s: Seq<usize>)
    ensures
        forall|k: int| 0 <= k < dedup_by_name(games, s).len() ==> #[trigger] dedup_by_name(games, s)[k] < games.len(),
        forall|a: int, b: int|
            0 <= a < b < dedup_by_name(games, s).len() ==> games[dedup_by_name(games, s)[a] as int].name@
                != games[dedup_by_name(games, s)[b] as int].name@,
        forall|k: int| 0 <= k < dedup_by_name(games, s).len() ==> s.contains(#[trigger] dedup_by_name(games, s)[k]),
    decreases s.len(),
{
    if s.len() > 0 {
        let prev = dedup_by_name(games, s.drop_last());
        lemma_dedup_distinct(games, s.drop_last());
        let d = dedup_by_name(games, s);
        assert forall|k: int| 0 <= k < d.len() implies s.contains(#[trigger] d[k]) by {
            if k < prev.len() {
                let w = choose|w: int| 0 <= w < s.drop_last().len() && s.drop_last()[w] == prev[k];
                assert(s[w] == d[k]);
            } else {
                assert(s[s.len() - 1] == d[k]);
            }
        }
        assert forall|a: int, b: int| 0 <= a < b < d.len() implies games[d[a] as int].name@ != games[d[b] as int].name@ by {
            if b == prev.len() {
                assert(d[a] == prev[a]);
                if games[d[a] as int].name@ == games[d[b] as int].name@ {
                    assert(name_listed(games, prev, games[s.last() as int].name@));
                }
            }
        }
    }
}

/// The ROM-less names hidden by the exclusion, as a name set.
fn hidden_romless_names(games: &Vec<Game>, filters: &FilterSettings) -> (r: NameSet)
    ensures
        r.wf(),
        forall|n: Seq<char>| #[trigger] r.view_set().contains(n) == hidden_romless_parent(games@, *filters, n),
{
    let mut set = NameSet::new(games.len());
    if filters.hide_romless_systems {
        let mut j: usize = 0;
        while j < games.len()
            invariant
                j <= games.len(),
                set.wf(),
                forall|n: Seq<char>| #[trigger] set.view_set().contains(n) == exists|q: int|
                    0 <= q < j && !games@[q].requires_roms && #[trigger] games@[q].name@ == n,
            decreases games.len() - j,
        {
            if !games[j].requires_roms {
                set.insert(games[j].name.as_str());
                assert forall|n: Seq<char>| #[trigger] set.view_set().contains(n) == exists|q: int|
                    0 <= q < j + 1 && !games@[q].requires_roms && #[trigger] games@[q].name@ == n by {
                    if n == games@[j as int].name@ {
                        assert(games@[j as int].name@ == n);
                    }
                }
            }
            j = j + 1;
        }
    }
    set
}

/// The names of the parent games among the entries, as a name set.
fn listed_parent_names(games: &Vec<Game>, s: &Vec<usize>) -> (r: NameSet)
    ensures
        r.wf(),
        forall|n: Seq<char>| #[trigger] r.view_set().contains(n) == listed_parent(games@, s@, n),
{
    let mut set = NameSet::new(s.len());
    let mut k: usize = 0;
    while k < s.len()
        invariant
            k <= s.len(),
            set.wf(),
            forall|n: Seq<char>| #[trigger] set.view_set().contains(n) == listed_parent(games@, s@.take(k as int), n),
        decreases s.len() - k,
    {
        let i = s[k];
        let ghost before = s@.take(k as int);
        proof {
            assert(s@.take(k + 1) =~= before.push(i));
        }
        if i < games.len() && !games[i].is_clone {
            set.insert(games[i].name.as_str());
        }
        assert forall|n: Seq<char>| #[trigger] set.view_set().contains(n) == listed_parent(games@, s@.take(k + 1), n) by {
            let after = s@.take(k + 1);
            if listed_parent(games@, before, n) {
                let w = choose|w: int| 0 <= w < before.len() && before[w] < games.len() && !games@[before[w] as int].is_clone && #[trigger] games@[before[w] as int].name@ == n;
                assert(after[w] == before[w]);
            }
            if listed_parent(games@, after, n) {
                let w = choose|w: int| 0 <= w < after.len() && after[w] < games.len() && !games@[after[w] as int].is_clone && #[trigger] games@[after[w] as int].name@ == n;
                if w < before.len() {
                    assert(after[w] == before[w]);
                }
            }
            if i < games.len() && !games@[i as int].is_clone && n == games@[i as int].name@ {
                assert(after[k as int] == i);
            }
        }
        k = k + 1;
    }
    assert(s@.take(k as int) =~= s@);
    set
}

/// Whether `g` is a standalone child, given the hidden ROM-less names.
fn is_standalone_child(games: &Vec<Game>, filters: &FilterSettings, hidden: &NameSet, g: &Game) -> (r: bool)
    requires
        hidden.wf(),
        forall|n: Seq<char>| #[trigger] hidden.view_set().contains(n) == hidden_romless_parent(games@, *filters, n),
    ensures
        r == standalone_child(games@, *filters, *g),
{
    g.is_clone && g.requires_roms && match &g.parent {
        Some(p) => hidden.contains(p.as_str()),
        None => false,
    }
}

/// Applies the ROM-set type to the candidates and removes entries whose
/// name already occurred. ROM-requiring children of hidden ROM-less parents
/// stay as rows of their own; `has_index` tells whether a game index is
/// present, without which clones cannot be matched to listed parents.
pub fn rom_set_entries(
    games: &Vec<Game>,
    filtered_indices: Vec<usize>,
    filters: &FilterSettings,
    has_index: bool,
) -> (r: Vec<usize>)
    ensures
        r@ == rom_set_filter_spec(games@, *filters, filtered_indices@, has_index),
{
    let hidden = hidden_romless_names(games, filters);
    let s = filtered_indices;
    let stage: Vec<usize> = if filters.auto_expand_clones {
        let parents = listed_parent_names(games, &s);
        let ghost p = auto_expand_pred(games@, *filters, s@, has_index);
        let mut r: Vec<usize> = Vec::new();
        let mut k: usize = 0;
        while k < s.len()
            invariant
                k <= s.len(),
                hidden.wf(),
                forall|n: Seq<char>| #[trigger] hidden.view_set().contains(n) == hidden_romless_parent(games@, *filters, n),
                parents.wf(),
                forall|n: Seq<char>| #[trigger] parents.view_set().contains(n) == listed_parent(games@, s@, n),
                p == auto_expand_pred(games@, *filters, s@, has_index),
                r@ == s@.take(k as int).filter(p),
            decreases s.len() - k,
        {
            let i = s[k];
            proof {
                assert(s@.take(k + 1) =~= s@.take(k as int).push(i));
                s@.take(k as int).lemma_filter_push(i, p);
            }
            if i < games.len() {
                let g = &games[i];
                let keep = !g.is_clone || is_standalone_child(games, filters, &hidden, g) || (
                has_index && match &g.parent {
                    Some(parent) => parents.contains(parent.as_str()),
                    None => false,
                });
                if keep {
                    r.push(i);
                }
            }
            k = k + 1;
        }
        assert(s@.take(k as int) =~= s@);
        r
    } else {
        let drop_clones = match filters.rom_set_type {
            RomSetType::Merged => true,
            RomSetType::Unknown => {
                let clones = count_clones(games, &s);
                clones as u128 * 10 > s.len() as u128 * 3 && !filters.show_clones_in_split
            },
            _ => !filters.show_clones_in_split,
        };
        if drop_clones {
            let ghost p = parent_or_standalone(games@, *filters);
            let mut r: Vec<usize> = Vec::new();
            let mut k: usize = 0;
            while k < s.len()
                invariant
                    k <= s.len(),
                    hidden.wf(),
                    forall|n: Seq<char>| #[trigger] hidden.view_set().contains(n) == hidden_romless_parent(games@, *filters, n),
                    p == parent_or_standalone(games@, *filters),
                    r@ == s@.take(k as int).filter(p),
                decreases s.len() - k,
            {
                let i = s[k];
                proof {
                    assert(s@.take(k + 1) =~= s@.take(k as int).push(i));
                    s@.take(k as int).lemma_filter_push(i, p);
                }
                if i < games.len() && (!games[i].is_clone || is_standalone_child(games, filters, &hidden, &games[i])) {
                    r.push(i);
                }
                k = k + 1;
            }
            assert(s@.take(k as int) =~= s@);
            r
        } else {
            s
        }
    };
    dedup_names(games, stage)
}

/// Number of entries naming a clone.
fn count_clones(games: &Vec<Game>, s: &Vec<usize>) -> (r: usize)
    ensures
        r == s@.filter(clone_pred(games@)).len(),
{
    let ghost p = clone_pred(games@);
    let mut c: usize = 0;
    let mut k: usize = 0;
    while k < s.len()
        invariant
            k <= s.len(),
            p == clone_pred(games@),
            c == s@.take(k as int).filter(p).len(),
            c <= k,
        decreases s.len() - k,
    {
        let i = s[k];
        proof {
            assert(s@.take(k + 1) =~= s@.take(k as int).push(i));
            s@.take(k as int).lemma_filter_push(i, p);
        }
        if i < games.len() && games[i].is_clone {
            c = c + 1;
        }
        k = k + 1;
    }
    assert(s@.take(k as int) =~= s@);
    c
}

/// Keeps the first valid entry of each name.
fn dedup_names(games: &Vec<Game>, s: Vec<usize>) -> (r: Vec<usize>)
    ensures
        r@ == dedup_by_name(games@, s@),
{
    let mut seen = NameSet::new(s.len());
    let mut r: Vec<usize> = Vec::new();
    let mut k: usize = 0;
    while k < s.len()
        invariant
            k <= s.len(),
            seen.wf(),
            r@ == dedup_by_name(games@, s@.take(k as int)),
            forall|n: Seq<char>| #[trigger] seen.view_set().contains(n) == name_listed(games@, r@, n),
        decreases s.len() - k,
    {
        let i = s[k];
        proof {
            assert(s@.take(k + 1).drop_last() =~= s@.take(k as int));
        }
        if i < games.len() {
            let fresh = seen.insert(games[i].name.as_str());
            if fresh {
                let ghost before = r@;
                r.push(i);
                assert forall|n: Seq<char>| #[trigger] seen.view_set().contains(n) == name_listed(games@, r@, n) by {
                    if name_listed(games@, before, n) {
                        let w = choose|w: int| 0 <= w < before.len() && #[trigger] games@[before[w] as int].name@ == n;
                        assert(r@[w] == before[w]);
                    }
                    if name_listed(games@, r@, n) {
                        let w = choose|w: int| 0 <= w < r@.len() && #[trigger] games@[r@[w] as int].name@ == n;
                        if w < before.len() {
                            assert(r@[w] == before[w]);
                        }
                    }
                    if n == games@[i as int].name@ {
                        assert(r@[before.len() as int] == i);
                    }
                }
            }
        }
        k = k + 1;
    }
    assert(s@.take(k as int) =~= s@);
    r
}

impl GameList {
    /// The ROM-set filter and name de-duplication (see `rom_set_entries`);
    /// a present game index lets clones be matched to listed parents.
    pub fn apply_rom_set_filtering(
        &self,
        games: &Vec<Game>,
        filtered_indices: Vec<usize>,
        filters: &FilterSettings,
        game_index: Option<&GameIndex>,
    ) -> (r: Vec<usize>)
        ensures
            r@ == rom_set_filter_spec(games@, *filters, filtered_indices@, game_index is Some),
    {
        rom_set_entries(games, filtered_indices, filters, game_index.is_some())
    }
}


// ---------------------------------------------------------------------------
// Sorting and rows
// ---------------------------------------------------------------------------

/// The text a game is sorted by in a column.
pub open spec fn sort_key(g: Game, col: SortColumn) -> Seq<char> {
    match col {
        SortColumn::Name => g.description@,
        SortColumn::Manufacturer => g.manufacturer@,
        SortColumn::Year => g.year@,
        SortColumn::Status => status_description_spec(g.status),
        SortColumn::Category => g.category@,
    }
}

/// `s` is ordered by the column's text in the requested direction.
pub open spec fn sorted_by_column(s: Seq<usize>, games: Seq<Game>, col: SortColumn, ascending: bool) -> bool {
    forall|i: int, j: int|
        0 <= i < j < s.len() ==> directed_order(
            sort_key(games[#[trigger] s[i] as int], col),
            sort_key(games[#[trigger] s[j] as int], col),
            ascending,
        ) <= 0
}

/// Entries of `s` with equal texts keep the order they had in `input`.
pub open spec fn stable_by_column(input: Seq<usize>, s: Seq<usize>, games: Seq<Game>, col: SortColumn) -> bool {
    forall|i: int, j: int|
        0 <= i < j < s.len() && sort_key(games[#[trigger] s[i] as int], col) == sort_key(
            games[#[trigger] s[j] as int],
            col,
        ) ==> input.index_of(s[i]) < input.index_of(s[j])
}

/// `r` is `s` sorted stably by the column: a permutation of `s`, ordered by
/// the column's text, with ties in their order in `s` (an order that
/// positions of distinct entries name; with repeated entries only the
/// permutation and the order are stated).
pub open spec fn sorted_stably(s: Seq<usize>, r: Seq<usize>, games: Seq<Game>, col: SortColumn, ascending: bool) -> bool {
    &&& r.to_multiset() == s.to_multiset()
    &&& sorted_by_column(r, games, col, ascending)
    &&& s.no_duplicates() ==> stable_by_column(s, r, games, col)
}

/// A clone row under the parent at catalogue index `parent`.
pub open spec fn clone_row(parent: usize, c: usize) -> RowData {
    RowData { game_idx: c, is_clone: true, indent_level: 1, parent_idx: Some(parent) }
}

/// Clone rows for the given clones.
pub open spec fn clone_rows(parent: usize, clones: Seq<usize>) -> Seq<RowData> {
    clones.map_values(|c: usize| clone_row(parent, c))
}

/// Valid indices of games passing the ROM-requirement exclusion.
pub open spec fn rom_req_pred(games: Seq<Game>, fs: FilterSettings) -> spec_fn(usize) -> bool {
    |i: usize| i < games.len() && rom_requirement_spec(fs, games[i as int].requires_roms)
}

/// Valid indices of games from a selected manufacturer.
pub open spec fn manufacturer_pred(games: Seq<Game>, fs: FilterSettings) -> spec_fn(usize) -> bool {
    |i: usize| i < games.len() && manufacturer_spec(fs, games[i as int].manufacturer@)
}

/// A parent whose clones are listed under it: expanded by the user, or all
/// parents when clones expand automatically.
pub open spec fn expands(fs: FilterSettings, expanded: Seq<Seq<char>>, g: Game) -> bool {
    !g.is_clone && (expanded.contains(g.name@) || fs.auto_expand_clones)
}

/// The rows for catalogue index `i`: its own row, then, when it expands and
/// an index is present, a row for each of its clones that passes the
/// ROM-requirement exclusion, in catalogue order.
pub open spec fn rows_for(games: Seq<Game>, fs: FilterSettings, expanded: Seq<Seq<char>>, has_index: bool, i: usize) -> Seq<RowData> {
    if i < games.len() {
        let g = games[i as int];
        let own = seq![RowData { game_idx: i, is_clone: g.is_clone, indent_level: 0, parent_idx: None }];
        if has_index && expands(fs, expanded, g) {
            own + clone_rows(i, clones_of(games, g.name@).filter(rom_req_pred(games, fs)))
        } else {
            own
        }
    } else {
        Seq::empty()
    }
}

/// The rows for the entries of `s`, in order.
pub open spec fn rows_spec(games: Seq<Game>, fs: FilterSettings, expanded: Seq<Seq<char>>, has_index: bool, s: Seq<usize>) -> Seq<RowData>
    decreases s.len(),
{
    if s.len() == 0 {
        Seq::empty()
    } else {
        rows_spec(games, fs, expanded, has_index, s.drop_last()) + rows_for(
            games,
            fs,
            expanded,
            has_index,
            s.last(),
        )
    }
}

/// The candidates before the table's own narrowing: the pre-filtered
/// indices if given, else the index-based filter with an index, else the
/// game-by-game filter.
pub open spec fn candidates_spec(
    games: Seq<Game>,
    fs: FilterSettings,
    favorites: Seq<Seq<char>>,
    index: Option<GameIndex>,
    hw: Option<Seq<bool>>,
    pre: Option<Seq<usize>>,
) -> Seq<usize> {
    match pre {
        Some(p) => p,
        None => match index {
            Some(ix) => filter_with_index_spec(games, fs, favorites, text_lookup(ix.text_cache@, fs.search_text@), hw),
            None => filter_manual_spec(games, fs, favorites, hw),
        },
    }
}

/// The candidates narrowed by the selected manufacturers (when any are
/// selected) and by the ROM-requirement exclusion, then filtered by ROM-set type.
pub open spec fn table_entries_spec(games: Seq<Game>, fs: FilterSettings, candidates: Seq<usize>, has_index: bool) -> Seq<usize> {
    let by_maker = if fs.selected_manufacturers@.len() != 0 {
        candidates.filter(manufacturer_pred(games, fs))
    } else {
        candidates
    };
    rom_set_filter_spec(games, fs, by_maker.filter(rom_req_pred(games, fs)), has_index)
}

/// The sort keys of all games for a column.
fn sort_keys(games: &Vec<Game>, col: SortColumn) -> (keys: Vec<Vec<char>>)
    ensures
        keys@.len() == games@.len(),
        forall|i: int| 0 <= i < games@.len() ==> (#[trigger] keys@[i])@ == sort_key(games@[i], col),
{
    let mut keys: Vec<Vec<char>> = Vec::new();
    let mut i: usize = 0;
    while i < games.len()
        invariant
            i <= games.len(),
            keys@.len() == i,
            forall|k: int| 0 <= k < i ==> (#[trigger] keys@[k])@ == sort_key(games@[k], col),
        decreases games.len() - i,
    {
        let g = &games[i];
        let text: &str = match col {
            SortColumn::Name => g.description.as_str(),
            SortColumn::Manufacturer => g.manufacturer.as_str(),
            SortColumn::Year => g.year.as_str(),
            SortColumn::Status => g.status.description(),
            SortColumn::Category => g.category.as_str(),
        };
        keys.push(chars_of(text));
        i = i + 1;
    }
    keys
}

/// Sorts the entries stably by the column's text in the requested direction.
pub fn sort_entries(entries: &mut Vec<usize>, games: &Vec<Game>, col: SortColumn, ascending: bool)
    requires
        forall|k: int| 0 <= k < old(entries)@.len() ==> #[trigger] old(entries)@[k] < games@.len(),
    ensures
        sorted_stably(old(entries)@, final(entries)@, games@, col, ascending),
{
    let keys = sort_keys(games, col);
    let ghost before = entries@;
    stable_sort_by_keys(entries, &keys, ascending);
    let ghost after = entries@;
    assert forall|k: int| 0 <= k < after.len() implies #[trigger] after[k] < games@.len() by {
        assert(after.to_multiset().count(after[k]) > 0);
        assert(before.contains(after[k]));
    }
    assert forall|i: int, j: int| 0 <= i < j < after.len() implies directed_order(
        sort_key(games@[#[trigger] after[i] as int], col),
        sort_key(games@[#[trigger] after[j] as int], col),
        ascending,
    ) <= 0 by {
        assert(keys@[after[i] as int]@ == sort_key(games@[after[i] as int], col));
        assert(keys@[after[j] as int]@ == sort_key(games@[after[j] as int], col));
    }
    assert forall|i: int, j: int|
        before.no_duplicates() && 0 <= i < j < after.len() && sort_key(games@[#[trigger] after[i] as int], col) == sort_key(
            games@[#[trigger] after[j] as int],
            col,
        ) implies before.index_of(after[i]) < before.index_of(after[j]) by {
        assert(keys@[after[i] as int]@ == sort_key(games@[after[i] as int], col));
        assert(keys@[after[j] as int]@ == sort_key(games@[after[j] as int], col));
    }
}

impl GameList {
    /// Sorts the filtered indices stably by the sort column in the sort direction.
    pub fn apply_sorting(&mut self, games: &Vec<Game>)
        requires
            forall|k: int| 0 <= k < old(self).filtered_indices_cache@.len() ==> #[trigger] old(self).filtered_indices_cache@[k] < games@.len(),
        ensures
            sorted_stably(
                old(self).filtered_indices_cache@,
                final(self).filtered_indices_cache@,
                games@,
                old(self).sort_column,
                old(self).sort_ascending,
            ),
            *final(self) == (GameList {
                filtered_indices_cache: final(self).filtered_indices_cache,
                ..*old(self)
            }),
    {
        sort_entries(&mut self.filtered_indices_cache, games, self.sort_column, self.sort_ascending);
    }
}

/// The rows of a sequence grow by the rows of its last entry.
proof fn lemma_rows_push(games: Seq<Game>, fs: FilterSettings, expanded: Seq<Seq<char>>, has_index: bool, s: Seq<usize>, x: usize)
    ensures
        rows_spec(games, fs, expanded, has_index, s.push(x)) == rows_spec(games, fs, expanded, has_index, s) + rows_for(games, fs, expanded, has_index, x),
{
    assert(s.push(x).drop_last() =~= s);
}

/// Keeps the valid indices that pass a per-game test, in order.
fn retain_valid(games: &Vec<Game>, filters: &FilterSettings, s: Vec<usize>, by_maker: bool) -> (r: Vec<usize>)
    ensures
        by_maker ==> r@ == s@.filter(manufacturer_pred(games@, *filters)),
        !by_maker ==> r@ == s@.filter(rom_req_pred(games@, *filters)),
{
    let ghost p = if by_maker {
        manufacturer_pred(games@, *filters)
    } else {
        rom_req_pred(games@, *filters)
    };
    let mut r: Vec<usize> = Vec::new();
    let mut k: usize = 0;
    while k < s.len()
        invariant
            k <= s.len(),
            p == (if by_maker {
                manufacturer_pred(games@, *filters)
            } else {
                rom_req_pred(games@, *filters)
            }),
            r@ == s@.take(k as int).filter(p),
        decreases s.len() - k,
    {
        let i = s[k];
        proof {
            assert(s@.take(k + 1) =~= s@.take(k as int).push(i));
            s@.take(k as int).lemma_filter_push(i, p);
        }
        if i < games.len() {
            let keep = if by_maker {
                filters.manufacturer_matches(games[i].manufacturer.as_str())
            } else {
                filters.rom_requirement_matches(games[i].requires_roms)
            };
            if keep {
                r.push(i);
            }
        }
        k = k + 1;
    }
    assert(s@.take(k as int) =~= s@);
    r
}

/// Appends the rows for catalogue index `idx`.
fn push_rows_for(
    rows: &mut Vec<RowData>,
    games: &Vec<Game>,
    filters: &FilterSettings,
    expanded_parents: &Vec<String>,
    clone_index: Option<&CloneIndex>,
    idx: usize,
)
    requires
        match clone_index {
            Some(ci) => ci.describes(games@),
            None => true,
        },
    ensures
        final(rows)@ == old(rows)@ + rows_for(games@, *filters, names(expanded_parents@), clone_index is Some, idx),
{
    if idx >= games.len() {
        assert(old(rows)@ + Seq::<RowData>::empty() =~= old(rows)@);
        return;
    }
    let game = &games[idx];
    let ghost start = rows@;
    rows.push(RowData { game_idx: idx, is_clone: game.is_clone, indent_level: 0, parent_idx: None });
    let ghost own = seq![RowData { game_idx: idx, is_clone: game.is_clone, indent_level: 0, parent_idx: None }];
    assert(rows@ =~= start + own);
    let should_expand = crate::models::contains_name(expanded_parents, game.name.as_str())
        || filters.auto_expand_clones;
    if !game.is_clone && should_expand {
        match clone_index {
            Some(ci) => {
                let clones = ci.clones_of(games, game.name.as_str());
                let ghost p = rom_req_pred(games@, *filters);
                let mut j: usize = 0;
                while j < clones.len()
                    invariant
                        j <= clones.len(),
                        p == rom_req_pred(games@, *filters),
                        forall|k: int| 0 <= k < clones@.len() ==> #[trigger] clones@[k] < games@.len(),
                        rows@ == start + own + clone_rows(idx, clones@.take(j as int).filter(p)),
                    decreases clones.len() - j,
                {
                    let c = clones[j];
                    proof {
                        assert(clones@.take(j + 1) =~= clones@.take(j as int).push(c));
                        clones@.take(j as int).lemma_filter_push(c, p);
                    }
                    let ghost before = rows@;
                    if filters.rom_requirement_matches(games[c].requires_roms) {
                        rows.push(RowData { game_idx: c, is_clone: true, indent_level: 1, parent_idx: Some(idx) });
                        assert(clone_rows(idx, clones@.take(j as int).filter(p).push(c)) =~= clone_rows(idx, clones@.take(j as int).filter(p)).push(clone_row(idx, c)));
                        assert(rows@ =~= start + own + clone_rows(idx, clones@.take(j + 1).filter(p)));
                    }
                    j = j + 1;
                }
                assert(clones@.take(j as int) =~= clones@);
            },
            None => {
                assert(rows@ =~= start + own);
            },
        }
    } else {
        assert(rows@ =~= start + own);
    }
}

/// Builds the rows for the entries, in order.
fn build_rows(
    games: &Vec<Game>,
    filters: &FilterSettings,
    expanded_parents: &Vec<String>,
    clone_index: Option<&CloneIndex>,
    entries: &Vec<usize>,
) -> (rows: Vec<RowData>)
    requires
        match clone_index {
            Some(ci) => ci.describes(games@),
            None => true,
        },
    ensures
        rows@ == rows_spec(games@, *filters, names(expanded_parents@), clone_index is Some, entries@),
{
    let mut rows: Vec<RowData> = Vec::new();
    let mut k: usize = 0;
    while k < entries.len()
        invariant
            k <= entries.len(),
            match clone_index {
                Some(ci) => ci.describes(games@),
                None => true,
            },
            rows@ == rows_spec(games@, *filters, names(expanded_parents@), clone_index is Some, entries@.take(k as int)),
        decreases entries.len() - k,
    {
        proof {
            assert(entries@.take(k + 1) =~= entries@.take(k as int).push(entries@[k as int]));
            lemma_rows_push(games@, *filters, names(expanded_parents@), clone_index is Some, entries@.take(k as int), entries@[k as int]);
        }
        push_rows_for(&mut rows, games, filters, expanded_parents, clone_index, entries[k]);
        k = k + 1;
    }
    assert(entries@.take(k as int) =~= entries@);
    rows
}

/// The table's entries before sorting: candidates (pre-filtered, from the
/// index, or game by game), narrowed by the selected manufacturers and the
/// ROM-requirement exclusion, then filtered by ROM-set type.
pub fn table_entries(
    games: &Vec<Game>,
    filters: &FilterSettings,
    favorites: &Vec<String>,
    game_index: Option<&GameIndex>,
    hardware_hits: Option<&Vec<bool>>,
    pre_filtered_indices: Option<&Vec<usize>>,
) -> (r: Vec<usize>)
    ensures
        r@ == table_entries_spec(
            games@,
            *filters,
            candidates_spec(
                games@,
                *filters,
                names(favorites@),
                match game_index {
                    Some(ix) => Some(*ix),
                    None => None,
                },
                opt_hits(hardware_hits),
                match pre_filtered_indices {
                    Some(p) => Some(p@),
                    None => None,
                },
            ),
            game_index is Some,
        ),
        forall|k: int| 0 <= k < r@.len() ==> #[trigger] r@[k] < games@.len(),
        r@.no_duplicates(),
{
    let candidates = match pre_filtered_indices {
        Some(p) => copy_indices(p),
        None => match game_index {
            Some(ix) => indexed_entries(games, filters, favorites, ix, hardware_hits),
            None => manual_entries(games, filters, favorites, hardware_hits),
        },
    };
    let by_maker = if filters.selected_manufacturers.len() != 0 {
        retain_valid(games, filters, candidates, true)
    } else {
        candidates
    };
    let required = retain_valid(games, filters, by_maker, false);
    let entries = rom_set_entries(games, required, filters, game_index.is_some());
    proof {
        lemma_dedup_distinct(games@, rom_set_stage(games@, *filters, required@, game_index is Some));
    }
    entries
}

impl GameList {
    /// Rebuilds the filtered indices and the rows: the table's entries (see
    /// `table_entries`), sorted, each followed by the clones of expanded
    /// parents. `expanded_parents` lists the names of the parents the user
    /// expanded; clones are listed only with a game index, whose clone
    /// mapping must be that of `games`.
    pub fn update_cache(
        &mut self,
        games: &Vec<Game>,
        filters: &FilterSettings,
        favorites: &Vec<String>,
        expanded_parents: &Vec<String>,
        game_index: Option<&GameIndex>,
        _category: FilterCategory,
        hardware_hits: Option<&Vec<bool>>,
        pre_filtered_indices: Option<&Vec<usize>>,
    )
        requires
            match game_index {
                Some(ix) => ix.clones.describes(games@),
                None => true,
            },
        ensures
            final(self).cache_valid,
            sorted_stably(
                table_entries_spec(
                    games@,
                    *filters,
                    candidates_spec(
                        games@,
                        *filters,
                        names(favorites@),
                        match game_index {
                            Some(ix) => Some(*ix),
                            None => None,
                        },
                        opt_hits(hardware_hits),
                        match pre_filtered_indices {
                            Some(p) => Some(p@),
                            None => None,
                        },
                    ),
                    game_index is Some,
                ),
                final(self).filtered_indices_cache@,
                games@,
                old(self).sort_column,
                old(self).sort_ascending,
            ),
            final(self).expanded_rows_cache@ == rows_spec(
                games@,
                *filters,
                names(expanded_parents@),
                game_index is Some,
                final(self).filtered_indices_cache@,
            ),
            *final(self) == (GameList {
                filtered_indices_cache: final(self).filtered_indices_cache,
                expanded_rows_cache: final(self).expanded_rows_cache,
                cache_valid: final(self).cache_valid,
                ..*old(self)
            }),
    {
        self.filtered_indices_cache = table_entries(
            games,
            filters,
            favorites,
            game_index,
            hardware_hits,
            pre_filtered_indices,
        );
        self.apply_sorting(games);
        let clone_index = match game_index {
            Some(ix) => Some(&ix.clones),
            None => None,
        };
        self.expanded_rows_cache = build_rows(games, filters, expanded_parents, clone_index, &self.filtered_indices_cache);
        self.cache_valid = true;
    }
}


// ---------------------------------------------------------------------------
// Laws
// ---------------------------------------------------------------------------

/// Without a cached result, filtering with the index selects exactly what
/// the game-by-game filter selects (case folding keeps a query empty exactly
/// when it was empty).
pub proof fn lemma_index_filter_matches_manual(
    games: Seq<Game>,
    fs: FilterSettings,
    favorites: Seq<Seq<char>>,
    hw: Option<Seq<bool>>,
)
    requires
        (lowercase(fs.search_text@).len() == 0) == (fs.search_text@.len() == 0),
    ensures
        filter_with_index_spec(games, fs, favorites, None, hw) == filter_manual_spec(games, fs, favorites, hw),
{
    let all = all_indices(games.len());
    let lp = legacy_pred(games, fs, favorites);
    let cp = catver_pred(games, fs);
    let sp = search_pred(games, fs, hw);
    let mp = manual_pred(games, fs, favorites, hw);
    lemma_filter_filter(all, lp, cp);
    let lc = |x: usize| lp(x) && cp(x);
    if fs.search_text@.len() == 0 {
        lemma_filter_congruent(all, lc, mp);
    } else {
        lemma_filter_filter(all.filter(lp), cp, sp);
        lemma_filter_filter(all, lc, sp);
        let lcs = |x: usize| lc(x) && sp(x);
        assert(all.filter(lp).filter(cp).filter(sp) == all.filter(lcs));
        lemma_filter_congruent(all, lcs, mp);
    }
}

/// A cache hit that holds the search matches of the whole catalogue gives the
/// result of a cache miss: cached matches are only candidates, and the facets
/// and the catver category still exclude from them.
pub proof fn lemma_cache_hit_matches_miss(
    games: Seq<Game>,
    fs: FilterSettings,
    favorites: Seq<Seq<char>>,
    hw: Option<Seq<bool>>,
)
    requires
        fs.search_text@.len() != 0,
    ensures
        filter_with_index_spec(
            games,
            fs,
            favorites,
            Some(all_indices(games.len()).filter(search_pred(games, fs, hw))),
            hw,
        ) == filter_with_index_spec(games, fs, favorites, None, hw),
{
    let all = all_indices(games.len());
    let lp = legacy_pred(games, fs, favorites);
    let cp = catver_pred(games, fs);
    let sp = search_pred(games, fs, hw);
    lemma_filter_filter(all, sp, lp);
    let sl = |x: usize| sp(x) && lp(x);
    lemma_filter_filter(all, sl, cp);
    let slc = |x: usize| sl(x) && cp(x);
    lemma_filter_filter(all, lp, cp);
    let lc = |x: usize| lp(x) && cp(x);
    lemma_filter_filter(all.filter(lp), cp, sp);
    lemma_filter_filter(all, lc, sp);
    let lcs = |x: usize| lc(x) && sp(x);
    lemma_filter_congruent(all, slc, lcs);
    assert(all.filter(sp).filter(lp).filter(cp) == all.filter(slc));
    assert(all.filter(lp).filter(cp).filter(sp) == all.filter(lcs));
}

/// A ROM-requiring child of a hidden ROM-less parent is never removed by the
/// ROM-set type: whatever the type and expansion mode, it stays among the
/// entries if it was a candidate.
pub proof fn lemma_standalone_child_survives_rom_set(
    games: Seq<Game>,
    fs: FilterSettings,
    s: Seq<usize>,
    has_index: bool,
    i: usize,
)
    requires
        s.contains(i),
        i < games.len(),
        standalone_child(games, fs, games[i as int]),
    ensures
        rom_set_stage(games, fs, s, has_index).contains(i),
{
    let k = choose|k: int| 0 <= k < s.len() && s[k] == i;
    s.lemma_filter_contains(parent_or_standalone(games, fs), k);
    s.lemma_filter_contains(auto_expand_pred(games, fs, s, has_index), k);
}

/// Every entry of the table comes from the candidates, names a game that
/// passes the ROM-requirement exclusion, and no two entries share a name.
pub proof fn lemma_table_entries_sound(games: Seq<Game>, fs: FilterSettings, candidates: Seq<usize>, has_index: bool)
    ensures
        forall|k: int|
            0 <= k < table_entries_spec(games, fs, candidates, has_index).len() ==> {
                let i = #[trigger] table_entries_spec(games, fs, candidates, has_index)[k];
                &&& candidates.contains(i)
                &&& i < games.len()
                &&& rom_requirement_spec(fs, games[i as int].requires_roms)
            },
        forall|a: int, b: int|
            0 <= a < b < table_entries_spec(games, fs, candidates, has_index).len() ==> games[table_entries_spec(
                games,
                fs,
                candidates,
                has_index,
            )[a] as int].name@ != games[table_entries_spec(games, fs, candidates, has_index)[b] as int].name@,
{
    let by_maker = if fs.selected_manufacturers@.len() != 0 {
        candidates.filter(manufacturer_pred(games, fs))
    } else {
        candidates
    };
    let required = by_maker.filter(rom_req_pred(games, fs));
    let stage = rom_set_stage(games, fs, required, has_index);
    let entries = table_entries_spec(games, fs, candidates, has_index);
    lemma_dedup_distinct(games, stage);
    assert forall|k: int| 0 <= k < entries.len() implies {
        let i = #[trigger] entries[k];
        &&& candidates.contains(i)
        &&& i < games.len()
        &&& rom_requirement_spec(fs, games[i as int].requires_roms)
    } by {
        let i = entries[k];
        assert(stage.contains(i));
        let w = choose|w: int| 0 <= w < stage.len() && stage[w] == i;
        lemma_filter_subset(required, parent_or_standalone(games, fs));
        lemma_filter_subset(required, auto_expand_pred(games, fs, required, has_index));
        assert(required.contains(i));
        lemma_filter_subset(by_maker, rom_req_pred(games, fs));
        let v = choose|v: int| 0 <= v < required.len() && required[v] == i;
        by_maker.lemma_filter_pred(rom_req_pred(games, fs), v);
        assert(by_maker.contains(i));
        lemma_filter_subset(candidates, manufacturer_pred(games, fs));
    }
}

/// Every entry of a filtered sequence is an entry of the sequence.
pub proof fn lemma_filter_subset(s: Seq<usize>, p: spec_fn(usize) -> bool)
    ensures
        forall|k: int| 0 <= k < s.filter(p).len() ==> s.contains(#[trigger] s.filter(p)[k]),
    decreases s.len(),
{
    reveal(Seq::filter);
    if s.len() > 0 {
        lemma_filter_subset(s.drop_last(), p);
        let f = s.filter(p);
        let prev = s.drop_last().filter(p);
        assert forall|k: int| 0 <= k < f.len() implies s.contains(#[trigger] f[k]) by {
            if k < prev.len() {
                assert(f[k] == prev[k]);
                let w = choose|w: int| 0 <= w < s.drop_last().len() && s.drop_last()[w] == prev[k];
                assert(s[w] == f[k]);
            } else {
                assert(s[s.len() - 1] == f[k]);
            }
        }
    }
}

/// Rows are built only from the entries and from clones passing the
/// ROM-requirement exclusion: each row names a valid game that passes it
/// when every entry does.
pub proof fn lemma_rows_pass_rom_requirement(
    games: Seq<Game>,
    fs: FilterSettings,
    expanded: Seq<Seq<char>>,
    has_index: bool,
    s: Seq<usize>,
)
    requires
        forall|k: int| 0 <= k < s.len() ==> #[trigger] s[k] < games.len() && rom_requirement_spec(
            fs,
            games[s[k] as int].requires_roms,
        ),
    ensures
        forall|k: int|
            0 <= k < rows_spec(games, fs, expanded, has_index, s).len() ==> {
                let row = #[trigger] rows_spec(games, fs, expanded, has_index, s)[k];
                &&& row.game_idx < games.len()
                &&& rom_requirement_spec(fs, games[row.game_idx as int].requires_roms)
            },
    decreases s.len(),
{
    if s.len() > 0 {
        let init = s.drop_last();
        assert forall|k: int| 0 <= k < init.len() implies #[trigger] init[k] < games.len() && rom_requirement_spec(
            fs,
            games[init[k] as int].requires_roms,
        ) by {
            assert(init[k] == s[k]);
        }
        lemma_rows_pass_rom_requirement(games, fs, expanded, has_index, init);
        let x = s.last();
        assert(x == s[s.len() - 1]);
        let prev = rows_spec(games, fs, expanded, has_index, init);
        let last = rows_for(games, fs, expanded, has_index, x);
        let all = rows_spec(games, fs, expanded, has_index, s);
        let g = games[x as int];
        let cl = clones_of(games, g.name@).filter(rom_req_pred(games, fs));
        assert forall|k: int| 0 <= k < all.len() implies {
            let row = #[trigger] all[k];
            &&& row.game_idx < games.len()
            &&& rom_requirement_spec(fs, games[row.game_idx as int].requires_roms)
        } by {
            if k < prev.len() {
                assert(all[k] == prev[k]);
            } else if k == prev.len() {
                assert(all[k] == last[0]);
            } else {
                assert(all[k] == last[k - prev.len()]);
                let c = k - prev.len() - 1;
                assert(last[k - prev.len()] == clone_rows(x, cl)[c]);
                assert(clone_rows(x, cl)[c] == clone_row(x, cl[c]));
                clones_of(games, g.name@).lemma_filter_pred(rom_req_pred(games, fs), c);
            }
        }
    }
}

/// With the ROM-requirement exclusion on, no row of a rebuilt table (parent
/// rows and expanded clone rows alike) shows a game without ROM media.
pub proof fn lemma_romless_rows_stay_hidden(
    games: Seq<Game>,
    fs: FilterSettings,
    candidates: Seq<usize>,
    has_index: bool,
    sorted: Seq<usize>,
    expanded: Seq<Seq<char>>,
    col: SortColumn,
    ascending: bool,
)
    requires
        fs.hide_romless_systems,
        sorted_stably(table_entries_spec(games, fs, candidates, has_index), sorted, games, col, ascending),
    ensures
        forall|k: int|
            0 <= k < rows_spec(games, fs, expanded, has_index, sorted).len() ==> {
                let row = #[trigger] rows_spec(games, fs, expanded, has_index, sorted)[k];
                row.game_idx < games.len() && games[row.game_idx as int].requires_roms
            },
{
    let entries = table_entries_spec(games, fs, candidates, has_index);
    lemma_table_entries_sound(games, fs, candidates, has_index);
    assert forall|k: int| 0 <= k < sorted.len() implies #[trigger] sorted[k] < games.len() && rom_requirement_spec(
        fs,
        games[sorted[k] as int].requires_roms,
    ) by {
        assert(sorted.to_multiset().count(sorted[k]) > 0);
        assert(entries.contains(sorted[k]));
        let w = choose|w: int| 0 <= w < entries.len() && entries[w] == sorted[k];
        assert(entries[w] == sorted[k]);
    }
    lemma_rows_pass_rom_requirement(games, fs, expanded, has_index, sorted);
}


/// Every valid entry of the table has a row of its own, at the top level, so
/// it can be selected and acted on even when its parent is not listed.
pub proof fn lemma_every_entry_has_its_own_row(
    games: Seq<Game>,
    fs: FilterSettings,
    expanded: Seq<Seq<char>>,
    has_index: bool,
    s: Seq<usize>,
)
    ensures
        forall|k: int|
            0 <= k < s.len() && #[trigger] s[k] < games.len() ==> rows_spec(games, fs, expanded, has_index, s).contains(
                RowData { game_idx: s[k], is_clone: games[s[k] as int].is_clone, indent_level: 0, parent_idx: None },
            ),
    decreases s.len(),
{
    if s.len() > 0 {
        let init = s.drop_last();
        lemma_every_entry_has_its_own_row(games, fs, expanded, has_index, init);
        let prev = rows_spec(games, fs, expanded, has_index, init);
        let last = rows_for(games, fs, expanded, has_index, s.last());
        let all = rows_spec(games, fs, expanded, has_index, s);
        assert forall|k: int| 0 <= k < s.len() && #[trigger] s[k] < games.len() implies all.contains(
            RowData { game_idx: s[k], is_clone: games[s[k] as int].is_clone, indent_level: 0, parent_idx: None },
        ) by {
            let own = RowData { game_idx: s[k], is_clone: games[s[k] as int].is_clone, indent_level: 0, parent_idx: None };
            if k < s.len() - 1 {
                assert(init[k] == s[k]);
                let w = choose|w: int| 0 <= w < prev.len() && prev[w] == own;
                assert(all[w] == prev[w]);
            } else {
                assert(s.last() == s[k]);
                assert(last[0] == own);
                assert(all[prev.len() as int] == last[0]);
            }
        }
    }
}


/// Sorting by a column orders the entries by that column's field: the title,
/// the manufacturer, the year text, the ROM status text or the category, in
/// the requested direction.
pub proof fn lemma_sorting_orders_by_the_column_field(
    s: Seq<usize>,
    r: Seq<usize>,
    games: Seq<Game>,
    col: SortColumn,
    ascending: bool,
)
    requires
        sorted_stably(s, r, games, col, ascending),
    ensures
        col == SortColumn::Name ==> forall|i: int, j: int|
            0 <= i < j < r.len() ==> directed_order(
                games[#[trigger] r[i] as int].description@,
                games[#[trigger] r[j] as int].description@,
                ascending,
            ) <= 0,
        col == SortColumn::Manufacturer ==> forall|i: int, j: int|
            0 <= i < j < r.len() ==> directed_order(
                games[#[trigger] r[i] as int].manufacturer@,
                games[#[trigger] r[j] as int].manufacturer@,
                ascending,
            ) <= 0,
        col == SortColumn::Year ==> forall|i: int, j: int|
            0 <= i < j < r.len() ==> directed_order(
                games[#[trigger] r[i] as int].year@,
                games[#[trigger] r[j] as int].year@,
                ascending,
            ) <= 0,
        col == SortColumn::Status ==> forall|i: int, j: int|
            0 <= i < j < r.len() ==> directed_order(
                status_description_spec(games[#[trigger] r[i] as int].status),
                status_description_spec(games[#[trigger] r[j] as int].status),
                ascending,
            ) <= 0,
        col == SortColumn::Category ==> forall|i: int, j: int|
            0 <= i < j < r.len() ==> directed_order(
                games[#[trigger] r[i] as int].category@,
                games[#[trigger] r[j] as int].category@,
                ascending,
            ) <= 0,
{
}

/// With clone expansion off, a merged set, and a non-merged or split set
/// whose clones are not asked for, keep only parents and the ROM-requiring
/// clones whose parent is a ROM-less system hidden by the ROM-requirement
/// exclusion; every kept entry is a valid catalogue index.
pub proof fn lemma_rom_set_keeps_parents_and_standalone_children(
    games: Seq<Game>,
    fs: FilterSettings,
    s: Seq<usize>,
    has_index: bool,
)
    requires
        !fs.auto_expand_clones,
        fs.rom_set_type == RomSetType::Merged || ((fs.rom_set_type == RomSetType::NonMerged
            || fs.rom_set_type == RomSetType::Split) && !fs.show_clones_in_split),
    ensures
        forall|k: int|
            0 <= k < rom_set_filter_spec(games, fs, s, has_index).len() ==> {
                let i = #[trigger] rom_set_filter_spec(games, fs, s, has_index)[k];
                &&& i < games.len()
                &&& (!games[i as int].is_clone || (games[i as int].requires_roms
                    && fs.hide_romless_systems && match games[i as int].parent {
                    Some(p) => exists|j: int|
                        0 <= j < games.len() && !games[j].requires_roms && #[trigger] games[j].name@
                            == p@,
                    None => false,
                }))
            },
{
    let stage = rom_set_stage(games, fs, s, has_index);
    let p = parent_or_standalone(games, fs);
    assert(stage == s.filter(p));
    lemma_dedup_distinct(games, stage);
    let r = rom_set_filter_spec(games, fs, s, has_index);
    assert forall|k: int| 0 <= k < r.len() implies p(#[trigger] r[k]) by {
        assert(stage.contains(r[k]));
        let w = choose|w: int| 0 <= w < stage.len() && stage[w] == r[k];
        s.lemma_filter_pred(p, w);
    }
}

} // verus!
