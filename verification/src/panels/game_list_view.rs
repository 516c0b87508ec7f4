//! The card list of games: the same filter pipeline as the table, one card
//! per entry, with the clones of a parent listed under its card.
use vstd::prelude::*;

use super::game_index_manager::{text_lookup, GameIndex};
use super::game_list::{
    candidates_spec, categorized_entries, filter_manual_spec, filter_with_index_spec,
    indexed_entries, legacy_pred, manual_entries, rom_req_pred, rom_set_entries, rom_set_filter_spec,
    sort_entries, sorted_stably, table_entries, table_entries_spec, SortColumn,
};
use crate::catalog::clones_of;
use crate::models::{names, FilterCategory, FilterSettings, Game};
use crate::text::same_text;

verus! {

/// The card list's filter results and view state.
pub struct GameListView {
    /// Catalogue indices of the cards, in display order.
    pub filtered_indices_cache: Vec<usize>,
    /// A row to scroll to on the next frame.
    pub scroll_to_row: Option<usize>,
    pub cache_valid: bool,
    /// Hash of the filter state the cache was built for.
    pub last_filter_hash: u64,
    /// The search text the cache was built for.
    pub last_search_text: String,
    pub sort_column: SortColumn,
    pub sort_ascending: bool,
}

impl GameListView {
    /// An empty list sorted by name, ascending, whose cache must be built.
    pub fn new() -> (r: Self)
        ensures
            r.filtered_indices_cache@.len() == 0,
            r.scroll_to_row is None,
            !r.cache_valid,
            r.last_filter_hash == 0,
            r.last_search_text@.len() == 0,
            r.sort_column == SortColumn::Name,
            r.sort_ascending,
    {
        GameListView {
            filtered_indices_cache: Vec::new(),
            scroll_to_row: None,
            cache_valid: false,
            last_filter_hash: 0,
            last_search_text: String::new(),
            sort_column: SortColumn::Name,
            sort_ascending: true,
        }
    }

    /// Marks the cache stale; nothing else changes.
    pub fn invalidate_cache(&mut self)
        ensures
            *final(self) == (GameListView { cache_valid: false, ..*old(self) }),
    {
        self.cache_valid = false;
    }

    /// Number of cards (one per entry; clones are listed inside their parent's card).
    pub fn row_count(&self) -> (r: usize)
        ensures
            r == self.filtered_indices_cache@.len(),
    {
        self.filtered_indices_cache.len()
    }

    /// The catalogue index of the card at `row`, if there is one.
    pub fn game_idx_at_row(&self, row: usize) -> (r: Option<usize>)
        ensures
            r == (if row < self.filtered_indices_cache@.len() {
                Some(self.filtered_indices_cache@[row as int])
            } else {
                None
            }),
    {
        if row < self.filtered_indices_cache.len() {
            Some(self.filtered_indices_cache[row])
        } else {
            None
        }
    }

    /// The first card showing `game_idx`, if any.
    pub fn row_for_game_idx(&self, game_idx: usize) -> (r: Option<usize>)
        ensures
            match r {
                Some(row) => row < self.filtered_indices_cache@.len()
                    && self.filtered_indices_cache@[row as int] == game_idx && forall|k: int|
                    0 <= k < row ==> #[trigger] self.filtered_indices_cache@[k] != game_idx,
                None => !self.filtered_indices_cache@.contains(game_idx),
            },
    {
        let mut k: usize = 0;
        while k < self.filtered_indices_cache.len()
            invariant
                k <= self.filtered_indices_cache@.len(),
                forall|j: int| 0 <= j < k ==> #[trigger] self.filtered_indices_cache@[j] != game_idx,
            decreases self.filtered_indices_cache@.len() - k,
        {
            if self.filtered_indices_cache[k] == game_idx {
                return Some(k);
            }
            k = k + 1;
        }
        None
    }

    /// Records the filter state of this frame; a different filter hash or
    /// search text makes the cache stale.
    pub fn note_filter_state(&mut self, filter_hash: u64, search_text: &str)
        ensures
            final(self).last_filter_hash == filter_hash,
            final(self).last_search_text@ == search_text@,
            final(self).cache_valid == (old(self).cache_valid && filter_hash == old(self).last_filter_hash
                && search_text@ == old(self).last_search_text@),
            *final(self) == (GameListView {
                cache_valid: final(self).cache_valid,
                last_filter_hash: filter_hash,
                last_search_text: final(self).last_search_text,
                ..*old(self)
            }),
    {
        if filter_hash != self.last_filter_hash || !same_text(search_text, self.last_search_text.as_str()) {
            self.cache_valid = false;
            self.last_filter_hash = filter_hash;
            self.last_search_text = search_text.to_string();
        }
    }

    /// The clones of `parent` that pass the ROM-requirement exclusion, in
    /// catalogue order.
    pub fn visible_clone_indices(games: &Vec<Game>, index: &GameIndex, parent: &str, filters: &FilterSettings) -> (r: Vec<usize>)
        requires
            index.clones.describes(games@),
        ensures
            r@ == clones_of(games@, parent@).filter(rom_req_pred(games@, *filters)),
    {
        let clones = index.clones.clones_of(games, parent);
        let ghost p = rom_req_pred(games@, *filters);
        let mut r: Vec<usize> = Vec::new();
        let mut j: usize = 0;
        while j < clones.len()
            invariant
                j <= clones.len(),
                p == rom_req_pred(games@, *filters),
                forall|k: int| 0 <= k < clones@.len() ==> #[trigger] clones@[k] < games@.len(),
                r@ == clones@.take(j as int).filter(p),
            decreases clones.len() - j,
        {
            let c = clones[j];
            proof {
                assert(clones@.take(j + 1) =~= clones@.take(j as int).push(c));
                clones@.take(j as int).lemma_filter_push(c, p);
            }
            if filters.rom_requirement_matches(games[c].requires_roms) {
                r.push(c);
            }
            j = j + 1;
        }
        assert(clones@.take(j as int) =~= clones@);
        r
    }

    /// Keeps the indices that name a game passing the legacy facets, in order.
    pub fn apply_categorized_filters(
        &self,
        games: &Vec<Game>,
        filters: &FilterSettings,
        favorites: &Vec<String>,
        indices: Vec<usize>,
    ) -> (r: Vec<usize>)
        ensures
            r@ == indices@.filter(legacy_pred(games@, *filters, names(favorites@))),
    {
        categorized_entries(games, filters, favorites, indices)
    }

    /// The game-by-game filter; the list has no hardware mapping, so
    /// hardware search modes match nothing.
    pub fn filter_manual(
        &self,
        games: &Vec<Game>,
        filters: &FilterSettings,
        favorites: &Vec<String>,
        _category: FilterCategory,
    ) -> (r: Vec<usize>)
        ensures
            r@ == filter_manual_spec(games@, *filters, names(favorites@), None),
    {
        manual_entries(games, filters, favorites, None)
    }

    /// The index-based filter; hardware search modes match nothing.
    pub fn filter_with_index(
        &self,
        games: &Vec<Game>,
        filters: &FilterSettings,
        favorites: &Vec<String>,
        index: &GameIndex,
        _category: FilterCategory,
    ) -> (r: Vec<usize>)
        ensures
            r@ == filter_with_index_spec(
                games@,
                *filters,
                names(favorites@),
                text_lookup(index.text_cache@, filters.search_text@),
                None,
            ),
    {
        indexed_entries(games, filters, favorites, index, None)
    }

    /// The ROM-set filter and name de-duplication.
    pub fn apply_rom_set_filtering(
        &self,
        games: &Vec<Game>,
        filtered_indices: Vec<usize>,
        filters: &FilterSettings,
        game_index: Option<&GameIndex>,
    ) -> (r: Vec<usize>)
        ensures
            r@ == rom_set_filter_spec(games@, *filters, filtered_indices@, game_index is Some),
    {
        rom_set_entries(games, filtered_indices, filters, game_index.is_some())
    }

    /// Sorts the entries stably by the sort column in the sort direction.
    pub fn apply_sorting(&mut self, games: &Vec<Game>)
        requires
            forall|k: int| 0 <= k < old(self).filtered_indices_cache@.len() ==> #[trigger] old(self).filtered_indices_cache@[k] < games@.len(),
        ensures
            sorted_stably(
                old(self).filtered_indices_cache@,
                final(self).filtered_indices_cache@,
                games@,
                old(self).sort_column,
                old(self).sort_ascending,
            ),
            *final(self) == (GameListView {
                filtered_indices_cache: final(self).filtered_indices_cache,
                ..*old(self)
            }),
    {
        sort_entries(&mut self.filtered_indices_cache, games, self.sort_column, self.sort_ascending);
    }

    /// Rebuilds the entries (the table's pipeline without a hardware
    /// mapping) and sorts them.
    pub fn update_cache(
        &mut self,
        games: &Vec<Game>,
        filters: &FilterSettings,
        favorites: &Vec<String>,
        game_index: Option<&GameIndex>,
        _category: FilterCategory,
        pre_filtered_indices: Option<&Vec<usize>>,
    )
        ensures
            final(self).cache_valid,
            sorted_stably(
                table_entries_spec(
                    games@,
                    *filters,
                    candidates_spec(
                        games@,
                        *filters,
                        names(favorites@),
                        match game_index {
                            Some(ix) => Some(*ix),
                            None => None,
                        },
                        None,
                        match pre_filtered_indices {
                            Some(p) => Some(p@),
                            None => None,
                        },
                    ),
                    game_index is Some,
                ),
                final(self).filtered_indices_cache@,
                games@,
                old(self).sort_column,
                old(self).sort_ascending,
            ),
            *final(self) == (GameListView {
                filtered_indices_cache: final(self).filtered_indices_cache,
                cache_valid: final(self).cache_valid,
                ..*old(self)
            }),
    {
        self.filtered_indices_cache = table_entries(games, filters, favorites, game_index, None, pre_filtered_indices);
        self.apply_sorting(games);
        self.cache_valid = true;
    }
}

} // verus!
