//! Filter synchronisation and sidebar counts of the redesign library view.
use vstd::prelude::*;

use super::state::{
    collection_matches, RedesignCollection, RedesignState, SidebarStats, YearDecade,
};
use crate::models::{
    is_default_filters, names, FilterSettings, Game, OtherFilters, RomStatus, SearchMode, StatusFilter, StatusFilters,
};
use crate::filtering::{availability_match, others_match};
use crate::panels::game_index_manager::GameIndexManager;
use crate::panels::game_list::GameList;
use crate::panels::game_list_view::GameListView;
use crate::text::{decimal, decimal_string, same_text};

verus! {

/// Kept as a switch so the existing manufacturer implementation can be restored
/// later without affecting the shared filter engine or the legacy shell.
pub const SHOW_MANUFACTURER_FILTER: bool = false;

/// What the library view asks the application to do after a frame.
pub struct LibraryAction {
    pub open_detail: Option<usize>,
    pub toggle_favorite: Option<String>,
    pub filters_changed: bool,
}

/// Drops the selection of filters that the redesign does not show.
pub fn enforce_visible_filter_state(state: &mut RedesignState)
    ensures
        !SHOW_MANUFACTURER_FILTER ==> *final(state) == (RedesignState {
            selected_manufacturer: None,
            manufacturer_open: false,
            ..*old(state)
        }),
        SHOW_MANUFACTURER_FILTER ==> *final(state) == *old(state),
{
    if !SHOW_MANUFACTURER_FILTER {
        state.selected_manufacturer = None;
        state.manufacturer_open = false;
    }
}

/// A legacy-only predicate is set, one that the redesign has no control for.
pub open spec fn has_hidden_filters(fs: FilterSettings) -> bool {
    ||| fs.search_mode != SearchMode::GameTitle
    ||| fs.catver_category is Some
    ||| fs.cpu_filter@.len() != 0
    ||| fs.device_filter@.len() != 0
    ||| fs.sound_filter@.len() != 0
    ||| fs.show_favorites_only
    ||| fs.status_filter != StatusFilter::All
    ||| !fs.status_filters.show_working
    ||| !fs.status_filters.show_not_working
    ||| fs.other_filters.show_parents_only
}

/// `after` is `before` with every legacy-only predicate cleared and nothing
/// else changed.
pub open spec fn hidden_filters_cleared(before: FilterSettings, after: FilterSettings) -> bool {
    &&& after.cpu_filter@.len() == 0
    &&& after.device_filter@.len() == 0
    &&& after.sound_filter@.len() == 0
    &&& after == FilterSettings {
        search_mode: SearchMode::GameTitle,
        catver_category: None,
        cpu_filter: after.cpu_filter,
        device_filter: after.device_filter,
        sound_filter: after.sound_filter,
        show_favorites_only: false,
        status_filter: StatusFilter::All,
        status_filters: StatusFilters { show_working: true, show_not_working: true },
        other_filters: OtherFilters { show_parents_only: false, ..before.other_filters },
        ..before
    }
}

/// The redesign only exposes title search, collection, CHD, manufacturer, and
/// decade controls. Clear legacy-only predicates so they cannot silently
/// constrain the visible redesign library. Returns whether any was set.
pub fn normalize_hidden_redesign_filters(fs: &mut FilterSettings) -> (changed: bool)
    ensures
        changed == has_hidden_filters(*old(fs)),
        hidden_filters_cleared(*old(fs), *final(fs)),
        !has_hidden_filters(*final(fs)),
{
    let changed = fs.search_mode != SearchMode::GameTitle || fs.catver_category.is_some()
        || !fs.cpu_filter.as_str().is_empty() || !fs.device_filter.as_str().is_empty()
        || !fs.sound_filter.as_str().is_empty() || fs.show_favorites_only || fs.status_filter
        != StatusFilter::All || !fs.status_filters.show_working
        || !fs.status_filters.show_not_working || fs.other_filters.show_parents_only;

    fs.search_mode = SearchMode::GameTitle;
    fs.catver_category = None;
    fs.cpu_filter = String::new();
    fs.device_filter = String::new();
    fs.sound_filter = String::new();
    fs.show_favorites_only = false;
    fs.status_filter = StatusFilter::All;
    fs.status_filters.show_working = true;
    fs.status_filters.show_not_working = true;
    fs.other_filters.show_parents_only = false;

    changed
}

/// Normalising twice changes nothing the second time.
pub proof fn lemma_normalize_idempotent(before: FilterSettings, mid: FilterSettings)
    requires
        hidden_filters_cleared(before, mid),
    ensures
        !has_hidden_filters(mid),
{
}

/// The settings a fresh configuration starts with set no legacy-only filter,
/// so the redesign has nothing to clear for them.
pub proof fn lemma_default_filters_have_no_hidden_filters(fs: FilterSettings)
    requires
        is_default_filters(fs),
    ensures
        !has_hidden_filters(fs),
{
}

/// The manufacturer text and selection that a redesign manufacturer choice stands for.
pub open spec fn manufacturer_synced(fs: FilterSettings, manufacturer: Option<Seq<char>>) -> bool {
    match manufacturer {
        Some(m) => fs.manufacturer@ == m && names(fs.selected_manufacturers@) == seq![m],
        None => fs.manufacturer@.len() == 0 && fs.selected_manufacturers@.len() == 0,
    }
}

/// The year bounds that a redesign decade choice stands for.
pub open spec fn year_synced(fs: FilterSettings, decade: Option<YearDecade>) -> bool {
    match decade {
        Some(d) => fs.year_from@ == decimal(d.start_year() as nat) && fs.year_to@ == decimal(
            d.end_year() as nat,
        ),
        None => fs.year_from@.len() == 0 && fs.year_to@.len() == 0,
    }
}

/// The characters of an optional string slice.
pub open spec fn opt_chars(s: Option<&str>) -> Option<Seq<char>> {
    match s {
        Some(s) => Some(s@),
        None => None,
    }
}

/// The first and last year of a decade as decimal text.
fn decade_bounds_text(decade: YearDecade) -> (r: (String, String))
    ensures
        r.0@ == decimal(decade.start_year() as nat),
        r.1@ == decimal(decade.end_year() as nat),
{
    let (from, to) = decade.range();
    (decimal_string(from as u64), decimal_string(to as u64))
}

/// Copies the redesign's manufacturer and decade choice into the filter settings.
pub fn sync_manufacturer_and_year(
    fs: &mut FilterSettings,
    manufacturer: Option<&str>,
    year_decade: Option<YearDecade>,
)
    ensures
        manufacturer_synced(*final(fs), opt_chars(manufacturer)),
        year_synced(*final(fs), year_decade),
        *final(fs) == (FilterSettings {
            manufacturer: final(fs).manufacturer,
            selected_manufacturers: final(fs).selected_manufacturers,
            year_from: final(fs).year_from,
            year_to: final(fs).year_to,
            ..*old(fs)
        }),
{
    let mut selected: Vec<String> = Vec::new();
    let text = match manufacturer {
        Some(m) => {
            selected.push(m.to_owned());
            assert(names(selected@) =~= seq![m@]);
            m.to_owned()
        },
        None => String::new(),
    };
    let (from_text, to_text) = match year_decade {
        Some(decade) => decade_bounds_text(decade),
        // Redesign exposes decade selection only, so do not retain an invisible
        // legacy year range after its visible selection has been cleared.
        None => (String::new(), String::new()),
    };
    fs.manufacturer = text;
    fs.selected_manufacturers = selected;
    fs.year_from = from_text;
    fs.year_to = to_text;
}

/// The availability and favorites settings that select a collection.
pub open spec fn collection_applied(fs: FilterSettings, collection: RedesignCollection) -> bool {
    &&& fs.availability_filters.show_available == (collection != RedesignCollection::Missing
        && collection != RedesignCollection::Issues)
    &&& fs.availability_filters.show_unavailable == (collection != RedesignCollection::Available)
    &&& fs.other_filters.show_favorites == (collection == RedesignCollection::Favorites)
}

/// Sets the shared filter engine's broad pre-filter for a collection. The exact
/// ROM-state predicate of Missing and Issues is applied by the table afterwards.
pub fn apply_collection(fs: &mut FilterSettings, collection: RedesignCollection)
    ensures
        collection_applied(*final(fs), collection),
        *final(fs) == (FilterSettings {
            availability_filters: final(fs).availability_filters,
            other_filters: OtherFilters {
                show_favorites: final(fs).other_filters.show_favorites,
                ..old(fs).other_filters
            },
            ..*old(fs)
        }),
{
    fs.availability_filters.show_available = true;
    fs.availability_filters.show_unavailable = true;
    fs.other_filters.show_favorites = false;

    match collection {
        RedesignCollection::AllGames => {},
        RedesignCollection::Available => {
            fs.availability_filters.show_unavailable = false;
        },
        RedesignCollection::Favorites => {
            fs.other_filters.show_favorites = true;
        },
        RedesignCollection::Missing => {
            // Broad pre-filter only. The table applies the collection's exact
            // ROM-status predicate after the shared filters and search.
            fs.availability_filters.show_available = false;
        },
        RedesignCollection::Issues => {
            // Issues and Missing are both unavailable to the shared engine, but
            // their disjoint status predicates are enforced by the redesign table.
            fs.availability_filters.show_available = false;
        },
    }
}

/// A game that passes the availability pre-filter of the Missing and Issues
/// collections is one whose ROM set is not available.
pub proof fn lemma_unavailable_prefilter_covers(collection: RedesignCollection, status: RomStatus)
    requires
        collection == RedesignCollection::Missing || collection == RedesignCollection::Issues,
        collection_matches(collection, status),
    ensures
        status != RomStatus::Available,
{
}

/// Element-wise equality of two string vectors.
pub fn same_names(a: &Vec<String>, b: &Vec<String>) -> (r: bool)
    ensures
        r == (names(a@) == names(b@)),
{
    if a.len() != b.len() {
        assert(names(a@).len() != names(b@).len());
        return false;
    }
    let mut i: usize = 0;
    while i < a.len()
        invariant
            a.len() == b.len(),
            i <= a.len(),
            forall|k: int| 0 <= k < i ==> names(a@)[k] == names(b@)[k],
        decreases a.len() - i,
    {
        if a[i] != b[i] {
            assert(names(a@)[i as int] != names(b@)[i as int]);
            return false;
        }
        i = i + 1;
    }
    assert(names(a@) =~= names(b@));
    true
}

/// The settings that the filter engine reads differ between two states.
pub open spec fn tracked_filters_differ(a: FilterSettings, b: FilterSettings) -> bool {
    ||| a.search_text@ != b.search_text@
    ||| a.other_filters.show_chd_games != b.other_filters.show_chd_games
    ||| a.manufacturer@ != b.manufacturer@
    ||| names(a.selected_manufacturers@) != names(b.selected_manufacturers@)
    ||| a.year_from@ != b.year_from@
    ||| a.year_to@ != b.year_to@
    ||| a.other_filters.show_favorites != b.other_filters.show_favorites
    ||| a.availability_filters != b.availability_filters
}

/// The filter settings hold the redesign's current selection.
pub open spec fn redesign_filters_synced(fs: FilterSettings, state: RedesignState) -> bool {
    &&& !has_hidden_filters(fs)
    &&& fs.other_filters.show_chd_games == state.chd_only
    &&& manufacturer_synced(
        fs,
        match state.selected_manufacturer {
            Some(m) => Some(m@),
            None => None,
        },
    )
    &&& year_synced(fs, state.year_decade)
    &&& collection_applied(fs, state.collection)
}

/// Copies the redesign selection into the shared filter settings and records it
/// as synced. Returns whether anything that the filter engine reads changed.
pub fn sync_filters_to_config(fs: &mut FilterSettings, state: &mut RedesignState) -> (changed:
    bool)
    ensures
        redesign_filters_synced(*final(fs), *final(state)),
        changed == (tracked_filters_differ(*old(fs), *final(fs)) || has_hidden_filters(*old(fs))),
        *final(fs) == (FilterSettings {
            search_mode: final(fs).search_mode,
            catver_category: final(fs).catver_category,
            cpu_filter: final(fs).cpu_filter,
            device_filter: final(fs).device_filter,
            sound_filter: final(fs).sound_filter,
            show_favorites_only: final(fs).show_favorites_only,
            status_filter: final(fs).status_filter,
            status_filters: final(fs).status_filters,
            other_filters: final(fs).other_filters,
            availability_filters: final(fs).availability_filters,
            manufacturer: final(fs).manufacturer,
            selected_manufacturers: final(fs).selected_manufacturers,
            year_from: final(fs).year_from,
            year_to: final(fs).year_to,
            ..*old(fs)
        }),
        final(state).filter_fingerprint.collection == old(state).collection,
        final(state).filter_fingerprint.chd_only == old(state).chd_only,
        final(state).filter_fingerprint.manufacturer == old(state).selected_manufacturer,
        final(state).filter_fingerprint.year_decade == old(state).year_decade,
        final(state).filter_fingerprint.search_text@ == old(fs).search_text@,
        *final(state) == (RedesignState {
            filter_fingerprint: final(state).filter_fingerprint,
            ..*old(state)
        }),
{
    let old_search = fs.search_text.clone();
    let old_chd = fs.other_filters.show_chd_games;
    let old_mfr = fs.manufacturer.clone();
    let old_selected_mfrs = fs.selected_manufacturers.clone();
    let old_year_from = fs.year_from.clone();
    let old_year_to = fs.year_to.clone();
    let old_fav = fs.other_filters.show_favorites;
    let old_avail = fs.availability_filters;
    assert(names(old_selected_mfrs@) =~= names(fs.selected_manufacturers@)) by {
        assert forall|i: int| 0 <= i < old_selected_mfrs@.len() implies old_selected_mfrs@[i]
            == fs.selected_manufacturers@[i] by {
            assert(vstd::pervasive::cloned::<String>(
                fs.selected_manufacturers@[i],
                old_selected_mfrs@[i],
            ));
        }
    }
    let hidden_filters_changed = normalize_hidden_redesign_filters(fs);

    fs.other_filters.show_chd_games = state.chd_only;

    let manufacturer: Option<&str> = match &state.selected_manufacturer {
        Some(m) => Some(m.as_str()),
        None => None,
    };
    sync_manufacturer_and_year(fs, manufacturer, state.year_decade);

    apply_collection(fs, state.collection);

    let changed = old_search != fs.search_text || old_chd != fs.other_filters.show_chd_games
        || old_mfr != fs.manufacturer || !same_names(&old_selected_mfrs, &fs.selected_manufacturers)
        || old_year_from != fs.year_from || old_year_to != fs.year_to || old_fav
        != fs.other_filters.show_favorites || old_avail != fs.availability_filters
        || hidden_filters_changed;

    let collection = state.collection;
    let chd_only = state.chd_only;
    let selected = state.selected_manufacturer.clone();
    let year_decade = state.year_decade;
    state.mark_filters_synced(
        collection,
        chd_only,
        &selected,
        year_decade,
        fs.search_text.as_str(),
    );
    changed
}

/// Number of games whose ROM state a collection shows.
pub open spec fn count_in_collection(games: Seq<Game>, collection: RedesignCollection) -> nat
    decreases games.len(),
{
    if games.len() == 0 {
        0
    } else {
        count_in_collection(games.drop_last(), collection) + if collection_matches(
            collection,
            games.last().status,
        ) {
            1nat
        } else {
            0nat
        }
    }
}

/// Number of games that need CHD media.
pub open spec fn count_chd(games: Seq<Game>) -> nat
    decreases games.len(),
{
    if games.len() == 0 {
        0
    } else {
        count_chd(games.drop_last()) + if games.last().requires_chd {
            1nat
        } else {
            0nat
        }
    }
}

proof fn lemma_count_bounded(games: Seq<Game>, collection: RedesignCollection)
    ensures
        count_in_collection(games, collection) <= games.len(),
        count_chd(games) <= games.len(),
    decreases games.len(),
{
    if games.len() > 0 {
        lemma_count_bounded(games.drop_last(), collection);
    }
}

/// Sizes of the sidebar collections.
pub struct CollectionCounts {
    pub all: usize,
    pub available: usize,
    pub favorites: usize,
    pub missing: usize,
    pub issues: usize,
}

/// Number of games of one collection.
pub fn count_collection(games: &Vec<Game>, collection: RedesignCollection) -> (n: usize)
    ensures
        n == count_in_collection(games@, collection),
{
    let mut n: usize = 0;
    let mut i: usize = 0;
    while i < games.len()
        invariant
            i <= games.len(),
            n == count_in_collection(games@.take(i as int), collection),
        decreases games.len() - i,
    {
        proof {
            assert(games@.take(i + 1).drop_last() =~= games@.take(i as int));
            lemma_count_bounded(games@.take(i as int), collection);
        }
        if collection.matches_status(games[i].status) {
            n = n + 1;
        }
        i = i + 1;
    }
    assert(games@.take(i as int) =~= games@);
    n
}

/// Number of games that need CHD media.
pub fn count_chd_games(games: &Vec<Game>) -> (n: usize)
    ensures
        n == count_chd(games@),
{
    let mut n: usize = 0;
    let mut i: usize = 0;
    while i < games.len()
        invariant
            i <= games.len(),
            n == count_chd(games@.take(i as int)),
        decreases games.len() - i,
    {
        proof {
            assert(games@.take(i + 1).drop_last() =~= games@.take(i as int));
            lemma_count_bounded(games@.take(i as int), RedesignCollection::AllGames);
        }
        if games[i].requires_chd {
            n = n + 1;
        }
        i = i + 1;
    }
    assert(games@.take(i as int) =~= games@);
    n
}

/// Sizes of the sidebar collections; the favorites count is the number of
/// favorite names in the configuration.
pub fn collection_counts(games: &Vec<Game>, favorite_count: usize) -> (c: CollectionCounts)
    ensures
        c.all == games.len(),
        c.available == count_in_collection(games@, RedesignCollection::Available),
        c.favorites == favorite_count,
        c.missing == count_in_collection(games@, RedesignCollection::Missing),
        c.issues == count_in_collection(games@, RedesignCollection::Issues),
{
    CollectionCounts {
        all: games.len(),
        available: count_collection(games, RedesignCollection::Available),
        favorites: favorite_count,
        missing: count_collection(games, RedesignCollection::Missing),
        issues: count_collection(games, RedesignCollection::Issues),
    }
}

/// Recomputes the sidebar counts for the loaded games.
pub fn rebuild_sidebar_stats(games: &Vec<Game>, favorite_count: usize, state: &mut RedesignState)
    ensures
        final(state).sidebar_stats.all == games.len(),
        final(state).sidebar_stats.available == count_in_collection(
            games@,
            RedesignCollection::Available,
        ),
        final(state).sidebar_stats.favorites == favorite_count,
        final(state).sidebar_stats.missing == count_in_collection(
            games@,
            RedesignCollection::Missing,
        ),
        final(state).sidebar_stats.issues == count_in_collection(
            games@,
            RedesignCollection::Issues,
        ),
        final(state).sidebar_stats.chd_count == count_chd(games@),
        !SHOW_MANUFACTURER_FILTER ==> final(state).sidebar_stats.manufacturers@.len() == 0,
        final(state).sidebar_stats.decades@.len() == 7,
        forall|i: int|
            0 <= i < 7 ==> (#[trigger] final(state).sidebar_stats.decades@[i]).start_year() == 1960
                + 10 * i,
        final(state).sidebar_stats.games_len == games.len(),
        *final(state) == (RedesignState {
            sidebar_stats: final(state).sidebar_stats,
            sidebar_stats_dirty: false,
            ..*old(state)
        }),
{
    let counts = collection_counts(games, favorite_count);
    let chd_count = count_chd_games(games);
    // Manufacturer facets are only collected while the manufacturer filter is shown.
    let manufacturers: Vec<(String, usize)> = Vec::new();
    let choices = YearDecade::filter_choices();
    let mut decades: Vec<YearDecade> = Vec::new();
    let mut i: usize = 0;
    while i < 7
        invariant
            i <= 7,
            decades@.len() == i,
            forall|k: int| 0 <= k < 7 ==> (#[trigger] choices@[k]).start_year() == 1960 + 10 * k,
            forall|k: int| 0 <= k < i ==> (#[trigger] decades@[k]).start_year() == 1960 + 10 * k,
        decreases 7 - i,
    {
        decades.push(choices[i]);
        i = i + 1;
    }
    state.sidebar_stats = SidebarStats {
        all: counts.all,
        available: counts.available,
        favorites: counts.favorites,
        missing: counts.missing,
        issues: counts.issues,
        chd_count,
        manufacturers,
        decades,
        games_len: games.len(),
    };
    state.sidebar_stats_dirty = false;
}


/// Delay between the last keystroke in a search field and applying the search.
pub const SEARCH_DEBOUNCE_MS: u64 = 250;

/// How often a pending search is checked again, in milliseconds.
pub const SEARCH_DEBOUNCE_POLL_MS: u64 = 50;

/// What applying the search debounce did.
#[derive(Debug, Clone, Copy, PartialEq, Eq, Structural)]
pub enum DebounceStep {
    /// No search is pending.
    Idle,
    /// The pending search is not due yet; check again after the poll interval.
    Waiting,
    /// The typed text became the search text; results were invalidated.
    Committed,
    /// The pending search was due but equal to the current search text.
    Unchanged,
}

/// The search field changed at `now_ms`: the search is applied after the debounce delay.
pub fn schedule_search_debounce(state: &mut RedesignState, now_ms: u64)
    ensures
        final(state).search_debounce_deadline_ms == Some(
            if now_ms + SEARCH_DEBOUNCE_MS <= u64::MAX {
                (now_ms + SEARCH_DEBOUNCE_MS) as u64
            } else {
                u64::MAX
            },
        ),
        *final(state) == (RedesignState {
            search_debounce_deadline_ms: final(state).search_debounce_deadline_ms,
            ..*old(state)
        }),
{
    state.search_debounce_deadline_ms = Some(now_ms.saturating_add(SEARCH_DEBOUNCE_MS));
}

/// Applies a due search: once the deadline has passed the deadline is
/// cleared, and if the typed text differs from the search text it becomes
/// the search text, every cached result is invalidated, the table rows are
/// marked dirty and the action reports changed filters.
pub fn apply_search_debounce(
    state: &mut RedesignState,
    filters: &mut FilterSettings,
    manager: &mut GameIndexManager,
    game_list: &mut GameList,
    game_list_view: &mut GameListView,
    action: &mut LibraryAction,
    now_ms: u64,
) -> (step: DebounceStep)
    ensures
        match old(state).search_debounce_deadline_ms {
            None => step == DebounceStep::Idle,
            Some(deadline) => if now_ms < deadline {
                step == DebounceStep::Waiting
            } else if old(filters).search_text@ != old(state).search_text_buf@ {
                step == DebounceStep::Committed
            } else {
                step == DebounceStep::Unchanged
            },
        },
        step == DebounceStep::Committed ==> {
            &&& final(filters).search_text@ == old(state).search_text_buf@
            &&& *final(filters) == (FilterSettings {
                search_text: final(filters).search_text,
                ..*old(filters)
            })
            &&& *final(manager) == (GameIndexManager { filter_cache_dirty: true, ..*old(manager) })
            &&& *final(game_list) == (GameList { cache_valid: false, ..*old(game_list) })
            &&& *final(game_list_view) == (GameListView {
                cache_valid: false,
                ..*old(game_list_view)
            })
            &&& *final(state) == (RedesignState {
                table_rows_dirty: true,
                search_debounce_deadline_ms: None,
                ..*old(state)
            })
            &&& *final(action) == (LibraryAction { filters_changed: true, ..*old(action) })
        },
        step != DebounceStep::Committed ==> {
            &&& *final(filters) == *old(filters)
            &&& *final(manager) == *old(manager)
            &&& *final(game_list) == *old(game_list)
            &&& *final(game_list_view) == *old(game_list_view)
            &&& *final(action) == *old(action)
        },
        step == DebounceStep::Idle || step == DebounceStep::Waiting ==> *final(state) == *old(
            state,
        ),
        step == DebounceStep::Unchanged ==> *final(state) == (RedesignState {
            search_debounce_deadline_ms: None,
            ..*old(state)
        }),
{
    let deadline = match state.search_debounce_deadline_ms {
        None => {
            return DebounceStep::Idle;
        },
        Some(d) => d,
    };
    if now_ms < deadline {
        return DebounceStep::Waiting;
    }
    state.search_debounce_deadline_ms = None;
    if same_text(filters.search_text.as_str(), state.search_text_buf.as_str()) {
        return DebounceStep::Unchanged;
    }
    filters.search_text = state.search_text_buf.clone();
    manager.mark_cache_dirty();
    game_list.invalidate_cache();
    game_list_view.invalidate_cache();
    state.mark_table_dirty();
    action.filters_changed = true;
    DebounceStep::Committed
}


/// A collection row of the sidebar was clicked: it becomes the collection,
/// the filters changed and the table must be rebuilt.
pub fn select_collection(state: &mut RedesignState, action: &mut LibraryAction, collection: RedesignCollection)
    ensures
        *final(state) == (RedesignState { collection, table_rows_dirty: true, ..*old(state) }),
        *final(action) == (LibraryAction { filters_changed: true, ..*old(action) }),
{
    state.collection = collection;
    action.filters_changed = true;
    state.mark_table_dirty();
}

/// The sidebar offers "Clear" while a decade or the CHD filter is set.
pub fn has_sidebar_filters(state: &RedesignState) -> (r: bool)
    ensures
        r == (state.year_decade is Some || state.chd_only),
{
    state.year_decade.is_some() || state.chd_only
}

/// "Clear" drops the manufacturer, the decade and the CHD filter.
pub fn clear_sidebar_filters(state: &mut RedesignState, action: &mut LibraryAction)
    ensures
        *final(state) == (RedesignState {
            selected_manufacturer: None,
            year_decade: None,
            chd_only: false,
            ..*old(state)
        }),
        *final(action) == (LibraryAction { filters_changed: true, ..*old(action) }),
{
    state.selected_manufacturer = None;
    state.year_decade = None;
    state.chd_only = false;
    action.filters_changed = true;
}

/// A decade chip was clicked: it becomes the decade, or clears the decade
/// when it was the selected one.
pub fn toggle_decade(state: &mut RedesignState, action: &mut LibraryAction, decade: YearDecade)
    ensures
        *final(state) == (RedesignState {
            year_decade: if old(state).year_decade == Some(decade) {
                None
            } else {
                Some(decade)
            },
            ..*old(state)
        }),
        *final(action) == (LibraryAction { filters_changed: true, ..*old(action) }),
{
    let selected = match state.year_decade {
        Some(d) => d == decade,
        None => false,
    };
    state.year_decade = if selected {
        None
    } else {
        Some(decade)
    };
    action.filters_changed = true;
}

/// A manufacturer row was clicked: it becomes the manufacturer, or clears
/// the manufacturer when it was the selected one.
pub fn toggle_manufacturer(state: &mut RedesignState, action: &mut LibraryAction, name: &str)
    ensures
        match old(state).selected_manufacturer {
            Some(m) if m@ == name@ => final(state).selected_manufacturer is None,
            _ => final(state).selected_manufacturer matches Some(n) && n@ == name@,
        },
        *final(state) == (RedesignState {
            selected_manufacturer: final(state).selected_manufacturer,
            ..*old(state)
        }),
        *final(action) == (LibraryAction { filters_changed: true, ..*old(action) }),
{
    let selected = match &state.selected_manufacturer {
        Some(m) => same_text(m.as_str(), name),
        None => false,
    };
    if selected {
        state.selected_manufacturer = None;
    } else {
        state.selected_manufacturer = Some(name.to_owned());
    }
    action.filters_changed = true;
}


/// A collection sets the shared pre-filter: "favorites" is on exactly for the
/// Favorites collection; "available" is on except for Missing and Issues;
/// "unavailable" is on except for Available.
pub proof fn lemma_collection_sets_the_prefilter(fs: FilterSettings, collection: RedesignCollection)
    requires
        collection_applied(fs, collection),
    ensures
        fs.other_filters.show_favorites <==> collection == RedesignCollection::Favorites,
        fs.availability_filters.show_available <==> !(collection == RedesignCollection::Missing
            || collection == RedesignCollection::Issues),
        fs.availability_filters.show_unavailable <==> collection != RedesignCollection::Available,
{
}

/// With the redesign's selection synced, the Favorites collection (without
/// the CHD filter) lets no game through the shared favorites/parents/CHD
/// facet unless it is a favorite, and the Available collection lets no game
/// through the availability facet unless its ROMs are available.
pub proof fn lemma_synced_collection_restricts_games(
    fs: FilterSettings,
    state: RedesignState,
    g: Game,
    favorites: Seq<Seq<char>>,
)
    requires
        redesign_filters_synced(fs, state),
    ensures
        state.collection == RedesignCollection::Favorites && !state.chd_only && !favorites.contains(
            g.name@,
        ) ==> !others_match(fs, g, favorites),
        state.collection == RedesignCollection::Available && g.status != RomStatus::Available
            ==> !availability_match(fs, g),
{
}

} // verus!
