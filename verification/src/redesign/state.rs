//! Session state of the redesign shell, kept apart from the legacy UI state.
use vstd::prelude::*;

use crate::models::{RomStatus, names};
use crate::text::{decimal, push_char, push_decimal};

verus! {

/// The screen that the redesign shell shows.
#[derive(Debug, Clone, Copy, PartialEq, Eq, Structural)]
pub enum RedesignScreen {
    Library,
    Detail,
    Verification,
    Settings,
}

/// A tab of the top navigation bar.
#[derive(Debug, Clone, Copy, PartialEq, Eq, Structural)]
pub enum RedesignNavTab {
    Library,
    Verification,
    Settings,
}

/// A collection of the library sidebar.
#[derive(Debug, Clone, Copy, PartialEq, Eq, Structural)]
pub enum RedesignCollection {
    AllGames,
    Available,
    Favorites,
    Missing,
    Issues,
}

/// ROM states that count as problems other than a missing set.
pub open spec fn is_issue_status(status: RomStatus) -> bool {
    match status {
        RomStatus::ChdMissing | RomStatus::ChdRequired | RomStatus::Incorrect
        | RomStatus::NotWorking | RomStatus::Preliminary => true,
        _ => false,
    }
}

/// The ROM states that each collection shows.
pub open spec fn collection_matches(collection: RedesignCollection, status: RomStatus) -> bool {
    match collection {
        RedesignCollection::AllGames | RedesignCollection::Favorites => true,
        RedesignCollection::Available => status == RomStatus::Available,
        RedesignCollection::Missing => status == RomStatus::Missing,
        RedesignCollection::Issues => is_issue_status(status),
    }
}

impl RedesignCollection {
    /// Match the ROM states represented by this collection.
    ///
    /// Favorites are selected by the shared filter engine rather than ROM state.
    /// Missing sets are deliberately excluded from Issues so the two collections
    /// remain useful, disjoint views.
    pub fn matches_status(self, status: RomStatus) -> (r: bool)
        ensures
            r == collection_matches(self, status),
    {
        match self {
            RedesignCollection::AllGames | RedesignCollection::Favorites => true,
            RedesignCollection::Available => status == RomStatus::Available,
            RedesignCollection::Missing => status == RomStatus::Missing,
            RedesignCollection::Issues => match status {
                RomStatus::ChdMissing | RomStatus::ChdRequired | RomStatus::Incorrect
                | RomStatus::NotWorking | RomStatus::Preliminary => true,
                _ => false,
            },
        }
    }
}

/// No ROM state belongs to both the Missing and the Issues collection.
pub proof fn lemma_missing_and_issues_disjoint(status: RomStatus)
    ensures
        !(collection_matches(RedesignCollection::Missing, status) && collection_matches(
            RedesignCollection::Issues,
            status,
        )),
{
}

/// Each ROM state is in exactly one of Available, Missing, Issues, or is `Unknown`.
pub proof fn lemma_status_collections_partition(status: RomStatus)
    ensures
        status == RomStatus::Unknown || collection_matches(RedesignCollection::Available, status)
            || collection_matches(RedesignCollection::Missing, status) || collection_matches(
            RedesignCollection::Issues,
            status,
        ),
        !(collection_matches(RedesignCollection::Available, status) && collection_matches(
            RedesignCollection::Issues,
            status,
        )),
        !(collection_matches(RedesignCollection::Available, status) && collection_matches(
            RedesignCollection::Missing,
            status,
        )),
{
}

/// A section of the settings screen.
#[derive(Debug, Clone, Copy, PartialEq, Eq, Structural)]
pub enum SettingsSection {
    Directories,
    Appearance,
    Performance,
    Shaders,
}

/// A decade of the year filter, identified by its first year.
#[derive(Debug, Clone, Copy, PartialEq, Eq, Structural)]
pub struct YearDecade {
    start: u16,
}

/// The first year of the filter decade that contains `year`, among the 1960s
/// to the 2020s.
pub open spec fn decade_start_of(year: u16) -> Option<u16> {
    if 1960 <= year && year <= 2029 {
        Some((year - year % 10) as u16)
    } else {
        None
    }
}

/// The first year of an optional decade.
pub open spec fn start_of(d: Option<YearDecade>) -> Option<u16> {
    match d {
        Some(d) => Some(d.start_year()),
        None => None,
    }
}

impl YearDecade {
    /// The first year of the decade.
    pub closed spec fn start_year(self) -> u16 {
        self.start
    }

    /// The last year of the decade (the first year plus nine, at most `u16::MAX`).
    pub open spec fn end_year(self) -> u16 {
        if self.start_year() + 9 <= u16::MAX {
            (self.start_year() + 9) as u16
        } else {
            u16::MAX
        }
    }

    /// A decade is identified by its first year.
    pub proof fn lemma_start_year_identifies(a: YearDecade, b: YearDecade)
        ensures
            a.start_year() == b.start_year() ==> a == b,
    {
    }

    /// The decades offered by the year filter: the 1960s through the 2020s.
    pub closed spec fn is_filter_choice(self) -> bool {
        1960 <= self.start <= 2020 && self.start % 10 == 0
    }

    /// The decades of the year filter, oldest first.
    pub fn filter_choices() -> (r: [YearDecade; 7])
        ensures
            forall|i: int| 0 <= i < 7 ==> (#[trigger] r@[i]).start_year() == 1960 + 10 * i,
    {
        [
            YearDecade { start: 1960 },
            YearDecade { start: 1970 },
            YearDecade { start: 1980 },
            YearDecade { start: 1990 },
            YearDecade { start: 2000 },
            YearDecade { start: 2010 },
            YearDecade { start: 2020 },
        ]
    }

    /// The decade's label, such as `1980s`.
    pub fn label(self) -> (r: String)
        ensures
            r@ == decimal(self.start_year() as nat).push('s'),
    {
        let mut s = String::new();
        push_decimal(&mut s, self.start as u64);
        push_char(&mut s, 's');
        assert(s@ =~= decimal(self.start as nat).push('s'));
        s
    }

    /// First and last year of the decade.
    pub fn range(self) -> (r: (u16, u16))
        ensures
            r.0 == self.start_year(),
            r.1 == self.end_year(),
    {
        (self.start, self.start.saturating_add(9))
    }

    /// The filter decade that contains `year`, if any.
    pub fn from_year(year: u16) -> (r: Option<YearDecade>)
        ensures
            start_of(r) == decade_start_of(year),
    {
        let choices = Self::filter_choices();
        let mut i: usize = 0;
        while i < 7
            invariant
                i <= 7,
                forall|k: int| 0 <= k < 7 ==> (#[trigger] choices@[k]).start == 1960 + 10 * k,
                !(1960 <= year && year < 1960 + 10 * i),
            decreases 7 - i,
        {
            let decade = choices[i];
            let (start, end) = decade.range();
            if start <= year && year <= end {
                return Some(decade);
            }
            i = i + 1;
        }
        None
    }
}

/// A decade found for a year contains that year and is one of the filter choices.
pub proof fn lemma_decade_contains_year(year: u16)
    ensures
        decade_start_of(year) matches Some(s) ==> s <= year <= s + 9 && 1960 <= s <= 2020 && s
            % 10 == 0,
        decade_start_of(year) is None <==> (year < 1960 || year > 2029),
{
}

/// A row of the redesign game table.
#[derive(Debug, Clone, Copy, PartialEq, Eq, Structural)]
pub enum TableRow {
    Parent { index: usize, clone_count: usize },
    Clone { index: usize },
}

/// Counts shown in the library sidebar.
#[derive(Clone)]
pub struct SidebarStats {
    pub all: usize,
    pub available: usize,
    pub favorites: usize,
    pub missing: usize,
    pub issues: usize,
    pub chd_count: usize,
    pub manufacturers: Vec<(String, usize)>,
    pub decades: Vec<YearDecade>,
    pub games_len: usize,
}

impl Default for SidebarStats {
    fn default() -> (r: Self)
        ensures
            r.all == 0 && r.available == 0 && r.favorites == 0 && r.missing == 0 && r.issues == 0
                && r.chd_count == 0 && r.manufacturers@.len() == 0 && r.decades@.len() == 0
                && r.games_len == 0,
    {
        SidebarStats {
            all: 0,
            available: 0,
            favorites: 0,
            missing: 0,
            issues: 0,
            chd_count: 0,
            manufacturers: Vec::new(),
            decades: Vec::new(),
            games_len: 0,
        }
    }
}

/// The filter selection that was last copied into the shared filter settings.
#[derive(Clone)]
pub struct FilterFingerprint {
    pub collection: RedesignCollection,
    pub chd_only: bool,
    pub manufacturer: Option<String>,
    pub year_decade: Option<YearDecade>,
    pub search_text: String,
}

impl FilterFingerprint {
    /// The fingerprint of a fresh session.
    pub fn new() -> (r: Self)
        ensures
            r.is_empty(),
    {
        FilterFingerprint {
            collection: RedesignCollection::AllGames,
            chd_only: false,
            manufacturer: None,
            year_decade: None,
            search_text: String::new(),
        }
    }

    /// The fingerprint that matches no synchronisation yet.
    pub open spec fn is_empty(self) -> bool {
        &&& self.collection == RedesignCollection::AllGames
        &&& !self.chd_only
        &&& self.manufacturer is None
        &&& self.year_decade is None
        &&& self.search_text@.len() == 0
    }
}

/// Session state for the redesign shell (the parts that are not textures,
/// styles or timers).
pub struct RedesignState {
    pub screen: RedesignScreen,
    pub detail_game_index: Option<usize>,
    pub collection: RedesignCollection,
    pub selected_manufacturer: Option<String>,
    pub year_decade: Option<YearDecade>,
    pub chd_only: bool,
    pub manufacturer_open: bool,
    pub year_open: bool,
    /// The library sidebar becomes an on-demand drawer on narrow windows.
    pub narrow_sidebar_open: bool,
    /// Names of the parents whose clones are shown.
    pub expanded_parents: Vec<String>,
    pub settings_section: SettingsSection,
    /// One-shot request consumed by whichever library search field is visible.
    pub search_focus_requested: bool,
    pub style_applied: bool,
    /// Cached flattened rows of the game table (rebuilt when filters change).
    pub table_rows: Vec<TableRow>,
    pub table_rows_dirty: bool,
    /// Cached sidebar stats (rebuilt when the game list changes).
    pub sidebar_stats: SidebarStats,
    pub sidebar_stats_dirty: bool,
    /// Local search buffer, applied to the filter settings after a pause.
    pub search_text_buf: String,
    pub search_buf_initialized: bool,
    /// When the typed search is applied, in milliseconds of the application clock.
    pub search_debounce_deadline_ms: Option<u64>,
    /// The selection last copied into the filter settings.
    pub filter_fingerprint: FilterFingerprint,
}

/// The navigation tab that highlights a screen.
pub open spec fn nav_tab_of(screen: RedesignScreen) -> RedesignNavTab {
    match screen {
        RedesignScreen::Library | RedesignScreen::Detail => RedesignNavTab::Library,
        RedesignScreen::Verification => RedesignNavTab::Verification,
        RedesignScreen::Settings => RedesignNavTab::Settings,
    }
}

/// The screen that a navigation tab opens.
pub open spec fn screen_of(tab: RedesignNavTab) -> RedesignScreen {
    match tab {
        RedesignNavTab::Library => RedesignScreen::Library,
        RedesignNavTab::Verification => RedesignScreen::Verification,
        RedesignNavTab::Settings => RedesignScreen::Settings,
    }
}

impl RedesignState {
    /// The state of a fresh session: library screen, all games, nothing cached.
    pub fn new() -> (r: Self)
        ensures
            r.screen == RedesignScreen::Library,
            r.detail_game_index is None,
            r.collection == RedesignCollection::AllGames,
            r.selected_manufacturer is None,
            r.year_decade is None,
            !r.chd_only,
            !r.manufacturer_open,
            !r.year_open,
            !r.narrow_sidebar_open,
            r.expanded_parents@.len() == 0,
            r.settings_section == SettingsSection::Directories,
            !r.search_focus_requested,
            !r.style_applied,
            r.table_rows@.len() == 0,
            r.table_rows_dirty,
            r.sidebar_stats.games_len == 0,
            r.sidebar_stats_dirty,
            r.search_text_buf@.len() == 0,
            !r.search_buf_initialized,
            r.search_debounce_deadline_ms is None,
            r.filter_fingerprint.is_empty(),
    {
        RedesignState {
            screen: RedesignScreen::Library,
            detail_game_index: None,
            collection: RedesignCollection::AllGames,
            selected_manufacturer: None,
            year_decade: None,
            chd_only: false,
            manufacturer_open: false,
            year_open: false,
            narrow_sidebar_open: false,
            expanded_parents: Vec::new(),
            settings_section: SettingsSection::Directories,
            search_focus_requested: false,
            style_applied: false,
            table_rows: Vec::new(),
            table_rows_dirty: true,
            sidebar_stats: SidebarStats::default(),
            sidebar_stats_dirty: true,
            search_text_buf: String::new(),
            search_buf_initialized: false,
            search_debounce_deadline_ms: None,
            filter_fingerprint: FilterFingerprint::new(),
        }
    }

    /// The navigation tab of the current screen.
    pub fn active_nav_tab(&self) -> (r: RedesignNavTab)
        ensures
            r == nav_tab_of(self.screen),
    {
        match self.screen {
            RedesignScreen::Library | RedesignScreen::Detail => RedesignNavTab::Library,
            RedesignScreen::Verification => RedesignNavTab::Verification,
            RedesignScreen::Settings => RedesignNavTab::Settings,
        }
    }

    /// Shows the detail screen of a game.
    pub fn open_detail(&mut self, game_index: usize)
        ensures
            *final(self) == (RedesignState {
                detail_game_index: Some(game_index),
                screen: RedesignScreen::Detail,
                ..*old(self)
            }),
    {
        self.detail_game_index = Some(game_index);
        self.screen = RedesignScreen::Detail;
    }

    /// Returns to the library screen.
    pub fn back_to_library(&mut self)
        ensures
            *final(self) == (RedesignState { screen: RedesignScreen::Library, ..*old(self) }),
    {
        self.screen = RedesignScreen::Library;
    }

    /// Opens the screen of a navigation tab.
    pub fn navigate_to(&mut self, tab: RedesignNavTab)
        ensures
            *final(self) == (RedesignState { screen: screen_of(tab), ..*old(self) }),
    {
        self.screen = match tab {
            RedesignNavTab::Library => RedesignScreen::Library,
            RedesignNavTab::Verification => RedesignScreen::Verification,
            RedesignNavTab::Settings => RedesignScreen::Settings,
        };
    }

    /// Requests a rebuild of the table rows.
    pub fn mark_table_dirty(&mut self)
        ensures
            *final(self) == (RedesignState { table_rows_dirty: true, ..*old(self) }),
    {
        self.table_rows_dirty = true;
    }

    /// Requests a rebuild of the sidebar counts.
    pub fn mark_sidebar_stats_dirty(&mut self)
        ensures
            *final(self) == (RedesignState { sidebar_stats_dirty: true, ..*old(self) }),
    {
        self.sidebar_stats_dirty = true;
    }

    /// Seeds the search buffer from the filter settings, once per session.
    pub fn ensure_search_buf(&mut self, current: &str)
        ensures
            old(self).search_buf_initialized ==> *final(self) == *old(self),
            !old(self).search_buf_initialized ==> final(self).search_text_buf@ == current@
                && *final(self) == (RedesignState {
                search_text_buf: final(self).search_text_buf,
                search_buf_initialized: true,
                ..*old(self)
            }),
    {
        if !self.search_buf_initialized {
            self.search_text_buf = current.to_owned();
            self.search_buf_initialized = true;
        }
    }

    /// Asks the visible search field to take the keyboard focus.
    pub fn request_search_focus(&mut self)
        ensures
            *final(self) == (RedesignState { search_focus_requested: true, ..*old(self) }),
    {
        self.search_focus_requested = true;
    }

    /// Consumes a pending focus request: true once per request.
    pub fn take_search_focus_request(&mut self) -> (r: bool)
        ensures
            r == old(self).search_focus_requested,
            *final(self) == (RedesignState { search_focus_requested: false, ..*old(self) }),
    {
        let r = self.search_focus_requested;
        self.search_focus_requested = false;
        r
    }

    /// Invalidates cached rows, counts and the filter fingerprint when the
    /// number of loaded games changed.
    pub fn invalidate_on_games_loaded(&mut self, games_len: usize)
        ensures
            old(self).sidebar_stats.games_len != games_len ==> final(self).filter_fingerprint.is_empty()
                && *final(self) == (RedesignState {
                table_rows_dirty: true,
                sidebar_stats_dirty: true,
                filter_fingerprint: final(self).filter_fingerprint,
                ..*old(self)
            }),
            old(self).sidebar_stats.games_len == games_len ==> *final(self) == *old(self),
    {
        if self.sidebar_stats.games_len != games_len {
            self.mark_table_dirty();
            self.mark_sidebar_stats_dirty();
            self.filter_fingerprint = FilterFingerprint::new();
        }
    }

    /// Records the selection that was just copied into the filter settings.
    pub fn mark_filters_synced(
        &mut self,
        collection: RedesignCollection,
        chd_only: bool,
        manufacturer: &Option<String>,
        year_decade: Option<YearDecade>,
        search_text: &str,
    )
        ensures
            final(self).filter_fingerprint.collection == collection,
            final(self).filter_fingerprint.chd_only == chd_only,
            final(self).filter_fingerprint.manufacturer == *manufacturer,
            final(self).filter_fingerprint.year_decade == year_decade,
            final(self).filter_fingerprint.search_text@ == search_text@,
            *final(self) == (RedesignState {
                filter_fingerprint: final(self).filter_fingerprint,
                ..*old(self)
            }),
    {
        self.filter_fingerprint = FilterFingerprint {
            collection,
            chd_only,
            manufacturer: manufacturer.clone(),
            year_decade,
            search_text: search_text.to_owned(),
        };
    }

    /// Whether a parent's clones are shown.
    pub fn is_expanded(&self, name: &str) -> (r: bool)
        ensures
            r == names(self.expanded_parents@).contains(name@),
    {
        crate::models::contains_name(&self.expanded_parents, name)
    }
}

} // verus!
