//! Game records, ROM states and the shared filter settings that both shells edit.
use vstd::prelude::*;

use crate::text::{chars_of, parse_u32, parse_u32_spec, same_text};

verus! {

/// Audit state of a game's ROM set.
#[derive(Debug, Clone, Copy, PartialEq, Eq, Hash, Structural)]
pub enum RomStatus {
    Available,
    Missing,
    Incorrect,
    NotWorking,
    Preliminary,
    ChdRequired,
    ChdMissing,
    Unknown,
}

/// Human-readable text of each ROM state, the text that status search matches.
pub open spec fn status_description_spec(status: RomStatus) -> Seq<char> {
    match status {
        RomStatus::Available => "Available"@,
        RomStatus::Missing => "Missing"@,
        RomStatus::Incorrect => "Incorrect"@,
        RomStatus::NotWorking => "Not Working"@,
        RomStatus::Preliminary => "Preliminary"@,
        RomStatus::ChdRequired => "CHD Required"@,
        RomStatus::ChdMissing => "CHD Missing"@,
        RomStatus::Unknown => "Unknown"@,
    }
}

impl RomStatus {
    /// Human-readable text of this ROM state.
    pub fn description(&self) -> (r: &'static str)
        ensures
            r@ == status_description_spec(*self),
    {
        match self {
            RomStatus::Available => "Available",
            RomStatus::Missing => "Missing",
            RomStatus::Incorrect => "Incorrect",
            RomStatus::NotWorking => "Not Working",
            RomStatus::Preliminary => "Preliminary",
            RomStatus::ChdRequired => "CHD Required",
            RomStatus::ChdMissing => "CHD Missing",
            RomStatus::Unknown => "Unknown",
        }
    }
}

/// The field that plain search text is matched against.
#[derive(Debug, Clone, Copy, PartialEq, Eq, Hash, Structural)]
pub enum SearchMode {
    GameTitle,
    Manufacturer,
    RomFileName,
    Year,
    Status,
    Cpu,
    Device,
    Sound,
    FuzzySearch,
    FullText,
    Regex,
}

/// Legacy single-choice working-state filter.
#[derive(Debug, Clone, Copy, PartialEq, Eq, Hash, Structural)]
pub enum StatusFilter {
    All,
    WorkingOnly,
    NotWorkingOnly,
}

/// Legacy single-choice game category.
#[derive(Debug, Clone, Copy, PartialEq, Eq, Hash, Structural)]
pub enum FilterCategory {
    All,
    Available,
    Missing,
    Favorites,
    Parents,
    Working,
    NotWorking,
    ChdGames,
}

/// How the ROM collection stores clones.
#[derive(Debug, Clone, Copy, PartialEq, Eq, Hash, Structural)]
pub enum RomSetType {
    NonMerged,
    Split,
    Merged,
    Unknown,
}

/// MAME video back-end selected for launches.
#[derive(Debug, Clone, Copy, PartialEq, Eq, Hash, Structural)]
pub enum VideoMode {
    Auto,
    OpenGL,
    Direct3D,
    BGFX,
    Soft,
}

/// One machine of the MAME catalogue.
#[derive(Debug, Clone)]
pub struct Game {
    pub name: String,
    pub description: String,
    pub manufacturer: String,
    pub year: String,
    pub driver: String,
    pub driver_status: String,
    pub status: RomStatus,
    pub parent: Option<String>,
    pub category: String,
    pub play_count: u32,
    pub is_clone: bool,
    pub is_device: bool,
    pub is_bios: bool,
    pub controls: String,
    pub requires_roms: bool,
    pub requires_chd: bool,
    pub chd_name: Option<String>,
    pub verification_status: Option<String>,
}

/// The parent named by a game record, as characters.
pub open spec fn parent_name(g: Game) -> Option<Seq<char>> {
    match g.parent {
        Some(p) => Some(p@),
        None => None,
    }
}

/// The characters of each string of a sequence.
pub open spec fn names(v: Seq<String>) -> Seq<Seq<char>> {
    v.map_values(|s: String| s@)
}

/// Whether `v` holds a string with the characters of `name`.
pub fn contains_name(v: &Vec<String>, name: &str) -> (r: bool)
    ensures
        r == names(v@).contains(name@),
{
    let mut i: usize = 0;
    while i < v.len()
        invariant
            i <= v.len(),
            forall|k: int| 0 <= k < i ==> (#[trigger] v@[k])@ != name@,
        decreases v.len() - i,
    {
        if same_text(v[i].as_str(), name) {
            assert(names(v@)[i as int] == name@);
            return true;
        }
        i = i + 1;
    }
    assert forall|k: int| 0 <= k < names(v@).len() implies names(v@)[k] != name@ by {
        assert(names(v@)[k] == v@[k]@);
    }
    false
}

/// Every name but `name`.
pub open spec fn other_than(name: Seq<char>) -> spec_fn(Seq<char>) -> bool {
    |n: Seq<char>| n != name
}

/// The favorites after toggling `name`: removed (every copy) when present,
/// appended otherwise.
pub open spec fn toggled_favorites(favorites: Seq<Seq<char>>, name: Seq<char>) -> Seq<Seq<char>> {
    if favorites.contains(name) {
        favorites.filter(other_than(name))
    } else {
        favorites.push(name)
    }
}

/// Marks a game as favorite, or unmarks it when it already is one.
pub fn toggle_favorite(favorites: &mut Vec<String>, rom_name: &str)
    ensures
        names(final(favorites)@) == toggled_favorites(names(old(favorites)@), rom_name@),
{
    let ghost keep = other_than(rom_name@);
    if contains_name(favorites, rom_name) {
        let mut kept: Vec<String> = Vec::new();
        let mut i: usize = 0;
        while i < favorites.len()
            invariant
                i <= favorites.len(),
                keep == other_than(rom_name@),
                names(kept@) == names(favorites@).take(i as int).filter(keep),
            decreases favorites.len() - i,
        {
            let ghost before = kept@;
            proof {
                assert(names(favorites@).take(i + 1) =~= names(favorites@).take(i as int).push(
                    favorites@[i as int]@,
                ));
                names(favorites@).take(i as int).lemma_filter_push(favorites@[i as int]@, keep);
            }
            if !same_text(favorites[i].as_str(), rom_name) {
                kept.push(favorites[i].clone());
                assert(names(kept@) =~= names(before).push(favorites@[i as int]@));
            }
            i = i + 1;
        }
        assert(names(favorites@).take(i as int) =~= names(favorites@));
        *favorites = kept;
    } else {
        let ghost before = names(favorites@);
        favorites.push(rom_name.to_owned());
        assert(names(favorites@) =~= before.push(rom_name@));
    }
}

/// Toggling a favorite twice gives back the same set of favorites.
pub proof fn lemma_toggle_twice_restores(favorites: Seq<Seq<char>>, name: Seq<char>)
    ensures
        toggled_favorites(toggled_favorites(favorites, name), name).to_set() == favorites.to_set(),
{
    let keep = other_than(name);
    if favorites.contains(name) {
        let once = favorites.filter(keep);
        assert(!once.contains(name)) by {
            if once.contains(name) {
                let k = choose|k: int| 0 <= k < once.len() && once[k] == name;
                favorites.lemma_filter_pred(keep, k);
            }
        }
        assert(toggled_favorites(once, name) == once.push(name));
        assert forall|x: Seq<char>| favorites.to_set().contains(x) implies once.push(
            name,
        ).to_set().contains(x) by {
            if x != name {
                let k = choose|k: int| 0 <= k < favorites.len() && favorites[k] == x;
                favorites.lemma_filter_contains(keep, k);
                let j = choose|j: int| 0 <= j < once.len() && once[j] == x;
                assert(once.push(name)[j] == x);
            } else {
                assert(once.push(name)[once.len() as int] == name);
            }
        }
        assert forall|x: Seq<char>| once.push(name).to_set().contains(x) implies favorites.to_set().contains(
            x,
        ) by {
            let j = choose|j: int| 0 <= j < once.push(name).len() && once.push(name)[j] == x;
            if j < once.len() {
                assert(once[j] == x);
                assert(once.contains(x));
                favorites.lemma_filter_contains_rev(keep, x);
            }
        }
        assert(once.push(name).to_set() =~= favorites.to_set());
    } else {
        let pushed = favorites.push(name);
        assert(pushed.contains(name)) by {
            assert(pushed[favorites.len() as int] == name);
        }
        favorites.lemma_filter_push(name, keep);
        assert forall|k: int| 0 <= k < favorites.len() implies keep(#[trigger] favorites[k]) by {
            if favorites[k] == name {
                assert(favorites.contains(name));
            }
        }
        lemma_filter_keeps_all(favorites, keep);
        assert(toggled_favorites(favorites, name) == pushed);
        assert(toggled_favorites(pushed, name) == favorites);
    }
}

/// Filtering by a predicate that every element meets changes nothing.
proof fn lemma_filter_keeps_all(s: Seq<Seq<char>>, p: spec_fn(Seq<char>) -> bool)
    requires
        forall|k: int| 0 <= k < s.len() ==> p(#[trigger] s[k]),
    ensures
        s.filter(p) == s,
    decreases s.len(),
{
    reveal(Seq::filter);
    if s.len() > 0 {
        lemma_filter_keeps_all(s.drop_last(), p);
        assert(s.drop_last().push(s.last()) =~= s);
    }
}

/// Availability facet: OR within the facet, no selection means everything.
#[derive(Debug, Clone, Copy, PartialEq, Eq, Structural)]
pub struct AvailabilityFilters {
    pub show_available: bool,
    pub show_unavailable: bool,
}

/// Working-state facet: OR within the facet, no selection means everything.
#[derive(Debug, Clone, Copy, PartialEq, Eq, Structural)]
pub struct StatusFilters {
    pub show_working: bool,
    pub show_not_working: bool,
}

/// Other facets: OR within the facet, no selection means everything.
#[derive(Debug, Clone, Copy, PartialEq, Eq, Structural)]
pub struct OtherFilters {
    pub show_favorites: bool,
    pub show_parents_only: bool,
    pub show_chd_games: bool,
}

/// The filter state shared by the legacy and redesign shells.
///
/// `selected_manufacturers` is used as a set: `select_manufacturer` never
/// stores a name twice.
#[derive(Debug, Clone)]
pub struct FilterSettings {
    pub search_text: String,
    pub search_mode: SearchMode,
    pub catver_category: Option<String>,
    pub cpu_filter: String,
    pub device_filter: String,
    pub sound_filter: String,
    pub show_favorites_only: bool,
    pub status_filter: StatusFilter,
    pub status_filters: StatusFilters,
    pub other_filters: OtherFilters,
    pub availability_filters: AvailabilityFilters,
    pub manufacturer: String,
    pub selected_manufacturers: Vec<String>,
    pub year_from: String,
    pub year_to: String,
    pub hide_romless_systems: bool,
    pub hide_non_games: bool,
    pub auto_expand_clones: bool,
    pub rom_set_type: RomSetType,
    pub show_clones_in_split: bool,
    pub show_clones_in_merged: bool,
    pub select_all_mode: bool,
    pub apply_hidden_categories: bool,
}

/// The settings a fresh configuration starts with.
pub open spec fn is_default_filters(fs: FilterSettings) -> bool {
    &&& fs.search_text@.len() == 0
    &&& fs.search_mode == SearchMode::GameTitle
    &&& fs.catver_category is None
    &&& fs.cpu_filter@.len() == 0
    &&& fs.device_filter@.len() == 0
    &&& fs.sound_filter@.len() == 0
    &&& !fs.show_favorites_only
    &&& fs.status_filter == StatusFilter::All
    &&& fs.status_filters == StatusFilters { show_working: true, show_not_working: true }
    &&& fs.other_filters == OtherFilters {
        show_favorites: false,
        show_parents_only: false,
        show_chd_games: false,
    }
    &&& fs.availability_filters == AvailabilityFilters {
        show_available: true,
        show_unavailable: true,
    }
    &&& fs.manufacturer@.len() == 0
    &&& fs.selected_manufacturers@.len() == 0
    &&& fs.year_from@.len() == 0
    &&& fs.year_to@.len() == 0
    &&& fs.hide_romless_systems
    &&& !fs.hide_non_games
    &&& !fs.auto_expand_clones
    &&& fs.rom_set_type == RomSetType::Unknown
    &&& !fs.show_clones_in_split
    &&& !fs.show_clones_in_merged
    &&& !fs.select_all_mode
    &&& !fs.apply_hidden_categories
}

impl Default for FilterSettings {
    fn default() -> (fs: Self)
        ensures
            is_default_filters(fs),
    {
        FilterSettings {
            search_text: String::new(),
            search_mode: SearchMode::GameTitle,
            catver_category: None,
            cpu_filter: String::new(),
            device_filter: String::new(),
            sound_filter: String::new(),
            show_favorites_only: false,
            status_filter: StatusFilter::All,
            status_filters: StatusFilters { show_working: true, show_not_working: true },
            other_filters: OtherFilters {
                show_favorites: false,
                show_parents_only: false,
                show_chd_games: false,
            },
            availability_filters: AvailabilityFilters {
                show_available: true,
                show_unavailable: true,
            },
            manufacturer: String::new(),
            selected_manufacturers: Vec::new(),
            year_from: String::new(),
            year_to: String::new(),
            hide_romless_systems: true,
            hide_non_games: false,
            auto_expand_clones: false,
            rom_set_type: RomSetType::Unknown,
            show_clones_in_split: false,
            show_clones_in_merged: false,
            select_all_mode: false,
            apply_hidden_categories: false,
        }
    }
}

/// ROM-requirement exclusion: with `hide_romless_systems`, only machines that
/// need ROM or disk media pass.
pub open spec fn rom_requirement_spec(fs: FilterSettings, requires_roms: bool) -> bool {
    !fs.hide_romless_systems || requires_roms
}

/// Manufacturer facet: no selection passes everything, otherwise the
/// manufacturer must be one of the selected names.
pub open spec fn manufacturer_spec(fs: FilterSettings, manufacturer: Seq<char>) -> bool {
    fs.selected_manufacturers@.len() == 0 || names(fs.selected_manufacturers@).contains(
        manufacturer,
    )
}

/// Year facet: with no bounds every year passes; otherwise the year must be a
/// number and lie within each bound that is a number.
pub open spec fn year_spec(from: Seq<char>, to: Seq<char>, year: Seq<char>) -> bool {
    (from.len() == 0 && to.len() == 0) || match parse_u32_spec(year) {
        None => false,
        Some(y) => (match parse_u32_spec(from) {
            Some(f) => f <= y,
            None => true,
        }) && (match parse_u32_spec(to) {
            Some(t) => y <= t,
            None => true,
        }),
    }
}

impl FilterSettings {
    /// Whether a machine passes the ROM-requirement exclusion.
    pub fn rom_requirement_matches(&self, requires_roms: bool) -> (r: bool)
        ensures
            r == rom_requirement_spec(*self, requires_roms),
    {
        !self.hide_romless_systems || requires_roms
    }

    /// Whether a manufacturer passes the manufacturer facet.
    pub fn manufacturer_matches(&self, manufacturer: &str) -> (r: bool)
        ensures
            r == manufacturer_spec(*self, manufacturer@),
    {
        self.selected_manufacturers.len() == 0 || contains_name(
            &self.selected_manufacturers,
            manufacturer,
        )
    }

    /// Whether a release year passes the year facet.
    pub fn year_matches(&self, year: &str) -> (r: bool)
        ensures
            r == year_spec(self.year_from@, self.year_to@, year@),
    {
        if self.year_from.as_str().is_empty() && self.year_to.as_str().is_empty() {
            return true;
        }
        let y = parse_u32(&chars_of(year));
        match y {
            None => false,
            Some(y) => {
                let lower_ok = match parse_u32(&chars_of(self.year_from.as_str())) {
                    Some(f) => f <= y,
                    None => true,
                };
                let upper_ok = match parse_u32(&chars_of(self.year_to.as_str())) {
                    Some(t) => y <= t,
                    None => true,
                };
                lower_ok && upper_ok
            },
        }
    }

    /// Adds a manufacturer to the selection unless it is already there.
    pub fn select_manufacturer(&mut self, name: &str)
        ensures
            names(final(self).selected_manufacturers@).to_set() == names(
                old(self).selected_manufacturers@,
            ).to_set().insert(name@),
            names(old(self).selected_manufacturers@).no_duplicates() ==> names(
                final(self).selected_manufacturers@,
            ).no_duplicates(),
            names(final(self).selected_manufacturers@) == if names(
                old(self).selected_manufacturers@,
            ).contains(name@) {
                names(old(self).selected_manufacturers@)
            } else {
                names(old(self).selected_manufacturers@).push(name@)
            },
            *final(self) == (FilterSettings {
                selected_manufacturers: final(self).selected_manufacturers,
                ..*old(self)
            }),
    {
        if !contains_name(&self.selected_manufacturers, name) {
            let ghost before = names(self.selected_manufacturers@);
            self.selected_manufacturers.push(name.to_owned());
            assert(names(self.selected_manufacturers@) =~= before + seq![name@]);
            proof {
                Seq::lemma_to_set_insert_commutes(before, name@);
            }
        } else {
            assert(names(self.selected_manufacturers@).to_set() =~= names(
                self.selected_manufacturers@,
            ).to_set().insert(name@));
        }
    }
}

/// One entry of a MAME software list.
#[derive(Debug, Clone)]
pub struct SoftwareEntry {
    pub list_name: String,
    pub list_description: String,
    pub name: String,
    pub description: String,
    pub publisher: String,
    pub year: String,
    pub supported: String,
    pub clone_of: Option<String>,
    pub parent: Option<String>,
    pub part_count: usize,
    pub interfaces: Vec<String>,
    pub source_file: String,
}

/// One software list with its title.
#[derive(Debug, Clone)]
pub struct SoftwareListSummary {
    pub name: String,
    pub description: String,
    pub entry_count: usize,
}

/// A catver.ini category with the number of games in it.
#[derive(Debug, Clone)]
pub struct CatverCategory {
    pub name: String,
    pub display_name: String,
    pub game_count: usize,
}

} // verus!
