//! Filter sidebar of the legacy shell: bulk filter toggles and the manufacturer list.
use vstd::prelude::*;

use crate::models::{names, AvailabilityFilters, FilterSettings, OtherFilters, StatusFilters};
use crate::text::{chars_of, contains_chars, lowercase, seq_contains, to_lowercase};

verus! {

/// Label of the ROM-requirement checkbox that both shells show.
pub const ROMLESS_FILTER_LABEL: &'static str = "Hide systems that don't require ROMs";

/// The manufacturers whose lowercase name contains the lowercase search text
/// (all of them when the search is empty), in list order.
pub open spec fn manufacturers_matching(all: Seq<String>, search: Seq<char>) -> Seq<Seq<char>>
    decreases all.len(),
{
    if all.len() == 0 {
        Seq::empty()
    } else {
        let prev = manufacturers_matching(all.drop_last(), search);
        if search.len() == 0 || seq_contains(lowercase(all.last()@), search) {
            prev.push(all.last()@)
        } else {
            prev
        }
    }
}

/// The modern accordion-style filter sidebar.
pub struct Sidebar {}

impl Sidebar {
    /// A sidebar; it keeps no state of its own.
    pub fn new() -> (r: Self) {
        Sidebar {  }
    }

    /// Clears every facet and the hardware and manufacturer filters, which shows all games.
    pub fn clear_all_filters(&self, filters: &mut FilterSettings)
        ensures
            !final(filters).hide_romless_systems,
            final(filters).availability_filters == (AvailabilityFilters {
                show_available: false,
                show_unavailable: false,
            }),
            final(filters).status_filters == (StatusFilters {
                show_working: false,
                show_not_working: false,
            }),
            final(filters).other_filters == (OtherFilters {
                show_favorites: false,
                show_parents_only: false,
                show_chd_games: false,
            }),
            final(filters).cpu_filter@.len() == 0,
            final(filters).device_filter@.len() == 0,
            final(filters).sound_filter@.len() == 0,
            final(filters).manufacturer@.len() == 0,
            final(filters).selected_manufacturers@.len() == 0,
            *final(filters) == (FilterSettings {
                hide_romless_systems: false,
                availability_filters: final(filters).availability_filters,
                status_filters: final(filters).status_filters,
                other_filters: final(filters).other_filters,
                cpu_filter: final(filters).cpu_filter,
                device_filter: final(filters).device_filter,
                sound_filter: final(filters).sound_filter,
                manufacturer: final(filters).manufacturer,
                selected_manufacturers: final(filters).selected_manufacturers,
                ..*old(filters)
            }),
    {
        filters.hide_romless_systems = false;
        filters.availability_filters.show_available = false;
        filters.availability_filters.show_unavailable = false;
        filters.status_filters.show_working = false;
        filters.status_filters.show_not_working = false;
        filters.other_filters.show_favorites = false;
        filters.other_filters.show_parents_only = false;
        filters.other_filters.show_chd_games = false;
        filters.cpu_filter = String::new();
        filters.device_filter = String::new();
        filters.sound_filter = String::new();
        filters.manufacturer = String::new();
        filters.selected_manufacturers = Vec::new();
    }

    /// Selects every facet option (which may leave no game visible).
    pub fn select_all_filters(&self, filters: &mut FilterSettings)
        ensures
            final(filters).hide_romless_systems,
            final(filters).availability_filters == (AvailabilityFilters {
                show_available: true,
                show_unavailable: true,
            }),
            final(filters).status_filters == (StatusFilters {
                show_working: true,
                show_not_working: true,
            }),
            final(filters).other_filters == (OtherFilters {
                show_favorites: true,
                show_parents_only: true,
                show_chd_games: true,
            }),
            *final(filters) == (FilterSettings {
                hide_romless_systems: true,
                availability_filters: final(filters).availability_filters,
                status_filters: final(filters).status_filters,
                other_filters: final(filters).other_filters,
                ..*old(filters)
            }),
    {
        filters.hide_romless_systems = true;
        filters.availability_filters.show_available = true;
        filters.availability_filters.show_unavailable = true;
        filters.status_filters.show_working = true;
        filters.status_filters.show_not_working = true;
        filters.other_filters.show_favorites = true;
        filters.other_filters.show_parents_only = true;
        filters.other_filters.show_chd_games = true;
    }

    /// The manufacturers that the manufacturer search text selects.
    pub fn filtered_manufacturers(all_manufacturers: &Vec<String>, filter_settings: &FilterSettings)
        -> (r: Vec<String>)
        ensures
            names(r@) == manufacturers_matching(
                all_manufacturers@,
                lowercase(filter_settings.manufacturer@),
            ),
    {
        let search = chars_of(to_lowercase(filter_settings.manufacturer.as_str()).as_str());
        let mut r: Vec<String> = Vec::new();
        let mut i: usize = 0;
        while i < all_manufacturers.len()
            invariant
                i <= all_manufacturers.len(),
                search@ == lowercase(filter_settings.manufacturer@),
                names(r@) == manufacturers_matching(all_manufacturers@.take(i as int), search@),
            decreases all_manufacturers.len() - i,
        {
            proof {
                assert(all_manufacturers@.take(i + 1).drop_last() =~= all_manufacturers@.take(
                    i as int,
                ));
            }
            let name = &all_manufacturers[i];
            let keep = search.len() == 0 || contains_chars(
                &chars_of(to_lowercase(name.as_str()).as_str()),
                &search,
            );
            if keep {
                let ghost before = r@;
                r.push(name.clone());
                assert(names(r@) =~= names(before).push(name@));
            }
            i = i + 1;
        }
        assert(all_manufacturers@.take(i as int) =~= all_manufacturers@);
        r
    }

    /// "Select visible": adds every manufacturer that the search shows to the selection.
    pub fn select_visible_manufacturers(
        all_manufacturers: &Vec<String>,
        filter_settings: &mut FilterSettings,
    )
        ensures
            names(final(filter_settings).selected_manufacturers@).to_set() == names(
                old(filter_settings).selected_manufacturers@,
            ).to_set().union(
                manufacturers_matching(
                    all_manufacturers@,
                    lowercase(old(filter_settings).manufacturer@),
                ).to_set(),
            ),
            *final(filter_settings) == (FilterSettings {
                selected_manufacturers: final(filter_settings).selected_manufacturers,
                ..*old(filter_settings)
            }),
    {
        let visible = Self::filtered_manufacturers(all_manufacturers, filter_settings);
        let ghost start = names(filter_settings.selected_manufacturers@).to_set();
        let mut i: usize = 0;
        while i < visible.len()
            invariant
                i <= visible.len(),
                *filter_settings == (FilterSettings {
                    selected_manufacturers: filter_settings.selected_manufacturers,
                    ..*old(filter_settings)
                }),
                names(filter_settings.selected_manufacturers@).to_set() == start.union(
                    names(visible@).take(i as int).to_set(),
                ),
            decreases visible.len() - i,
        {
            filter_settings.select_manufacturer(visible[i].as_str());
            proof {
                let t = names(visible@).take(i as int);
                assert(names(visible@).take(i + 1) =~= t + seq![visible@[i as int]@]);
                Seq::lemma_to_set_insert_commutes(t, visible@[i as int]@);
                assert(start.union(t.to_set().insert(visible@[i as int]@)) =~= start.union(
                    t.to_set(),
                ).insert(visible@[i as int]@));
            }
            i = i + 1;
        }
        assert(names(visible@).take(i as int) =~= names(visible@));
    }
}

} // verus!
