//! The shared filter engine: facet predicates, field search, and the result
//! sequences they select from the catalogue.
//!
//! Facets are combined with AND; within a facet the selected options are
//! combined with OR, and a facet with no selected option passes everything.
use rayon::iter::{IntoParallelRefIterator, ParallelIterator};
use vstd::prelude::*;

use crate::models::{
    manufacturer_spec, names, rom_requirement_spec, status_description_spec, year_spec,
    FilterSettings, Game, RomStatus, SearchMode,
};
use crate::text::{chars_of, contains_chars, lowercase, same_text, seq_contains, to_lowercase};

verus! {

/// Availability facet.
pub open spec fn availability_match(fs: FilterSettings, g: Game) -> bool {
    let a = fs.availability_filters;
    (!a.show_available && !a.show_unavailable) || (a.show_available && g.status
        == RomStatus::Available) || (a.show_unavailable && g.status != RomStatus::Available)
}

/// A driver counts as working when its status is `good` or `imperfect`.
pub open spec fn is_working(g: Game) -> bool {
    g.driver_status@ == "good"@ || g.driver_status@ == "imperfect"@
}

/// Working-state facet.
pub open spec fn status_match(fs: FilterSettings, g: Game) -> bool {
    let s = fs.status_filters;
    (!s.show_working && !s.show_not_working) || (s.show_working && is_working(g)) || (
    s.show_not_working && !is_working(g))
}

/// Favorites / parents / CHD facet.
pub open spec fn others_match(fs: FilterSettings, g: Game, favorites: Seq<Seq<char>>) -> bool {
    let o = fs.other_filters;
    (!o.show_favorites && !o.show_parents_only && !o.show_chd_games) || (o.show_favorites
        && favorites.contains(g.name@)) || (o.show_parents_only && !g.is_clone) || (
    o.show_chd_games && g.requires_chd)
}

/// Any hardware field (CPU, device, sound) is set.
pub open spec fn hardware_fields_active(fs: FilterSettings) -> bool {
    fs.cpu_filter@.len() != 0 || fs.device_filter@.len() != 0 || fs.sound_filter@.len() != 0
}

/// Hardware facet of game `i`: passes when no hardware field is set; otherwise
/// the hardware mapping must have been supplied and say that the game matches.
pub open spec fn hardware_match(fs: FilterSettings, hits: Option<Seq<bool>>, i: int) -> bool {
    !hardware_fields_active(fs) || match hits {
        Some(h) => 0 <= i < h.len() && h[i],
        None => false,
    }
}

/// All facets together, for game `i` of the catalogue.
pub open spec fn categorized_match(
    fs: FilterSettings,
    games: Seq<Game>,
    favorites: Seq<Seq<char>>,
    hardware: Option<Seq<bool>>,
    i: int,
) -> bool {
    let g = games[i];
    &&& rom_requirement_spec(fs, g.requires_roms)
    &&& availability_match(fs, g)
    &&& status_match(fs, g)
    &&& others_match(fs, g, favorites)
    &&& hardware_match(fs, hardware, i)
    &&& manufacturer_spec(fs, g.manufacturer@)
    &&& year_spec(fs.year_from@, fs.year_to@, g.year@)
}

/// The catalogue indices below `n` that pass all facets, in order.
pub open spec fn categorized_spec(
    fs: FilterSettings,
    games: Seq<Game>,
    favorites: Seq<Seq<char>>,
    hardware: Option<Seq<bool>>,
    n: int,
) -> Seq<usize>
    decreases n,
{
    if n <= 0 {
        Seq::empty()
    } else {
        let prev = categorized_spec(fs, games, favorites, hardware, n - 1);
        if categorized_match(fs, games, favorites, hardware, n - 1) {
            prev.push((n - 1) as usize)
        } else {
            prev
        }
    }
}

/// The search modes served by the enhanced search engine.
pub open spec fn is_enhanced_mode(mode: SearchMode) -> bool {
    mode == SearchMode::FuzzySearch || mode == SearchMode::FullText || mode == SearchMode::Regex
}

/// The search modes answered from the hardware mapping.
pub open spec fn is_hardware_mode(mode: SearchMode) -> bool {
    mode == SearchMode::Cpu || mode == SearchMode::Device || mode == SearchMode::Sound
}

/// The text that a field search mode matches against.
pub open spec fn field_text(g: Game, mode: SearchMode) -> Seq<char> {
    match mode {
        SearchMode::Manufacturer => g.manufacturer@,
        SearchMode::RomFileName => g.name@,
        SearchMode::Year => g.year@,
        SearchMode::Status => status_description_spec(g.status),
        _ => g.description@,
    }
}

/// Field search for game `i`: hardware modes use the supplied hardware search
/// hits; the other modes look for the lowercase query in the lowercase field.
pub open spec fn field_search_match(
    games: Seq<Game>,
    i: int,
    mode: SearchMode,
    query_lower: Seq<char>,
    hardware_hits: Option<Seq<bool>>,
) -> bool {
    if is_hardware_mode(mode) {
        match hardware_hits {
            Some(h) => 0 <= i < h.len() && h[i],
            None => false,
        }
    } else {
        seq_contains(lowercase(field_text(games[i], mode)), query_lower)
    }
}

/// The entries of `s` that are valid catalogue indices passing the field search.
pub open spec fn field_search_spec(
    games: Seq<Game>,
    s: Seq<usize>,
    mode: SearchMode,
    query_lower: Seq<char>,
    hardware_hits: Option<Seq<bool>>,
) -> Seq<usize>
    decreases s.len(),
{
    if s.len() == 0 {
        Seq::empty()
    } else {
        let prev = field_search_spec(games, s.drop_last(), mode, query_lower, hardware_hits);
        let i = s.last();
        if i < games.len() && field_search_match(games, i as int, mode, query_lower, hardware_hits) {
            prev.push(i)
        } else {
            prev
        }
    }
}

/// The entries of `s` that also appear in `results`.
pub open spec fn retain_in_spec(s: Seq<usize>, results: Seq<usize>) -> Seq<usize>
    decreases s.len(),
{
    if s.len() == 0 {
        Seq::empty()
    } else {
        let prev = retain_in_spec(s.drop_last(), results);
        if results.contains(s.last()) {
            prev.push(s.last())
        } else {
            prev
        }
    }
}

/// The characters of an optional vector of hits.
pub open spec fn opt_hits(h: Option<&Vec<bool>>) -> Option<Seq<bool>> {
    match h {
        Some(v) => Some(v@),
        None => None,
    }
}

/// Whether a driver status counts as working.
pub fn driver_is_working(g: &Game) -> (r: bool)
    ensures
        r == is_working(*g),
{
    same_text(g.driver_status.as_str(), "good") || same_text(g.driver_status.as_str(), "imperfect")
}

/// Whether `name` is one of the favorites.
pub fn is_favorite(favorites: &Vec<String>, name: &str) -> (r: bool)
    ensures
        r == names(favorites@).contains(name@),
{
    crate::models::contains_name(favorites, name)
}

/// Whether game `i` passes all facets.
pub fn categorized_filter_hit(
    games: &Vec<Game>,
    i: usize,
    fs: &FilterSettings,
    favorites: &Vec<String>,
    hardware: Option<&Vec<bool>>,
) -> (r: bool)
    requires
        i < games.len(),
    ensures
        r == categorized_match(*fs, games@, names(favorites@), opt_hits(hardware), i as int),
{
    let g = &games[i];
    let avail = fs.availability_filters;
    let availability_ok = (!avail.show_available && !avail.show_unavailable) || (
    avail.show_available && g.status == RomStatus::Available) || (avail.show_unavailable
        && g.status != RomStatus::Available);
    let st = fs.status_filters;
    let working = driver_is_working(g);
    let status_ok = (!st.show_working && !st.show_not_working) || (st.show_working && working)
        || (st.show_not_working && !working);
    let o = fs.other_filters;
    let others_ok = (!o.show_favorites && !o.show_parents_only && !o.show_chd_games) || (
    o.show_favorites && is_favorite(favorites, g.name.as_str())) || (o.show_parents_only
        && !g.is_clone) || (o.show_chd_games && g.requires_chd);
    let hw_active = !fs.cpu_filter.as_str().is_empty() || !fs.device_filter.as_str().is_empty()
        || !fs.sound_filter.as_str().is_empty();
    let hardware_ok = if !hw_active {
        true
    } else {
        match hardware {
            Some(h) => i < h.len() && h[i],
            None => false,
        }
    };
    fs.rom_requirement_matches(g.requires_roms) && availability_ok && status_ok && others_ok
        && hardware_ok && fs.manufacturer_matches(g.manufacturer.as_str()) && fs.year_matches(
        g.year.as_str(),
    )
}

/// The catalogue indices that pass all facets, in catalogue order.
pub fn categorized_candidates(
    games: &Vec<Game>,
    fs: &FilterSettings,
    favorites: &Vec<String>,
    hardware: Option<&Vec<bool>>,
) -> (r: Vec<usize>)
    ensures
        r@ == categorized_spec(
            *fs,
            games@,
            names(favorites@),
            opt_hits(hardware),
            games@.len() as int,
        ),
{
    let mut r: Vec<usize> = Vec::new();
    let mut i: usize = 0;
    while i < games.len()
        invariant
            i <= games.len(),
            r@ == categorized_spec(*fs, games@, names(favorites@), opt_hits(hardware), i as int),
        decreases games.len() - i,
    {
        if categorized_filter_hit(games, i, fs, favorites, hardware) {
            r.push(i);
        }
        i = i + 1;
    }
    r
}

/// Whether game `i` passes the field search with the lowercase query.
pub fn field_search_hit(
    games: &Vec<Game>,
    i: usize,
    mode: SearchMode,
    query_lower: &Vec<char>,
    hardware_hits: Option<&Vec<bool>>,
) -> (r: bool)
    requires
        i < games.len(),
    ensures
        r == field_search_match(games@, i as int, mode, query_lower@, opt_hits(hardware_hits)),
{
    match mode {
        SearchMode::Cpu | SearchMode::Device | SearchMode::Sound => match hardware_hits {
            Some(h) => i < h.len() && h[i],
            None => false,
        },
        _ => {
            let g = &games[i];
            let text: &str = match mode {
                SearchMode::Manufacturer => g.manufacturer.as_str(),
                SearchMode::RomFileName => g.name.as_str(),
                SearchMode::Year => g.year.as_str(),
                SearchMode::Status => g.status.description(),
                _ => g.description.as_str(),
            };
            let lower = chars_of(to_lowercase(text).as_str());
            contains_chars(&lower, query_lower)
        },
    }
}

/// Whether candidate `i` is a catalogue index that passes the field search.
pub fn field_search_keeps(
    games: &Vec<Game>,
    i: usize,
    mode: SearchMode,
    query_lower: &Vec<char>,
    hardware_hits: Option<&Vec<bool>>,
) -> (r: bool)
    ensures
        r == (i < games.len() && field_search_match(games@, i as int, mode, query_lower@, opt_hits(hardware_hits))),
{
    i < games.len() && field_search_hit(games, i, mode, query_lower, hardware_hits)
}

/// Keeps the candidates that pass the field search, in order.
pub fn field_search_sequential(
    games: &Vec<Game>,
    candidates: &Vec<usize>,
    mode: SearchMode,
    query_lower: &Vec<char>,
    hardware_hits: Option<&Vec<bool>>,
) -> (r: Vec<usize>)
    ensures
        r@ == field_search_spec(
            games@,
            candidates@,
            mode,
            query_lower@,
            opt_hits(hardware_hits),
        ),
{
    let mut r: Vec<usize> = Vec::new();
    let mut k: usize = 0;
    while k < candidates.len()
        invariant
            k <= candidates.len(),
            r@ == field_search_spec(
                games@,
                candidates@.take(k as int),
                mode,
                query_lower@,
                opt_hits(hardware_hits),
            ),
        decreases candidates.len() - k,
    {
        proof {
            assert(candidates@.take(k + 1).drop_last() =~= candidates@.take(k as int));
        }
        let i = candidates[k];
        if i < games.len() && field_search_hit(games, i, mode, query_lower, hardware_hits) {
            r.push(i);
        }
        k = k + 1;
    }
    assert(candidates@.take(k as int) =~= candidates@);
    r
}

/// Field search over the candidates on rayon's thread pool.
///
/// `par_iter().filter(..).copied().collect()` of rayon: each candidate is kept
/// exactly when the verified predicate `field_search_keeps` holds, and rayon's
/// `Vec` collection appends the results of its splits left to right, so the
/// kept candidates stay in their input order. That is all this states.
#[verifier::external_body]
fn par_field_search(
    games: &Vec<Game>,
    candidates: &Vec<usize>,
    mode: SearchMode,
    query_lower: &Vec<char>,
    hardware_hits: Option<&Vec<bool>>,
) -> (r: Vec<usize>)
    ensures
        r@ == field_search_spec(
            games@,
            candidates@,
            mode,
            query_lower@,
            opt_hits(hardware_hits),
        ),
{
    candidates.par_iter().filter(
        |&&i| field_search_keeps(games, i, mode, query_lower, hardware_hits),
    ).copied().collect()
}

/// Field search over the candidates; large candidate lists are searched in parallel.
pub fn field_search(
    games: &Vec<Game>,
    candidates: &Vec<usize>,
    mode: SearchMode,
    query_lower: &Vec<char>,
    hardware_hits: Option<&Vec<bool>>,
) -> (r: Vec<usize>)
    ensures
        r@ == field_search_spec(
            games@,
            candidates@,
            mode,
            query_lower@,
            opt_hits(hardware_hits),
        ),
{
    if candidates.len() > 1000 {
        par_field_search(games, candidates, mode, query_lower, hardware_hits)
    } else {
        field_search_sequential(games, candidates, mode, query_lower, hardware_hits)
    }
}

/// Whether `v` holds `x`.
pub fn contains_index(v: &Vec<usize>, x: usize) -> (r: bool)
    ensures
        r == v@.contains(x),
{
    let mut i: usize = 0;
    while i < v.len()
        invariant
            i <= v.len(),
            forall|k: int| 0 <= k < i ==> v@[k] != x,
        decreases v.len() - i,
    {
        if v[i] == x {
            return true;
        }
        i = i + 1;
    }
    false
}

/// Keeps the candidates that the enhanced engine returned, in candidate order.
pub fn retain_in(candidates: &Vec<usize>, results: &Vec<usize>) -> (r: Vec<usize>)
    ensures
        r@ == retain_in_spec(candidates@, results@),
{
    let mut r: Vec<usize> = Vec::new();
    let mut k: usize = 0;
    while k < candidates.len()
        invariant
            k <= candidates.len(),
            r@ == retain_in_spec(candidates@.take(k as int), results@),
        decreases candidates.len() - k,
    {
        proof {
            assert(candidates@.take(k + 1).drop_last() =~= candidates@.take(k as int));
        }
        if contains_index(results, candidates[k]) {
            r.push(candidates[k]);
        }
        k = k + 1;
    }
    assert(candidates@.take(k as int) =~= candidates@);
    r
}

/// A filtered sequence is a subsequence of its source: every kept entry is an
/// entry of the source.
pub proof fn lemma_field_search_subset(
    games: Seq<Game>,
    s: Seq<usize>,
    mode: SearchMode,
    query_lower: Seq<char>,
    hardware_hits: Option<Seq<bool>>,
)
    ensures
        forall|k: int|
            0 <= k < field_search_spec(games, s, mode, query_lower, hardware_hits).len() ==> {
                let i = #[trigger] field_search_spec(games, s, mode, query_lower, hardware_hits)[k];
                s.contains(i) && i < games.len() && field_search_match(
                    games,
                    i as int,
                    mode,
                    query_lower,
                    hardware_hits,
                )
            },
    decreases s.len(),
{
    if s.len() > 0 {
        lemma_field_search_subset(games, s.drop_last(), mode, query_lower, hardware_hits);
        let prev = field_search_spec(games, s.drop_last(), mode, query_lower, hardware_hits);
        let cur = field_search_spec(games, s, mode, query_lower, hardware_hits);
        assert forall|k: int| 0 <= k < cur.len() implies {
            let i = #[trigger] cur[k];
            s.contains(i) && i < games.len() && field_search_match(
                games,
                i as int,
                mode,
                query_lower,
                hardware_hits,
            )
        } by {
            if k < prev.len() {
                assert(cur[k] == prev[k]);
                let i = prev[k];
                let j = choose|j: int| 0 <= j < s.drop_last().len() && s.drop_last()[j] == i;
                assert(s[j] == i);
            } else {
                assert(s[s.len() - 1] == s.last());
            }
        }
    }
}

/// Every index of the facet result is a valid catalogue index that passes all
/// facets, and the result is strictly increasing.
pub proof fn lemma_categorized_sound(
    fs: FilterSettings,
    games: Seq<Game>,
    favorites: Seq<Seq<char>>,
    hardware: Option<Seq<bool>>,
    n: int,
)
    requires
        0 <= n <= games.len(),
        n <= usize::MAX,
    ensures
        forall|k: int|
            0 <= k < categorized_spec(fs, games, favorites, hardware, n).len() ==> {
                let i = #[trigger] categorized_spec(fs, games, favorites, hardware, n)[k];
                i < n && categorized_match(fs, games, favorites, hardware, i as int)
            },
        forall|a: int, b: int|
            0 <= a < b < categorized_spec(fs, games, favorites, hardware, n).len() ==> #[trigger] categorized_spec(
                fs,
                games,
                favorites,
                hardware,
                n,
            )[a] < #[trigger] categorized_spec(fs, games, favorites, hardware, n)[b],
    decreases n,
{
    if n > 0 {
        lemma_categorized_sound(fs, games, favorites, hardware, n - 1);
        let prev = categorized_spec(fs, games, favorites, hardware, n - 1);
        let cur = categorized_spec(fs, games, favorites, hardware, n);
        assert forall|k: int| 0 <= k < cur.len() implies {
            let i = #[trigger] cur[k];
            i < n && categorized_match(fs, games, favorites, hardware, i as int)
        } by {
            if k < prev.len() {
                assert(cur[k] == prev[k]);
            }
        }
        assert forall|a: int, b: int| 0 <= a < b < cur.len() implies #[trigger] cur[a]
            < #[trigger] cur[b] by {
            assert(cur[a] == prev[a]);
            if b < prev.len() {
                assert(cur[b] == prev[b]);
            }
        }
    }
}

/// With the ROM-requirement exclusion on, no ROM-less machine survives the
/// facets, whatever the other facets (favorites, parents) select.
pub proof fn lemma_romless_never_restored(
    fs: FilterSettings,
    games: Seq<Game>,
    favorites: Seq<Seq<char>>,
    hardware: Option<Seq<bool>>,
)
    requires
        fs.hide_romless_systems,
        games.len() <= usize::MAX,
    ensures
        forall|k: int|
            0 <= k < categorized_spec(fs, games, favorites, hardware, games.len() as int).len()
                ==> games[#[trigger] categorized_spec(
                fs,
                games,
                favorites,
                hardware,
                games.len() as int,
            )[k] as int].requires_roms,
{
    lemma_categorized_sound(fs, games, favorites, hardware, games.len() as int);
}

/// Facets are combined with AND: a game in the result passes the manufacturer
/// facet and the year facet.
pub proof fn lemma_manufacturer_and_year_anded(
    fs: FilterSettings,
    games: Seq<Game>,
    favorites: Seq<Seq<char>>,
    hardware: Option<Seq<bool>>,
    k: int,
)
    requires
        games.len() <= usize::MAX,
        0 <= k < categorized_spec(fs, games, favorites, hardware, games.len() as int).len(),
    ensures
        ({
            let g = games[categorized_spec(fs, games, favorites, hardware, games.len() as int)[k] as int];
            manufacturer_spec(fs, g.manufacturer@) && year_spec(fs.year_from@, fs.year_to@, g.year@)
        }),
{
    lemma_categorized_sound(fs, games, favorites, hardware, games.len() as int);
}


/// Field search looks in the field its mode names: the title, the
/// manufacturer, the ROM name, the year text or the ROM status text, each in
/// lowercase; the hardware modes take the supplied hardware hits.
pub proof fn lemma_field_search_reads_the_chosen_field(
    games: Seq<Game>,
    i: int,
    mode: SearchMode,
    query_lower: Seq<char>,
    hardware_hits: Option<Seq<bool>>,
)
    ensures
        mode == SearchMode::GameTitle ==> field_search_match(games, i, mode, query_lower, hardware_hits)
            == seq_contains(lowercase(games[i].description@), query_lower),
        mode == SearchMode::Manufacturer ==> field_search_match(games, i, mode, query_lower, hardware_hits)
            == seq_contains(lowercase(games[i].manufacturer@), query_lower),
        mode == SearchMode::RomFileName ==> field_search_match(games, i, mode, query_lower, hardware_hits)
            == seq_contains(lowercase(games[i].name@), query_lower),
        mode == SearchMode::Year ==> field_search_match(games, i, mode, query_lower, hardware_hits)
            == seq_contains(lowercase(games[i].year@), query_lower),
        mode == SearchMode::Status ==> field_search_match(games, i, mode, query_lower, hardware_hits)
            == seq_contains(lowercase(status_description_spec(games[i].status)), query_lower),
        mode == SearchMode::Cpu || mode == SearchMode::Device || mode == SearchMode::Sound
            ==> field_search_match(games, i, mode, query_lower, hardware_hits) == (
        hardware_hits matches Some(h) && 0 <= i < h.len() && h[i]),
{
}

/// The working-state facet: a driver whose status is `good` or `imperfect`
/// counts as working. With only "working" selected exactly those games pass,
/// with only "not working" selected exactly the others, and with both or
/// neither selected every game passes.
pub proof fn lemma_working_facet(fs: FilterSettings, g: Game)
    ensures
        fs.status_filters.show_working && !fs.status_filters.show_not_working ==> (status_match(fs, g)
            <==> (g.driver_status@ == "good"@ || g.driver_status@ == "imperfect"@)),
        !fs.status_filters.show_working && fs.status_filters.show_not_working ==> (status_match(fs, g)
            <==> !(g.driver_status@ == "good"@ || g.driver_status@ == "imperfect"@)),
        fs.status_filters.show_working == fs.status_filters.show_not_working ==> status_match(fs, g),
{
}


/// Each single facet option selects games by the field it names: "available"
/// the games whose ROMs are available, "unavailable" the others; "favorites"
/// the favorite games, "parents" the games that are no clone, "CHD" the games
/// that need CHD media; a selected manufacturer the games of that maker; the
/// ROM-requirement exclusion drops exactly the games that need no ROMs.
pub proof fn lemma_facets_read_the_game(
    fs: FilterSettings,
    games: Seq<Game>,
    favorites: Seq<Seq<char>>,
    hardware: Option<Seq<bool>>,
    i: int,
)
    ensures
        ({
            let g = games[i];
            let a = fs.availability_filters;
            let o = fs.other_filters;
            &&& categorized_match(fs, games, favorites, hardware, i) ==> (fs.hide_romless_systems
                ==> g.requires_roms)
            &&& a.show_available && !a.show_unavailable ==> (availability_match(fs, g) <==> g.status
                == RomStatus::Available)
            &&& !a.show_available && a.show_unavailable ==> (availability_match(fs, g) <==> g.status
                != RomStatus::Available)
            &&& o.show_favorites && !o.show_parents_only && !o.show_chd_games ==> (others_match(
                fs,
                g,
                favorites,
            ) <==> favorites.contains(g.name@))
            &&& !o.show_favorites && o.show_parents_only && !o.show_chd_games ==> (others_match(
                fs,
                g,
                favorites,
            ) <==> !g.is_clone)
            &&& !o.show_favorites && !o.show_parents_only && o.show_chd_games ==> (others_match(
                fs,
                g,
                favorites,
            ) <==> g.requires_chd)
            &&& categorized_match(fs, games, favorites, hardware, i) && fs.selected_manufacturers@.len()
                != 0 ==> names(fs.selected_manufacturers@).contains(g.manufacturer@)
        }),
{
}

} // verus!
