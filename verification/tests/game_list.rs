use mameuix::models::{FilterCategory, FilterSettings, Game, RomSetType, RomStatus, SearchMode};
use mameuix::panels::game_index_manager::GameIndex;
use mameuix::panels::game_list::{GameList, RowData, SortColumn};
use mameuix::panels::game_list_view::GameListView;

fn list_game(name: &str, title: &str) -> Game {
    Game {
        name: name.into(),
        description: title.into(),
        manufacturer: "Audit".into(),
        year: "1990".into(),
        driver: "fixture.cpp".into(),
        driver_status: "good".into(),
        status: RomStatus::Available,
        parent: None,
        category: String::new(),
        play_count: 0,
        is_clone: false,
        is_device: false,
        is_bios: false,
        controls: String::new(),
        requires_roms: true,
        requires_chd: false,
        chd_name: None,
        verification_status: None,
    }
}

/// Titles shown by the table: one per row.
fn table_titles(table: &GameList, games: &[Game]) -> Vec<String> {
    table
        .expanded_rows_cache
        .iter()
        .map(|row| games[row.game_idx].description.clone())
        .collect()
}

/// Titles shown by the card list: each card, then the visible clones of an
/// expanded parent (clones are listed only with a game index).
fn list_titles(
    list: &GameListView,
    games: &Vec<Game>,
    filters: &FilterSettings,
    expanded: &[String],
    index: Option<&GameIndex>,
) -> Vec<String> {
    let mut titles = Vec::new();
    for &idx in &list.filtered_indices_cache {
        let game = &games[idx];
        titles.push(game.description.clone());
        let open = expanded.contains(&game.name) || filters.auto_expand_clones;
        if open && !game.is_clone {
            if let Some(index) = index {
                for clone in GameListView::visible_clone_indices(games, index, &game.name, filters) {
                    titles.push(games[clone].description.clone());
                }
            }
        }
    }
    titles
}

fn romless_rows_stay_hidden_after_cache_and_clone_expansion(use_list: bool, source: &str) {
    let mut games = vec![
        list_game("parent", "Audit ROM Parent"),
        list_game("romless", "Audit ROM-less System"),
        list_game("emptyclone", "Audit ROM-less Clone"),
        list_game("romclone", "Audit ROM Clone"),
        list_game("emptyparent", "Audit ROM-less Parent"),
        list_game("requiredchild", "Audit ROM Child of Empty Parent"),
    ];
    games[1].requires_roms = false;
    games[2].requires_roms = false;
    for game in &mut games[2..4] {
        game.is_clone = true;
        game.parent = Some("parent".into());
    }
    games[4].requires_roms = false;
    games[5].is_clone = true;
    games[5].parent = Some("emptyparent".into());
    let mut index = GameIndex::build(&games, &Vec::new());
    // A text cache may contain every matching row, including hidden systems.
    index.cache_text_search("Audit".into(), vec![0, 1, 2, 3, 4, 5]);
    let mut filters = FilterSettings::default();
    filters.search_text = "Audit".into();
    filters.rom_set_type = if source == "manual" { RomSetType::NonMerged } else { RomSetType::Merged };
    filters.show_clones_in_split = true;
    let mut table = GameList::new();
    let mut list = GameListView::new();
    let expanded = vec!["parent".to_string()];
    let all: Vec<usize> = vec![0, 1, 2, 3, 4, 5];
    for hide in [true, false, true, false] {
        filters.hide_romless_systems = hide;
        let game_index = if source != "manual" { Some(&index) } else { None };
        let prefiltered = if source == "prefiltered" { Some(&all) } else { None };
        let titles = if use_list {
            list.update_cache(&games, &filters, &Vec::new(), game_index, FilterCategory::All, prefiltered);
            list_titles(&list, &games, &filters, &expanded, game_index)
        } else {
            table.update_cache(
                &games,
                &filters,
                &Vec::new(),
                &expanded,
                game_index,
                FilterCategory::All,
                None,
                prefiltered,
            );
            table_titles(&table, &games)
        };
        let rendered = |title: &str| titles.iter().any(|text| text == title);
        assert!(rendered("Audit ROM Parent"), "{source} list={use_list}");
        assert!(rendered("Audit ROM Clone"), "{source} list={use_list}");
        assert_eq!(rendered("Audit ROM-less System"), !hide, "{source} list={use_list}");
        assert_eq!(rendered("Audit ROM-less Clone"), !hide, "{source} list={use_list}");
        assert_eq!(rendered("Audit ROM-less Parent"), !hide, "{source} list={use_list}");
        let child_visible = hide || source == "manual";
        assert_eq!(
            rendered("Audit ROM Child of Empty Parent"),
            child_visible,
            "{source} list={use_list}"
        );
        // A visible child has its own selectable/actionable row index.
        let child_row = if use_list { list.row_for_game_idx(5) } else { table.row_for_game_idx(5) };
        assert_eq!(child_row.is_some(), child_visible, "{source} list={use_list}");
    }
}

#[test]
fn required_child_of_romless_parent_keeps_its_own_filter_contract() {
    let mut games = vec![list_game("emptyparent", "Empty Parent"), list_game("child", "Required Child")];
    games[0].requires_roms = false;
    games[0].manufacturer = "Parent Maker".into();
    games[1].manufacturer = "Child Maker".into();
    games[1].is_clone = true;
    games[1].parent = Some("emptyparent".into());
    let index = GameIndex::build(&games, &Vec::new());
    let table = GameList::new();
    let mut filters = FilterSettings { rom_set_type: RomSetType::Merged, ..FilterSettings::default() };
    for auto_expand in [false, true] {
        filters.auto_expand_clones = auto_expand;
        filters.search_text = "Child".into();
        filters.selected_manufacturers = vec!["Child Maker".into()];
        let candidates = table.filter_manual(&games, &filters, &Vec::new(), FilterCategory::All, None);
        assert_eq!(table.apply_rom_set_filtering(&games, candidates, &filters, Some(&index)), vec![1]);

        filters.selected_manufacturers = vec!["Parent Maker".into()];
        let candidates = table.filter_manual(&games, &filters, &Vec::new(), FilterCategory::All, None);
        assert!(table.apply_rom_set_filtering(&games, candidates, &filters, Some(&index)).is_empty());

        filters.selected_manufacturers.clear();
        filters.search_text = "Parent".into();
        let candidates = table.filter_manual(&games, &filters, &Vec::new(), FilterCategory::All, None);
        assert!(table.apply_rom_set_filtering(&games, candidates, &filters, Some(&index)).is_empty());
    }
}

#[test]
fn romless_exclusion_survives_legacy_cache_and_clone_expansion_in_both_widgets() {
    for use_list in [false, true] {
        for source in ["cached", "prefiltered", "manual"] {
            romless_rows_stay_hidden_after_cache_and_clone_expansion(use_list, source);
        }
    }
}

#[test]
fn index_filter_without_cache_matches_the_manual_filter() {
    let mut games = vec![
        list_game("pacman", "Pac-Man"),
        list_game("mspacman", "Ms. Pac-Man"),
        list_game("galaga", "Galaga"),
        list_game("pacland", "Pac-Land"),
    ];
    games[1].is_clone = true;
    games[1].parent = Some("pacman".into());
    games[2].status = RomStatus::Missing;
    games[3].requires_roms = false;
    let index = GameIndex::build(&games, &Vec::new());
    let table = GameList::new();
    for (text, mode) in [
        ("", SearchMode::GameTitle),
        ("PAC", SearchMode::GameTitle),
        ("pac", SearchMode::RomFileName),
        ("audit", SearchMode::Manufacturer),
    ] {
        let filters = FilterSettings { search_text: text.into(), search_mode: mode, ..FilterSettings::default() };
        assert_eq!(
            table.filter_with_index(&games, &filters, &Vec::new(), &index, FilterCategory::All, None),
            table.filter_manual(&games, &filters, &Vec::new(), FilterCategory::All, None),
            "{text:?} {mode:?}"
        );
    }
    let filters = FilterSettings { search_text: "PAC".into(), ..FilterSettings::default() };
    assert_eq!(table.filter_manual(&games, &filters, &Vec::new(), FilterCategory::All, None), vec![0, 1]);
}

#[test]
fn parallel_field_search_keeps_catalogue_order() {
    let games: Vec<Game> = (0..1500)
        .map(|i| list_game(&format!("g{i}"), if i % 3 == 0 { "Street Racer" } else { "Puzzle" }))
        .collect();
    let index = GameIndex::build(&games, &Vec::new());
    let table = GameList::new();
    let filters = FilterSettings { search_text: "street".into(), ..FilterSettings::default() };
    let found = table.filter_with_index(&games, &filters, &Vec::new(), &index, FilterCategory::All, None);
    let expected: Vec<usize> = (0..1500).filter(|i| i % 3 == 0).collect();
    assert_eq!(found, expected);
}

#[test]
fn unknown_rom_set_hides_clones_above_thirty_percent() {
    let mut games = vec![
        list_game("p1", "P1"),
        list_game("p2", "P2"),
        list_game("c1", "C1"),
        list_game("p3", "P3"),
    ];
    games[2].is_clone = true;
    games[2].parent = Some("p1".into());
    let table = GameList::new();
    let filters = FilterSettings::default();
    // One clone in four entries (25%) stays.
    assert_eq!(table.apply_rom_set_filtering(&games, vec![0, 1, 2, 3], &filters, None), vec![0, 1, 2, 3]);
    // One clone in three entries (33%) is hidden.
    assert_eq!(table.apply_rom_set_filtering(&games, vec![0, 1, 2], &filters, None), vec![0, 1]);
    // Repeated names and invalid indices are dropped.
    assert_eq!(table.apply_rom_set_filtering(&games, vec![3, 3, 9, 0], &filters, None), vec![3, 0]);
}

#[test]
fn table_sorts_stably_and_expands_clones_under_their_parent() {
    let mut games = vec![
        list_game("b", "Bravo"),
        list_game("a", "Alpha"),
        list_game("a2", "Alpha Turbo"),
        list_game("c", "alpha"),
    ];
    games[2].is_clone = true;
    games[2].parent = Some("a".into());
    let index = GameIndex::build(&games, &Vec::new());
    let mut table = GameList::new();
    let mut filters = FilterSettings::default();
    filters.rom_set_type = RomSetType::Merged;
    table.update_cache(
        &games,
        &filters,
        &Vec::new(),
        &vec!["a".to_string()],
        Some(&index),
        FilterCategory::All,
        None,
        None,
    );
    // Byte order: "Alpha" < "Bravo" < "alpha"; the clone follows its parent.
    assert_eq!(table.filtered_indices_cache, vec![1, 0, 3]);
    assert_eq!(
        table.expanded_rows_cache,
        vec![
            RowData { game_idx: 1, is_clone: false, indent_level: 0, parent_idx: None },
            RowData { game_idx: 2, is_clone: true, indent_level: 1, parent_idx: Some(1) },
            RowData { game_idx: 0, is_clone: false, indent_level: 0, parent_idx: None },
            RowData { game_idx: 3, is_clone: false, indent_level: 0, parent_idx: None },
        ]
    );
    assert_eq!(table.row_count(), 4);
    assert_eq!(table.game_idx_at_row(1), Some(2));
    assert_eq!(table.game_idx_at_row(4), None);
    assert_eq!(table.row_for_game_idx(0), Some(2));

    table.sort_column = SortColumn::Name;
    table.sort_ascending = false;
    table.update_cache(&games, &filters, &Vec::new(), &Vec::new(), Some(&index), FilterCategory::All, None, None);
    assert_eq!(table.filtered_indices_cache, vec![3, 0, 1]);
    assert_eq!(table.row_count(), 3);
}

#[test]
fn note_filter_state_invalidates_only_on_change() {
    let mut table = GameList::new();
    table.cache_valid = true;
    table.note_filter_state(0, "");
    assert!(table.cache_valid);
    table.note_filter_state(7, "");
    assert!(!table.cache_valid);
    table.cache_valid = true;
    table.note_filter_state(7, "pac");
    assert!(!table.cache_valid);
    assert_eq!(table.last_search_text, "pac");
}
