use mameuix::models::{FilterCategory, FilterSettings, Game, RomStatus};
use mameuix::panels::game_index_manager::{GameIndex, GameIndexManager};
use mameuix::redesign::detail::game_artwork_candidates;
use mameuix::redesign::library_table::{
    build_table_rows, header_text, table_artwork_candidates, TableColumn, TableMode,
};
use mameuix::redesign::state::{RedesignCollection, TableRow};

fn hierarchy_game(name: &str, manufacturer: &str, year: &str, parent: Option<&str>) -> Game {
    Game {
        name: name.to_string(),
        description: name.to_string(),
        manufacturer: manufacturer.to_string(),
        year: year.to_string(),
        driver: "test".to_string(),
        driver_status: "good".to_string(),
        status: RomStatus::Available,
        parent: parent.map(str::to_string),
        category: String::new(),
        play_count: 0,
        is_clone: parent.is_some(),
        is_device: false,
        is_bios: false,
        controls: String::new(),
        requires_roms: true,
        requires_chd: false,
        chd_name: None,
        verification_status: None,
    }
}

#[test]
fn matching_parent_keeps_all_clones_and_clone_match_is_not_promoted() {
    let games = vec![
        hierarchy_game("parent", "Capcom", "1989", None),
        hierarchy_game("clone", "Bootleg", "1991", Some("parent")),
    ];
    let expanded = vec!["parent".to_string()];

    assert_eq!(
        build_table_rows(&games, &vec![0], &expanded, RedesignCollection::AllGames),
        vec![
            TableRow::Parent { index: 0, clone_count: 1 },
            TableRow::Clone { index: 1 },
        ]
    );
    assert!(build_table_rows(&games, &vec![1], &expanded, RedesignCollection::AllGames).is_empty());
}

#[test]
fn manufacturer_and_year_filter_parent_families_end_to_end() {
    let games = vec![
        hierarchy_game("capcom_parent", "Capcom", "1989", None),
        hierarchy_game("bootleg_clone", "Bootleg", "1991", Some("capcom_parent")),
        hierarchy_game("sega_parent", "Sega", "1991", None),
        hierarchy_game("capcom_clone", "Capcom", "1989", Some("sega_parent")),
    ];
    let mut manager = GameIndexManager::new();
    manager.has_enhanced_engine = false;
    manager.game_index = Some(GameIndex::build(&games, &Vec::new()));

    let mut filters = FilterSettings {
        year_from: "1980".to_string(),
        year_to: "1989".to_string(),
        ..FilterSettings::default()
    };
    filters.select_manufacturer("Capcom");
    manager.update_filtered_games_cache(&games, FilterCategory::All, &filters, &Vec::new(), None, None, 0);

    // The core predicate also matches capcom_clone, but a clone-only match
    // must not promote its non-matching Sega parent into the table.
    assert_eq!(manager.get_filtered_games(), &vec![0, 3]);
    let expanded = vec!["capcom_parent".to_string()];
    assert_eq!(
        build_table_rows(&games, manager.get_filtered_games(), &expanded, RedesignCollection::AllGames),
        vec![
            TableRow::Parent { index: 0, clone_count: 1 },
            TableRow::Clone { index: 1 },
        ]
    );
}

#[test]
fn missing_and_issue_rows_follow_the_sidebar_status_predicates() {
    let mut games = vec![
        hierarchy_game("missing", "Test", "1980", None),
        hierarchy_game("chd_missing", "Test", "1981", None),
        hierarchy_game("chd_required", "Test", "1982", None),
        hierarchy_game("available", "Test", "1983", None),
    ];
    games[0].status = RomStatus::Missing;
    games[1].status = RomStatus::ChdMissing;
    games[2].status = RomStatus::ChdRequired;
    let filtered = vec![0, 1, 2, 3];

    assert_eq!(
        build_table_rows(&games, &filtered, &Vec::new(), RedesignCollection::Missing),
        vec![TableRow::Parent { index: 0, clone_count: 0 }]
    );
    assert_eq!(
        build_table_rows(&games, &filtered, &Vec::new(), RedesignCollection::Issues),
        vec![
            TableRow::Parent { index: 1, clone_count: 0 },
            TableRow::Parent { index: 2, clone_count: 0 },
        ]
    );
}

#[test]
fn collapsed_parent_counts_its_clones_without_listing_them() {
    let games = vec![
        hierarchy_game("parent", "Capcom", "1989", None),
        hierarchy_game("clone_a", "Capcom", "1989", Some("parent")),
        hierarchy_game("clone_b", "Capcom", "1990", Some("parent")),
    ];
    assert_eq!(
        build_table_rows(&games, &vec![0, 1, 2], &Vec::new(), RedesignCollection::AllGames),
        vec![TableRow::Parent { index: 0, clone_count: 2 }]
    );
}

#[test]
fn every_table_mode_keeps_title_and_status_last() {
    for mode in [TableMode::Full, TableMode::Compact, TableMode::NarrowWithIcon, TableMode::Narrow] {
        let columns = mode.columns();
        assert!(columns.contains(&TableColumn::Title));
        assert_eq!(columns.last(), Some(&TableColumn::Status));
    }
    assert_eq!(TableMode::Narrow.columns().len(), 4);
    assert_eq!(TableMode::Full.columns().len(), 8);
    assert_eq!(header_text(TableColumn::RomSet), "SET");
}

#[test]
fn artwork_candidates_name_the_game_then_its_parent() {
    let clone = hierarchy_game("sf2ce", "Capcom", "1992", Some("sf2"));
    assert_eq!(table_artwork_candidates(&clone), vec!["sf2ce", "sf2"]);
    assert_eq!(game_artwork_candidates(&clone), vec!["sf2ce", "sf2"]);
    let parent = hierarchy_game("sf2", "Capcom", "1991", None);
    assert_eq!(game_artwork_candidates(&parent), vec!["sf2"]);
}
