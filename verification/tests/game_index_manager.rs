use mameuix::models::{FilterCategory, FilterSettings, Game, RomStatus, SearchMode};
use mameuix::panels::game_index_manager::{GameIndex, GameIndexManager, HardwareMatches};
use mameuix::panels::game_list::RowData;

fn manager_game(name: &str, title: &str, manufacturer: &str, year: &str) -> Game {
    Game {
        name: name.to_string(),
        description: title.to_string(),
        manufacturer: manufacturer.to_string(),
        year: year.to_string(),
        driver: "test".to_string(),
        driver_status: "good".to_string(),
        status: RomStatus::Available,
        parent: None,
        category: "Test".to_string(),
        play_count: 0,
        is_clone: false,
        is_device: false,
        is_bios: false,
        controls: String::new(),
        requires_roms: true,
        requires_chd: false,
        chd_name: None,
        verification_status: None,
    }
}

fn manager_with_index(games: &Vec<Game>) -> GameIndexManager {
    let mut manager = GameIndexManager::new();
    manager.has_enhanced_engine = false;
    manager.game_index = Some(GameIndex::build(games, &Vec::new()));
    manager
}

fn update(manager: &mut GameIndexManager, games: &Vec<Game>, filters: &FilterSettings) {
    manager.update_filtered_games_cache(games, FilterCategory::All, filters, &Vec::new(), None, None, 0);
}

#[test]
fn romless_toggle_invalidates_same_query_results_in_both_directions() {
    let mut games = vec![
        manager_game("arcade", "ROM Arcade", "Maker", "1980"),
        manager_game("system", "ROM-less System", "Maker", "1980"),
        manager_game("bios", "ROM BIOS", "Maker", "1980"),
    ];
    games[1].requires_roms = false;
    games[2].is_bios = true;
    games[2].is_device = true;
    let mut manager = manager_with_index(&games);
    let mut filters = FilterSettings { search_text: "ROM".into(), ..FilterSettings::default() };
    for (hide, expected) in [(true, vec![0, 2]), (false, vec![0, 1, 2]), (true, vec![0, 2])] {
        filters.hide_romless_systems = hide;
        // Do not manually invalidate: the exclusion itself is part of cache state.
        update(&mut manager, &games, &filters);
        assert_eq!(manager.get_filtered_games(), &expected, "hide={hide}");
    }
}

#[test]
fn favorites_and_parent_filter_cannot_restore_romless_systems() {
    let mut games = vec![
        manager_game("arcade", "Arcade", "Maker", "1980"),
        manager_game("system", "System", "Maker", "1980"),
    ];
    games[1].requires_roms = false;
    let mut manager = manager_with_index(&games);
    manager.game_index.as_mut().unwrap().favorites.push("system".into());
    let mut filters = FilterSettings::default();
    filters.other_filters.show_favorites = true;
    filters.other_filters.show_parents_only = true;
    update(&mut manager, &games, &filters);
    assert_eq!(manager.get_filtered_games(), &vec![0]);
    filters.hide_romless_systems = false;
    update(&mut manager, &games, &filters);
    assert_eq!(manager.get_filtered_games(), &vec![0, 1]);
}

#[test]
fn manufacturer_and_year_filters_are_anded() {
    let games = vec![
        manager_game("capcom89", "Capcom 1989", "Capcom", "1989"),
        manager_game("capcom91", "Capcom 1991", "Capcom", "1991"),
        manager_game("sega89", "Sega 1989", "Sega", "1989"),
        manager_game("unknown", "Unknown year", "Capcom", "????"),
    ];
    let mut manager = manager_with_index(&games);
    let mut filters = FilterSettings {
        year_from: "1980".to_string(),
        year_to: "1989".to_string(),
        ..FilterSettings::default()
    };
    filters.select_manufacturer("Capcom");

    update(&mut manager, &games, &filters);

    assert_eq!(manager.get_filtered_games(), &vec![0]);
}

#[test]
fn cached_search_is_scoped_to_manufacturer_and_year_filters() {
    let games = vec![
        manager_game("sf", "Street Fighter", "Capcom", "1987"),
        manager_game("streetsm", "Street Smart", "SNK", "1989"),
        manager_game("sf2", "Street Fighter II", "Capcom", "1991"),
    ];
    let mut manager = manager_with_index(&games);
    let mut filters = FilterSettings { search_text: "Street".to_string(), ..FilterSettings::default() };

    update(&mut manager, &games, &filters);
    assert_eq!(manager.get_filtered_games(), &vec![0, 1, 2]);

    filters.select_manufacturer("Capcom");
    filters.year_from = "1980".to_string();
    filters.year_to = "1989".to_string();
    manager.mark_cache_dirty();
    update(&mut manager, &games, &filters);
    assert_eq!(manager.get_filtered_games(), &vec![0]);

    filters.year_from = "1990".to_string();
    filters.year_to = "1999".to_string();
    manager.mark_cache_dirty();
    update(&mut manager, &games, &filters);
    assert_eq!(manager.get_filtered_games(), &vec![2]);

    // Same manufacturer and query, earlier decade: this must hit the
    // decade-specific entry rather than reuse the 1990s result.
    filters.year_from = "1980".to_string();
    filters.year_to = "1989".to_string();
    manager.mark_cache_dirty();
    update(&mut manager, &games, &filters);
    assert_eq!(manager.get_filtered_games(), &vec![0]);

    filters.selected_manufacturers.clear();
    filters.select_manufacturer("SNK");
    manager.mark_cache_dirty();
    update(&mut manager, &games, &filters);
    assert_eq!(manager.get_filtered_games(), &vec![1]);

    // Return to an earlier combination to exercise a cache hit.
    filters.selected_manufacturers.clear();
    filters.select_manufacturer("Capcom");
    manager.mark_cache_dirty();
    update(&mut manager, &games, &filters);
    assert_eq!(manager.get_filtered_games(), &vec![0]);
}

#[test]
fn invalid_enhanced_patterns_do_not_fall_back_to_literal_titles() {
    let games = vec![manager_game("bracket", "A title with [ bracket", "Maker", "1990")];
    let mut manager = GameIndexManager::new();
    manager.build_game_index(&games, &Vec::new());
    for mode in [SearchMode::Regex, SearchMode::FullText] {
        // The engine rejects the unbalanced pattern.
        manager.mark_cache_dirty();
        let filters = FilterSettings {
            search_text: "[".to_string(),
            search_mode: mode,
            ..FilterSettings::default()
        };
        manager.update_filtered_games_cache(
            &games,
            FilterCategory::All,
            &filters,
            &Vec::new(),
            None,
            Some(Err("unclosed character class".to_string())),
            0,
        );
        assert!(manager.get_filtered_games().is_empty(), "{mode:?}");
    }
}

#[test]
fn field_search_keeps_its_meaning_with_and_without_facets() {
    let games = vec![
        manager_game("sega", "Capcom 1990", "Sega", "1987"),
        manager_game("capcom", "Fighter", "Capcom", "1990"),
        manager_game("namco", "Pacman", "Namco", "1980"),
    ];
    let mut manager = GameIndexManager::new();
    // Keep the enhanced engine enabled: field-specific search must not depend on it.
    manager.build_game_index(&games, &Vec::new());
    for (mode, query) in [
        (SearchMode::Manufacturer, "Capcom"),
        (SearchMode::Year, "1990"),
        (SearchMode::RomFileName, "capcom"),
    ] {
        let mut filters = FilterSettings {
            search_mode: mode,
            search_text: query.into(),
            ..FilterSettings::default()
        };
        manager.mark_cache_dirty();
        update(&mut manager, &games, &filters);
        assert_eq!(manager.get_filtered_games(), &vec![1], "unrestricted {mode:?}");

        filters.select_manufacturer("Sega");
        manager.mark_cache_dirty();
        update(&mut manager, &games, &filters);
        assert!(manager.get_filtered_games().is_empty(), "Sega facet {mode:?}");

        filters.selected_manufacturers.clear();
        filters.select_manufacturer("Capcom");
        manager.mark_cache_dirty();
        update(&mut manager, &games, &filters);
        assert_eq!(manager.get_filtered_games(), &vec![1], "Capcom facet {mode:?}");
    }
}

#[test]
fn narrowed_manufacturer_search_is_not_lost_to_global_rank_limit() {
    let mut games: Vec<Game> = (0..120)
        .map(|index| manager_game(&format!("other{index}"), "Street", "Other", "1987"))
        .collect();
    let target_index = games.len();
    games.push(manager_game("target", "zzzz Street zzzz", "Capcom", "1987"));

    let mut manager = GameIndexManager::new();
    manager.game_index = Some(GameIndex::build(&games, &Vec::new()));
    let mut filters = FilterSettings { search_text: "Street".to_string(), ..FilterSettings::default() };
    filters.select_manufacturer("Capcom");

    update(&mut manager, &games, &filters);

    assert_eq!(manager.get_filtered_games(), &vec![target_index]);
}

#[test]
fn enhanced_results_are_restricted_to_facet_candidates() {
    let mut games = vec![
        manager_game("sf2", "Street Fighter II", "Capcom", "1991"),
        manager_game("console", "Street Fighter Console", "Capcom", "1991"),
        manager_game("other", "Street Fighter Special", "Other", "1991"),
    ];
    games[1].requires_roms = false;
    let mut manager = manager_with_index(&games);
    manager.has_enhanced_engine = true;
    let filters = FilterSettings {
        search_text: "strt fgtr".to_string(),
        search_mode: SearchMode::FuzzySearch,
        ..FilterSettings::default()
    };
    let candidates = manager.candidates_for(&games, &filters, None);
    assert_eq!(candidates, vec![0, 2]);
    manager.update_filtered_games_cache(
        &games,
        FilterCategory::All,
        &filters,
        &Vec::new(),
        None,
        Some(Ok(vec![2, 1, 0])),
        0,
    );
    assert_eq!(manager.get_filtered_games(), &vec![0, 2]);
}

#[test]
fn hardware_search_uses_the_supplied_mapping_answers() {
    let games = vec![
        manager_game("hardware_game", "Hardware game", "Sega", "1987"),
        manager_game("excluded", "Excluded", "Namco", "1980"),
    ];
    let mut manager = manager_with_index(&games);
    let filters = FilterSettings {
        search_text: "Z80".to_string(),
        search_mode: SearchMode::Cpu,
        ..FilterSettings::default()
    };
    let hardware = HardwareMatches { filter_hits: vec![true, true], search_hits: vec![true, false] };
    manager.update_filtered_games_cache(&games, FilterCategory::All, &filters, &Vec::new(), Some(&hardware), None, 0);
    assert_eq!(manager.get_filtered_games(), &vec![0]);

    // Without a mapping a hardware search matches nothing.
    let mut manager = manager_with_index(&games);
    update(&mut manager, &games, &filters);
    assert!(manager.get_filtered_games().is_empty());
}

#[test]
fn pending_search_is_released_after_the_debounce_delay() {
    let mut manager = GameIndexManager::new();
    manager.handle_search_input("pac".to_string(), 1_000);
    assert!(manager.has_pending_search());
    assert_eq!(manager.process_pending_search(1_100), None);
    assert_eq!(manager.process_pending_search(1_300), Some("pac".to_string()));
    assert!(!manager.has_pending_search());
}

#[test]
fn jump_finds_the_first_row_whose_title_starts_with_the_letter() {
    let games = vec![
        manager_game("alpha", "Alpha", "Maker", "1980"),
        manager_game("bravo", "bravo", "Maker", "1980"),
        manager_game("bonus", "Bonus", "Maker", "1980"),
    ];
    let manager = manager_with_index(&games);
    let rows = vec![
        RowData { game_idx: 0, is_clone: false, indent_level: 0, parent_idx: None },
        RowData { game_idx: 1, is_clone: false, indent_level: 0, parent_idx: None },
        RowData { game_idx: 2, is_clone: false, indent_level: 0, parent_idx: None },
    ];
    assert_eq!(manager.jump_to_game_starting_with(&games, 'B', &rows), Some(1));
    assert_eq!(manager.jump_to_game_starting_with(&games, 'z', &rows), None);
}

/// One filter update with the enhanced engine's answer for the query.
fn update_with_engine(manager: &mut GameIndexManager, games: &Vec<Game>, filters: &FilterSettings, engine: &Vec<usize>) {
    manager.update_filtered_games_cache(
        games,
        FilterCategory::All,
        filters,
        &Vec::new(),
        None,
        Some(Ok(engine.clone())),
        0,
    );
}

#[test]
fn enhanced_modes_keep_their_semantics_with_romless_and_manufacturer_filters() {
    let mut games = vec![
        manager_game("sf2", "Street Fighter II", "Capcom", "1991"),
        manager_game("console", "Street Fighter Console", "Capcom", "1991"),
        manager_game("other", "Street Fighter Special", "Other", "1991"),
        manager_game("pacman", "Pac Man", "Namco", "1980"),
    ];
    games[1].requires_roms = false;
    let mut manager = GameIndexManager::new();
    manager.build_game_index(&games, &Vec::new());
    // The engine's matches for each mode's query over the catalogue.
    for (mode, query, engine, visible, all) in [
        (SearchMode::FullText, "Capcom", vec![0, 1], vec![0], vec![0, 1]),
        (SearchMode::FuzzySearch, "strt fgtr", vec![0, 1, 2], vec![0, 2], vec![0, 1, 2]),
        (SearchMode::Regex, "Street.*Fighter", vec![0, 1, 2], vec![0, 2], vec![0, 1, 2]),
    ] {
        let mut filters = FilterSettings {
            search_mode: mode,
            search_text: query.into(),
            ..FilterSettings::default()
        };
        assert!(filters.hide_romless_systems);
        manager.mark_cache_dirty();
        update_with_engine(&mut manager, &games, &filters, &engine);
        assert_eq!(manager.get_filtered_games(), &visible, "default {mode:?}");

        filters.selected_manufacturers.push("Capcom".into());
        manager.mark_cache_dirty();
        update_with_engine(&mut manager, &games, &filters, &engine);
        assert_eq!(manager.get_filtered_games(), &vec![0], "manufacturer {mode:?}");

        filters.hide_romless_systems = false;
        update_with_engine(&mut manager, &games, &filters, &engine);
        assert_eq!(manager.get_filtered_games(), &vec![0, 1], "include ROM-less {mode:?}");

        filters.selected_manufacturers.clear();
        manager.mark_cache_dirty();
        update_with_engine(&mut manager, &games, &filters, &engine);
        assert_eq!(manager.get_filtered_games(), &all, "unfiltered {mode:?}");

        // Revisit the same query/filter pair to check the cached result too.
        filters.hide_romless_systems = true;
        update_with_engine(&mut manager, &games, &filters, &engine);
        assert_eq!(manager.get_filtered_games(), &visible, "cached {mode:?}");
    }
}

#[test]
fn enhanced_rank_limits_apply_after_manufacturer_and_romless_filters() {
    let mut games: Vec<Game> = (0..120)
        .map(|idx| manager_game(&format!("other{idx}"), "Racing", "Other", "1990"))
        .collect();
    let target = games.len();
    games.push(manager_game(
        "target",
        "A lengthy Racing title with several extra words",
        "Capcom",
        "1990",
    ));
    let mut romless = manager_game("romless", "Racing", "Capcom", "1990");
    romless.requires_roms = false;
    games.push(romless);
    let mut manager = GameIndexManager::new();
    manager.build_game_index(&games, &Vec::new());
    for mode in [SearchMode::FuzzySearch, SearchMode::FullText, SearchMode::Regex] {
        let mut filters = FilterSettings {
            search_mode: mode,
            search_text: "Racing".into(),
            ..FilterSettings::default()
        };
        filters.selected_manufacturers.push("Capcom".into());
        manager.mark_cache_dirty();
        // With a limit of one result, the engine ranks only the filtered
        // candidates, of which the target is the single one.
        update_with_engine(&mut manager, &games, &filters, &vec![target]);
        assert_eq!(manager.get_filtered_games(), &vec![target], "{mode:?}");
    }
}
