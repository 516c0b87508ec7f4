use mameuix::redesign::shell::handle_shortcuts;
use mameuix::redesign::state::{RedesignCollection, RedesignScreen};
use mameuix::models::{FilterSettings, SearchMode, StatusFilter};
use mameuix::panels::game_index_manager::GameIndexManager;
use mameuix::panels::game_list::GameList;
use mameuix::panels::game_list_view::GameListView;
use mameuix::redesign::library::{
    clear_sidebar_filters, has_sidebar_filters, select_collection, toggle_decade, toggle_manufacturer,
    apply_search_debounce, enforce_visible_filter_state, normalize_hidden_redesign_filters,
    schedule_search_debounce, sync_manufacturer_and_year, DebounceStep, LibraryAction,
};
use mameuix::redesign::state::{RedesignState, YearDecade};

#[test]
fn hidden_manufacturer_is_cleared_while_visible_decade_is_synced() {
    let mut filters = FilterSettings::default();
    let eighties = YearDecade::from_year(1985).expect("valid year");
    let mut state = RedesignState::new();
    state.selected_manufacturer = Some("Capcom".to_string());
    state.manufacturer_open = true;

    enforce_visible_filter_state(&mut state);
    sync_manufacturer_and_year(
        &mut filters,
        state.selected_manufacturer.as_deref(),
        Some(eighties),
    );

    assert_eq!(state.selected_manufacturer, None);
    assert!(!state.manufacturer_open);
    assert!(filters.manufacturer.is_empty());
    assert!(filters.selected_manufacturers.is_empty());
    assert_eq!(filters.year_from, "1980");
    assert_eq!(filters.year_to, "1989");

    sync_manufacturer_and_year(&mut filters, None, None);
    assert!(filters.manufacturer.is_empty());
    assert!(filters.selected_manufacturers.is_empty());
    assert!(filters.year_from.is_empty());
    assert!(filters.year_to.is_empty());
}

#[test]
fn legacy_only_filters_are_cleared_before_redesign_filtering() {
    let mut filters = FilterSettings::default();
    filters.search_mode = SearchMode::Cpu;
    filters.catver_category = Some("Fighter".to_string());
    filters.cpu_filter = "Z80".to_string();
    filters.device_filter = "screen".to_string();
    filters.sound_filter = "YM2151".to_string();
    filters.show_favorites_only = true;
    filters.status_filter = StatusFilter::NotWorkingOnly;
    filters.status_filters.show_working = false;
    filters.other_filters.show_parents_only = true;

    assert!(normalize_hidden_redesign_filters(&mut filters));
    assert_eq!(filters.search_mode, SearchMode::GameTitle);
    assert!(filters.catver_category.is_none());
    assert!(filters.cpu_filter.is_empty());
    assert!(filters.device_filter.is_empty());
    assert!(filters.sound_filter.is_empty());
    assert!(!filters.show_favorites_only);
    assert_eq!(filters.status_filter, StatusFilter::All);
    assert!(filters.status_filters.show_working);
    assert!(filters.status_filters.show_not_working);
    assert!(!filters.other_filters.show_parents_only);
}

#[test]
fn default_filters_need_no_hidden_redesign_normalization() {
    let mut filters = FilterSettings::default();
    assert!(!normalize_hidden_redesign_filters(&mut filters));
}

#[test]
fn normalizing_twice_changes_nothing_the_second_time() {
    let mut filters = FilterSettings::default();
    filters.search_mode = SearchMode::Sound;
    filters.cpu_filter = "Z80".to_string();
    assert!(normalize_hidden_redesign_filters(&mut filters));
    assert!(!normalize_hidden_redesign_filters(&mut filters));
}

#[test]
fn search_debounce_waits_then_commits_once() {
    let mut state = RedesignState::new();
    let mut filters = FilterSettings::default();
    let mut manager = GameIndexManager::new();
    let mut list = GameList::new();
    let mut view = GameListView::new();
    let mut action = LibraryAction { open_detail: None, toggle_favorite: None, filters_changed: false };
    list.cache_valid = true;
    view.cache_valid = true;
    manager.filter_cache_dirty = false;

    assert_eq!(
        apply_search_debounce(&mut state, &mut filters, &mut manager, &mut list, &mut view, &mut action, 0),
        DebounceStep::Idle
    );

    state.search_text_buf = "pac".to_string();
    schedule_search_debounce(&mut state, 1_000);
    assert_eq!(state.search_debounce_deadline_ms, Some(1_250));
    assert_eq!(
        apply_search_debounce(&mut state, &mut filters, &mut manager, &mut list, &mut view, &mut action, 1_249),
        DebounceStep::Waiting
    );
    assert!(filters.search_text.is_empty());
    assert_eq!(
        apply_search_debounce(&mut state, &mut filters, &mut manager, &mut list, &mut view, &mut action, 1_250),
        DebounceStep::Committed
    );
    assert_eq!(filters.search_text, "pac");
    assert!(manager.filter_cache_dirty);
    assert!(!list.cache_valid);
    assert!(!view.cache_valid);
    assert!(state.table_rows_dirty);
    assert!(action.filters_changed);
    assert_eq!(state.search_debounce_deadline_ms, None);

    schedule_search_debounce(&mut state, 2_000);
    assert_eq!(
        apply_search_debounce(&mut state, &mut filters, &mut manager, &mut list, &mut view, &mut action, 3_000),
        DebounceStep::Unchanged
    );
}

#[test]
fn escape_clears_the_search_and_ctrl_f_focuses_it() {
    let mut state = RedesignState::new();
    let mut filters = FilterSettings::default();
    let mut manager = GameIndexManager::new();
    manager.filter_cache_dirty = false;
    state.screen = RedesignScreen::Settings;

    assert!(handle_shortcuts(&mut state, &mut filters, &mut manager, true, false));
    assert_eq!(state.screen, RedesignScreen::Library);
    assert!(state.take_search_focus_request());

    // Escape with an empty field changes nothing.
    state.table_rows_dirty = false;
    assert!(!handle_shortcuts(&mut state, &mut filters, &mut manager, false, true));
    assert!(!manager.filter_cache_dirty);
    assert!(!state.table_rows_dirty);

    state.search_text_buf = "pac".to_string();
    filters.search_text = "pac".to_string();
    schedule_search_debounce(&mut state, 10);
    handle_shortcuts(&mut state, &mut filters, &mut manager, false, true);
    assert!(state.search_text_buf.is_empty());
    assert!(filters.search_text.is_empty());
    assert!(manager.filter_cache_dirty);
    assert_eq!(state.search_debounce_deadline_ms, None);
    assert!(state.table_rows_dirty);
}

#[test]
fn sidebar_clicks_select_and_clear_filters() {
    let mut state = RedesignState::new();
    let mut action = LibraryAction { open_detail: None, toggle_favorite: None, filters_changed: false };
    state.table_rows_dirty = false;
    select_collection(&mut state, &mut action, RedesignCollection::Missing);
    assert_eq!(state.collection, RedesignCollection::Missing);
    assert!(state.table_rows_dirty && action.filters_changed);

    assert!(!has_sidebar_filters(&state));
    let eighties = YearDecade::from_year(1984).expect("valid year");
    toggle_decade(&mut state, &mut action, eighties);
    assert_eq!(state.year_decade, Some(eighties));
    assert!(has_sidebar_filters(&state));
    toggle_decade(&mut state, &mut action, eighties);
    assert_eq!(state.year_decade, None);

    toggle_manufacturer(&mut state, &mut action, "Capcom");
    assert_eq!(state.selected_manufacturer.as_deref(), Some("Capcom"));
    toggle_manufacturer(&mut state, &mut action, "Sega");
    assert_eq!(state.selected_manufacturer.as_deref(), Some("Sega"));
    toggle_manufacturer(&mut state, &mut action, "Sega");
    assert_eq!(state.selected_manufacturer, None);

    state.chd_only = true;
    toggle_decade(&mut state, &mut action, eighties);
    clear_sidebar_filters(&mut state, &mut action);
    assert!(!has_sidebar_filters(&state));
    assert_eq!(state.selected_manufacturer, None);
}
