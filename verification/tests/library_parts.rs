use mameuix::redesign::state::RedesignCollection;
use mameuix::redesign::tokens::StatusTone;
use mameuix::themes::{ThemeColorSlot, ThemeHelper};
use mameuix::models::{CatverCategory, FilterSettings};
use mameuix::panels::artwork_loader::{
    artwork_cache_key, artwork_file_names, numbered_png, pick_numbered_png, zip_entry_is_artwork,
    ArtworkType,
};
use mameuix::panels::sidebar::{Sidebar, ROMLESS_FILTER_LABEL};
use mameuix::redesign::tokens::RedesignTokens;
use mameuix::models::RomStatus;

#[test]
fn artwork_keys_and_file_names() {
    assert_eq!(artwork_cache_key("sf2", ArtworkType::Marquee), "sf2-Marquee");
    assert_eq!(
        artwork_file_names("pacman"),
        vec!["pacman.png", "pacman.jpg", "pacman.jpeg", "pacman.bmp", "pacman.gif"]
    );
    assert_eq!(
        ArtworkType::Flyer.directory(Some("/snap"), None, None, None, Some("/flyers")),
        Some("/flyers")
    );
    assert_eq!(ArtworkType::Cabinet.directory(Some("/snap"), None, None, None, None), None);
}

#[test]
fn archive_entries_taken_as_artwork() {
    assert!(zip_entry_is_artwork("PACMAN.PNG", "pacman", 3));
    assert!(zip_entry_is_artwork("0000.png", "galaga", 3));
    assert!(zip_entry_is_artwork("cover.jpg", "galaga", 1));
    assert!(!zip_entry_is_artwork("cover.jpg", "galaga", 2));
    assert!(!zip_entry_is_artwork("pacman.txt", "pacman", 1));
}

#[test]
fn highest_numbered_snapshot_is_chosen() {
    assert_eq!(numbered_png("0003.png"), Some(3));
    assert_eq!(numbered_png("snap.png"), None);
    assert_eq!(numbered_png("0003.jpg"), None);
    let names = vec![
        "0001.png".to_string(),
        "notes.txt".to_string(),
        "0010.png".to_string(),
        "10.png".to_string(),
    ];
    assert_eq!(pick_numbered_png(&names), Some(2));
    assert_eq!(pick_numbered_png(&vec!["a.png".to_string()]), None);
}

#[test]
fn sidebar_clear_and_select_all_toggle_the_romless_exclusion() {
    let sidebar = Sidebar::new();
    let mut filters = FilterSettings::default();
    sidebar.clear_all_filters(&mut filters);
    assert!(!filters.hide_romless_systems);
    assert!(!filters.availability_filters.show_available);
    sidebar.select_all_filters(&mut filters);
    assert!(filters.hide_romless_systems);
    assert!(filters.availability_filters.show_available);
    assert_eq!(ROMLESS_FILTER_LABEL, "Hide systems that don't require ROMs");
}

#[test]
fn manufacturer_list_follows_the_lowercase_search() {
    let all = vec!["Capcom".to_string(), "Sega".to_string(), "CAPCOM USA".to_string()];
    let mut filters = FilterSettings::default();
    filters.manufacturer = "capcom".to_string();
    assert_eq!(
        Sidebar::filtered_manufacturers(&all, &filters),
        vec!["Capcom".to_string(), "CAPCOM USA".to_string()]
    );
    filters.manufacturer.clear();
    assert_eq!(Sidebar::filtered_manufacturers(&all, &filters), all);
}

#[test]
fn legacy_sidebar_category_labels() {
    let one = CatverCategory { name: "Maze".into(), display_name: "Maze".into(), game_count: 1 };
    let many = CatverCategory { name: "Maze".into(), display_name: "Maze".into(), game_count: 12 };
    let none = CatverCategory { name: "Maze".into(), display_name: "Maze".into(), game_count: 0 };
    assert_eq!(mameuix::sidebar::Sidebar::format_category_display(&one), "Maze (1 game)");
    assert_eq!(mameuix::sidebar::Sidebar::format_category_display(&many), "Maze (12 games)");
    assert_eq!(mameuix::sidebar::Sidebar::format_category_display(&none), "Maze");
    assert_eq!(mameuix::sidebar::Sidebar::get_popular_categories().len(), 10);
    let legacy = mameuix::sidebar::Sidebar::new();
    assert_eq!(legacy.get_previous_category(), None);
    assert_eq!(legacy.search_text(), "");
}

#[test]
fn status_labels_of_the_redesign() {
    assert_eq!(RedesignTokens::status_label(RomStatus::Available), "ROM OK");
    assert_eq!(RedesignTokens::status_label(RomStatus::ChdRequired), "CHD required");
    assert_eq!(RomStatus::ChdMissing.description(), "CHD Missing");
}

#[test]
fn status_colours_follow_the_collections() {
    for status in [
        RomStatus::Available,
        RomStatus::Missing,
        RomStatus::Incorrect,
        RomStatus::NotWorking,
        RomStatus::Preliminary,
        RomStatus::ChdRequired,
        RomStatus::ChdMissing,
        RomStatus::Unknown,
    ] {
        let tone = RedesignTokens::status_tone(status);
        assert_eq!(tone == StatusTone::Missing, RedesignCollection::Missing.matches_status(status));
        assert_eq!(tone == StatusTone::Warn, RedesignCollection::Issues.matches_status(status));
        assert_eq!(ThemeHelper::status_text(status), status.description());
    }
    assert_eq!(RedesignTokens::status_tone(RomStatus::Available), StatusTone::Good);
    assert_eq!(ThemeHelper::status_slot(RomStatus::ChdMissing), ThemeColorSlot::Missing);
    assert_eq!(ThemeHelper::status_slot(RomStatus::ChdRequired), ThemeColorSlot::Working);
    assert_eq!(ThemeHelper::status_slot(RomStatus::Unknown), ThemeColorSlot::SecondaryAccent);
}
