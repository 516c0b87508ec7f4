use std::io::{Cursor, Write};

use mameuix::models::{toggle_favorite, FilterCategory, FilterSettings, Game, RomStatus, SoftwareListSummary};
use mameuix::panels::artwork_loader::extract_from_zip;
use mameuix::panels::game_index_manager::{GameIndex, GameIndexManager};
use mameuix::panels::game_list::GameList;
use mameuix::panels::game_list_view::GameListView;
use mameuix::panels::icon_manager::IconManager;
use mameuix::panels::image_data::{decode_artwork, prepare_icon};
use mameuix::panels::sidebar::Sidebar as FilterSidebar;
use mameuix::panels::software_list_panel::{
    MediaPathIndex, PollOutcome, PreparedSoftwareListData, SoftwareListPanel, SoftwareListWorkerMessage,
    WorkerPoll,
};
use mameuix::redesign::library::normalize_hidden_redesign_filters;
use mameuix::redesign::state::{RedesignCollection, RedesignState};
use mameuix::sidebar::Sidebar;

fn game(name: &str, title: &str, category: &str) -> Game {
    Game {
        name: name.into(),
        description: title.into(),
        manufacturer: "Audit".into(),
        year: "1990".into(),
        driver: "fixture.cpp".into(),
        driver_status: "good".into(),
        status: RomStatus::Available,
        parent: None,
        category: category.into(),
        play_count: 0,
        is_clone: false,
        is_device: false,
        is_bios: false,
        controls: String::new(),
        requires_roms: true,
        requires_chd: false,
        chd_name: None,
        verification_status: None,
    }
}

#[test]
fn cached_search_still_applies_the_category_filter() {
    let games = vec![
        game("racer", "Street Racer", "Driving"),
        game("fighter", "Street Fighter", "Fighter"),
        game("puzzle", "Puzzle", "Puzzle"),
    ];
    let mut filters = FilterSettings::default();
    filters.search_text = "street".into();
    filters.catver_category = Some("Driving".into());
    let table = GameList::new();
    let list = GameListView::new();

    let empty = GameIndex::build(&games, &Vec::new());
    let miss = table.filter_with_index(&games, &filters, &Vec::new(), &empty, FilterCategory::All, None);
    assert_eq!(miss, vec![0]);

    let mut cached = GameIndex::build(&games, &Vec::new());
    cached.cache_text_search("street".into(), vec![0, 1]);
    let hit = table.filter_with_index(&games, &filters, &Vec::new(), &cached, FilterCategory::All, None);
    assert_eq!(hit, miss);
    let hit_list = list.filter_with_index(&games, &filters, &Vec::new(), &cached, FilterCategory::All);
    assert_eq!(hit_list, miss);
}

#[test]
fn toggling_a_favorite_twice_restores_the_list() {
    let mut favorites = vec!["pacman".to_string(), "galaga".to_string()];
    toggle_favorite(&mut favorites, "dkong");
    assert_eq!(favorites, vec!["pacman", "galaga", "dkong"]);
    toggle_favorite(&mut favorites, "dkong");
    assert_eq!(favorites, vec!["pacman", "galaga"]);
    toggle_favorite(&mut favorites, "pacman");
    assert_eq!(favorites, vec!["galaga"]);
}

#[test]
fn loader_threads_follow_the_cpu_count_up_to_eight() {
    assert_eq!(IconManager::with_cpu_count(10, 0, 4).max_concurrent_loads, 4);
    assert_eq!(IconManager::with_cpu_count(10, 0, 32).max_concurrent_loads, 8);
    let m = IconManager::new(10, 5);
    assert!(m.max_concurrent_loads >= 1 && m.max_concurrent_loads <= 8);
}

#[test]
fn new_classic_sidebar_has_empty_search_fields() {
    let sidebar = Sidebar::new();
    assert_eq!(sidebar.search_text(), "");
    assert_eq!(sidebar.category_search_text(), "");
    assert_eq!(sidebar.get_previous_category(), None);
}

#[test]
fn clearing_filters_keeps_the_unrelated_settings() {
    let mut fs = FilterSettings::default();
    fs.catver_category = Some("Shooter".into());
    fs.auto_expand_clones = true;
    fs.hide_romless_systems = true;
    fs.cpu_filter = "z80".into();
    FilterSidebar::new().clear_all_filters(&mut fs);
    assert_eq!(fs.catver_category.as_deref(), Some("Shooter"));
    assert!(fs.auto_expand_clones);
    assert!(!fs.hide_romless_systems);
    assert_eq!(fs.cpu_filter, "");
}

#[test]
fn search_buffer_is_seeded_once_and_nothing_else_changes() {
    let mut state = RedesignState::new();
    state.ensure_search_buf("first");
    state.collection = RedesignCollection::Favorites;
    state.ensure_search_buf("second");
    assert_eq!(state.search_text_buf, "first");
    assert!(state.collection == RedesignCollection::Favorites);
}

#[test]
fn normalising_keeps_clone_and_rom_set_options() {
    let mut fs = FilterSettings::default();
    fs.auto_expand_clones = true;
    fs.hide_non_games = true;
    fs.cpu_filter = "m68000".into();
    assert!(normalize_hidden_redesign_filters(&mut fs));
    assert!(fs.auto_expand_clones);
    assert!(fs.hide_non_games);
    assert_eq!(fs.cpu_filter, "");
    assert!(!normalize_hidden_redesign_filters(&mut fs));
}

#[test]
fn finished_load_takes_over_all_prepared_data() {
    let mut panel = SoftwareListPanel::new();
    panel.search_text = "mario".into();
    panel.selected_list = Some("gone".into());
    panel.begin_load("/hash", &vec!["/roms".to_string()]);
    let data = PreparedSoftwareListData {
        lists: vec![SoftwareListSummary { name: "nes".into(), description: "NES".into(), entry_count: 0 }],
        entries: Vec::new(),
        warnings: vec!["bad line".into()],
        normalized_search_text: Vec::new(),
        media_paths: MediaPathIndex::new(),
        path_found_entry_count: 0,
    };
    let outcome = panel.poll_worker(WorkerPoll::Message(SoftwareListWorkerMessage::Finished(Ok(data))));
    assert!(outcome == PollOutcome::Done);
    assert!(!panel.loading);
    assert_eq!(panel.warnings, vec!["bad line".to_string()]);
    assert_eq!(panel.lists.len(), 1);
    assert_eq!(panel.selected_list, None);
    assert_eq!(panel.search_text, "mario");
    assert_eq!(panel.loaded_hash_path.as_deref(), Some("/hash"));

    panel.invalidate();
    assert_eq!(panel.loaded_hash_path, None);
    assert_eq!(panel.warnings, vec!["bad line".to_string()]);
    assert_eq!(panel.search_text, "mario");
}

fn png_bytes(width: u32, height: u32) -> Vec<u8> {
    let image = image::RgbaImage::from_pixel(width, height, image::Rgba([10, 20, 30, 255]));
    let mut out = Cursor::new(Vec::new());
    image.write_to(&mut out, image::ImageFormat::Png).unwrap();
    out.into_inner()
}

fn ico_bytes(size: u32) -> Vec<u8> {
    let image = image::RgbaImage::from_pixel(size, size, image::Rgba([200, 100, 50, 255]));
    let mut out = Cursor::new(Vec::new());
    image.write_to(&mut out, image::ImageFormat::Ico).unwrap();
    out.into_inner()
}

fn zip_bytes(files: &[(&str, &[u8])]) -> Vec<u8> {
    let mut writer = zip::ZipWriter::new(Cursor::new(Vec::new()));
    let options = zip::write::SimpleFileOptions::default().compression_method(zip::CompressionMethod::Stored);
    for (name, data) in files {
        writer.start_file(*name, options).unwrap();
        writer.write_all(data).unwrap();
    }
    writer.finish().unwrap().into_inner()
}

#[test]
fn artwork_bytes_decode_to_rgba_pixels() {
    let (w, h, pixels) = decode_artwork(&png_bytes(3, 2)).unwrap();
    assert_eq!((w, h), (3, 2));
    assert_eq!(pixels.len(), 3 * 2 * 4);
    assert_eq!(&pixels[0..4], &[10, 20, 30, 255]);
    assert!(decode_artwork(b"not an image").is_none());
}

#[test]
fn icons_are_scaled_to_the_icon_size_only_when_needed() {
    let (w, h, pixels) = prepare_icon(&ico_bytes(16), 16).unwrap();
    assert_eq!((w, h, pixels.len()), (16, 16, 16 * 16 * 4));
    let (w, h, pixels) = prepare_icon(&ico_bytes(16), 32).unwrap();
    assert_eq!((w, h, pixels.len()), (32, 32, 32 * 32 * 4));
    assert!(prepare_icon(b"nope", 32).is_none());
}

#[test]
fn archive_artwork_is_the_first_matching_image_entry() {
    let archive = zip_bytes(&[("readme.txt", b"hello"), ("other.png", b"A"), ("pacman.png", b"B")]);
    assert_eq!(extract_from_zip(&archive, "pacman"), Some(b"B".to_vec()));
    let single = zip_bytes(&[("whatever.jpg", b"C")]);
    assert_eq!(extract_from_zip(&single, "pacman"), Some(b"C".to_vec()));
    let none = zip_bytes(&[("notes.txt", b"D"), ("x.png", b"E")]);
    assert_eq!(extract_from_zip(&none, "pacman"), None);
    assert_eq!(extract_from_zip(b"not a zip", "pacman"), None);
}

#[test]
fn an_index_describes_only_its_own_catalogue() {
    let mut games = vec![game("pacman", "Pac-Man", "Maze"), game("puckman", "Puck Man", "Maze")];
    games[1].is_clone = true;
    games[1].parent = Some("pacman".into());
    let index = GameIndex::build(&games, &Vec::new());
    assert!(index.clones.describes_catalogue(&games));
    let mut other = games.clone();
    other[1].parent = Some("galaga".into());
    assert!(!index.clones.describes_catalogue(&other));
    // A new game that is no clone leaves the clone mapping valid; a new clone does not.
    let mut longer = games.clone();
    longer.push(game("galaga", "Galaga", "Shooter"));
    assert!(index.clones.describes_catalogue(&longer));
    let mut clone = game("hangly", "Hangly-Man", "Maze");
    clone.is_clone = true;
    clone.parent = Some("pacman".into());
    longer.push(clone);
    assert!(!index.clones.describes_catalogue(&longer));
}

#[test]
fn sorting_accepts_repeated_entries() {
    let games = vec![game("b", "Bravo", "X"), game("a", "Alpha", "X")];
    let mut table = GameList::new();
    table.filtered_indices_cache = vec![0, 1, 0];
    table.apply_sorting(&games);
    assert_eq!(table.filtered_indices_cache, vec![1, 0, 0]);
}

#[test]
fn manager_favorite_toggle_updates_the_index_and_dirties_the_result() {
    let games = vec![game("pacman", "Pac-Man", "Maze")];
    let mut manager = GameIndexManager::new();
    manager.build_game_index(&games, &Vec::new());
    manager.filter_cache_dirty = false;
    let mut favorites: Vec<String> = Vec::new();
    manager.toggle_favorite(&mut favorites, "pacman");
    assert_eq!(favorites, vec!["pacman"]);
    assert_eq!(manager.game_index.as_ref().unwrap().favorites, vec!["pacman"]);
    assert!(manager.filter_cache_dirty);
    manager.toggle_favorite(&mut favorites, "pacman");
    assert!(favorites.is_empty());
    assert!(manager.game_index.as_ref().unwrap().favorites.is_empty());
}

#[test]
fn typed_search_is_applied_after_the_delay_and_nothing_else_changes() {
    let mut manager = GameIndexManager::new();
    manager.filter_cache_dirty = false;
    manager.handle_search_input("pac".into(), 1000);
    assert!(!manager.filter_cache_dirty);
    assert_eq!(manager.process_pending_search(1000 + manager.search_debounce_ms - 1), None);
    assert_eq!(manager.process_pending_search(1000 + manager.search_debounce_ms), Some("pac".to_string()));
    assert!(manager.filter_cache_dirty);
    assert!(manager.pending_search.is_none());
}
