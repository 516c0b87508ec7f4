use mameuix::panels::software_list_panel::prepare_software_list_data;
use mameuix::models::SoftwareEntry;
use mameuix::panels::software_list_panel::{
    filter_entry_indices, is_supported_archive_extension, media_path_key, media_path_presence,
    normalize_search_query, normalized_entry_search_text, should_report_progress, MediaPathIndex,
    MediaPathPresence, SoftwareListPanel,
};

fn software(list: &str, name: &str, description: &str, publisher: &str) -> SoftwareEntry {
    SoftwareEntry {
        list_name: list.to_string(),
        list_description: format!("{list} software"),
        name: name.to_string(),
        description: description.to_string(),
        publisher: publisher.to_string(),
        year: "1982".to_string(),
        supported: String::new(),
        clone_of: None,
        parent: None,
        part_count: 0,
        interfaces: Vec::new(),
        source_file: String::new(),
    }
}

#[test]
fn cached_search_text_filters_without_normalizing_entries_again() {
    let entries = vec![
        software("a2600", "combat", "Combat", "Atari"),
        software("nes", "dkong", "Donkey Kong", "Nintendo"),
    ];
    let normalized = entries.iter().map(normalized_entry_search_text).collect::<Vec<_>>();

    assert_eq!(
        filter_entry_indices(&entries, &normalized, &normalize_search_query(" NINTENDO "), None),
        vec![1]
    );
    assert_eq!(filter_entry_indices(&entries, &normalized, "", Some("a2600")), vec![0]);
    assert!(filter_entry_indices(&entries, &normalized, "combat", Some("nes")).is_empty());
}

#[test]
fn panel_reuses_filter_results_until_the_filter_key_changes() {
    let mut panel = SoftwareListPanel::new();
    panel.entries = vec![
        software("a2600", "combat", "Combat", "Atari"),
        software("nes", "dkong", "Donkey Kong", "Nintendo"),
    ];
    panel.normalized_search_text = panel.entries.iter().map(normalized_entry_search_text).collect();
    panel.search_text = "nintendo".to_string();

    panel.refresh_filter_cache_if_needed();
    assert_eq!(panel.filtered_indices, vec![1]);

    // A stable query/list key leaves the cached result untouched.
    panel.normalized_search_text[1].clear();
    panel.refresh_filter_cache_if_needed();
    assert_eq!(panel.filtered_indices, vec![1]);

    panel.search_text = "combat".to_string();
    panel.refresh_filter_cache_if_needed();
    assert_eq!(panel.filtered_indices, vec![0]);
}

#[test]
fn path_presence_is_not_checked_without_a_readable_root() {
    let index = MediaPathIndex::new();
    assert_eq!(
        media_path_presence(&software("a2600", "combat", "", ""), &index),
        MediaPathPresence::NotChecked
    );
}

#[test]
fn path_presence_uses_case_insensitive_list_and_name_keys() {
    let mut index = MediaPathIndex::new();
    index.count_checked_root();
    index.insert("A2600", "Combat");
    assert_eq!(media_path_key("A2600", "Combat"), "a2600:combat");
    assert_eq!(
        media_path_presence(&software("a2600", "combat", "", ""), &index),
        MediaPathPresence::PathFound
    );
    assert_eq!(
        media_path_presence(&software("a2600", "unknown", "", ""), &index),
        MediaPathPresence::NotFound
    );
    index.insert("a2600", "COMBAT");
    assert_eq!(index.keys.len(), 1);
}

#[test]
fn entry_search_text_joins_fields_in_lowercase() {
    let entry = software("nes", "dkong", "Donkey Kong", "Nintendo");
    assert_eq!(
        normalized_entry_search_text(&entry),
        "dkong\u{1f}donkey kong\u{1f}nintendo\u{1f}1982\u{1f}nes\u{1f}nes software"
    );
    assert_eq!(normalize_search_query("  Donkey  "), "donkey");
}

#[test]
fn archive_extensions_and_progress_reports() {
    assert!(is_supported_archive_extension("ZIP"));
    assert!(is_supported_archive_extension("7z"));
    assert!(!is_supported_archive_extension("chd"));
    assert!(should_report_progress(0, 100, 0));
    assert!(should_report_progress(100, 100, 96));
    assert!(!should_report_progress(7, 100, 0));
    assert!(should_report_progress(8, 100, 0));
    assert_eq!(SoftwareListPanel::support_label("partial"), "Partial");
    assert_eq!(SoftwareListPanel::support_label("no"), "No");
    assert_eq!(SoftwareListPanel::support_label(""), "Yes");
}

#[test]
fn prepared_data_counts_found_media_and_indexes_search_text() {
    let entries = vec![
        software("a2600", "combat", "Combat", "Atari"),
        software("nes", "dkong", "Donkey Kong", "Nintendo"),
    ];
    let mut media = MediaPathIndex::new();
    media.count_checked_root();
    media.insert("nes", "DKONG");
    let data = prepare_software_list_data(Vec::new(), entries.clone(), vec!["bad.xml".to_string()], media);
    assert_eq!(data.path_found_entry_count, 1);
    assert_eq!(data.normalized_search_text.len(), 2);
    assert_eq!(data.normalized_search_text[1], normalized_entry_search_text(&entries[1]));
    assert_eq!(data.warnings, vec!["bad.xml".to_string()]);

    let mut panel = SoftwareListPanel::new();
    panel.begin_load("/hash", &vec!["/roms".to_string()]);
    assert!(!panel.needs_reload("/hash", &vec!["/roms".to_string()]));
    assert!(panel.needs_reload("/other", &vec!["/roms".to_string()]));
}
