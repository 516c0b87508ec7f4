use mameuix::panels::icon_manager::IconManager;

#[test]
fn icon_queue_skips_known_and_queued_names() {
    let mut icons = IconManager::new(2, 0);
    assert!(icons.max_concurrent_loads >= 1 && icons.max_concurrent_loads <= 8);
    icons.queue_icon_load("pacman".into(), true);
    icons.queue_icon_load("pacman".into(), true);
    icons.queue_icon_load("galaga".into(), false);
    icons.queue_icon_load("galaga".into(), true);
    icons.queue_icon_load("dkong".into(), true);
    assert_eq!(icons.icon_load_queue, vec!["pacman", "galaga", "dkong"]);

    icons.record_icon_result("galaga".into(), true, 10);
    let batch = icons.take_icons_to_load(2);
    assert_eq!(batch, vec!["pacman"]);
    assert_eq!(icons.icon_load_queue, vec!["dkong"]);

    icons.record_icon_result("pacman".into(), false, 20);
    icons.queue_icon_load("pacman".into(), true);
    assert_eq!(icons.icon_load_queue, vec!["dkong"]);
    assert_eq!(icons.get_cache_stats(), (1, 1, 2));
    assert!(icons.get_rom_icon("galaga", 30));
    assert!(!icons.get_rom_icon("pacman", 30));
}

#[test]
fn cleanup_expires_old_icons_then_evicts_least_recent() {
    let mut icons = IconManager::new(1, 0);
    icons.record_icon_result("a".into(), true, 0);
    icons.record_icon_result("b".into(), true, 400_000);
    icons.record_icon_result("c".into(), true, 390_000);
    // At 400 s, "a" was last shown 400 s ago (> 300 s lifetime).
    icons.cleanup_old_icons(400_000);
    assert_eq!(icons.rom_icons, vec!["b"]);
    assert_eq!(icons.icon_info.len(), 1);
    assert_eq!(icons.icon_info[0].path, "b");
    assert!(!icons.needs_cleanup(460_000));
    assert!(icons.needs_cleanup(460_001));

    icons.remove_from_cache("b");
    assert!(icons.rom_icons.is_empty());
    assert!(icons.icon_info.is_empty());
    icons.queue_icon_load("x".into(), true);
    icons.clear_cache();
    assert_eq!(icons.get_cache_stats(), (0, 0, 0));
}
