use mameuix::models::VideoMode;
use mameuix::redesign::settings::{
    custom_bgfx_chain, has_shader_override, mark_config_saved, optional_path_text,
    reset_shader_override, SettingsAction,
};

#[test]
fn custom_bgfx_chain_ignores_empty_and_default_values() {
    assert_eq!(custom_bgfx_chain(""), None);
    assert_eq!(custom_bgfx_chain("   "), None);
    assert_eq!(custom_bgfx_chain("default"), None);
    assert_eq!(custom_bgfx_chain(" DEFAULT "), None);
    assert_eq!(custom_bgfx_chain(" crt-geom "), Some("crt-geom"));
}

#[test]
fn shader_reset_is_available_for_each_kind_of_override() {
    assert!(!has_shader_override(VideoMode::Auto, "default", None));
    assert!(has_shader_override(VideoMode::BGFX, "default", None));
    assert!(has_shader_override(VideoMode::Auto, "crt-geom", None));
    assert!(has_shader_override(VideoMode::Auto, "default", Some("embedded-effect")));
}

#[test]
fn reset_leaves_no_shader_override() {
    let mut mode = VideoMode::BGFX;
    let mut chain = " crt-geom ".to_string();
    let mut shader = Some("effect".to_string());
    let mut action = SettingsAction { style_changed: false, save_config: false, rescan_needed: false };
    reset_shader_override(&mut mode, &mut chain, &mut shader, &mut action);
    assert_eq!(mode, VideoMode::Auto);
    assert_eq!(chain, "default");
    assert_eq!(shader, None);
    assert!(action.save_config);
    assert!(!has_shader_override(mode, &chain, shader.as_deref()));
}

#[test]
fn saving_keeps_an_earlier_rescan_request() {
    let mut action = SettingsAction { style_changed: false, save_config: false, rescan_needed: true };
    mark_config_saved(&mut action, false);
    assert!(action.save_config);
    assert!(action.rescan_needed);
    assert_eq!(optional_path_text(None, "Not set"), "Not set");
    assert_eq!(optional_path_text(Some("/roms"), "Not set"), "/roms");
}
