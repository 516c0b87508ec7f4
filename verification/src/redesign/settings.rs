//! Pure parts of the redesign settings screen.
use vstd::prelude::*;

use super::state::SettingsSection;
use crate::models::VideoMode;
use crate::text::{eq_ignore_ascii_case, eq_ignore_ascii_case_spec, trim_spec, trim_str};

verus! {

/// What the settings screen asks the application to do after a frame.
pub struct SettingsAction {
    pub style_changed: bool,
    pub save_config: bool,
    pub rescan_needed: bool,
}

/// Identifier of the scroll area of each settings section.
pub open spec fn settings_scroll_id_spec(section: SettingsSection) -> Seq<char> {
    match section {
        SettingsSection::Directories => "redesign_settings_directories"@,
        SettingsSection::Appearance => "redesign_settings_appearance"@,
        SettingsSection::Performance => "redesign_settings_performance"@,
        SettingsSection::Shaders => "redesign_settings_shaders"@,
    }
}

/// Identifier of the scroll area of a settings section, so that each section
/// keeps its own scroll position.
pub fn settings_scroll_id(section: SettingsSection) -> (r: &'static str)
    ensures
        r@ == settings_scroll_id_spec(section),
{
    match section {
        SettingsSection::Directories => "redesign_settings_directories",
        SettingsSection::Appearance => "redesign_settings_appearance",
        SettingsSection::Performance => "redesign_settings_performance",
        SettingsSection::Shaders => "redesign_settings_shaders",
    }
}

/// Label of each settings section in the section switcher.
pub open spec fn section_label_spec(section: SettingsSection) -> Seq<char> {
    match section {
        SettingsSection::Directories => "Directories"@,
        SettingsSection::Appearance => "Appearance"@,
        SettingsSection::Performance => "Performance"@,
        SettingsSection::Shaders => "Shaders"@,
    }
}

/// The settings sections in switcher order.
pub fn settings_sections() -> (r: Vec<SettingsSection>)
    ensures
        r@ == seq![
            SettingsSection::Directories,
            SettingsSection::Appearance,
            SettingsSection::Performance,
            SettingsSection::Shaders,
        ],
{
    let mut r = Vec::new();
    r.push(SettingsSection::Directories);
    r.push(SettingsSection::Appearance);
    r.push(SettingsSection::Performance);
    r.push(SettingsSection::Shaders);
    assert(r@ =~= seq![
        SettingsSection::Directories,
        SettingsSection::Appearance,
        SettingsSection::Performance,
        SettingsSection::Shaders,
    ]);
    r
}

/// Label of a settings section.
pub fn section_label(section: SettingsSection) -> (r: &'static str)
    ensures
        r@ == section_label_spec(section),
{
    match section {
        SettingsSection::Directories => "Directories",
        SettingsSection::Appearance => "Appearance",
        SettingsSection::Performance => "Performance",
        SettingsSection::Shaders => "Shaders",
    }
}

/// Text of an optional path: the path's text, or the fallback when none is set.
pub fn optional_path_text(path: Option<&str>, fallback: &str) -> (r: String)
    ensures
        r@ == match path {
            Some(p) => p@,
            None => fallback@,
        },
{
    match path {
        Some(p) => p.to_owned(),
        None => fallback.to_owned(),
    }
}

/// Records that the configuration must be saved, and rescanned when asked.
pub fn mark_config_saved(action: &mut SettingsAction, rescan_needed: bool)
    ensures
        final(action).save_config,
        final(action).rescan_needed == (old(action).rescan_needed || rescan_needed),
        final(action).style_changed == old(action).style_changed,
{
    action.save_config = true;
    action.rescan_needed = action.rescan_needed || rescan_needed;
}

/// The configured BGFX screen chain, if it names one other than MAME's default.
pub open spec fn custom_chain_spec(screen_chain: Seq<char>) -> Option<Seq<char>> {
    let chain = trim_spec(screen_chain);
    if chain.len() != 0 && !eq_ignore_ascii_case_spec(chain, "default"@) {
        Some(chain)
    } else {
        None
    }
}

/// The configured screen chain without surrounding whitespace, unless it is
/// empty or `default` in any ASCII case.
pub fn custom_bgfx_chain(screen_chain: &str) -> (r: Option<&str>)
    ensures
        match r {
            Some(c) => custom_chain_spec(screen_chain@) == Some(c@),
            None => custom_chain_spec(screen_chain@) is None,
        },
{
    let chain = trim_str(screen_chain);
    if !chain.is_empty() && !eq_ignore_ascii_case(chain, "default") {
        Some(chain)
    } else {
        None
    }
}

/// Any launch setting differs from MAME's default video output.
pub open spec fn shader_override_spec(
    video_mode: VideoMode,
    screen_chain: Seq<char>,
    embedded_shader: Option<Seq<char>>,
) -> bool {
    video_mode == VideoMode::BGFX || custom_chain_spec(screen_chain) is Some
        || embedded_shader is Some
}

/// Whether the "Reset BGFX override" action has anything to reset.
pub fn has_shader_override(
    video_mode: VideoMode,
    screen_chain: &str,
    embedded_shader: Option<&str>,
) -> (r: bool)
    ensures
        r == shader_override_spec(
            video_mode,
            screen_chain@,
            match embedded_shader {
                Some(s) => Some(s@),
                None => None,
            },
        ),
{
    video_mode == VideoMode::BGFX || custom_bgfx_chain(screen_chain).is_some()
        || embedded_shader.is_some()
}

/// Resets the shader override: no embedded shader, BGFX video mode back to
/// automatic, and the `default` screen chain. The configuration must be saved.
pub fn reset_shader_override(
    video_mode: &mut VideoMode,
    screen_chain: &mut String,
    current_shader: &mut Option<String>,
    action: &mut SettingsAction,
)
    ensures
        *final(current_shader) is None,
        *final(video_mode) == if *old(video_mode) == VideoMode::BGFX {
            VideoMode::Auto
        } else {
            *old(video_mode)
        },
        final(screen_chain)@ == "default"@,
        *final(action) == (SettingsAction { save_config: true, ..*old(action) }),
        !shader_override_spec(*final(video_mode), final(screen_chain)@, None),
{
    *current_shader = None;
    if *video_mode == VideoMode::BGFX {
        *video_mode = VideoMode::Auto;
    }
    *screen_chain = "default".to_owned();
    action.save_config = true;
    proof {
        reveal_strlit("default");
        lemma_default_chain_is_not_custom();
    }
}

/// The `default` chain is not a custom chain.
pub proof fn lemma_default_chain_is_not_custom()
    ensures
        custom_chain_spec("default"@) is None,
{
    reveal_strlit("default");
    let s = "default"@;
    assert(crate::text::leading_ws(s) == 0);
    assert(s.subrange(0, s.len() as int) =~= s);
    assert(crate::text::trailing_ws(s) == 0);
    assert(trim_spec(s) =~= s);
    assert(eq_ignore_ascii_case_spec(s, s));
}

} // verus!
