//! Keyboard shortcuts of the redesign shell. The application reads the keys;
//! the state changes are made here.
use vstd::prelude::*;

use super::state::{RedesignScreen, RedesignState};
use crate::models::FilterSettings;
use crate::panels::game_index_manager::GameIndexManager;

verus! {

/// Applies the shortcuts of a frame: Ctrl/Cmd+F focuses the search field of
/// the library; Escape clears a non-empty search, its pending debounce and
/// the applied search text, and marks the results dirty. Returns whether a
/// repaint is wanted.
pub fn handle_shortcuts(
    state: &mut RedesignState,
    filters: &mut FilterSettings,
    manager: &mut GameIndexManager,
    command_f_pressed: bool,
    escape_pressed: bool,
) -> (repaint: bool)
    ensures
        repaint == command_f_pressed,
        ({
            let focused = if command_f_pressed {
                RedesignState {
                    search_focus_requested: true,
                    screen: RedesignScreen::Library,
                    ..*old(state)
                }
            } else {
                *old(state)
            };
            let clears = escape_pressed && old(state).search_text_buf@.len() != 0;
            &&& clears ==> final(state).search_text_buf@.len() == 0 && final(filters).search_text@.len() == 0
                && *final(state) == (RedesignState {
                search_text_buf: final(state).search_text_buf,
                search_debounce_deadline_ms: None,
                table_rows_dirty: true,
                ..focused
            }) && *final(filters) == (FilterSettings {
                search_text: final(filters).search_text,
                ..*old(filters)
            }) && *final(manager) == (GameIndexManager { filter_cache_dirty: true, ..*old(manager) })
            &&& !clears ==> *final(state) == focused && *final(filters) == *old(filters)
                && *final(manager) == *old(manager)
        }),
{
    if command_f_pressed {
        state.request_search_focus();
        state.screen = RedesignScreen::Library;
    }
    if escape_pressed && !state.search_text_buf.as_str().is_empty() {
        state.search_text_buf = String::new();
        filters.search_text = String::new();
        manager.mark_cache_dirty();
        state.search_debounce_deadline_ms = None;
        state.mark_table_dirty();
    }
    command_f_pressed
}

} // verus!
