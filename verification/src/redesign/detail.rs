//! Pure parts of the redesign detail screen.
use vstd::prelude::*;

use super::library_table::artwork_candidates_spec;
use crate::models::Game;
use crate::text::same_text;

verus! {

/// What the detail screen asks the application to do after a frame.
pub struct DetailAction {
    pub back: bool,
    pub play: bool,
    pub toggle_favorite: bool,
    pub verify: bool,
}

/// Names whose artwork the detail screen may show, in order of preference:
/// the game's own, then its parent's.
pub fn game_artwork_candidates(game: &Game) -> (r: Vec<&str>)
    ensures
        r@.map_values(|s: &str| s@) == artwork_candidates_spec(*game),
{
    let mut candidates: Vec<&str> = Vec::new();
    candidates.push(game.name.as_str());
    match &game.parent {
        Some(parent) => {
            if !same_text(parent.as_str(), game.name.as_str()) {
                candidates.push(parent.as_str());
            }
        },
        None => {},
    }
    assert(candidates@.map_values(|s: &str| s@) =~= artwork_candidates_spec(*game));
    candidates
}

} // verus!
