//! Text tokens of the redesign shell (the colour and size tokens are drawing
//! constants of the UI layer).
use vstd::prelude::*;

use super::state::{collection_matches, RedesignCollection};

use crate::models::RomStatus;

verus! {

/// The status label of each ROM state.
pub open spec fn status_label_spec(status: RomStatus) -> Seq<char> {
    match status {
        RomStatus::Available => "ROM OK"@,
        RomStatus::ChdMissing => "CHD missing"@,
        RomStatus::ChdRequired => "CHD required"@,
        RomStatus::Missing => "Missing"@,
        RomStatus::Incorrect => "Incorrect"@,
        RomStatus::NotWorking => "Not working"@,
        RomStatus::Preliminary => "Preliminary"@,
        RomStatus::Unknown => "Unknown"@,
    }
}

/// Design tokens of the redesign shell.
pub struct RedesignTokens;

impl RedesignTokens {
    /// Label shown next to the status dot of a game.
    pub fn status_label(status: RomStatus) -> (r: &'static str)
        ensures
            r@ == status_label_spec(status),
    {
        match status {
            RomStatus::Available => "ROM OK",
            RomStatus::ChdMissing => "CHD missing",
            RomStatus::ChdRequired => "CHD required",
            RomStatus::Missing => "Missing",
            RomStatus::Incorrect => "Incorrect",
            RomStatus::NotWorking => "Not working",
            RomStatus::Preliminary => "Preliminary",
            RomStatus::Unknown => "Unknown",
        }
    }
}


/// The colour family of a ROM state's status dot.
#[derive(Debug, Clone, Copy, PartialEq, Eq, Structural)]
pub enum StatusTone {
    Good,
    Warn,
    Missing,
    Neutral,
}

/// The colour family of each ROM state: available is good, every issue is a
/// warning, missing ROMs are missing, an unknown state is neutral.
pub open spec fn status_tone_spec(status: RomStatus) -> StatusTone {
    match status {
        RomStatus::Available => StatusTone::Good,
        RomStatus::Missing => StatusTone::Missing,
        RomStatus::Unknown => StatusTone::Neutral,
        _ => StatusTone::Warn,
    }
}

impl RedesignTokens {
    /// The colour family of a status dot.
    pub fn status_tone(status: RomStatus) -> (r: StatusTone)
        ensures
            r == status_tone_spec(status),
    {
        match status {
            RomStatus::Available => StatusTone::Good,
            RomStatus::ChdMissing | RomStatus::ChdRequired | RomStatus::Incorrect
            | RomStatus::NotWorking | RomStatus::Preliminary => StatusTone::Warn,
            RomStatus::Missing => StatusTone::Missing,
            RomStatus::Unknown => StatusTone::Neutral,
        }
    }
}

/// The dot colour agrees with the sidebar collections: a state is drawn as
/// missing exactly when the Missing collection holds it, and as a warning
/// exactly when the Issues collection holds it.
pub proof fn lemma_status_tone_follows_collections(status: RomStatus)
    ensures
        (status_tone_spec(status) == StatusTone::Missing) == collection_matches(RedesignCollection::Missing, status),
        (status_tone_spec(status) == StatusTone::Warn) == collection_matches(RedesignCollection::Issues, status),
{
}

} // verus!
