//! The classic theme's choice of colour for each ROM state; the colours
//! themselves are drawing constants of the UI layer.
use vstd::prelude::*;

use crate::models::{status_description_spec, RomStatus};

verus! {

/// The theme colour a ROM state is drawn in.
#[derive(Debug, Clone, Copy, PartialEq, Eq, Structural)]
pub enum ThemeColorSlot {
    Available,
    Working,
    NotWorking,
    Missing,
    SecondaryAccent,
}

/// The theme colour of each ROM state: preliminary and CHD-required sets
/// still work, incorrect and CHD-missing sets count as missing, and an
/// unknown state takes the secondary accent.
pub open spec fn status_slot_spec(status: RomStatus) -> ThemeColorSlot {
    match status {
        RomStatus::Available => ThemeColorSlot::Available,
        RomStatus::NotWorking => ThemeColorSlot::NotWorking,
        RomStatus::Missing | RomStatus::Incorrect | RomStatus::ChdMissing => ThemeColorSlot::Missing,
        RomStatus::Preliminary | RomStatus::ChdRequired => ThemeColorSlot::Working,
        RomStatus::Unknown => ThemeColorSlot::SecondaryAccent,
    }
}

/// Styling choices of the classic theme.
pub struct ThemeHelper;

impl ThemeHelper {
    /// The theme colour of a ROM state.
    pub fn status_slot(status: RomStatus) -> (r: ThemeColorSlot)
        ensures
            r == status_slot_spec(status),
    {
        match status {
            RomStatus::Available => ThemeColorSlot::Available,
            RomStatus::NotWorking => ThemeColorSlot::NotWorking,
            RomStatus::Missing | RomStatus::Incorrect | RomStatus::ChdMissing => ThemeColorSlot::Missing,
            RomStatus::Preliminary | RomStatus::ChdRequired => ThemeColorSlot::Working,
            RomStatus::Unknown => ThemeColorSlot::SecondaryAccent,
        }
    }

    /// The text of a ROM state in the status column.
    pub fn status_text(status: RomStatus) -> (r: &'static str)
        ensures
            r@ == status_description_spec(status),
    {
        status.description()
    }
}

} // verus!
