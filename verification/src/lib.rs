//! Verified core of the MAMEUIx front-end library.
use vstd::prelude::*;

pub mod catalog;
pub mod filtering;
pub mod models;
pub mod panels;
pub mod redesign;
pub mod sidebar;
pub mod sorting;
pub mod text;
pub mod themes;

verus! {
} // verus!
