//! Conversion of a structured airspace dataset into the OpenAir boundary
//! description format, driven by user-selected filtering and classification
//! settings.

pub mod state;
pub mod text;
pub mod yaixm;

use vstd::prelude::*;

verus! {

/// A single named setting change requested by a caller.
pub struct AirspaceSetting {
    pub name: String,
    pub value: String,
}

/// The three groups of extra overlays a user can pick from.
#[derive(Clone, Copy, PartialEq, Eq, Structural)]
pub enum ExtraCategory {
    Rat,
    Loa,
    Wave,
}

/// A single overlay selection change requested by a caller.
pub struct ExtraSetting {
    pub category: ExtraCategory,
    pub name: String,
    pub checked: bool,
}

/// A single letter-of-agreement selection change.
pub struct LoaSetting {
    pub name: String,
    pub value: bool,
}

} // verus!
