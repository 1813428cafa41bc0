//! Audio buses for grouping sounds.

use vstd::prelude::*;

verus! {

/// Predefined audio buses for volume control routing.
#[derive(Debug, Clone, Copy, PartialEq, Eq, Structural, Hash)]
pub enum AudioBusName {
    /// The bus every other bus feeds into.
    Master,
    /// Background music.
    Music,
    /// Sound effects.
    Sfx,
    /// Interface sounds.
    UI,
}

} // verus!
