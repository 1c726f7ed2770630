//! Colours of the three-colour panels.

use vstd::prelude::*;

verus! {

/// A pixel colour of a three-colour panel.
#[derive(Clone, Copy, Debug, PartialEq, Eq, Structural)]
pub enum TriColor {
    /// Black.
    Black,
    /// White.
    White,
    /// The accent colour of the panel (red or yellow).
    Chromatic,
}

} // verus!
