//! Interface-level choices the rest of the state refers to.

use vstd::prelude::*;

verus! {

/// The visual theme of the interface.
#[derive(Debug, Clone, Copy, PartialEq, Eq, Structural)]
pub enum Theme {
    /// Light visuals.
    Light,
    /// Dark visuals.
    Dark,
}

/// The interface surfaces a user can switch between.
#[derive(Debug, Clone, Copy, PartialEq, Eq, Structural)]
pub enum Tab {
    /// Offering local files.
    Share,
    /// Fetching remote files.
    Download,
    /// Discovering what a peer offers.
    Explore,
}

} // verus!
