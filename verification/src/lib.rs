//! Colour sources for a wearable display whose LEDs sit on a diagonal grid
//! that winds around a cylinder.
//!
//! Everything here works on integers and text. Whatever needs real-valued
//! arithmetic is left to the caller, who hands the results in as plain values.

use crate::hat::icon::IconType;
use vstd::prelude::*;

pub mod hat;

verus! {

/// What the hat can be told to show.
#[derive(Debug, Clone, Copy, PartialEq, Eq, Structural)]
pub enum AdminCommand {
    /// Count down; in a command, from so many seconds, and in a status, with
    /// so many minutes left.
    Countdown(u128),
    /// Show an icon.
    Icon(IconType),
    /// Show the formulas.
    AllowFunction,
}

} // verus!
