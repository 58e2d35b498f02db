//! The hat: its LEDs and the three sources that colour them.

use crate::hat::leds::LED;
use vstd::prelude::*;

pub mod countdown;
pub mod font;
pub mod function;
pub mod icon;
pub mod leds;
pub mod number;
pub mod rpn;
pub mod switch;
pub mod text;

verus! {

/// A source of colours that needs nothing but the time.
pub trait State: Send + Sync {
    fn get_leds(&mut self, time_ms: u128) -> Vec<LED>;
}

} // verus!
