//! Numbers that the rules of the game fix.
use vstd::prelude::*;

verus! {

/// The satiety that one unit of food buys.
pub const REFILL_PER_FOOD: u64 = 126;

/// The satiety that every player loses on each tick.
pub const SATIETY_LOSS_PER_TICK: u64 = 1;

/// The longest line, in bytes, that a client may send.
pub const MAX_LINE_SIZE: usize = 8193;

/// The most events that one client may have pending at once.
pub const MAX_SIMULTANEOUS_EVENTS: u64 = 10;

/// The number of ticks that an incantation lasts.
pub const INCANTATION_TICKS: u64 = 300;

/// The food that a new player carries.
pub const STARTING_FOOD: u64 = 10;

} // verus!
