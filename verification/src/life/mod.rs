//! # Life
//!
//! Life simulation with Wusels (the living parts), objects (passive parts)
//! positions and other directional information and task managers.

use vstd::prelude::*;

pub mod areas;
pub mod objects;
pub mod wusels;
pub mod world;

verus! {

/// Default ticks per minute
pub const MINUTE: u32 = 2;

/// Default ticks per hour (60 minutes)
pub const HOUR: u32 = 60 * MINUTE;

/// Default ticks per day (24 hours)
pub const DAY: u32 = 24 * HOUR;

/// Default ticks per week (7 days)
pub const WEEK: u32 = 7 * DAY;

} // verus!
