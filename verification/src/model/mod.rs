//! # Model
//!
//! The plain data of a save: the world with its time and its wusels.

pub mod creature;
pub mod world;
