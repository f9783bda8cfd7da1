//! # Wusel
//!
//! A life simulation where little creatures, the wusels, live their lives:
//! they get hungry and tired, walk around, meet each other and use the
//! objects of their world.

pub mod config;
pub mod life;
pub mod model;
pub mod random;
pub mod renderer;
pub mod save;
pub mod simulation;
pub mod text;
pub mod tui;
pub mod util;
