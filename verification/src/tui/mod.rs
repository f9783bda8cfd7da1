//! # Terminal user interface
//!
//! Positions and styles on the screen, colours, and what a field of the world looks like.

pub mod bar;
pub mod base;
pub mod screen;
pub mod world_view;
