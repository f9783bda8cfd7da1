//! # Renderer
//!
//! How the simulated world is shown to the user.

use vstd::prelude::*;

use crate::config::Config;
use crate::save::Save;

verus! {

/// The view of the user on the world.
pub type UserView = u8;

/// The renderers a configuration can choose.
#[derive(Debug, PartialEq, Eq, Clone, Copy, Structural)]
pub enum Renderer {
    /// Print the save (renderer `0`).
    Log,
    /// Show nothing, not even a log (any other renderer).
    Mute,
}

/// The renderer the configuration chooses.
pub fn get_renderer(config: Config) -> (renderer: Renderer)
    ensures
        renderer == (if config.spec_renderer() == 0 {
            Renderer::Log
        } else {
            Renderer::Mute
        }),
{
    match config.renderer() {
        // log renderer.
        0u8 => Renderer::Log,
        // default renderer, muted renderer, not even log.
        _ => Renderer::Mute,
    }
}

/// Render nothing.
pub fn mute_renderer(_save: &Save, _view: UserView) -> (rendered: Result<(), std::io::Error>)
    ensures
        rendered is Ok,
{
    Ok(())
}

} // verus!
