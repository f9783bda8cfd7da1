use vstd::prelude::*;

verus! {

/// Configuration of the game start.
#[derive(Debug, PartialEq, Clone, Copy, Eq, Hash)]
pub struct Config {
    /// how many simulated time units are played within one real time unit. (normal: 1)
    velocity: usize,
    /// how many iterations the simulation runs.
    max_iterations: usize,
    /// renderer used for the program.
    renderer: u8,
}

/// The configuration read from an existing configuration file: velocity 1, 10
/// iterations, the first renderer; nothing more is read from the file yet.
pub fn loaded_configuration() -> (config: Config)
    ensures
        config.spec_velocity() == 1,
        config.spec_max_iterations() == 10,
        config.spec_renderer() == 0,
{
    Config::new(1, 10, 0)
}

impl Config {
    /// Velocity of the configuration.
    pub closed spec fn spec_velocity(self) -> usize {
        self.velocity
    }

    /// Number of iterations of the configuration.
    pub closed spec fn spec_max_iterations(self) -> usize {
        self.max_iterations
    }

    /// Renderer of the configuration.
    pub closed spec fn spec_renderer(self) -> u8 {
        self.renderer
    }

    pub fn new(velocity: usize, max_iterations: usize, renderer: u8) -> (config: Self)
        ensures
            config.spec_velocity() == velocity,
            config.spec_max_iterations() == max_iterations,
            config.spec_renderer() == renderer,
    {
        Self { velocity, max_iterations, renderer }
    }

    pub fn velocity(&self) -> (velocity: usize)
        ensures
            velocity == self.spec_velocity(),
    {
        self.velocity
    }

    pub fn max_iterations(&self) -> (max_iterations: usize)
        ensures
            max_iterations == self.spec_max_iterations(),
    {
        self.max_iterations
    }

    pub fn renderer(&self) -> (renderer: u8)
        ensures
            renderer == self.spec_renderer(),
    {
        self.renderer
    }
}

} // verus!
