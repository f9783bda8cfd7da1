//! # Simulation
//!
//! One step of the simulated time on a save: the wusels get older and needier.

use vstd::prelude::*;

use crate::model::creature::{Wusel, WuselModel};
use crate::model::world::{World, WorldModel};

verus! {

/// `value + 1`, but not beyond the largest `u64`.
pub open spec fn spec_saturating_increment(value: u64) -> u64 {
    if value < u64::MAX {
        (value + 1) as u64
    } else {
        u64::MAX
    }
}

/// `value - 1`, but not below 0.
pub open spec fn spec_saturating_decrement(value: u64) -> u64 {
    if value > 0 {
        (value - 1) as u64
    } else {
        0
    }
}

/// The wusel one tick older.
pub open spec fn spec_older(wusel: WuselModel) -> WuselModel {
    WuselModel { age: spec_saturating_increment(wusel.age), ..wusel }
}

/// The wusel after one tick of its needs: less nourished, less awake, less digesting, less tidy.
pub open spec fn spec_needier(wusel: WuselModel) -> WuselModel {
    WuselModel {
        nourishment: spec_saturating_decrement(wusel.nourishment),
        wakefulness: spec_saturating_decrement(wusel.wakefulness),
        digestion: spec_saturating_decrement(wusel.digestion),
        tidiness: spec_saturating_decrement(wusel.tidiness),
        ..wusel
    }
}

/// The world one tick later: the time goes on, every wusel gets older and needier.
pub open spec fn spec_ticked(world: WorldModel) -> WorldModel {
    WorldModel {
        time: (world.time + 1) as u64,
        wusels: world.wusels.map_values(|w: WuselModel| spec_needier(spec_older(w))),
    }
}

/// Simulate one tick on the last save.
pub fn tick(last_save: &World) -> (simulated: Result<World, std::io::Error>)
    requires
        last_save@.time < u64::MAX,
    ensures
        simulated matches Ok(world) && world@ == spec_ticked(last_save@),
{
    let new_time = last_save.time() + 1;
    let mut updated_wusels: Vec<Wusel> = Vec::new();

    // apply on all wusels:
    let wusels = last_save.wusels_iter();
    let ghost all = vstd::std_specs::slice::into_iter_elts(wusels);
    for wusel0 in iter: wusels
        invariant
            all.map_values(|w: Wusel| w@) == last_save@.wusels,
            iter.seq().len() == all.len(),
            forall|i: int| 0 <= i < all.len() ==> *iter.seq()[i] == #[trigger] all[i],
            updated_wusels@.len() == iter.index(),
            forall|i: int|
                0 <= i < updated_wusels@.len() ==> #[trigger] updated_wusels@[i]@ == spec_needier(
                    spec_older(all[i]@),
                ),
    {
        let mut wusel: Wusel;
        wusel = increase_age(wusel0);
        wusel = decrease_needs(&wusel);
        updated_wusels.push(wusel);
    }

    let world = World::from(new_time, updated_wusels);
    assert(world@.wusels =~= spec_ticked(last_save@).wusels);
    Ok(world)
}

fn increase_age(wusel: &Wusel) -> (older: Wusel)
    ensures
        older@ == spec_older(wusel@),
{
    let mut copy = *wusel;
    copy.set_age(wusel.age().saturating_add(1));
    copy
}

fn decrease_needs(wusel: &Wusel) -> (needier: Wusel)
    ensures
        needier@ == spec_needier(wusel@),
{
    let mut copy = *wusel;
    copy.set_nourishment(copy.nourishment().saturating_sub(1));
    copy.set_wakefulness(copy.wakefulness().saturating_sub(1));
    copy.set_digestion(copy.digestion().saturating_sub(1));
    copy.set_tidiness(copy.tidiness().saturating_sub(1));
    copy
}

/// What a run of the simulation does next.
#[derive(Debug, PartialEq, Eq, Clone, Copy, Structural)]
pub enum RunStep {
    /// Simulate one more tick, then render it.
    Tick,
    /// All ticks are done: the run ends with the simulated save.
    Finish,
    /// The rendering of the last tick failed: the run ends with that error.
    Interrupt,
}

/// The next step of a run that did `done` of its `max_iterations` ticks, given whether the
/// rendering of its last tick succeeded (nothing failed before the first tick): a failed
/// rendering interrupts the run, else it ticks until all its ticks are done.
pub fn run_step(done: usize, max_iterations: usize, rendered: bool) -> (step: RunStep)
    ensures
        step == (if !rendered {
            RunStep::Interrupt
        } else if done < max_iterations {
            RunStep::Tick
        } else {
            RunStep::Finish
        }),
{
    if !rendered {
        RunStep::Interrupt
    } else if done < max_iterations {
        RunStep::Tick
    } else {
        RunStep::Finish
    }
}

} // verus!
