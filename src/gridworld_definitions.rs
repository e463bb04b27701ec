//! Ready-made grid layouts.

use vstd::prelude::*;

use crate::environment::gridworld::{GridWorldDefinition, Region, StateEffect};

verus! {

/// Reward of stepping into the cliff.
pub const CLIFF_REWARD: i32 = -100;

/// The cliff-walking task: start at the bottom-left cell, end at the
/// bottom-right cell, every step costs 1, and each bottom-row cell between
/// them costs `-CLIFF_REWARD` to enter.
pub fn cliff(width: i32, height: i32) -> (r: GridWorldDefinition)
    requires
        width >= 1,
        height >= 1,
    ensures
        r.wf(),
        r.dimensions() == (width, height),
        r.start() == (0i32, 0i32),
        r.end() == ((width - 1) as i32, 0i32),
        r.default_reward() == -1,
        r.rewards() == seq![
            Region { corner: (1i32, 0i32), size: ((width - 2) as i32, 1i32), value: CLIFF_REWARD },
        ],
        r.effects() == Seq::<Region<StateEffect>>::empty(),
{
    let mut definition = GridWorldDefinition::new((width, height), (0, 0), (width - 1, 0), -1);
    definition.apply_reward((1, 0), (width - 2, 1), CLIFF_REWARD);
    assert(definition.rewards() =~= seq![
        Region { corner: (1i32, 0i32), size: ((width - 2) as i32, 1i32), value: CLIFF_REWARD },
    ]);
    definition
}

} // verus!
