//! The integer parts of turning a gym state into a simulator state: car ids
//! by position and the car flags read from the gym's byte flags.
use vstd::prelude::*;

verus! {

/// The car state flags that a gym player's byte flags give.
#[derive(Clone, Copy, Debug, PartialEq, Eq)]
pub struct GymCarFlags {
    pub is_on_ground: bool,
    pub is_demoed: bool,
    pub has_flipped: bool,
    pub has_jumped: bool,
}

/// A nonzero byte sets `is_on_ground` and `is_demoed`; the gym's `has_flip`
/// and `has_jump` say what the car may still do, so a zero byte means the car
/// has flipped or jumped.
pub fn gym_car_flags(on_ground: u8, is_demoed: u8, has_flip: u8, has_jump: u8) -> (flags:
    GymCarFlags)
    ensures
        flags.is_on_ground == (on_ground != 0),
        flags.is_demoed == (is_demoed != 0),
        flags.has_flipped == (has_flip == 0),
        flags.has_jumped == (has_jump == 0),
{
    GymCarFlags {
        is_on_ground: on_ground != 0,
        is_demoed: is_demoed != 0,
        has_flipped: has_flip == 0,
        has_jumped: has_jump == 0,
    }
}

/// The simulator car ids of `count` gym players: the player at position `i`
/// gets id `i + 1`.
pub fn gym_car_ids(count: usize) -> (ids: Vec<u32>)
    requires
        count <= u32::MAX,
    ensures
        ids@.len() == count,
        forall|i: int| 0 <= i < count ==> #[trigger] ids@[i] == i + 1,
{
    let mut ids: Vec<u32> = Vec::with_capacity(count);
    let mut id: usize = 0;
    while id < count
        invariant
            id <= count <= u32::MAX,
            ids@.len() == id,
            forall|i: int| 0 <= i < id ==> #[trigger] ids@[i] == i + 1,
        decreases count - id,
    {
        ids.push(id as u32 + 1);
        id += 1;
    }
    ids
}

} // verus!
