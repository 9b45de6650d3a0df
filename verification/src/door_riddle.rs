//! The three-door game: a prize behind one door, a first pick at random, and
//! the choice to stay or to change after an empty door was opened.

use vstd::prelude::*;
use crate::result::Result;

verus! {

/// `fastrand::Rng`, the random number generator. It is handed on as it is;
/// nothing is known of what it holds.
#[verifier::external_type_specification]
#[verifier::external_body]
pub struct ExRng(fastrand::Rng);

/// `fastrand::Rng::new` hands out a generator that is seeded from the
/// thread's own generator. Nothing is claimed of it.
pub assume_specification[ fastrand::Rng::new ]() -> (rng: fastrand::Rng);

/// Draws from `0..bound` with `fastrand::Rng::usize`. That method panics on
/// an empty range, which a positive bound rules out, and returns a value of
/// the range; which one is not known.
#[verifier::external_body]
fn draw_below(rng: &mut fastrand::Rng, bound: usize) -> (drawn: usize)
    requires
        bound > 0,
    ensures
        drawn < bound,
{
    rng.usize(0..bound)
}

/// Number of doors.
pub const DOORS: usize = 3;

/// The prize is behind the middle door.
pub open spec fn hides_prize(door: int) -> bool {
    door == 1
}

/// A player who stays wins when the first pick hides the prize; a player
/// who changes wins when it does not.
pub open spec fn round_won(change_choice: bool, door: int) -> bool {
    change_choice != hides_prize(door)
}

/// Counts one round in which `door` was the first pick.
pub fn count_round(result: &mut Result, change_choice: bool, door: usize)
    requires
        door < 3,
        old(result).successful < u64::MAX,
        old(result).failed < u64::MAX,
    ensures
        final(result).successful == old(result).successful + if round_won(
            change_choice,
            door as int,
        ) {
            1int
        } else {
            0int
        },
        final(result).failed == old(result).failed + if round_won(change_choice, door as int) {
            0int
        } else {
            1int
        },
{
    let doors = [false, true, false];
    if change_choice != doors[door] {
        result.successful += 1;
    } else {
        result.failed += 1;
    }
}

/// Plays `cycles` rounds with first picks drawn at random and counts wins
/// and losses. How the rounds fall is left to chance; their number is not.
pub fn play_game(cycles: u64, change_choice: bool) -> (result: Result)
    ensures
        result.successful + result.failed == cycles,
{
    let mut rng = fastrand::Rng::new();
    let mut result = Result::default();
    let mut i: u64 = 0;
    while i < cycles
        invariant
            i <= cycles,
            result.successful + result.failed == i,
        decreases cycles - i,
    {
        let door = draw_below(&mut rng, DOORS);
        count_round(&mut result, change_choice, door);
        i += 1;
    }
    result
}

} // verus!
