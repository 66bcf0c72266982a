//! Keyboard shortcuts of the interactive demo.

use vstd::prelude::*;
use rand::Rng;

verus! {

/// What a key press asks the engine to do.
#[derive(Clone, Copy, Debug, PartialEq, Eq, Structural)]
pub enum KeyAction {
    /// Pause or resume the simulation (`p`).
    TogglePause,
    /// Splash this many random splats (space bar).
    Burst(u32),
    /// Switch the bloom effect (`b`).
    ToggleBloom,
    /// Switch the sunrays effect (`s`).
    ToggleSunrays,
    /// Switch the shading of the dye (`h`).
    ToggleShading,
    /// The key has no shortcut.
    Ignore,
}

/// Smallest number of splats of a space-bar burst.
pub const BURST_MIN: u32 = 5;
/// One more than the largest number of splats of a space-bar burst.
pub const BURST_END: u32 = 25;

/// `rand::thread_rng().gen_range(low..end)`: a number drawn from the thread-local
/// generator, which rand's documentation describes as uniform over `low..end`. The
/// range must not be empty (rand panics on an empty one). Which number comes out is
/// left open: only that it lies in the range is stated.
#[verifier::external_body]
fn random_in_range(low: u32, end: u32) -> (r: u32)
    requires
        low < end,
    ensures
        low <= r < end,
{
    rand::thread_rng().gen_range(low..end)
}

/// The action bound to the key that typed `key`; letters work in either case.
/// The space bar asks for a burst of a random number of splats, from `BURST_MIN` up to
/// but excluding `BURST_END`.
pub fn key_action(key: char) -> (action: KeyAction)
    ensures
        (key == 'p' || key == 'P') ==> action == KeyAction::TogglePause,
        (key == 'b' || key == 'B') ==> action == KeyAction::ToggleBloom,
        (key == 's' || key == 'S') ==> action == KeyAction::ToggleSunrays,
        (key == 'h' || key == 'H') ==> action == KeyAction::ToggleShading,
        key == ' ' ==> (action matches KeyAction::Burst(n) && BURST_MIN <= n < BURST_END),
        !(key == 'p' || key == 'P' || key == 'b' || key == 'B' || key == 's' || key == 'S' || key
            == 'h' || key == 'H' || key == ' ') ==> action == KeyAction::Ignore,
{
    if key == 'p' || key == 'P' {
        KeyAction::TogglePause
    } else if key == ' ' {
        KeyAction::Burst(random_in_range(BURST_MIN, BURST_END))
    } else if key == 'b' || key == 'B' {
        KeyAction::ToggleBloom
    } else if key == 's' || key == 'S' {
        KeyAction::ToggleSunrays
    } else if key == 'h' || key == 'H' {
        KeyAction::ToggleShading
    } else {
        KeyAction::Ignore
    }
}

} // verus!
