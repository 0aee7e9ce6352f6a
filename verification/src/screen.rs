//! Screen state machine.
//!
//! The game is always in exactly one top-level screen. Transitions are
//! explicit requests consumed at a fixed point of the frame; only the edges
//! below are valid — in particular Title never jumps straight to Win or Lose,
//! and Win and Lose never reach each other. A request for any other edge is
//! dropped.

use vstd::prelude::*;

verus! {

/// The top-level game state.
#[derive(Clone, Copy, Debug, PartialEq, Eq, Structural)]
pub enum Screen {
    Title,
    Playing,
    Win,
    Lose,
}

/// The transitions the game allows: start a session, end it in a win or a
/// loss, and acknowledge an end screen back to the title.
pub open spec fn spec_valid_transition(from: Screen, to: Screen) -> bool {
    ||| (from == Screen::Title && to == Screen::Playing)
    ||| (from == Screen::Playing && to == Screen::Win)
    ||| (from == Screen::Playing && to == Screen::Lose)
    ||| (from == Screen::Win && to == Screen::Title)
    ||| (from == Screen::Lose && to == Screen::Title)
}

/// Whether the state machine allows moving from `from` to `to`.
pub fn valid_transition(from: Screen, to: Screen) -> (r: bool)
    ensures
        r == spec_valid_transition(from, to),
{
    match (from, to) {
        (Screen::Title, Screen::Playing) => true,
        (Screen::Playing, Screen::Win) => true,
        (Screen::Playing, Screen::Lose) => true,
        (Screen::Win, Screen::Title) => true,
        (Screen::Lose, Screen::Title) => true,
        _ => false,
    }
}

/// The end screens' only input: an acknowledgment press on the back action
/// requests the return to the title screen.
pub fn handle_finish_action(back_pressed: bool) -> (r: Option<Screen>)
    ensures
        r == if back_pressed {
            Some(Screen::Title)
        } else {
            None::<Screen>
        },
{
    if back_pressed {
        Some(Screen::Title)
    } else {
        None
    }
}

} // verus!
