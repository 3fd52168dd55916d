use vstd::prelude::*;

use crate::components::TurnState;

verus! {

/// The end-of-phase transition rule: waiting for input does not advance;
/// the player's turn is followed by the monsters' turn; the monsters' turn
/// returns to waiting for input. The cycle has no terminal state.
pub open spec fn spec_next_state(s: TurnState) -> TurnState {
    match s {
        TurnState::AwaitingInput => TurnState::AwaitingInput,
        TurnState::PlayerTurn => TurnState::MonsterTurn,
        TurnState::MonsterTurn => TurnState::AwaitingInput,
    }
}

/// Advance the turn state at the end of a phase.
pub fn end_turn(turn_state: &mut TurnState)
    ensures
        *final(turn_state) == spec_next_state(*old(turn_state)),
{
    let new_state = match *turn_state {
        TurnState::AwaitingInput => {
            return ;
        },
        TurnState::PlayerTurn => TurnState::MonsterTurn,
        TurnState::MonsterTurn => TurnState::AwaitingInput,
    };
    *turn_state = new_state;
}

} // verus!
