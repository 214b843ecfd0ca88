//! The discrete part of the reward rule: how a chosen action relates to the
//! pressure state the system was observed in.

use vstd::prelude::*;

verus! {

/// How far apart two of the three pressure levels (0 high, 1 normal,
/// 2 low) lie.
pub open spec fn level_distance(state: u8, action: u8) -> int {
    if state >= action {
        state - action
    } else {
        action - state
    }
}

/// How a chosen action relates to the observed pressure state.
#[derive(Clone, Copy, Debug, PartialEq, Eq, Structural)]
pub enum ActionFit {
    /// The action answers the observed state.
    Matching,
    /// The action answers a neighbouring state; its reward is lowered.
    Adjacent,
    /// The action answers the opposite extreme; its reward is the lowest.
    Opposite,
}

/// Classifies `action` against the observed `state`: the same level
/// matches, a neighbouring level is adjacent, and high pressure against low
/// pressure (either way round) is opposite.
pub fn action_fit(state: u8, action: u8) -> (fit: ActionFit)
    requires
        state <= 2,
        action <= 2,
    ensures
        fit == ActionFit::Matching <==> state == action,
        fit == ActionFit::Adjacent <==> level_distance(state, action) == 1,
        fit == ActionFit::Opposite <==> ((state == 0 && action == 2) || (state == 2 && action
            == 0)),
{
    let distance: u8 = if state >= action {
        state - action
    } else {
        action - state
    };
    if distance == 0 {
        ActionFit::Matching
    } else if distance == 1 {
        ActionFit::Adjacent
    } else {
        ActionFit::Opposite
    }
}

} // verus!
