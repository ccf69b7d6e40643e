//! Telling whether a state is one that the engine can work on.

use vstd::prelude::*;
use super::types::{CutthroatState, JackOnStack, JokerOnStack, Phase, PlayerState};
use crate::action::{Action, OneOffTarget};

verus! {

fn jacks_ok(jacks: &Vec<JackOnStack>) -> (b: bool)
    ensures
        b == forall|i: int| 0 <= i < jacks@.len() ==> (#[trigger] jacks@[i]).owner < 3,
{
    let mut i: usize = 0;
    while i < jacks.len()
        invariant
            i <= jacks.len(),
            forall|k: int| 0 <= k < i ==> (#[trigger] jacks@[k]).owner < 3,
        decreases jacks.len() - i,
    {
        if jacks[i].owner >= 3 {
            return false;
        }
        i = i + 1;
    }
    true
}

fn jokers_ok(jokers: &Vec<JokerOnStack>) -> (b: bool)
    ensures
        b == forall|i: int| 0 <= i < jokers@.len() ==> (#[trigger] jokers@[i]).owner < 3,
{
    let mut i: usize = 0;
    while i < jokers.len()
        invariant
            i <= jokers.len(),
            forall|k: int| 0 <= k < i ==> (#[trigger] jokers@[k]).owner < 3,
        decreases jokers.len() - i,
    {
        if jokers[i].owner >= 3 {
            return false;
        }
        i = i + 1;
    }
    true
}

impl PlayerState {
    /// Whether every stack of the player names seats of the table only.
    pub(crate) fn seats_ok(&self) -> (b: bool)
        ensures
            b == self@.seats_ok(),
    {
        let mut i: usize = 0;
        while i < self.points.len()
            invariant
                i <= self.points.len(),
                forall|k: int| 0 <= k < i ==> (#[trigger] self@.points[k]).seats_ok(),
            decreases self.points.len() - i,
        {
            let stack = &self.points[i];
            proof {
                assert(self@.points[i as int] == stack@);
                assert(stack@.seats_ok() <==> stack.base_owner < 3 && forall|k: int|
                    0 <= k < stack.jacks@.len() ==> (#[trigger] stack.jacks@[k]).owner < 3) by {
                    if stack@.seats_ok() {
                        assert forall|k: int| 0 <= k < stack.jacks@.len() implies (
                        #[trigger] stack.jacks@[k]).owner < 3 by {
                            assert(stack@.riders[k].owner < 3);
                        }
                    }
                }
            }
            if stack.base_owner >= 3 || !jacks_ok(&stack.jacks) {
                return false;
            }
            i = i + 1;
        }
        let mut j: usize = 0;
        while j < self.royals.len()
            invariant
                j <= self.royals.len(),
                forall|k: int| 0 <= k < self@.points.len() ==> (#[trigger] self@.points[k]).seats_ok(),
                forall|k: int| 0 <= k < j ==> (#[trigger] self@.royals[k]).seats_ok(),
            decreases self.royals.len() - j,
        {
            let stack = &self.royals[j];
            proof {
                assert(self@.royals[j as int] == stack@);
                assert(stack@.seats_ok() <==> stack.base_owner < 3 && forall|k: int|
                    0 <= k < stack.jokers@.len() ==> (#[trigger] stack.jokers@[k]).owner < 3) by {
                    if stack@.seats_ok() {
                        assert forall|k: int| 0 <= k < stack.jokers@.len() implies (
                        #[trigger] stack.jokers@[k]).owner < 3 by {
                            assert(stack@.riders[k].owner < 3);
                        }
                    }
                }
            }
            if stack.base_owner >= 3 || !jokers_ok(&stack.jokers) {
                return false;
            }
            j = j + 1;
        }
        true
    }
}

impl Phase {
    /// Whether every seat named in the phase is a seat of the table, and an
    /// open counter window holds a one-off.
    pub(crate) fn seats_ok(&self) -> (b: bool)
        ensures
            b == self@.seats_ok(),
    {
        match self {
            Phase::Main => true,
            Phase::Countering(c) => {
                c.base_player < 3 && c.next_seat < 3 && c.rotation_anchor < 3 && match c.oneoff {
                    Action::PlayOneOff { target: OneOffTarget::Player { seat }, .. } => seat < 3,
                    Action::PlayOneOff { .. } => true,
                    _ => false,
                }
            },
            Phase::ResolvingThree { seat, base_player } => *seat < 3 && *base_player < 3,
            Phase::ResolvingFour { seat, base_player, .. } => *seat < 3 && *base_player < 3,
            Phase::ResolvingFive { seat, base_player, .. } => *seat < 3 && *base_player < 3,
            Phase::ResolvingSeven { seat, base_player, .. } => *seat < 3 && *base_player < 3,
            Phase::GameOver => true,
        }
    }
}

impl CutthroatState {
    /// Whether the state is one that the engine can work on: three players,
    /// seats that exist wherever a seat is named, and a pass streak that
    /// agrees with the turn. A game that was dealt and played by `apply` is
    /// always so.
    pub fn is_shaped(&self) -> (b: bool)
        ensures
            b == self.shaped(),
    {
        if self.players.len() != 3 || self.turn >= 3 {
            return false;
        }
        let mut p: usize = 0;
        while p < 3
            invariant
                p <= 3,
                self.players.len() == 3,
                forall|q: int| 0 <= q < p ==> (#[trigger] self@.players[q]).seats_ok(),
            decreases 3 - p,
        {
            assert(self@.players[p as int] == self.players[p as int]@);
            if !self.players[p].seats_ok() {
                return false;
            }
            p = p + 1;
        }
        if !self.phase.seats_ok() {
            return false;
        }
        let over = match self.phase {
            Phase::GameOver => true,
            _ => false,
        };
        let main = match self.phase {
            Phase::Main => true,
            _ => false,
        };
        let streak_ok = match self.pass_streak_start {
            None => self.pass_streak_len == 0,
            Some(a) => {
                a < 3 && 1 <= self.pass_streak_len && self.pass_streak_len <= 4 && (main || over)
                    && (!main || (self.pass_streak_len <= 3 && self.turn == (a
                    + self.pass_streak_len) % 3))
            },
        };
        streak_ok
    }
}

} // verus!
