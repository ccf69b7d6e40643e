//! Points, kings and the winner.

use vstd::prelude::*;
use super::rules::points_in;
use super::types::{CutthroatState, Phase, Seat, Winner};

verus! {

impl CutthroatState {
    /// The points of `seat`: the values of the bases of the point stacks it
    /// controls. The count stops at 255, far above any winning score.
    pub(crate) fn points_for(&self, seat: Seat) -> (total: u8)
        requires
            self.players.len() == 3,
            seat < 3,
        ensures
            total as nat == if self@.points(seat) > 255 {
                255
            } else {
                self@.points(seat)
            },
    {
        let ghost all = self@.players[seat as int].points;
        let mut total: u8 = 0;
        let mut i: usize = 0;
        proof {
            assert(all.take(0) =~= Seq::empty());
        }
        while i < self.players[seat as usize].points.len()
            invariant
                self.players.len() == 3,
                seat < 3,
                all == self@.players[seat as int].points,
                i <= self.players[seat as int].points.len(),
                total as nat == if points_in(all.take(i as int), seat) > 255 {
                    255
                } else {
                    points_in(all.take(i as int), seat)
                },
            decreases self.players[seat as int].points.len() - i,
        {
            let stack = &self.players[seat as usize].points[i];
            proof {
                assert(all[i as int] == stack@);
                assert(all.take(i + 1).drop_last() =~= all.take(i as int));
            }
            if stack.controller() == seat {
                let value = stack.base.point_value();
                if total > 255 - value {
                    total = 255;
                } else {
                    total = total + value;
                }
            }
            i = i + 1;
        }
        proof {
            assert(all.take(i as int) =~= all);
        }
        total
    }

    /// The number of kings that `seat` controls.
    pub(crate) fn kings_for(&self, seat: Seat) -> (n: usize)
        requires
            self.players.len() == 3,
            seat < 3,
        ensures
            n == self@.kings(seat),
    {
        self.count_royals(seat, 13)
    }

    /// The points that `seat` needs to win: 14, and fewer with each king.
    pub(crate) fn threshold_for(&self, seat: Seat) -> (t: u8)
        requires
            self.players.len() == 3,
            seat < 3,
        ensures
            t as nat == super::rules::threshold(self@.kings(seat)),
    {
        match self.kings_for(seat) {
            0 => 14,
            1 => 9,
            2 => 5,
            _ => 0,
        }
    }

    pub(crate) fn check_winner(&self) -> (w: Option<Winner>)
        requires
            self.players.len() == 3,
        ensures
            w == self@.winner_now(),
    {
        if let Phase::GameOver = self.phase {
            return self.winner;
        }
        let mut seat: Seat = 0;
        while seat < 3
            invariant
                self.players.len() == 3,
                seat <= 3,
                !(self@.phase is GameOver),
                forall|q: Seat| q < seat ==> !self@.has_won(q),
            decreases 3 - seat,
        {
            if self.points_for(seat) >= self.threshold_for(seat) {
                return Some(Winner::Seat(seat));
            }
            seat = seat + 1;
        }
        None
    }
}

} // verus!
