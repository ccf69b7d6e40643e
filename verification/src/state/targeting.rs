//! Finding the stack that an action is aimed at, and queen protection.

use vstd::prelude::*;
use super::rules::{controlled_eight, controlled_king, controlled_queen, TargetKind};
use super::types::{CutthroatState, Seat, StackModel};
use super::util::{first_where, is_queen, lemma_first_where, lemma_first_where_is};
use crate::card::Card;

verus! {

/// Among the stacks of one seat, some stack satisfies `f` exactly when the
/// first index of one lies within them.
pub proof fn lemma_first_where_exists<T>(s: Seq<T>, f: spec_fn(T) -> bool)
    ensures
        first_where(s, f) < s.len() <==> exists|i: int| 0 <= i < s.len() && f(#[trigger] s[i]),
{
    lemma_first_where(s, f);
    if first_where(s, f) >= s.len() {
        assert forall|i: int| 0 <= i < s.len() implies !f(#[trigger] s[i]) by {}
    } else {
        assert(f(s[first_where(s, f)]));
    }
}

impl TargetKind {
    pub(crate) fn searches_points(self) -> (b: bool)
        ensures
            b == self.on_points(),
    {
        match self {
            TargetKind::Point | TargetKind::Jack => true,
            TargetKind::Royal | TargetKind::Joker => false,
        }
    }
}

impl CutthroatState {
    /// What the engine asks of a state before it reads it.
    pub open spec fn shaped(&self) -> bool {
        self@.shaped()
    }

    pub(crate) fn count_royals(&self, seat: Seat, rank: u8) -> (n: usize)
        requires
            self.players.len() == 3,
            seat < 3,
            rank == 8 || rank == 12 || rank == 13,
        ensures
            rank == 12 ==> n == self@.queens(seat),
            rank == 13 ==> n == self@.kings(seat),
            rank == 8 ==> (n > 0 <==> self@.has_glasses(seat)),
    {
        let ghost all = self@.players[seat as int].royals;
        let ghost f = if rank == 12 {
            controlled_queen(seat)
        } else if rank == 13 {
            controlled_king(seat)
        } else {
            controlled_eight(seat)
        };
        let mut n: usize = 0;
        let mut i: usize = 0;
        proof {
            reveal(Seq::filter);
            assert(all.take(0) =~= Seq::empty());
        }
        while i < self.players[seat as usize].royals.len()
            invariant
                self.players.len() == 3,
                seat < 3,
                all == self@.players[seat as int].royals,
                i <= self.players[seat as int].royals.len(),
                n == all.take(i as int).filter(f).len(),
                n <= i,
                f == if rank == 12 {
                    controlled_queen(seat)
                } else if rank == 13 {
                    controlled_king(seat)
                } else {
                    controlled_eight(seat)
                },
                rank == 8 || rank == 12 || rank == 13,
            decreases self.players[seat as int].royals.len() - i,
        {
            let stack = &self.players[seat as usize].royals[i];
            proof {
                assert(all[i as int] == stack@);
                assert(all.take(i + 1) =~= all.take(i as int).push(stack@));
                all.take(i as int).lemma_filter_push(stack@, f);
            }
            if stack.controller() == seat && stack.base.rank_value() == Some(rank) {
                n = n + 1;
            }
            i = i + 1;
        }
        proof {
            assert(all.take(i as int) =~= all);
        }
        n
    }

    /// The number of queens that `seat` controls.
    pub(crate) fn queen_count_for(&self, seat: Seat) -> (n: usize)
        requires
            self.players.len() == 3,
            seat < 3,
        ensures
            n == self@.queens(seat),
    {
        self.count_royals(seat, 12)
    }

    /// Whether `seat` controls an eight, and so sees every hand.
    pub(crate) fn player_has_glasses(&self, seat: Seat) -> (b: bool)
        requires
            self.players.len() == 3,
            seat < 3,
        ensures
            b == self@.has_glasses(seat),
    {
        self.count_royals(seat, 8) > 0
    }

    /// Queen protection: whether a stack of `target_owner` may be aimed at.
    pub(crate) fn can_target(&self, target_owner: Seat, kind: TargetKind, target_card: Card) -> (b:
        bool)
        requires
            self.players.len() == 3,
            target_owner < 3,
        ensures
            b == self@.can_target(target_owner, kind, target_card),
    {
        let queens = self.queen_count_for(target_owner);
        if queens == 0 {
            return true;
        }
        if queens >= 2 {
            return false;
        }
        match kind {
            TargetKind::Royal => is_queen(target_card),
            _ => false,
        }
    }

    /// Whether `seat`, naming `card`, aims at this stack.
    pub(crate) fn aims_at_stack(
        &self,
        base: Card,
        top: Option<Card>,
        controller: Seat,
        seat: Seat,
        kind: TargetKind,
        card: Card,
        guarded: bool,
        Ghost(st): Ghost<StackModel>,
    ) -> (b: bool)
        requires
            self.players.len() == 3,
            controller < 3,
            st.base == base,
            st.top() == top,
            st.controller() == controller,
        ensures
            b == self@.aims_at(seat, kind, card, guarded)(st),
    {
        let key = match kind {
            TargetKind::Point | TargetKind::Royal => Some(base),
            TargetKind::Jack | TargetKind::Joker => top,
        };
        let shown = match key {
            Some(k) => k == card,
            None => false,
        };
        if !shown || controller == seat {
            return false;
        }
        if guarded {
            self.can_target(controller, kind, card)
        } else {
            true
        }
    }

    /// Whether `seat`, naming `card`, aims at the stack at the given place.
    pub(crate) fn aims_at_place(
        &self,
        p: Seat,
        i: usize,
        seat: Seat,
        kind: TargetKind,
        card: Card,
        guarded: bool,
    ) -> (b: bool)
        requires
            self@.table_ok(),
            p < 3,
            i < self@.stacks(p as int, kind.on_points()).len(),
        ensures
            b == self@.aims_at(seat, kind, card, guarded)(
                self@.stacks(p as int, kind.on_points())[i as int],
            ),
    {
        if kind.searches_points() {
            let stack = &self.players[p as usize].points[i];
            assert(self@.players[p as int].points[i as int] == stack@);
            assert(self@.players[p as int].seats_ok());
            let top = match stack.jacks.len() {
                0 => None,
                n => Some(stack.jacks[n - 1].card),
            };
            self.aims_at_stack(
                stack.base,
                top,
                stack.controller(),
                seat,
                kind,
                card,
                guarded,
                Ghost(stack@),
            )
        } else {
            let stack = &self.players[p as usize].royals[i];
            assert(self@.players[p as int].royals[i as int] == stack@);
            assert(self@.players[p as int].seats_ok());
            let top = match stack.jokers.len() {
                0 => None,
                n => Some(stack.jokers[n - 1].card),
            };
            self.aims_at_stack(
                stack.base,
                top,
                stack.controller(),
                seat,
                kind,
                card,
                guarded,
                Ghost(stack@),
            )
        }
    }

    /// The number of stacks of the kind searched that lie with seat `p`.
    pub(crate) fn stack_count(&self, p: Seat, kind: TargetKind) -> (n: usize)
        requires
            self.players.len() == 3,
            p < 3,
        ensures
            n == self@.stacks(p as int, kind.on_points()).len(),
    {
        if kind.searches_points() {
            self.players[p as usize].points.len()
        } else {
            self.players[p as usize].royals.len()
        }
    }

    /// Where the stack lies that `seat` aims at by naming `card`.
    pub(crate) fn find_target(&self, seat: Seat, kind: TargetKind, card: Card, guarded: bool) -> (r:
        Option<(Seat, usize)>)
        requires
            self@.table_ok(),
        ensures
            match r {
                Some((p, i)) => {
                    &&& self@.find_target(seat, kind, card, guarded) == Some((p, i as int))
                    &&& p < 3
                    &&& i < self@.stacks(p as int, kind.on_points()).len()
                    &&& self@.aims_at(seat, kind, card, guarded)(
                        self@.stack_at((p, i as int), kind.on_points()),
                    )
                },
                None => self@.find_target(seat, kind, card, guarded).is_none(),
            },
    {
        let ghost f = self@.aims_at(seat, kind, card, guarded);
        let ghost on = kind.on_points();
        let mut p: Seat = 0;
        while p < 3
            invariant
                self@.table_ok(),
                p <= 3,
                f == self@.aims_at(seat, kind, card, guarded),
                on == kind.on_points(),
                forall|q: int|
                    0 <= q < p ==> first_where(self@.stacks(q, on), f) >= self@.stacks(q, on).len(),
            decreases 3 - p,
        {
            let n = self.stack_count(p, kind);
            let mut i: usize = 0;
            while i < n
                invariant
                    self@.table_ok(),
                    p < 3,
                    i <= n,
                    n == self@.stacks(p as int, on).len(),
                    f == self@.aims_at(seat, kind, card, guarded),
                    on == kind.on_points(),
                    forall|q: int|
                        0 <= q < p ==> first_where(self@.stacks(q, on), f) >= self@.stacks(
                            q,
                            on,
                        ).len(),
                    forall|j: int| 0 <= j < i ==> !f(#[trigger] self@.stacks(p as int, on)[j]),
                decreases n - i,
            {
                if self.aims_at_place(p, i, seat, kind, card, guarded) {
                    proof {
                        lemma_first_where_is(self@.stacks(p as int, on), f, i as int);
                    }
                    return Some((p, i));
                }
                i = i + 1;
            }
            proof {
                lemma_first_where_is(self@.stacks(p as int, on), f, n as int);
            }
            p = p + 1;
        }
        None
    }

    /// Where the point stack with the given base lies that `seat` aims at.
    pub(crate) fn find_point_stack_by_base(&self, seat: Seat, base: Card, guarded: bool) -> (r:
        Option<(Seat, usize)>)
        requires
            self@.table_ok(),
        ensures
            match r {
                Some((p, i)) => {
                    &&& self@.find_target(seat, TargetKind::Point, base, guarded) == Some(
                        (p, i as int),
                    )
                    &&& p < 3
                    &&& i < self.players[p as int].points.len()
                },
                None => self@.find_target(seat, TargetKind::Point, base, guarded).is_none(),
            },
    {
        self.find_target(seat, TargetKind::Point, base, guarded)
    }

    /// Where the royal stack with the given base lies that `seat` aims at.
    pub(crate) fn find_royal_stack_by_base(&self, seat: Seat, base: Card) -> (r: Option<
        (Seat, usize),
    >)
        requires
            self@.table_ok(),
        ensures
            match r {
                Some((p, i)) => {
                    &&& self@.find_target(seat, TargetKind::Royal, base, true) == Some(
                        (p, i as int),
                    )
                    &&& p < 3
                    &&& i < self.players[p as int].royals.len()
                },
                None => self@.find_target(seat, TargetKind::Royal, base, true).is_none(),
            },
    {
        self.find_target(seat, TargetKind::Royal, base, true)
    }
}

} // verus!
