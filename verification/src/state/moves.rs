//! The elementary moves that every action is made of, each with the change
//! it makes to the model of the state.

use vstd::prelude::*;
use super::rules::{freezes, is_card, thawed};
use super::types::{CutthroatState, FrozenCard, PlayerModel, PointStack, RoyalStack, Seat};
use super::util::{first_where, lemma_first_where_is, next_seat};
use crate::card::Card;

verus! {

/// Index of the first occurrence of `card` in `cards`, or their number.
pub(crate) fn position_of(cards: &Vec<Card>, card: Card) -> (i: usize)
    ensures
        i == first_where(cards@, is_card(card)),
        i <= cards@.len(),
        i < cards@.len() <==> cards@.contains(card),
        i < cards@.len() ==> cards@[i as int] == card,
{
    let mut i: usize = 0;
    while i < cards.len()
        invariant
            i <= cards.len(),
            forall|j: int| 0 <= j < i ==> cards@[j] != card,
        decreases cards.len() - i,
    {
        if cards[i] == card {
            proof {
                lemma_first_where_is(cards@, is_card(card), i as int);
            }
            return i;
        }
        i = i + 1;
    }
    proof {
        lemma_first_where_is(cards@, is_card(card), i as int);
    }
    i
}

/// Index of the first frozen entry for `card`, or the number of entries.
pub(crate) fn frozen_position_of(frozen: &Vec<FrozenCard>, card: Card) -> (i: usize)
    ensures
        i == first_where(frozen@, freezes(card)),
        i <= frozen@.len(),
{
    let mut i: usize = 0;
    while i < frozen.len()
        invariant
            i <= frozen.len(),
            forall|j: int| 0 <= j < i ==> frozen@[j].card != card,
        decreases frozen.len() - i,
    {
        if frozen[i].card == card {
            proof {
                lemma_first_where_is(frozen@, freezes(card), i as int);
            }
            return i;
        }
        i = i + 1;
    }
    proof {
        lemma_first_where_is(frozen@, freezes(card), i as int);
    }
    i
}

impl CutthroatState {
    /// The card joins the hand of `seat`.
    pub(crate) fn give_card(&mut self, seat: Seat, card: Card)
        requires
            old(self).players.len() == 3,
            seat < 3,
        ensures
            final(self)@ == old(self)@.gain(seat, card),
            final(self).players.len() == 3,
    {
        self.players[seat as usize].hand.push(card);
        proof {
            assert(self@.players =~= old(self)@.gain(seat, card).players);
        }
    }

    /// The card leaves the hand of `seat`, and with it the first frozen entry
    /// that names it.
    pub(crate) fn remove_from_hand(&mut self, seat: Seat, card: Card)
        requires
            old(self).players.len() == 3,
            seat < 3,
        ensures
            final(self)@ == old(self)@.lose(seat, card),
            final(self).players.len() == 3,
    {
        let idx = position_of(&self.players[seat as usize].hand, card);
        if idx < self.players[seat as usize].hand.len() {
            self.players[seat as usize].hand.remove(idx);
        }
        let n = self.players[seat as usize].frozen.len();
        let k = frozen_position_of(&self.players[seat as usize].frozen, card);
        if k < n {
            self.players[seat as usize].frozen.remove(k);
        }
        proof {
            assert(self@.players =~= old(self)@.lose(seat, card).players);
        }
    }

    /// The card, in the hand of `seat`, may not be played for one turn.
    pub(crate) fn freeze_card(&mut self, seat: Seat, card: Card)
        requires
            old(self).players.len() == 3,
            seat < 3,
        ensures
            final(self)@ == old(self)@.freeze(seat, card),
            final(self).players.len() == 3,
    {
        self.players[seat as usize].frozen.push(FrozenCard { card, remaining_turns: 1 });
        proof {
            assert(self@.players =~= old(self)@.freeze(seat, card).players);
        }
    }

    /// The card goes on top of the scrap.
    pub(crate) fn scrap_card(&mut self, card: Card)
        ensures
            final(self)@ == old(self)@.scrapping(seq![card]),
            final(self).players == old(self).players,
    {
        self.scrap.push(card);
        proof {
            assert(self@.scrap =~= old(self)@.scrap + seq![card]);
        }
    }

    /// The cards go on top of the scrap, the first of them first.
    pub(crate) fn scrap_cards(&mut self, cards: &Vec<Card>)
        ensures
            final(self)@ == old(self)@.scrapping(cards@),
            final(self).players == old(self).players,
    {
        let mut i: usize = 0;
        proof {
            assert(self@.scrap =~= old(self)@.scrap + cards@.take(0));
        }
        while i < cards.len()
            invariant
                i <= cards.len(),
                self@ == old(self)@.scrapping(cards@.take(i as int)),
                self.players == old(self).players,
            decreases cards.len() - i,
        {
            self.scrap.push(cards[i]);
            proof {
                assert(self@.scrap =~= old(self)@.scrap + cards@.take(i + 1));
            }
            i = i + 1;
        }
        proof {
            assert(cards@.take(cards.len() as int) =~= cards@);
        }
    }

    pub(crate) fn finish_turn(&mut self, seat: Seat)
        requires
            old(self).players.len() == 3,
            seat < 3,
        ensures
            final(self)@ == old(self)@.end_turn(seat),
            final(self).players.len() == 3,
    {
        self.decrement_frozen(seat);
        self.turn = next_seat(seat);
    }

    /// Each frozen card of `seat` waits one turn less; those that have waited
    /// long enough are frozen no more.
    pub(crate) fn decrement_frozen(&mut self, seat: Seat)
        requires
            old(self).players.len() == 3,
            seat < 3,
        ensures
            final(self)@ == old(self)@.with_player(
                seat,
                PlayerModel {
                    frozen: thawed(old(self)@.players[seat as int].frozen),
                    ..old(self)@.players[seat as int]
                },
            ),
            final(self).players.len() == 3,
    {
        let n = self.players[seat as usize].frozen.len();
        let mut kept: Vec<FrozenCard> = Vec::new();
        let mut i: usize = 0;
        proof {
            reveal(Seq::filter);
            assert(self.players[seat as int].frozen@.take(0) =~= Seq::empty());
            assert(thawed(Seq::empty()) =~= Seq::empty());
        }
        while i < n
            invariant
                i <= n,
                seat < 3,
                self.players.len() == 3,
                *self == *old(self),
                n == self.players[seat as int].frozen.len(),
                kept@ == thawed(self.players[seat as int].frozen@.take(i as int)),
            decreases n - i,
        {
            let entry = self.players[seat as usize].frozen[i];
            proof {
                let all = self.players[seat as int].frozen@;
                let keep = |f: FrozenCard| f.remaining_turns > 1;
                assert(all.take(i + 1) =~= all.take(i as int).push(entry));
                all.take(i as int).lemma_filter_push(entry, keep);
            }
            if entry.remaining_turns > 1 {
                kept.push(
                    FrozenCard { card: entry.card, remaining_turns: entry.remaining_turns - 1 },
                );
                proof {
                    let all = self.players[seat as int].frozen@;
                    assert(kept@ =~= thawed(all.take(i + 1)));
                }
            }
            i = i + 1;
        }
        proof {
            let all = self.players[seat as int].frozen@;
            assert(all.take(n as int) =~= all);
        }
        self.players[seat as usize].frozen = kept;
        proof {
            assert(self@.players =~= old(self)@.with_player(
                seat,
                PlayerModel {
                    frozen: thawed(old(self)@.players[seat as int].frozen),
                    ..old(self)@.players[seat as int]
                },
            ).players);
        }
    }

    pub(crate) fn reset_pass_streak(&mut self)
        ensures
            final(self)@ == old(self)@.no_pass_streak(),
            final(self).players == old(self).players,
    {
        self.pass_streak_start = None;
        self.pass_streak_len = 0;
    }

    pub(crate) fn advance_pass_streak(&mut self, seat: Seat)
        requires
            old(self).pass_streak_len < 255,
        ensures
            final(self)@ == old(self)@.one_more_pass(seat),
            final(self).players == old(self).players,
    {
        if self.pass_streak_len == 0 {
            self.pass_streak_start = Some(seat);
            self.pass_streak_len = 1;
        } else {
            self.pass_streak_len += 1;
        }
    }

    pub(crate) fn is_stalemate(&self, seat: Seat) -> (b: bool)
        ensures
            b == self@.is_stalemate(seat),
    {
        match self.pass_streak_start {
            Some(start) => start == seat && self.pass_streak_len > 3,
            None => false,
        }
    }

    /// The point stack at the given place leaves the table.
    pub(crate) fn take_point_stack(&mut self, seat: Seat, idx: usize) -> (stack: PointStack)
        requires
            old(self).players.len() == 3,
            seat < 3,
            idx < old(self).players[seat as int].points.len(),
        ensures
            stack@ == old(self)@.stack_at((seat, idx as int), true),
            final(self)@ == old(self)@.take_stack((seat, idx as int), true),
            final(self).players.len() == 3,
    {
        let stack = self.players[seat as usize].points.remove(idx);
        proof {
            assert(self.players[seat as int]@.points =~= old(self).players[seat as int]@.points.remove(
                idx as int,
            ));
            assert(self@.players =~= old(self)@.take_stack((seat, idx as int), true).players);
        }
        stack
    }

    /// The royal stack at the given place leaves the table.
    pub(crate) fn take_royal_stack(&mut self, seat: Seat, idx: usize) -> (stack: RoyalStack)
        requires
            old(self).players.len() == 3,
            seat < 3,
            idx < old(self).players[seat as int].royals.len(),
        ensures
            stack@ == old(self)@.stack_at((seat, idx as int), false),
            final(self)@ == old(self)@.take_stack((seat, idx as int), false),
            final(self).players.len() == 3,
    {
        let stack = self.players[seat as usize].royals.remove(idx);
        proof {
            assert(self.players[seat as int]@.royals =~= old(self).players[seat as int]@.royals.remove(
                idx as int,
            ));
            assert(self@.players =~= old(self)@.take_stack((seat, idx as int), false).players);
        }
        stack
    }

    /// The point stack comes to lie with `seat`.
    pub(crate) fn put_point_stack(&mut self, seat: Seat, stack: PointStack)
        requires
            old(self).players.len() == 3,
            seat < 3,
        ensures
            final(self)@ == old(self)@.put_stack(seat, true, stack@),
            final(self).players.len() == 3,
    {
        self.players[seat as usize].points.push(stack);
        proof {
            assert(self.players[seat as int]@.points =~= old(self).players[seat as int]@.points.push(
                stack@,
            ));
            assert(self@.players =~= old(self)@.put_stack(seat, true, stack@).players);
        }
    }

    /// The royal stack comes to lie with `seat`.
    pub(crate) fn put_royal_stack(&mut self, seat: Seat, stack: RoyalStack)
        requires
            old(self).players.len() == 3,
            seat < 3,
        ensures
            final(self)@ == old(self)@.put_stack(seat, false, stack@),
            final(self).players.len() == 3,
    {
        self.players[seat as usize].royals.push(stack);
        proof {
            assert(self.players[seat as int]@.royals =~= old(self).players[seat as int]@.royals.push(
                stack@,
            ));
            assert(self@.players =~= old(self)@.put_stack(seat, false, stack@).players);
        }
    }
}

} // verus!
