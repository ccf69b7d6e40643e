//! What the cards do to the table: stacks that change hands, go to the scrap
//! or return to a hand.

use vstd::prelude::*;
use super::rules::{owned_by, pile, riders_pile, stripping, TargetKind};
use super::types::{CutthroatState, GameModel, JackOnStack, JokerOnStack, PlayerModel, PointStack, RoyalStack, Seat};
use crate::action::OneOffTarget;
use crate::card::Card;

verus! {

/// The cards of the point stacks, stack after stack.
pub(crate) fn point_pile(stacks: &Vec<PointStack>) -> (cards: Vec<Card>)
    ensures
        cards@ == pile(stacks@.map_values(|p: PointStack| p@)),
{
    let ghost all = stacks@.map_values(|p: PointStack| p@);
    let mut cards: Vec<Card> = Vec::new();
    let mut i: usize = 0;
    proof {
        assert(all.take(0) =~= Seq::empty());
    }
    while i < stacks.len()
        invariant
            i <= stacks.len(),
            all == stacks@.map_values(|p: PointStack| p@),
            cards@ == pile(all.take(i as int)),
        decreases stacks.len() - i,
    {
        let stack = &stacks[i];
        let mut riders = stack.jack_cards();
        cards.push(stack.base);
        cards.append(&mut riders);
        proof {
            assert(all[i as int] == stack@);
            assert(all.take(i + 1).drop_last() =~= all.take(i as int));
            assert(cards@ =~= pile(all.take(i as int)) + stack@.cards());
        }
        i = i + 1;
    }
    proof {
        assert(all.take(i as int) =~= all);
    }
    cards
}

/// The cards of the royal stacks, stack after stack.
pub(crate) fn royal_pile(stacks: &Vec<RoyalStack>) -> (cards: Vec<Card>)
    ensures
        cards@ == pile(stacks@.map_values(|r: RoyalStack| r@)),
{
    let ghost all = stacks@.map_values(|r: RoyalStack| r@);
    let mut cards: Vec<Card> = Vec::new();
    let mut i: usize = 0;
    proof {
        assert(all.take(0) =~= Seq::empty());
    }
    while i < stacks.len()
        invariant
            i <= stacks.len(),
            all == stacks@.map_values(|r: RoyalStack| r@),
            cards@ == pile(all.take(i as int)),
        decreases stacks.len() - i,
    {
        let stack = &stacks[i];
        let mut riders = stack.joker_cards();
        cards.push(stack.base);
        cards.append(&mut riders);
        proof {
            assert(all[i as int] == stack@);
            assert(all.take(i + 1).drop_last() =~= all.take(i as int));
            assert(cards@ =~= pile(all.take(i as int)) + stack@.cards());
        }
        i = i + 1;
    }
    proof {
        assert(all.take(i as int) =~= all);
    }
    cards
}

impl CutthroatState {
    /// A new point stack of one card, owned by `seat`.
    pub(crate) fn new_point_stack(&mut self, seat: Seat, card: Card)
        requires
            old(self).players.len() == 3,
            seat < 3,
        ensures
            final(self)@ == old(self)@.new_stack(seat, true, card),
            final(self).players.len() == 3,
    {
        let stack = PointStack { base: card, base_owner: seat, jacks: Vec::new() };
        assert(stack@.riders =~= Seq::empty());
        self.put_point_stack(seat, stack);
    }

    /// A new royal stack of one card, owned by `seat`.
    pub(crate) fn new_royal_stack(&mut self, seat: Seat, card: Card)
        requires
            old(self).players.len() == 3,
            seat < 3,
        ensures
            final(self)@ == old(self)@.new_stack(seat, false, card),
            final(self).players.len() == 3,
    {
        let stack = RoyalStack { base: card, base_owner: seat, jokers: Vec::new() };
        assert(stack@.riders =~= Seq::empty());
        self.put_royal_stack(seat, stack);
    }

    /// The point stack that `seat` aims at goes to the scrap, the attacking
    /// card before it.
    pub(crate) fn scuttle_stack(&mut self, seat: Seat, card: Card, target: Card)
        requires
            old(self)@.table_ok(),
            old(self)@.has_target(seat, TargetKind::Point, target, false),
        ensures
            final(self)@ == old(self)@.scuttle(seat, card, target),
            final(self).players.len() == 3,
    {
        match self.find_point_stack_by_base(seat, target, false) {
            Some((p, i)) => {
                let stack = self.take_point_stack(p, i);
                let riders = stack.jack_cards();
                self.scrap_card(card);
                self.scrap_card(stack.base);
                self.scrap_cards(&riders);
                proof {
                    assert(self@.scrap =~= old(self)@.scrap + (seq![card] + stack@.cards()));
                }
            },
            None => {},
        }
    }

    /// `seat` puts `card` on the point stack at the given place and takes
    /// the stack.
    pub(crate) fn seize_point_stack(&mut self, seat: Seat, card: Card, p: Seat, i: usize)
        requires
            old(self).players.len() == 3,
            seat < 3,
            p < 3,
            i < old(self).players[p as int].points.len(),
        ensures
            final(self)@ == old(self)@.seize(seat, card, (p, i as int), true),
            final(self).players.len() == 3,
    {
        let mut stack = self.take_point_stack(p, i);
        let ghost before = stack@;
        stack.jacks.push(JackOnStack { card, owner: seat });
        proof {
            assert(stack@.riders =~= before.ridden_by(card, seat).riders);
        }
        self.put_point_stack(seat, stack);
    }

    /// `seat` puts `card` on the royal stack at the given place and takes
    /// the stack.
    pub(crate) fn seize_royal_stack(&mut self, seat: Seat, card: Card, p: Seat, i: usize)
        requires
            old(self).players.len() == 3,
            seat < 3,
            p < 3,
            i < old(self).players[p as int].royals.len(),
        ensures
            final(self)@ == old(self)@.seize(seat, card, (p, i as int), false),
            final(self).players.len() == 3,
    {
        let mut stack = self.take_royal_stack(p, i);
        let ghost before = stack@;
        stack.jokers.push(JokerOnStack { card, owner: seat });
        proof {
            assert(stack@.riders =~= before.ridden_by(card, seat).riders);
        }
        self.put_royal_stack(seat, stack);
    }

    /// The jack goes onto the point stack that `seat` aims at.
    pub(crate) fn jack_onto(&mut self, seat: Seat, jack: Card, target: Card)
        requires
            old(self)@.table_ok(),
            seat < 3,
            old(self)@.has_target(seat, TargetKind::Point, target, true),
        ensures
            final(self)@ == old(self)@.jack_onto(seat, jack, target),
            final(self).players.len() == 3,
    {
        match self.find_point_stack_by_base(seat, target, true) {
            Some((p, i)) => {
                self.seize_point_stack(seat, jack, p, i);
            },
            None => {},
        }
    }

    /// The joker goes onto the royal stack that `seat` aims at, or onto the
    /// point stack whose topmost jack it names.
    pub(crate) fn joker_onto(&mut self, seat: Seat, joker: Card, target: Card)
        requires
            old(self)@.table_ok(),
            seat < 3,
            old(self)@.joker_lands(seat, target),
        ensures
            final(self)@ == old(self)@.joker_onto(seat, joker, target),
            final(self).players.len() == 3,
    {
        match self.find_royal_stack_by_base(seat, target) {
            Some((p, i)) => {
                self.seize_royal_stack(seat, joker, p, i);
            },
            None => {
                match self.find_target(seat, TargetKind::Jack, target, true) {
                    Some((p, i)) => {
                        self.seize_point_stack(seat, joker, p, i);
                    },
                    None => {},
                }
            },
        }
    }

    /// The topmost jack leaves the point stack at the given place, and the
    /// stack goes to the seat that controls what is left.
    pub(crate) fn unseat_top_jack(&mut self, p: Seat, i: usize) -> (top: JackOnStack)
        requires
            old(self)@.table_ok(),
            p < 3,
            i < old(self).players[p as int].points.len(),
            old(self)@.stack_at((p, i as int), true).riders.len() > 0,
        ensures
            final(self)@ == old(self)@.unseat_top((p, i as int), true),
            top@ == old(self)@.stack_at((p, i as int), true).riders.last(),
            top.owner < 3,
            final(self).players.len() == 3,
    {
        assert(old(self)@.players[p as int].seats_ok());
        let mut stack = self.take_point_stack(p, i);
        let ghost before = stack@;
        assert(before.seats_ok());
        let n = stack.jacks.len();
        let top = stack.jacks[n - 1];
        stack.jacks.pop();
        proof {
            assert(stack@.riders =~= before.without_top().riders);
            assert(top@ == before.riders[n - 1]);
            if n > 1 {
                assert(stack@.riders.last() == before.riders[n - 2]);
            }
        }
        let owner = stack.controller();
        self.put_point_stack(owner, stack);
        top
    }

    /// The topmost joker leaves the royal stack at the given place, and the
    /// stack goes to the seat that controls what is left.
    pub(crate) fn unseat_top_joker(&mut self, p: Seat, i: usize) -> (top: JokerOnStack)
        requires
            old(self)@.table_ok(),
            p < 3,
            i < old(self).players[p as int].royals.len(),
            old(self)@.stack_at((p, i as int), false).riders.len() > 0,
        ensures
            final(self)@ == old(self)@.unseat_top((p, i as int), false),
            top@ == old(self)@.stack_at((p, i as int), false).riders.last(),
            top.owner < 3,
            final(self).players.len() == 3,
    {
        assert(old(self)@.players[p as int].seats_ok());
        let mut stack = self.take_royal_stack(p, i);
        let ghost before = stack@;
        assert(before.seats_ok());
        let n = stack.jokers.len();
        let top = stack.jokers[n - 1];
        stack.jokers.pop();
        proof {
            assert(stack@.riders =~= before.without_top().riders);
            assert(top@ == before.riders[n - 1]);
            if n > 1 {
                assert(stack@.riders.last() == before.riders[n - 2]);
            }
        }
        let owner = stack.controller();
        self.put_royal_stack(owner, stack);
        top
    }

    /// A two takes the topmost jack that it names to the scrap.
    pub(crate) fn scrap_top_jack(&mut self, seat: Seat, jack: Card)
        requires
            old(self)@.table_ok(),
        ensures
            final(self)@ == old(self)@.resolve_two(seat, OneOffTarget::Jack { card: jack }),
            final(self).players.len() == 3,
    {
        match self.find_target(seat, TargetKind::Jack, jack, true) {
            Some((p, i)) => {
                let top = self.unseat_top_jack(p, i);
                self.scrap_card(top.card);
            },
            None => {},
        }
    }

    /// A two takes the topmost joker that it names to the scrap.
    pub(crate) fn scrap_top_joker(&mut self, seat: Seat, joker: Card)
        requires
            old(self)@.table_ok(),
        ensures
            final(self)@ == old(self)@.resolve_two(seat, OneOffTarget::Joker { card: joker }),
            final(self).players.len() == 3,
    {
        match self.find_target(seat, TargetKind::Joker, joker, true) {
            Some((p, i)) => {
                let top = self.unseat_top_joker(p, i);
                self.scrap_card(top.card);
            },
            None => {},
        }
    }

    /// A nine returns the topmost jack that it names to the hand of the seat
    /// that played it, frozen.
    pub(crate) fn return_top_jack(&mut self, seat: Seat, jack: Card)
        requires
            old(self)@.table_ok(),
        ensures
            final(self)@ == old(self)@.resolve_nine(seat, OneOffTarget::Jack { card: jack }),
            final(self).players.len() == 3,
    {
        match self.find_target(seat, TargetKind::Jack, jack, true) {
            Some((p, i)) => {
                let top = self.unseat_top_jack(p, i);
                self.give_card(top.owner, top.card);
                self.freeze_card(top.owner, top.card);
            },
            None => {},
        }
    }

    /// A nine returns the topmost joker that it names to the hand of the seat
    /// that played it, frozen.
    pub(crate) fn return_top_joker(&mut self, seat: Seat, joker: Card)
        requires
            old(self)@.table_ok(),
        ensures
            final(self)@ == old(self)@.resolve_nine(seat, OneOffTarget::Joker { card: joker }),
            final(self).players.len() == 3,
    {
        match self.find_target(seat, TargetKind::Joker, joker, true) {
            Some((p, i)) => {
                let top = self.unseat_top_joker(p, i);
                self.give_card(top.owner, top.card);
                self.freeze_card(top.owner, top.card);
            },
            None => {},
        }
    }

    pub(crate) fn apply_two_target(&mut self, seat: Seat, target: OneOffTarget)
        requires
            old(self)@.table_ok(),
        ensures
            final(self)@ == old(self)@.resolve_two(seat, target),
            final(self).players.len() == 3,
    {
        match target {
            OneOffTarget::Royal { card } => {
                match self.find_royal_stack_by_base(seat, card) {
                    Some((p, i)) => {
                        let stack = self.take_royal_stack(p, i);
                        let riders = stack.joker_cards();
                        self.scrap_card(stack.base);
                        self.scrap_cards(&riders);
                        proof {
                            assert(self@.scrap =~= old(self)@.scrap + stack@.cards());
                        }
                    },
                    None => {},
                }
            },
            OneOffTarget::Jack { card } => {
                self.scrap_top_jack(seat, card);
            },
            OneOffTarget::Joker { card } => {
                self.scrap_top_joker(seat, card);
            },
            _ => {},
        }
    }

    pub(crate) fn apply_nine_target(&mut self, seat: Seat, target: OneOffTarget)
        requires
            old(self)@.table_ok(),
        ensures
            final(self)@ == old(self)@.resolve_nine(seat, target),
            final(self).players.len() == 3,
    {
        match target {
            OneOffTarget::Point { base } => {
                match self.find_point_stack_by_base(seat, base, true) {
                    Some((p, i)) => {
                        assert(self@.players[p as int].seats_ok());
                        let stack = self.take_point_stack(p, i);
                        assert(stack@.seats_ok());
                        let owner = stack.controller();
                        let riders = stack.jack_cards();
                        self.give_card(owner, stack.base);
                        self.freeze_card(owner, stack.base);
                        self.scrap_cards(&riders);
                    },
                    None => {},
                }
            },
            OneOffTarget::Royal { card } => {
                match self.find_royal_stack_by_base(seat, card) {
                    Some((p, i)) => {
                        assert(self@.players[p as int].seats_ok());
                        let stack = self.take_royal_stack(p, i);
                        assert(stack@.seats_ok());
                        let owner = stack.controller();
                        let riders = stack.joker_cards();
                        self.give_card(owner, stack.base);
                        self.freeze_card(owner, stack.base);
                        self.scrap_cards(&riders);
                    },
                    None => {},
                }
            },
            OneOffTarget::Jack { card } => {
                self.return_top_jack(seat, card);
            },
            OneOffTarget::Joker { card } => {
                self.return_top_joker(seat, card);
            },
            _ => {},
        }
    }

    /// The top card of the deck goes to the hand of `seat`.
    pub(crate) fn draw_top(&mut self, seat: Seat)
        requires
            old(self).players.len() == 3,
            seat < 3,
            old(self).deck.len() > 0,
        ensures
            final(self)@ == (GameModel { deck: old(self)@.deck.drop_first(), ..old(self)@ }).gain(
                seat,
                old(self)@.deck[0],
            ),
            final(self).players.len() == 3,
    {
        let card = self.deck.remove(0);
        proof {
            assert(self@.deck =~= old(self)@.deck.drop_first());
        }
        self.give_card(seat, card);
    }

    /// `seat` draws until it has drawn `n` cards, the deck is empty or its
    /// hand is full.
    pub(crate) fn draw_up_to(&mut self, seat: Seat, n: u8)
        requires
            old(self).players.len() == 3,
            seat < 3,
        ensures
            final(self)@ == old(self)@.draw_up_to(seat, n as nat),
            final(self).players.len() == 3,
    {
        let mut draws = n;
        while draws > 0 && self.deck.len() > 0 && self.players[seat as usize].hand.len() < 7
            invariant
                self.players.len() == 3,
                seat < 3,
                old(self)@.draw_up_to(seat, n as nat) == self@.draw_up_to(seat, draws as nat),
            decreases draws,
        {
            self.draw_top(seat);
            draws = draws - 1;
        }
    }

    /// The top two cards of the deck, or the one that is left, leave it.
    pub(crate) fn reveal_top_two(&mut self) -> (revealed: Vec<Card>)
        ensures
            revealed@.len() == if old(self)@.deck.len() < 2 {
                old(self)@.deck.len()
            } else {
                2
            },
            revealed@ == old(self)@.deck.take(revealed@.len() as int),
            final(self)@ == (GameModel {
                deck: old(self)@.deck.skip(revealed@.len() as int),
                ..old(self)@
            }),
            final(self).players == old(self).players,
    {
        let mut revealed: Vec<Card> = Vec::new();
        if self.deck.len() > 0 {
            revealed.push(self.deck[0]);
        }
        if self.deck.len() > 1 {
            revealed.push(self.deck[1]);
        }
        let n = revealed.len();
        let mut k: usize = 0;
        proof {
            assert(revealed@ =~= old(self)@.deck.take(n as int));
            assert(self@.deck =~= old(self)@.deck.skip(0));
        }
        while k < n
            invariant
                k <= n,
                n <= old(self)@.deck.len(),
                self@ == (GameModel { deck: old(self)@.deck.skip(k as int), ..old(self)@ }),
                self.players == old(self).players,
            decreases n - k,
        {
            self.deck.remove(0);
            proof {
                assert(self@.deck =~= old(self)@.deck.skip(k + 1));
            }
            k = k + 1;
        }
        revealed
    }

    /// The point stacks of seat `p` go to the scrap.
    pub(crate) fn scrap_points_of(&mut self, p: Seat)
        requires
            old(self).players.len() == 3,
            p < 3,
        ensures
            final(self)@ == old(self)@.with_player(
                p,
                PlayerModel { points: Seq::empty(), ..old(self)@.players[p as int] },
            ).scrapping(pile(old(self)@.players[p as int].points)),
            final(self).players.len() == 3,
    {
        let cards = point_pile(&self.players[p as usize].points);
        self.players[p as usize].points = Vec::new();
        proof {
            assert(self.players[p as int]@.points =~= Seq::empty());
            assert(self@.players =~= old(self)@.with_player(
                p,
                PlayerModel { points: Seq::empty(), ..old(self)@.players[p as int] },
            ).players);
        }
        self.scrap_cards(&cards);
    }

    /// The royal stacks of seat `p` go to the scrap.
    pub(crate) fn scrap_royals_of(&mut self, p: Seat)
        requires
            old(self).players.len() == 3,
            p < 3,
        ensures
            final(self)@ == old(self)@.with_player(
                p,
                PlayerModel { royals: Seq::empty(), ..old(self)@.players[p as int] },
            ).scrapping(pile(old(self)@.players[p as int].royals)),
            final(self).players.len() == 3,
    {
        let cards = royal_pile(&self.players[p as usize].royals);
        self.players[p as usize].royals = Vec::new();
        proof {
            assert(self.players[p as int]@.royals =~= Seq::empty());
            assert(self@.players =~= old(self)@.with_player(
                p,
                PlayerModel { royals: Seq::empty(), ..old(self)@.players[p as int] },
            ).players);
        }
        self.scrap_cards(&cards);
    }

    /// An ace takes every point stack to the scrap.
    pub(crate) fn scrap_all_points(&mut self)
        requires
            old(self).players.len() == 3,
        ensures
            final(self)@ == old(self)@.scrap_all_points(),
            final(self).players.len() == 3,
    {
        self.scrap_points_of(0);
        self.scrap_points_of(1);
        self.scrap_points_of(2);
        proof {
            let want = old(self)@.scrap_all_points();
            assert(self@.players =~= want.players);
            assert(self@.scrap =~= want.scrap);
        }
    }

    /// Every point stack leaves its seat, in seat order.
    pub(crate) fn collect_points(&mut self) -> (all: Vec<PointStack>)
        requires
            old(self).players.len() == 3,
        ensures
            all@.map_values(|p: PointStack| p@) == old(self)@.all_points(),
            final(self)@ == (GameModel {
                players: old(self)@.players.map_values(
                    |p: PlayerModel| PlayerModel { points: Seq::empty(), ..p },
                ),
                ..old(self)@
            }),
            final(self).players.len() == 3,
    {
        let mut all: Vec<PointStack> = Vec::new();
        all.append(&mut self.players[0].points);
        all.append(&mut self.players[1].points);
        all.append(&mut self.players[2].points);
        proof {
            assert(all@.map_values(|p: PointStack| p@) =~= old(self)@.all_points());
            assert(self.players[0]@.points =~= Seq::empty());
            assert(self.players[1]@.points =~= Seq::empty());
            assert(self.players[2]@.points =~= Seq::empty());
            assert(self@.players =~= old(self)@.players.map_values(
                |p: PlayerModel| PlayerModel { points: Seq::empty(), ..p },
            ));
        }
        all
    }

    /// A six takes every royal stack to the scrap, and every jack with them.
    /// The point stacks, bare again, lie with the owners of their bases.
    pub(crate) fn scrap_all_royals(&mut self)
        requires
            old(self)@.table_ok(),
        ensures
            final(self)@ == old(self)@.scrap_all_royals(),
            final(self).players.len() == 3,
    {
        let ghost start = self@;
        self.scrap_royals_of(0);
        self.scrap_royals_of(1);
        self.scrap_royals_of(2);
        let ghost royals = pile(start.players[0].royals) + pile(start.players[1].royals) + pile(
            start.players[2].royals,
        );
        proof {
            assert(self@.scrap =~= start.scrap + royals);
            assert(self@.all_points() == start.all_points());
        }
        let all = self.collect_points();
        let ghost models = all@.map_values(|p: PointStack| p@);
        let ghost bare = models.map_values(stripping());
        let ghost cleared = self@;
        proof {
            reveal(Seq::filter);
            assert(models.take(0) =~= Seq::empty());
            assert(bare.take(0) =~= Seq::empty());
            assert(self@.scrap =~= start.scrap + (royals + riders_pile(models.take(0))));
            assert forall|i: int| 0 <= i < models.len() implies (#[trigger] models[i]).seats_ok() by {
                let n0 = start.players[0].points.len();
                let n1 = start.players[1].points.len();
                assert(start.players[0].seats_ok());
                assert(start.players[1].seats_ok());
                assert(start.players[2].seats_ok());
                if i < n0 {
                    assert(models[i] == start.players[0].points[i]);
                } else if i < n0 + n1 {
                    assert(models[i] == start.players[1].points[i - n0]);
                } else {
                    assert(models[i] == start.players[2].points[i - n0 - n1]);
                }
            }
        }
        let mut i: usize = 0;
        while i < all.len()
            invariant
                i <= all.len(),
                self.players.len() == 3,
                models == all@.map_values(|p: PointStack| p@),
                bare == models.map_values(stripping()),
                forall|k: int| 0 <= k < models.len() ==> (#[trigger] models[k]).seats_ok(),
                forall|p: int|
                    0 <= p < 3 ==> (#[trigger] self@.players[p]) == (PlayerModel {
                        points: bare.take(i as int).filter(owned_by(p)),
                        ..cleared.players[p]
                    }),
                self@.scrap == start.scrap + (royals + riders_pile(models.take(i as int))),
                self@ == (GameModel { players: self@.players, scrap: self@.scrap, ..cleared }),
            decreases all.len() - i,
        {
            let stack = &all[i];
            let owner = stack.base_owner;
            let riders = stack.jack_cards();
            let ghost before = self@;
            proof {
                assert(models[i as int] == stack@);
                assert(stack@.seats_ok());
            }
            self.scrap_cards(&riders);
            let bare_stack = PointStack { base: stack.base, base_owner: owner, jacks: Vec::new() };
            proof {
                assert(bare_stack@.riders =~= Seq::empty());
                assert(bare_stack@ == stack@.stripped());
            }
            self.put_point_stack(owner, bare_stack);
            proof {
                assert(models.take(i + 1).drop_last() =~= models.take(i as int));
                assert(self@.scrap =~= start.scrap + (royals + riders_pile(models.take(i + 1))));
                assert(bare.take(i + 1) =~= bare.take(i as int).push(stack@.stripped()));
                assert forall|p: int| 0 <= p < 3 implies (#[trigger] self@.players[p]) == (
                PlayerModel {
                    points: bare.take(i + 1).filter(owned_by(p)),
                    ..cleared.players[p]
                }) by {
                    bare.take(i as int).lemma_filter_push(stack@.stripped(), owned_by(p));
                    assert(before.players[p] == (PlayerModel {
                        points: bare.take(i as int).filter(owned_by(p)),
                        ..cleared.players[p]
                    }));
                }
            }
            i = i + 1;
        }
        proof {
            let want = start.scrap_all_royals();
            assert(models.take(i as int) =~= models);
            assert(bare.take(i as int) =~= bare);
            assert(self@.players =~= want.players);
            assert(self@.scrap =~= want.scrap);
        }
    }
}

} // verus!
