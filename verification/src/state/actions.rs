//! Carrying out an action: one function for each phase of the game.

use vstd::prelude::*;
use super::rules::{two_card, without_first};
use super::types::{CounterState, CutthroatState, GameModel, Phase, PhaseModel, Seat, Winner};
use super::util::next_seat;
use crate::action::{Action, OneOffTarget, SevenPlay};
use crate::card::Card;

verus! {

/// The cards of the twos that were played into a counter window.
pub(crate) fn two_cards(twos: &Vec<(Seat, Card)>) -> (cards: Vec<Card>)
    ensures
        cards@ == twos@.map_values(two_card()),
{
    let mut cards: Vec<Card> = Vec::new();
    let mut i: usize = 0;
    while i < twos.len()
        invariant
            i <= twos.len(),
            cards@ == twos@.map_values(two_card()).take(i as int),
        decreases twos.len() - i,
    {
        cards.push(twos[i].1);
        assert(cards@ =~= twos@.map_values(two_card()).take(i + 1));
        i = i + 1;
    }
    assert(cards@ =~= twos@.map_values(two_card()));
    cards
}

impl Phase {
    /// Whether the phase waits for a seat to settle a three, four, five or
    /// seven.
    pub(crate) fn is_resolving(&self) -> (b: bool)
        ensures
            b == self@.is_resolving(),
    {
        match self {
            Phase::ResolvingThree { .. } => true,
            Phase::ResolvingFour { .. } => true,
            Phase::ResolvingFive { .. } => true,
            Phase::ResolvingSeven { .. } => true,
            _ => false,
        }
    }
}

impl CutthroatState {
    /// A one-off is played: a counter window opens.
    pub(crate) fn open_window(&mut self, seat: Seat, card: Card, target: OneOffTarget)
        requires
            seat < 3,
        ensures
            final(self)@ == old(self)@.open_window(seat, card, target),
            final(self).players == old(self).players,
    {
        let counter = CounterState {
            base_player: seat,
            oneoff: Action::PlayOneOff { card, target },
            twos: Vec::new(),
            next_seat: next_seat(seat),
            rotation_anchor: seat,
        };
        assert(counter@.twos =~= Seq::empty());
        self.phase = Phase::Countering(counter);
    }

    pub(crate) fn apply_main_action(&mut self, seat: Seat, action: Action)
        requires
            old(self).shaped(),
            old(self)@.phase is Main,
            old(self)@.legal(seat, action),
        ensures
            final(self)@ == old(self)@.step_main(seat, action),
            final(self).players.len() == 3,
    {
        proof {
            reveal(GameModel::legal);
        }
        match action {
            Action::Draw => {
                self.draw_top(seat);
                self.reset_pass_streak();
                self.finish_turn(seat);
            },
            Action::Pass => {
                self.advance_pass_streak(seat);
                if self.is_stalemate(seat) {
                    self.winner = Some(Winner::Draw);
                    self.phase = Phase::GameOver;
                    return ;
                }
                self.finish_turn(seat);
            },
            Action::PlayPoints { card } => {
                self.remove_from_hand(seat, card);
                self.new_point_stack(seat, card);
                self.reset_pass_streak();
                self.finish_turn(seat);
            },
            Action::Scuttle { card, target_point_base } => {
                self.scuttle_stack(seat, card, target_point_base);
                self.remove_from_hand(seat, card);
                self.reset_pass_streak();
                self.finish_turn(seat);
            },
            Action::PlayRoyal { card } => {
                self.remove_from_hand(seat, card);
                self.new_royal_stack(seat, card);
                self.reset_pass_streak();
                self.finish_turn(seat);
            },
            Action::PlayJack { jack, target_point_base } => {
                self.jack_onto(seat, jack, target_point_base);
                self.remove_from_hand(seat, jack);
                self.reset_pass_streak();
                self.finish_turn(seat);
            },
            Action::PlayJoker { joker, target_royal_card } => {
                self.joker_onto(seat, joker, target_royal_card);
                self.remove_from_hand(seat, joker);
                self.reset_pass_streak();
                self.finish_turn(seat);
            },
            Action::PlayOneOff { card, target } => {
                self.remove_from_hand(seat, card);
                self.reset_pass_streak();
                self.open_window(seat, card, target);
            },
            _ => {},
        }
    }

    /// What a one-off does when it resolves.
    pub(crate) fn resolve_oneoff(&mut self, base_player: Seat, card: Card, target: OneOffTarget)
        requires
            old(self)@.table_ok(),
            base_player < 3,
            target matches OneOffTarget::Player { seat } ==> seat < 3,
        ensures
            final(self)@ == old(self)@.resolve_oneoff(base_player, card, target),
            final(self).players.len() == 3,
    {
        let rank = match card.rank_value() {
            Some(v) => v,
            None => {
                return ;
            },
        };
        if rank == 1 {
            self.scrap_all_points();
        } else if rank == 2 {
            self.apply_two_target(base_player, target);
        } else if rank == 3 {
            if self.scrap.len() > 1 {
                self.phase = Phase::ResolvingThree { seat: base_player, base_player };
            }
        } else if rank == 4 {
            match target {
                OneOffTarget::Player { seat } => {
                    if self.players[seat as usize].hand.len() > 0 {
                        self.phase = Phase::ResolvingFour { seat, base_player, remaining: 2 };
                    }
                },
                _ => {},
            }
        } else if rank == 5 {
            if self.players[base_player as usize].hand.len() == 0 {
                self.draw_up_to(base_player, 3);
            } else {
                self.phase = Phase::ResolvingFive {
                    seat: base_player,
                    base_player,
                    discarded: false,
                };
            }
        } else if rank == 6 {
            self.scrap_all_royals();
        } else if rank == 7 {
            let revealed = self.reveal_top_two();
            proof {
                assert(old(self)@.deck.skip(0) =~= old(self)@.deck);
            }
            if revealed.len() > 0 {
                self.phase = Phase::ResolvingSeven { seat: base_player, base_player, revealed };
            }
        } else if rank == 9 {
            self.apply_nine_target(base_player, target);
        }
    }

    /// The counter window closes: the twos and the one-off go to the scrap,
    /// and the one-off resolves if the twos are even in number.
    pub(crate) fn close_window(&mut self, counter: CounterState)
        requires
            old(self)@.table_ok(),
            old(self)@.phase is Main,
            PhaseModel::Countering(counter@).seats_ok(),
        ensures
            final(self)@ == old(self)@.close_window(counter@),
            final(self).players.len() == 3,
    {
        let twos = two_cards(&counter.twos);
        let two_count = counter.twos.len();
        self.scrap_cards(&twos);
        match counter.oneoff {
            Action::PlayOneOff { card, target } => {
                self.scrap_card(card);
                if two_count % 2 == 0 {
                    self.resolve_oneoff(counter.base_player, card, target);
                }
                if !self.phase.is_resolving() {
                    self.finish_turn(counter.base_player);
                }
            },
            _ => {
                self.finish_turn(counter.base_player);
            },
        }
    }

    pub(crate) fn apply_counter_action(&mut self, seat: Seat, action: Action)
        requires
            old(self).shaped(),
            old(self)@.phase is Countering,
            old(self)@.legal(seat, action),
        ensures
            final(self)@ == old(self)@.step_counter(seat, action),
            final(self).players.len() == 3,
    {
        proof {
            reveal(GameModel::legal);
        }
        let mut phase = Phase::Main;
        std::mem::swap(&mut self.phase, &mut phase);
        match phase {
            Phase::Countering(counter) => {
                let mut counter = counter;
                match action {
                    Action::CounterTwo { two_card } => {
                        self.remove_from_hand(seat, two_card);
                        let ghost before = counter@;
                        counter.twos.push((seat, two_card));
                        counter.rotation_anchor = seat;
                        counter.next_seat = next_seat(counter.next_seat);
                        self.phase = Phase::Countering(counter);
                    },
                    Action::CounterPass => {
                        let next = next_seat(counter.next_seat);
                        if next == counter.rotation_anchor {
                            self.close_window(counter);
                        } else {
                            counter.next_seat = next;
                            self.phase = Phase::Countering(counter);
                        }
                    },
                    _ => {
                        self.phase = Phase::Countering(counter);
                    },
                }
            },
            other => {
                self.phase = other;
            },
        }
    }

    pub(crate) fn apply_resolve_three(&mut self, seat: Seat, action: Action)
        requires
            old(self).shaped(),
            old(self)@.phase is ResolvingThree,
            old(self)@.legal(seat, action),
        ensures
            final(self)@ == old(self)@.advance(seat, action),
            final(self).players.len() == 3,
    {
        proof {
            reveal(GameModel::legal);
        }
        let base_player = match self.phase {
            Phase::ResolvingThree { base_player, .. } => base_player,
            _ => seat,
        };
        match action {
            Action::ResolveThreePick { card_from_scrap } => {
                let idx = super::moves::position_of(&self.scrap, card_from_scrap);
                let card = self.scrap.remove(idx);
                proof {
                    assert(self@.scrap =~= without_first(old(self)@.scrap, card_from_scrap));
                }
                self.give_card(seat, card);
                self.phase = Phase::Main;
                self.finish_turn(base_player);
            },
            _ => {},
        }
    }

    pub(crate) fn apply_resolve_four(&mut self, seat: Seat, action: Action)
        requires
            old(self).shaped(),
            old(self)@.phase is ResolvingFour,
            old(self)@.legal(seat, action),
        ensures
            final(self)@ == old(self)@.advance(seat, action),
            final(self).players.len() == 3,
    {
        proof {
            reveal(GameModel::legal);
        }
        let (base_player, remaining) = match self.phase {
            Phase::ResolvingFour { base_player, remaining, .. } => (base_player, remaining),
            _ => (seat, 0),
        };
        match action {
            Action::ResolveFourDiscard { card } => {
                self.remove_from_hand(seat, card);
                self.scrap_card(card);
                if remaining <= 1 || self.players[seat as usize].hand.len() == 0 {
                    self.phase = Phase::Main;
                    self.finish_turn(base_player);
                } else {
                    self.phase = Phase::ResolvingFour {
                        seat,
                        base_player,
                        remaining: remaining - 1,
                    };
                }
            },
            _ => {},
        }
    }

    pub(crate) fn apply_resolve_five(&mut self, seat: Seat, action: Action)
        requires
            old(self).shaped(),
            old(self)@.phase is ResolvingFive,
            old(self)@.legal(seat, action),
        ensures
            final(self)@ == old(self)@.advance(seat, action),
            final(self).players.len() == 3,
    {
        proof {
            reveal(GameModel::legal);
        }
        let base_player = match self.phase {
            Phase::ResolvingFive { base_player, .. } => base_player,
            _ => seat,
        };
        match action {
            Action::ResolveFiveDiscard { card } => {
                self.remove_from_hand(seat, card);
                self.scrap_card(card);
                self.draw_up_to(seat, 3);
                self.phase = Phase::Main;
                self.finish_turn(base_player);
            },
            _ => {},
        }
    }

    /// The cards go back on top of the deck, the first of them topmost.
    pub(crate) fn return_to_deck(&mut self, cards: &Vec<Card>)
        ensures
            final(self)@ == (GameModel { deck: cards@ + old(self)@.deck, ..old(self)@ }),
            final(self).players == old(self).players,
    {
        let mut k: usize = cards.len();
        proof {
            assert(self@.deck =~= cards@.skip(k as int) + old(self)@.deck);
        }
        while k > 0
            invariant
                k <= cards.len(),
                self@ == (GameModel {
                    deck: cards@.skip(k as int) + old(self)@.deck,
                    ..old(self)@
                }),
                self.players == old(self).players,
            decreases k,
        {
            k = k - 1;
            self.deck.insert(0, cards[k]);
            proof {
                assert(self@.deck =~= cards@.skip(k as int) + old(self)@.deck);
            }
        }
        proof {
            assert(cards@.skip(0) =~= cards@);
        }
    }

    pub(crate) fn apply_resolve_seven(&mut self, seat: Seat, action: Action)
        requires
            old(self).shaped(),
            old(self)@.phase is ResolvingSeven,
            old(self)@.legal(seat, action),
        ensures
            final(self)@ == old(self)@.advance(seat, action),
            final(self).players.len() == 3,
    {
        proof {
            reveal(GameModel::legal);
        }
        let (card, play) = match action {
            Action::ResolveSevenChoose { card, play } => (card, play),
            _ => {
                return ;
            },
        };
        let mut phase = Phase::Main;
        std::mem::swap(&mut self.phase, &mut phase);
        let (base_player, mut revealed) = match phase {
            Phase::ResolvingSeven { base_player, revealed, .. } => (base_player, revealed),
            _ => (seat, Vec::new()),
        };
        let idx = super::moves::position_of(&revealed, card);
        if idx < revealed.len() {
            revealed.remove(idx);
        }
        assert(revealed@ == without_first(old(self)@.phase->ResolvingSeven_revealed, card));
        self.return_to_deck(&revealed);
        self.play_revealed(seat, card, play, base_player);
    }

    /// A card that a seven revealed is played in the chosen way.
    pub(crate) fn play_revealed(&mut self, seat: Seat, card: Card, play: SevenPlay, base_player: Seat)
        requires
            old(self)@.table_ok(),
            seat < 3,
            base_player < 3,
            play is Discard || old(self)@.seven_play_ok(seat, card, play),
        ensures
            final(self)@ == old(self)@.play_revealed(seat, card, play, base_player),
            final(self).players.len() == 3,
    {
        match play {
            SevenPlay::Discard => {
                self.scrap_card(card);
                self.finish_turn(base_player);
            },
            SevenPlay::Points => {
                self.new_point_stack(seat, card);
                self.finish_turn(base_player);
            },
            SevenPlay::Scuttle { target } => {
                self.scuttle_stack(seat, card, target);
                self.finish_turn(base_player);
            },
            SevenPlay::Royal => {
                self.new_royal_stack(seat, card);
                self.finish_turn(base_player);
            },
            SevenPlay::Jack { target } => {
                self.jack_onto(seat, card, target);
                self.finish_turn(base_player);
            },
            SevenPlay::Joker { target } => {
                self.joker_onto(seat, card, target);
                self.finish_turn(base_player);
            },
            SevenPlay::OneOff { target } => {
                self.open_window(seat, card, target);
            },
        }
    }
}

} // verus!
