//! Setting a game up and moving it on.

use vstd::prelude::*;
use rand::seq::SliceRandom;
use super::legal::action_in;
use super::types::{
    CutthroatState, Event, GameModel, Phase, PlayerModel, PlayerState, RuleError, Seat, Winner,
};
use super::util::next_seat;
use crate::action::Action;
use crate::card::{full_deck, full_deck_with_jokers, Card};

verus! {

/// Shuffles the cards with `rand`'s `SliceRandom::shuffle`, drawing on the
/// thread's random number generator from `rand::thread_rng`. The shuffle
/// exchanges cards of the slice with one another and does nothing else, so
/// what comes back are the same cards, each as often as before; in which
/// order is left open. Nothing here is proved: it is what `rand` is taken to
/// do. The generator is seeded by the system when a thread first asks for it,
/// and `rand` gives up if the system has no randomness to give.
#[verifier::external_body]
fn shuffle_cards(deck: &mut Vec<Card>)
    ensures
        final(deck)@.to_multiset() == old(deck)@.to_multiset(),
        final(deck)@.len() == old(deck)@.len(),
{
    let mut rng = rand::thread_rng();
    deck.shuffle(&mut rng);
}

/// The events that a step reports: the end of the game, if it ended.
pub open spec fn events_of(winner: Option<Winner>) -> Seq<Event> {
    match winner {
        Some(w) => seq![Event::GameOver(w)],
        None => Seq::empty(),
    }
}

impl CutthroatState {
    /// Deals a game from the given deck, top first: five cards to each seat,
    /// one at a time, beginning with the seat after the dealer. That seat
    /// plays first.
    pub fn new_with_deck(dealer: Seat, deck: Vec<Card>) -> (state: Self)
        requires
            dealer < 3,
            deck@.len() >= 15,
        ensures
            state@ == GameModel::initial(dealer, deck@),
    {
        let mut deck = deck;
        let ghost full = deck@;
        let first = next_seat(dealer);
        let second = next_seat(first);
        let third = next_seat(second);
        let mut players: Vec<PlayerState> = Vec::new();
        players.push(PlayerState::new());
        players.push(PlayerState::new());
        players.push(PlayerState::new());
        let mut round: usize = 0;
        proof {
            assert(deck@ =~= full.skip(0));
            assert forall|p: int| 0 <= p < 3 implies (#[trigger] players[p])@ == dealt(
                full,
                first,
                p,
                0,
            ) by {
                assert(players[p]@.hand =~= dealt(full, first, p, 0).hand);
            }
        }
        while round < 5
            invariant
                round <= 5,
                full.len() >= 15,
                first < 3,
                second == spec_next(first),
                third == spec_next(second),
                players.len() == 3,
                deck@ == full.skip(3 * round),
                forall|p: int|
                    0 <= p < 3 ==> (#[trigger] players[p])@ == dealt(full, first, p, round as int),
            decreases 5 - round,
        {
            let a = deck.remove(0);
            players[first as usize].hand.push(a);
            let b = deck.remove(0);
            players[second as usize].hand.push(b);
            let c = deck.remove(0);
            players[third as usize].hand.push(c);
            proof {
                assert(deck@ =~= full.skip(3 * (round + 1)));
                assert forall|p: int| 0 <= p < 3 implies (#[trigger] players[p])@ == dealt(
                    full,
                    first,
                    p,
                    round + 1,
                ) by {
                    assert(players[p]@.hand =~= dealt(full, first, p, round + 1).hand);
                }
            }
            round = round + 1;
        }
        let state = Self {
            dealer,
            turn: first,
            phase: Phase::Main,
            deck,
            scrap: Vec::new(),
            players,
            pass_streak_start: None,
            pass_streak_len: 0,
            winner: None,
        };
        proof {
            let want = GameModel::initial(dealer, full);
            assert(state@.players =~= want.players) by {
                assert forall|p: int| 0 <= p < 3 implies state@.players[p] == want.players[p] by {
                    assert(state.players[p]@.hand =~= want.players[p].hand);
                }
            }
            assert(state@.scrap =~= want.scrap);
            assert(state@.deck =~= want.deck);
        }
        state
    }

    /// Deals a game from a full deck in random order.
    pub fn new_shuffled(dealer: Seat) -> (state: Self)
        requires
            dealer < 3,
        ensures
            exists|deck: Seq<Card>|
                deck.to_multiset() == full_deck().to_multiset() && #[trigger] GameModel::initial(
                    dealer,
                    deck,
                ) == state@,
    {
        let mut deck = full_deck_with_jokers();
        shuffle_cards(&mut deck);
        let ghost shuffled = deck@;
        let state = Self::new_with_deck(dealer, deck);
        assert(GameModel::initial(dealer, shuffled) == state@);
        state
    }

    /// Carries out the action for `seat` if it is legal, and then looks for
    /// a winner. An action that is not legal leaves the state as it is.
    pub fn apply(&mut self, seat: Seat, action: Action) -> (r: Result<Vec<Event>, RuleError>)
        requires
            old(self).shaped(),
        ensures
            final(self).shaped(),
            match r {
                Ok(events) => {
                    &&& old(self)@.legal(seat, action)
                    &&& final(self)@ == old(self)@.step(seat, action)
                    &&& events@ == events_of(old(self)@.advance(seat, action).winner_now())
                },
                Err(e) => {
                    &&& !old(self)@.legal(seat, action)
                    &&& *final(self) == *old(self)
                    &&& e == if old(self)@.phase is GameOver {
                        RuleError::GameOver
                    } else {
                        RuleError::IllegalAction
                    }
                },
            },
    {
        proof {
            reveal(GameModel::legal);
            reveal(GameModel::step);
        }
        if let Phase::GameOver = self.phase {
            return Err(RuleError::GameOver);
        }
        let legal = self.legal_actions(seat);
        if !action_in(&legal, action) {
            return Err(RuleError::IllegalAction);
        }
        match self.phase {
            Phase::Main => {
                self.apply_main_action(seat, action);
            },
            Phase::Countering(_) => {
                self.apply_counter_action(seat, action);
            },
            Phase::ResolvingThree { .. } => {
                self.apply_resolve_three(seat, action);
            },
            Phase::ResolvingFour { .. } => {
                self.apply_resolve_four(seat, action);
            },
            Phase::ResolvingFive { .. } => {
                self.apply_resolve_five(seat, action);
            },
            Phase::ResolvingSeven { .. } => {
                self.apply_resolve_seven(seat, action);
            },
            Phase::GameOver => {},
        }
        proof {
            super::shape::lemma_step_keeps_shape(old(self)@, seat, action);
        }
        let mut events: Vec<Event> = Vec::new();
        match self.check_winner() {
            Some(winner) => {
                self.winner = Some(winner);
                self.phase = Phase::GameOver;
                events.push(Event::GameOver(winner));
            },
            None => {},
        }
        Ok(events)
    }
}

/// The seat after `seat`.
pub open spec fn spec_next(seat: Seat) -> Seat {
    super::util::spec_next_seat(seat)
}

/// A player after `rounds` rounds of the deal: the cards that came to seat
/// `p` when the seat `first` was dealt to first.
pub open spec fn dealt(deck: Seq<Card>, first: Seat, p: int, rounds: int) -> PlayerModel {
    PlayerModel {
        hand: Seq::new(rounds as nat, |j: int| deck[3 * j + (p + 3 - first) % 3]),
        ..PlayerModel::empty()
    }
}

} // verus!
