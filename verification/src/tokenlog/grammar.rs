//! How a game is written: the atoms of the header, of each action and of
//! the snapshot of hands that follows an eight, and how atoms are read back
//! as actions.

use vstd::prelude::*;
use super::types::{LogModel, TokenError};
use crate::action::{Action, OneOffTarget, SevenPlay};
use crate::card::Card;
use crate::state::util::{
    first_where, spec_is_jack, spec_is_joker, spec_is_plain_royal, spec_next_seat,
};
use crate::state::{GameModel, PhaseModel, Seat, StackModel, TargetKind};
use crate::tokens::{atoms_of, Token};

verus! {

/// The atom of a seat.
pub open spec fn seat_atom(seat: Seat) -> Token {
    if seat == 0 {
        Token::P0
    } else if seat == 1 {
        Token::P1
    } else if seat == 2 {
        Token::P2
    } else {
        Token::P3
    }
}

/// Writing a card as its atom.
pub open spec fn atom_of() -> spec_fn(Card) -> Token {
    |c: Card| Token::of_card(c)
}

pub open spec fn card_atoms(cards: Seq<Card>) -> Seq<Token> {
    cards.map_values(atom_of())
}

/// The header of a log: version, game, dealer and the deck between its two
/// brackets.
pub open spec fn header_atoms(dealer: Seat, deck: Seq<Card>) -> Seq<Token> {
    seq![
        Token::V1,
        Token::Cutthroat3P,
        Token::Dealer,
        if dealer <= 3 {
            seat_atom(dealer)
        } else {
            Token::P0
        },
        Token::Deck,
    ] + card_atoms(deck) + seq![Token::EndDeck]
}

/// The target of a one-off, written after its card: nothing, a seat or a
/// card.
pub open spec fn target_atoms(target: OneOffTarget) -> Seq<Token> {
    match target {
        OneOffTarget::NoTarget => Seq::empty(),
        OneOffTarget::Player { seat } => if seat <= 3 {
            seq![seat_atom(seat)]
        } else {
            Seq::empty()
        },
        OneOffTarget::Point { base } => seq![Token::of_card(base)],
        OneOffTarget::Royal { card } => seq![Token::of_card(card)],
        OneOffTarget::Jack { card } => seq![Token::of_card(card)],
        OneOffTarget::Joker { card } => seq![Token::of_card(card)],
    }
}

/// A card played in the given way, as a main-phase play or as the choice
/// among what a seven revealed: both are written alike.
pub open spec fn play_atoms(card: Card, play: SevenPlay) -> Seq<Token> {
    let c = Token::of_card(card);
    match play {
        SevenPlay::Points => seq![Token::Points, c],
        SevenPlay::Scuttle { target } => seq![Token::Scuttle, c, Token::of_card(target)],
        SevenPlay::Royal => seq![Token::PlayRoyal, c],
        SevenPlay::Jack { target } => seq![Token::PlayRoyal, c, Token::of_card(target)],
        SevenPlay::Joker { target } => seq![Token::PlayRoyal, c, Token::of_card(target)],
        SevenPlay::OneOff { target } => seq![Token::OneOff, c] + target_atoms(target),
        SevenPlay::Discard => seq![Token::Discard, c],
    }
}

/// The atoms of an action, the seat and the snapshot aside. A draw names the
/// card that lies on top of the deck.
pub open spec fn body_atoms(s: GameModel, a: Action) -> Seq<Token> {
    match a {
        Action::Draw => seq![Token::Draw, Token::of_card(s.deck[0])],
        Action::Pass => seq![Token::Pass],
        Action::PlayPoints { card } => play_atoms(card, SevenPlay::Points),
        Action::Scuttle { card, target_point_base } => play_atoms(
            card,
            SevenPlay::Scuttle { target: target_point_base },
        ),
        Action::PlayRoyal { card } => play_atoms(card, SevenPlay::Royal),
        Action::PlayJack { jack, target_point_base } => play_atoms(
            jack,
            SevenPlay::Jack { target: target_point_base },
        ),
        Action::PlayJoker { joker, target_royal_card } => play_atoms(
            joker,
            SevenPlay::Joker { target: target_royal_card },
        ),
        Action::PlayOneOff { card, target } => play_atoms(card, SevenPlay::OneOff { target }),
        Action::CounterTwo { two_card } => seq![Token::Counter, Token::of_card(two_card)],
        Action::CounterPass => seq![Token::Resolve],
        Action::ResolveThreePick { card_from_scrap } => seq![
            Token::Resolve,
            Token::of_card(card_from_scrap),
        ],
        Action::ResolveFourDiscard { card } => seq![
            Token::Resolve,
            Token::Discard,
            Token::of_card(card),
        ],
        Action::ResolveFiveDiscard { card } => seq![Token::Discard, Token::of_card(card)],
        Action::ResolveSevenChoose { card, play } => play_atoms(card, play),
    }
}

pub open spec fn is_eight(card: Card) -> bool {
    card.spec_rank_value() == Some(8u8)
}

/// Whether the action makes its seat the controller of an eight played as
/// a royal, so that it sees every hand from now on.
pub open spec fn puts_on_glasses(a: Action) -> bool {
    match a {
        Action::PlayRoyal { card } => is_eight(card),
        Action::ResolveSevenChoose { card, play: SevenPlay::Royal } => is_eight(card),
        _ => false,
    }
}

/// The hands of the two other seats as `actor` sees them: for each, in turn
/// order, its seat and its cards.
pub open spec fn snapshot_atoms(s: GameModel, actor: Seat) -> Seq<Token> {
    let one = spec_next_seat(actor);
    let two = spec_next_seat(one);
    seq![seat_atom(one)] + card_atoms(s.players[one as int].hand) + seq![seat_atom(two)]
        + card_atoms(s.players[two as int].hand)
}

/// The atoms of an action that `seat` takes in the state `s`, the seat
/// aside. With `snapshot`, the hands of the other seats follow an eight
/// played as a royal.
pub open spec fn action_atoms(s: GameModel, seat: Seat, a: Action, snapshot: bool) -> Seq<Token> {
    if snapshot && puts_on_glasses(a) {
        body_atoms(s, a) + snapshot_atoms(s, seat)
    } else {
        body_atoms(s, a)
    }
}

/// One line of the log: the seat and its action.
pub open spec fn line_atoms(s: GameModel, seat: Seat, a: Action, snapshot: bool) -> Seq<Token> {
    seq![seat_atom(seat)] + action_atoms(s, seat, a, snapshot)
}

// ----------------------------------------------------------------------
// Reading
// ----------------------------------------------------------------------
pub open spec fn atom_at(parts: Seq<Token>, i: int) -> Option<Token> {
    if 0 <= i < parts.len() {
        Some(parts[i])
    } else {
        None
    }
}

/// The seat of the table that an atom names.
pub open spec fn seat_of(tok: Token) -> Result<Seat, TokenError> {
    match tok.spec_seat() {
        Some(n) => if n < 3 {
            Ok(n)
        } else {
            Err(TokenError::InvalidFormat)
        },
        None => Err(TokenError::InvalidFormat),
    }
}

/// The card that the atom at place `i` names.
pub open spec fn card_at(parts: Seq<Token>, i: int) -> Result<Card, TokenError> {
    match atom_at(parts, i) {
        None => Err(TokenError::InvalidFormat),
        Some(tok) => match tok.spec_card() {
            Some(c) => Ok(c),
            None => Err(TokenError::UnknownCard),
        },
    }
}

/// Showing `card` as the base, or as the topmost rider.
pub open spec fn shows(kind: TargetKind, card: Card) -> spec_fn(StackModel) -> bool {
    |st: StackModel| kind.key(st) == Some(card)
}

/// Whether some stack of the table shows `card` in the given way.
pub open spec fn on_table(s: GameModel, kind: TargetKind, card: Card) -> bool {
    let f = shows(kind, card);
    let on = kind.on_points();
    ||| first_where(s.stacks(0, on), f) < s.stacks(0, on).len()
    ||| first_where(s.stacks(1, on), f) < s.stacks(1, on).len()
    ||| first_where(s.stacks(2, on), f) < s.stacks(2, on).len()
}

/// What a card written as a one-off's target is taken for: the base of a
/// point stack, else the base of a royal stack, else the topmost jack of a
/// point stack, else the topmost joker of a royal stack.
pub open spec fn inferred_target(s: GameModel, card: Card) -> Result<OneOffTarget, TokenError> {
    if on_table(s, TargetKind::Point, card) {
        Ok(OneOffTarget::Point { base: card })
    } else if on_table(s, TargetKind::Royal, card) {
        Ok(OneOffTarget::Royal { card })
    } else if on_table(s, TargetKind::Jack, card) {
        Ok(OneOffTarget::Jack { card })
    } else if on_table(s, TargetKind::Joker, card) {
        Ok(OneOffTarget::Joker { card })
    } else {
        Err(TokenError::InvalidFormat)
    }
}

/// The target written at place `i` after the one-off `card`, and the place
/// after it. A seat is a target only for a four.
pub open spec fn read_target(parts: Seq<Token>, i: int, card: Card, s: GameModel) -> Result<
    (OneOffTarget, int),
    TokenError,
> {
    match atom_at(parts, i) {
        None => Ok((OneOffTarget::NoTarget, i)),
        Some(tok) => match seat_of(tok) {
            Ok(seat) => if card.spec_rank_value() == Some(4u8) {
                Ok((OneOffTarget::Player { seat }, i + 1))
            } else {
                Ok((OneOffTarget::NoTarget, i))
            },
            Err(_) => match tok.spec_card() {
                Some(c) => match inferred_target(s, c) {
                    Ok(t) => Ok((t, i + 1)),
                    Err(e) => Err(e),
                },
                None => Ok((OneOffTarget::NoTarget, i)),
            },
        },
    }
}

/// The place after the cards of `hand`, written from place `i` on.
pub open spec fn after_hand(parts: Seq<Token>, i: int, hand: Seq<Card>) -> Result<int, TokenError>
    decreases hand.len(),
{
    if hand.len() == 0 {
        Ok(i)
    } else {
        match card_at(parts, i) {
            Err(e) => Err(e),
            Ok(c) => if c == hand[0] {
                after_hand(parts, i + 1, hand.drop_first())
            } else {
                Err(TokenError::InvalidFormat)
            },
        }
    }
}

/// The place after the hand of seat `opp`, written from place `i` on with
/// its seat before it.
pub open spec fn after_seat_and_hand(parts: Seq<Token>, i: int, opp: Seat, hand: Seq<Card>)
    -> Result<int, TokenError> {
    match atom_at(parts, i) {
        None => Err(TokenError::InvalidFormat),
        Some(tok) => if seat_of(tok) == Ok::<Seat, TokenError>(opp) {
            after_hand(parts, i + 1, hand)
        } else {
            Err(TokenError::InvalidFormat)
        },
    }
}

/// Whether a new line begins at place `i`: a seat, then a verb.
pub open spec fn line_begins(parts: Seq<Token>, i: int) -> bool {
    match (atom_at(parts, i), atom_at(parts, i + 1)) {
        (Some(seat), Some(verb)) => seat_of(seat).is_ok() && verb.spec_is_verb(),
        _ => false,
    }
}

/// The seat that is to act in the state, or the seat at turn when the game
/// is over.
pub open spec fn actor_of(s: GameModel) -> Seat {
    match s.phase.actor(s.turn) {
        Some(seat) => seat,
        None => s.turn,
    }
}

/// The place after the snapshot written from place `i` on. The snapshot must
/// show the hands as they are in the state, and a new line or nothing must
/// follow it.
pub open spec fn read_snapshot(parts: Seq<Token>, i: int, s: GameModel) -> Result<int, TokenError> {
    let one = spec_next_seat(actor_of(s));
    let two = spec_next_seat(one);
    match after_seat_and_hand(parts, i, one, s.players[one as int].hand) {
        Err(e) => Err(e),
        Ok(j) => match after_seat_and_hand(parts, j, two, s.players[two as int].hand) {
            Err(e) => Err(e),
            Ok(k) => if k == parts.len() || line_begins(parts, k) {
                Ok(k)
            } else {
                Err(TokenError::InvalidFormat)
            },
        },
    }
}

/// The choice of a card that a seven revealed: the card must be among those
/// revealed.
pub open spec fn seven_choice(s: GameModel, card: Card, play: SevenPlay) -> Result<
    Action,
    TokenError,
> {
    match s.phase {
        PhaseModel::ResolvingSeven { revealed, .. } => if revealed.contains(card) {
            Ok(Action::ResolveSevenChoose { card, play })
        } else {
            Err(TokenError::InvalidFormat)
        },
        _ => Err(TokenError::UnknownAction),
    }
}

/// What a play is in the phase of the state: the choice of a revealed card
/// while a seven resolves, else a play from the hand.
pub open spec fn play_in(s: GameModel, card: Card, play: SevenPlay) -> Result<Action, TokenError> {
    if s.phase is ResolvingSeven {
        seven_choice(s, card, play)
    } else {
        Ok(crate::state::legal::play_as(false, card, play))
    }
}

/// A draw: the card named must be the one on top of the deck.
pub open spec fn read_draw(parts: Seq<Token>, i: int, s: GameModel) -> Result<
    (Action, int),
    TokenError,
> {
    match card_at(parts, i) {
        Err(e) => Err(e),
        Ok(c) => if s.deck.len() > 0 && s.deck[0] == c {
            Ok((Action::Draw, i + 1))
        } else {
            Err(TokenError::InvalidFormat)
        },
    }
}

/// What follows `resolve`: nothing in a counter window, the card picked
/// after a three, `discard` and the card after a four.
pub open spec fn read_resolve(parts: Seq<Token>, i: int, s: GameModel) -> Result<
    (Action, int),
    TokenError,
> {
    match s.phase {
        PhaseModel::Countering(_) => Ok((Action::CounterPass, i)),
        PhaseModel::ResolvingThree { .. } => match card_at(parts, i) {
            Err(e) => Err(e),
            Ok(c) => Ok((Action::ResolveThreePick { card_from_scrap: c }, i + 1)),
        },
        PhaseModel::ResolvingFour { .. } => if atom_at(parts, i) == Some(Token::Discard) {
            match card_at(parts, i + 1) {
                Err(e) => Err(e),
                Ok(c) => Ok((Action::ResolveFourDiscard { card: c }, i + 2)),
            }
        } else {
            Err(TokenError::InvalidFormat)
        },
        _ => Err(TokenError::UnknownAction),
    }
}

/// What follows `discard`: the card given up after a five, or the revealed
/// card that a seven leaves no play for.
pub open spec fn read_discard(parts: Seq<Token>, i: int, s: GameModel) -> Result<
    (Action, int),
    TokenError,
> {
    match card_at(parts, i) {
        Err(e) => Err(e),
        Ok(c) => match s.phase {
            PhaseModel::ResolvingFive { .. } => Ok((Action::ResolveFiveDiscard { card: c }, i + 1)),
            PhaseModel::ResolvingSeven { .. } => match seven_choice(s, c, SevenPlay::Discard) {
                Err(e) => Err(e),
                Ok(a) => Ok((a, i + 1)),
            },
            _ => Err(TokenError::UnknownAction),
        },
    }
}

/// What follows `scuttle`: the attacking card and the base it attacks.
pub open spec fn read_scuttle(parts: Seq<Token>, i: int, s: GameModel) -> Result<
    (Action, int),
    TokenError,
> {
    match card_at(parts, i) {
        Err(e) => Err(e),
        Ok(c) => match card_at(parts, i + 1) {
            Err(e) => Err(e),
            Ok(t) => match play_in(s, c, SevenPlay::Scuttle { target: t }) {
                Err(e) => Err(e),
                Ok(a) => Ok((a, i + 2)),
            },
        },
    }
}

/// What follows `playRoyal`: a jack or a joker with its target, or an
/// eight, a queen or a king; after an eight, the snapshot of the hands.
pub open spec fn read_royal(parts: Seq<Token>, i: int, s: GameModel) -> Result<
    (Action, int),
    TokenError,
> {
    match card_at(parts, i) {
        Err(e) => Err(e),
        Ok(c) => if spec_is_jack(c) || spec_is_joker(c) {
            match card_at(parts, i + 1) {
                Err(e) => Err(e),
                Ok(t) => {
                    let play = if spec_is_jack(c) {
                        SevenPlay::Jack { target: t }
                    } else {
                        SevenPlay::Joker { target: t }
                    };
                    match play_in(s, c, play) {
                        Err(e) => Err(e),
                        Ok(a) => Ok((a, i + 2)),
                    }
                },
            }
        } else if spec_is_plain_royal(c) {
            let after = if is_eight(c) {
                read_snapshot(parts, i + 1, s)
            } else {
                Ok(i + 1)
            };
            match after {
                Err(e) => Err(e),
                Ok(n) => match play_in(s, c, SevenPlay::Royal) {
                    Err(e) => Err(e),
                    Ok(a) => Ok((a, n)),
                },
            }
        } else {
            Err(TokenError::UnknownAction)
        },
    }
}

/// What follows `oneOff`: the card and its target.
pub open spec fn read_oneoff(parts: Seq<Token>, i: int, s: GameModel) -> Result<
    (Action, int),
    TokenError,
> {
    match card_at(parts, i) {
        Err(e) => Err(e),
        Ok(c) => match read_target(parts, i + 1, c, s) {
            Err(e) => Err(e),
            Ok((target, n)) => match play_in(s, c, SevenPlay::OneOff { target }) {
                Err(e) => Err(e),
                Ok(a) => Ok((a, n)),
            },
        },
    }
}

/// The action written from place `i` on, read in the state `s`, and the
/// place after it.
pub open spec fn read_action(parts: Seq<Token>, i: int, s: GameModel) -> Result<
    (Action, int),
    TokenError,
> {
    match atom_at(parts, i) {
        None => Err(TokenError::InvalidFormat),
        Some(verb) => match verb {
            Token::Draw => read_draw(parts, i + 1, s),
            Token::Pass => Ok((Action::Pass, i + 1)),
            Token::Counter => match card_at(parts, i + 1) {
                Err(e) => Err(e),
                Ok(c) => Ok((Action::CounterTwo { two_card: c }, i + 2)),
            },
            Token::Resolve => read_resolve(parts, i + 1, s),
            Token::Discard => read_discard(parts, i + 1, s),
            Token::Points => match card_at(parts, i + 1) {
                Err(e) => Err(e),
                Ok(c) => match play_in(s, c, SevenPlay::Points) {
                    Err(e) => Err(e),
                    Ok(a) => Ok((a, i + 2)),
                },
            },
            Token::Scuttle => read_scuttle(parts, i + 1, s),
            Token::PlayRoyal => read_royal(parts, i + 1, s),
            Token::OneOff => read_oneoff(parts, i + 1, s),
            _ => Err(TokenError::UnknownAction),
        },
    }
}

/// The cards written from place `i` on up to the closing bracket of the
/// deck, and the place after the bracket.
pub open spec fn read_deck(parts: Seq<Token>, i: int) -> Result<(Seq<Card>, int), TokenError>
    decreases parts.len() - i,
{
    if i < 0 || i >= parts.len() {
        Err(TokenError::InvalidFormat)
    } else if parts[i] == Token::EndDeck {
        Ok((Seq::empty(), i + 1))
    } else {
        match parts[i].spec_card() {
            None => Err(TokenError::UnknownCard),
            Some(c) => match read_deck(parts, i + 1) {
                Err(e) => Err(e),
                Ok((rest, n)) => Ok((seq![c] + rest, n)),
            },
        }
    }
}

/// The lines written from place `i` on, read and played from the state `s`:
/// each a seat and an action that is legal for it.
pub open spec fn read_lines(parts: Seq<Token>, i: int, s: GameModel) -> Result<
    Seq<(Seat, Action)>,
    TokenError,
>
    decreases parts.len() - i,
{
    if i < 0 || i >= parts.len() {
        Ok(Seq::empty())
    } else {
        match seat_of(parts[i]) {
            Err(e) => Err(e),
            Ok(seat) => match read_action(parts, i + 1, s) {
                Err(e) => Err(e),
                Ok((a, n)) => if !s.legal(seat, a) || n <= i {
                    Err(TokenError::InvalidFormat)
                } else {
                    match read_lines(parts, n, s.step(seat, a)) {
                        Err(e) => Err(e),
                        Ok(rest) => Ok(seq![(seat, a)] + rest),
                    }
                },
            },
        }
    }
}

/// A log read from its atoms: the header, then the lines.
pub open spec fn read_log(parts: Seq<Token>) -> Result<LogModel, TokenError> {
    if atom_at(parts, 0) != Some(Token::V1) || atom_at(parts, 1) != Some(Token::Cutthroat3P)
        || atom_at(parts, 2) != Some(Token::Dealer) {
        Err(TokenError::InvalidFormat)
    } else {
        match atom_at(parts, 3) {
            None => Err(TokenError::InvalidFormat),
            Some(tok) => match seat_of(tok) {
                Err(e) => Err(e),
                Ok(dealer) => if atom_at(parts, 4) != Some(Token::Deck) {
                    Err(TokenError::InvalidFormat)
                } else {
                    match read_deck(parts, 5) {
                        Err(e) => Err(e),
                        Ok((deck, n)) => if deck.len() < 15 {
                            Err(TokenError::InvalidFormat)
                        } else {
                            match read_lines(parts, n, GameModel::initial(dealer, deck)) {
                                Err(e) => Err(e),
                                Ok(actions) => Ok(LogModel { dealer, deck, actions }),
                            }
                        },
                    }
                },
            },
        }
    }
}

/// A log read from its text.
pub open spec fn parsed(text: Seq<char>) -> Result<LogModel, TokenError> {
    match atoms_of(text) {
        None => Err(TokenError::InvalidFormat),
        Some(parts) => read_log(parts),
    }
}

/// The state after the actions, each taken by its seat from the state
/// before it; the error of the first that is not legal.
pub open spec fn played(s: GameModel, actions: Seq<(Seat, Action)>) -> Result<
    GameModel,
    TokenError,
>
    decreases actions.len(),
{
    if actions.len() == 0 {
        Ok(s)
    } else if s.legal(actions[0].0, actions[0].1) {
        played(s.step(actions[0].0, actions[0].1), actions.drop_first())
    } else if s.phase is GameOver {
        Err(TokenError::Replay(crate::state::RuleError::GameOver))
    } else {
        Err(TokenError::Replay(crate::state::RuleError::IllegalAction))
    }
}

/// A line as a player sends it, made whole: a bare `draw` gets the card on
/// top of the deck, a bare eight played as a royal gets the snapshot of the
/// hands.
pub open spec fn normalized(parts: Seq<Token>, s: GameModel) -> Result<Seq<Token>, TokenError> {
    match atom_at(parts, 1) {
        None => Err(TokenError::InvalidFormat),
        Some(verb) => if verb == Token::Draw && parts.len() == 2 {
            if s.deck.len() > 0 {
                Ok(parts.push(Token::of_card(s.deck[0])))
            } else {
                Err(TokenError::InvalidFormat)
            }
        } else if verb == Token::PlayRoyal {
            match atom_at(parts, 2) {
                None => Err(TokenError::InvalidFormat),
                Some(tok) => match tok.spec_card() {
                    None => Err(TokenError::UnknownCard),
                    Some(c) => if is_eight(c) && parts.len() == 3 {
                        Ok(parts + snapshot_atoms(s, actor_of(s)))
                    } else {
                        Ok(parts)
                    },
                },
            }
        } else {
            Ok(parts)
        },
    }
}

/// The atoms of a line after an attempt to read it: made whole, where they
/// begin with a seat of the table and can be made whole.
pub open spec fn line_after(parts: Seq<Token>, s: GameModel) -> Seq<Token> {
    if parts.len() == 0 || seat_of(parts[0]).is_err() {
        parts
    } else {
        match normalized(parts, s) {
            Ok(full) => full,
            Err(_) => parts,
        }
    }
}

/// One line read by itself: a seat and an action, with nothing after them.
pub open spec fn read_line(parts: Seq<Token>, s: GameModel) -> Result<(Seat, Action), TokenError> {
    if parts.len() == 0 {
        Err(TokenError::InvalidFormat)
    } else {
        match seat_of(parts[0]) {
            Err(e) => Err(e),
            Ok(seat) => match normalized(parts, s) {
                Err(e) => Err(e),
                Ok(full) => match read_action(full, 1, s) {
                    Err(e) => Err(e),
                    Ok((a, n)) => if n == full.len() {
                        Ok((seat, a))
                    } else {
                        Err(TokenError::InvalidFormat)
                    },
                },
            },
        }
    }
}

/// One line read from its text.
pub open spec fn parsed_line(text: Seq<char>, s: GameModel) -> Result<(Seat, Action), TokenError> {
    match atoms_of(text) {
        None => Err(TokenError::InvalidFormat),
        Some(parts) => read_line(parts, s),
    }
}

} // verus!
