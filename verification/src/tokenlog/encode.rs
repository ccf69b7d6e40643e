//! Writing a game down.

use vstd::prelude::*;
use vstd::string::*;
use super::grammar::{action_atoms, body_atoms, card_atoms, header_atoms, line_atoms, play_atoms, seat_atom, snapshot_atoms, target_atoms};
use super::types::TokenizeError;
use crate::action::{Action, OneOffTarget, SevenPlay};
use crate::card::Card;
use crate::state::util::next_seat;
use crate::state::{CutthroatState, Seat};
use crate::tokens::{join_tokens, joined, Token};

verus! {

pub(crate) fn seat_to_token(seat: Seat) -> (r: Result<Token, TokenizeError>)
    ensures
        match r {
            Ok(t) => seat <= 3 && t == seat_atom(seat),
            Err(e) => seat > 3 && e == TokenizeError::InvalidSeat,
        },
{
    match Token::from_seat(seat) {
        Some(t) => Ok(t),
        None => Err(TokenizeError::InvalidSeat),
    }
}

/// The atoms of the cards join `tokens`.
pub(crate) fn push_cards(tokens: &mut Vec<Token>, cards: &Vec<Card>)
    ensures
        final(tokens)@ == old(tokens)@ + card_atoms(cards@),
{
    let mut i: usize = 0;
    proof {
        assert(tokens@ =~= old(tokens)@ + card_atoms(cards@).take(0));
    }
    while i < cards.len()
        invariant
            i <= cards.len(),
            tokens@ == old(tokens)@ + card_atoms(cards@).take(i as int),
        decreases cards.len() - i,
    {
        tokens.push(cards[i].to_token_enum());
        proof {
            assert(tokens@ =~= old(tokens)@ + card_atoms(cards@).take(i + 1));
        }
        i = i + 1;
    }
    proof {
        assert(card_atoms(cards@).take(i as int) =~= card_atoms(cards@));
    }
}

/// The header of a log for the given dealer and deck.
pub fn encode_header(dealer: Seat, deck: &[Card]) -> (text: String)
    ensures
        text@ == joined(header_atoms(dealer, deck@)),
{
    let dealer_tok = match Token::from_seat(dealer) {
        Some(t) => t,
        None => Token::P0,
    };
    let mut tokens: Vec<Token> = Vec::new();
    tokens.push(Token::V1);
    tokens.push(Token::Cutthroat3P);
    tokens.push(Token::Dealer);
    tokens.push(dealer_tok);
    tokens.push(Token::Deck);
    let ghost head = tokens@;
    let mut i: usize = 0;
    proof {
        assert(tokens@ =~= head + card_atoms(deck@).take(0));
    }
    while i < deck.len()
        invariant
            i <= deck.len(),
            tokens@ == head + card_atoms(deck@).take(i as int),
        decreases deck.len() - i,
    {
        tokens.push(deck[i].to_token_enum());
        proof {
            assert(tokens@ =~= head + card_atoms(deck@).take(i + 1));
        }
        i = i + 1;
    }
    tokens.push(Token::EndDeck);
    proof {
        assert(card_atoms(deck@).take(i as int) =~= card_atoms(deck@));
        assert(tokens@ =~= header_atoms(dealer, deck@));
    }
    join_tokens(tokens.as_slice())
}

pub(crate) fn encode_inline_oneoff_target(target: &OneOffTarget, tokens: &mut Vec<Token>)
    ensures
        final(tokens)@ == old(tokens)@ + target_atoms(*target),
{
    match target {
        OneOffTarget::NoTarget => {},
        OneOffTarget::Player { seat } => {
            match seat_to_token(*seat) {
                Ok(tok) => {
                    tokens.push(tok);
                },
                Err(_) => {},
            }
        },
        OneOffTarget::Point { base } => tokens.push(base.to_token_enum()),
        OneOffTarget::Royal { card } => tokens.push(card.to_token_enum()),
        OneOffTarget::Jack { card } => tokens.push(card.to_token_enum()),
        OneOffTarget::Joker { card } => tokens.push(card.to_token_enum()),
    }
    proof {
        assert(tokens@ =~= old(tokens)@ + target_atoms(*target));
    }
}

/// The atoms of a card played in the given way.
pub(crate) fn encode_resolving_seven_action(chosen: Card, play: &SevenPlay) -> (tokens: Vec<Token>)
    ensures
        tokens@ == play_atoms(chosen, *play),
{
    let chosen_token = chosen.to_token_enum();
    let mut tokens: Vec<Token> = Vec::new();
    match play {
        SevenPlay::Points => {
            tokens.push(Token::Points);
            tokens.push(chosen_token);
        },
        SevenPlay::Scuttle { target } => {
            tokens.push(Token::Scuttle);
            tokens.push(chosen_token);
            tokens.push(target.to_token_enum());
        },
        SevenPlay::Royal => {
            tokens.push(Token::PlayRoyal);
            tokens.push(chosen_token);
        },
        SevenPlay::Jack { target } => {
            tokens.push(Token::PlayRoyal);
            tokens.push(chosen_token);
            tokens.push(target.to_token_enum());
        },
        SevenPlay::Joker { target } => {
            tokens.push(Token::PlayRoyal);
            tokens.push(chosen_token);
            tokens.push(target.to_token_enum());
        },
        SevenPlay::OneOff { target } => {
            tokens.push(Token::OneOff);
            tokens.push(chosen_token);
            encode_inline_oneoff_target(target, &mut tokens);
        },
        SevenPlay::Discard => {
            tokens.push(Token::Discard);
            tokens.push(chosen_token);
        },
    }
    proof {
        assert(tokens@ =~= play_atoms(chosen, *play));
    }
    tokens
}

pub(crate) fn is_glasses_card(card: Card) -> (b: bool)
    ensures
        b == super::grammar::is_eight(card),
{
    match card.rank_value() {
        Some(v) => v == 8,
        None => false,
    }
}

/// The seats of the two others, in turn order.
pub(crate) fn opponent_seat_order(actor_seat: Seat) -> (r: [Seat; 2])
    requires
        actor_seat < 3,
    ensures
        r[0] == crate::state::util::spec_next_seat(actor_seat),
        r[1] == crate::state::util::spec_next_seat(r[0]),
        r[0] < 3,
        r[1] < 3,
{
    let one = next_seat(actor_seat);
    let two = next_seat(one);
    [one, two]
}

/// The snapshot of the hands that `actor_seat` sees joins `tokens`.
pub(crate) fn append_glasses_snapshot_tokens(
    tokens: &mut Vec<Token>,
    state_before: &CutthroatState,
    actor_seat: Seat,
)
    requires
        state_before.players.len() == 3,
        actor_seat < 3,
    ensures
        final(tokens)@ == old(tokens)@ + snapshot_atoms(state_before@, actor_seat),
{
    let opps = opponent_seat_order(actor_seat);
    let one = opps[0];
    let two = opps[1];
    tokens.push(Token::from_seat(one).unwrap());
    push_cards(tokens, &state_before.players[one as usize].hand);
    tokens.push(Token::from_seat(two).unwrap());
    push_cards(tokens, &state_before.players[two as usize].hand);
    proof {
        assert(tokens@ =~= old(tokens)@ + snapshot_atoms(state_before@, actor_seat));
    }
}

/// The atoms of an action that `actor_seat` takes in the state before it.
/// Only a draw from an empty deck cannot be written.
pub(crate) fn encode_action(
    action: &Action,
    state_before: &CutthroatState,
    actor_seat: Seat,
    include_glasses_snapshot: bool,
) -> (r: Result<Vec<Token>, TokenizeError>)
    requires
        state_before.players.len() == 3,
        actor_seat < 3,
    ensures
        match r {
            Ok(tokens) => {
                &&& !(*action is Draw && state_before@.deck.len() == 0)
                &&& tokens@ == action_atoms(
                    state_before@,
                    actor_seat,
                    *action,
                    include_glasses_snapshot,
                )
            },
            Err(e) => {
                &&& *action is Draw && state_before@.deck.len() == 0
                &&& e == TokenizeError::InvalidActionContext
            },
        },
{
    let mut tokens: Vec<Token> = Vec::new();
    match action {
        Action::Draw => {
            if state_before.deck.len() == 0 {
                return Err(TokenizeError::InvalidActionContext);
            }
            tokens.push(Token::Draw);
            tokens.push(state_before.deck[0].to_token_enum());
        },
        Action::Pass => {
            tokens.push(Token::Pass);
        },
        Action::PlayPoints { card } => {
            tokens = encode_resolving_seven_action(*card, &SevenPlay::Points);
        },
        Action::Scuttle { card, target_point_base } => {
            tokens = encode_resolving_seven_action(
                *card,
                &SevenPlay::Scuttle { target: *target_point_base },
            );
        },
        Action::PlayRoyal { card } => {
            tokens = encode_resolving_seven_action(*card, &SevenPlay::Royal);
        },
        Action::PlayJack { jack, target_point_base } => {
            tokens = encode_resolving_seven_action(
                *jack,
                &SevenPlay::Jack { target: *target_point_base },
            );
        },
        Action::PlayJoker { joker, target_royal_card } => {
            tokens = encode_resolving_seven_action(
                *joker,
                &SevenPlay::Joker { target: *target_royal_card },
            );
        },
        Action::PlayOneOff { card, target } => {
            tokens = encode_resolving_seven_action(*card, &SevenPlay::OneOff { target: *target });
        },
        Action::CounterTwo { two_card } => {
            tokens.push(Token::Counter);
            tokens.push(two_card.to_token_enum());
        },
        Action::CounterPass => {
            tokens.push(Token::Resolve);
        },
        Action::ResolveThreePick { card_from_scrap } => {
            tokens.push(Token::Resolve);
            tokens.push(card_from_scrap.to_token_enum());
        },
        Action::ResolveFourDiscard { card } => {
            tokens.push(Token::Resolve);
            tokens.push(Token::Discard);
            tokens.push(card.to_token_enum());
        },
        Action::ResolveFiveDiscard { card } => {
            tokens.push(Token::Discard);
            tokens.push(card.to_token_enum());
        },
        Action::ResolveSevenChoose { card, play } => {
            tokens = encode_resolving_seven_action(*card, play);
        },
    }
    proof {
        assert(tokens@ =~= body_atoms(state_before@, *action));
    }
    let royal_card = match action {
        Action::PlayRoyal { card } => Some(*card),
        Action::ResolveSevenChoose { card, play: SevenPlay::Royal } => Some(*card),
        _ => None,
    };
    if include_glasses_snapshot {
        match royal_card {
            Some(card) => {
                if is_glasses_card(card) {
                    append_glasses_snapshot_tokens(&mut tokens, state_before, actor_seat);
                }
            },
            None => {},
        }
    }
    Ok(tokens)
}

/// Writes one more line to a log: the seat and the action that it takes in
/// the state before it, with the snapshot of hands where the action is an
/// eight played as a royal. The text stays as it is where the line cannot be
/// written: for a seat that is none of the table, and for a draw from an
/// empty deck.
pub fn append_action(
    tokens: &mut String,
    state_before: &CutthroatState,
    seat: Seat,
    action: &Action,
) -> (r: Result<(), TokenizeError>)
    requires
        state_before.players.len() == 3,
    ensures
        match r {
            Ok(_) => {
                &&& seat < 3
                &&& !(*action is Draw && state_before@.deck.len() == 0)
                &&& final(tokens)@ == old(tokens)@ + (if old(tokens)@.len() > 0 {
                    seq![' ']
                } else {
                    Seq::empty()
                }) + joined(line_atoms(state_before@, seat, *action, true))
            },
            Err(e) => {
                &&& final(tokens)@ == old(tokens)@
                &&& e == if seat >= 3 {
                    TokenizeError::InvalidSeat
                } else {
                    TokenizeError::InvalidActionContext
                }
                &&& seat >= 3 || (*action is Draw && state_before@.deck.len() == 0)
            },
        },
{
    if seat >= 3 {
        return Err(TokenizeError::InvalidSeat);
    }
    let mut action_tokens: Vec<Token> = Vec::new();
    action_tokens.push(Token::from_seat(seat).unwrap());
    let mut body = match encode_action(action, state_before, seat, true) {
        Ok(body) => body,
        Err(e) => {
            return Err(e);
        },
    };
    action_tokens.append(&mut body);
    proof {
        assert(action_tokens@ =~= line_atoms(state_before@, seat, *action, true));
    }
    if tokens.as_str().unicode_len() > 0 {
        proof {
            reveal_strlit(" ");
            assert(" "@ =~= seq![' ']);
        }
        tokens.append(" ");
    }
    let line = join_tokens(action_tokens.as_slice());
    tokens.append(line.as_str());
    Ok(())
}

/// The line of an action as a player sends it: the seat and the action,
/// without a snapshot.
pub fn encode_action_tokens_for_input(state_before: &CutthroatState, seat: Seat, action: &Action)
    -> (r: Result<String, TokenizeError>)
    requires
        state_before.players.len() == 3,
    ensures
        match r {
            Ok(text) => {
                &&& seat < 3
                &&& !(*action is Draw && state_before@.deck.len() == 0)
                &&& text@ == joined(line_atoms(state_before@, seat, *action, false))
            },
            Err(e) => {
                &&& e == if seat >= 3 {
                    TokenizeError::InvalidSeat
                } else {
                    TokenizeError::InvalidActionContext
                }
                &&& seat >= 3 || (*action is Draw && state_before@.deck.len() == 0)
            },
        },
{
    match encode_action_token_vec_for_input(state_before, seat, action) {
        Ok(tokens) => Ok(join_tokens(tokens.as_slice())),
        Err(e) => Err(e),
    }
}

/// The atoms of an action as a player sends it: the seat and the action,
/// without a snapshot.
pub fn encode_action_token_vec_for_input(
    state_before: &CutthroatState,
    seat: Seat,
    action: &Action,
) -> (r: Result<Vec<Token>, TokenizeError>)
    requires
        state_before.players.len() == 3,
    ensures
        match r {
            Ok(tokens) => {
                &&& seat < 3
                &&& !(*action is Draw && state_before@.deck.len() == 0)
                &&& tokens@ == line_atoms(state_before@, seat, *action, false)
            },
            Err(e) => {
                &&& e == if seat >= 3 {
                    TokenizeError::InvalidSeat
                } else {
                    TokenizeError::InvalidActionContext
                }
                &&& seat >= 3 || (*action is Draw && state_before@.deck.len() == 0)
            },
        },
{
    if seat >= 3 {
        return Err(TokenizeError::InvalidSeat);
    }
    let mut tokens: Vec<Token> = Vec::new();
    tokens.push(Token::from_seat(seat).unwrap());
    let mut body = match encode_action(action, state_before, seat, false) {
        Ok(body) => body,
        Err(e) => {
            return Err(e);
        },
    };
    tokens.append(&mut body);
    proof {
        assert(tokens@ =~= line_atoms(state_before@, seat, *action, false));
    }
    Ok(tokens)
}

} // verus!
