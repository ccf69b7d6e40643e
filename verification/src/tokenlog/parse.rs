//! Reading a game back: each line is read in the state that the lines
//! before it led to, and must be a legal action there.

use vstd::prelude::*;
use vstd::slice::slice_to_vec;
use super::encode::{append_glasses_snapshot_tokens, is_glasses_card};
use super::grammar::{actor_of, after_hand, after_seat_and_hand, card_at, inferred_target, line_begins, on_table, parsed, play_in, played, read_action, read_deck, read_lines, read_log, read_snapshot, read_target, seat_of, seven_choice, shows, snapshot_atoms};
use super::types::{LogModel, TokenError, TokenLog};
use crate::action::{Action, OneOffTarget, SevenPlay};
use crate::card::Card;
use crate::state::legal::action_in;
use crate::state::shape::lemma_initial_shaped;
use crate::state::util::{first_where, is_jack, is_joker, is_plain_royal, lemma_first_where_is, next_seat};
use crate::state::{CutthroatState, GameModel, Phase, Seat, TargetKind};
use crate::tokens::{parse_token_slice, Token};

verus! {

pub(crate) fn parse_seat_token(token: Token) -> (r: Result<Seat, TokenError>)
    ensures
        r == seat_of(token),
{
    match token.seat() {
        Some(num) => {
            if num >= 3 {
                return Err(TokenError::InvalidFormat);
            }
            Ok(num)
        },
        None => Err(TokenError::InvalidFormat),
    }
}

pub(crate) fn parse_card_at(parts: &Vec<Token>, cursor: usize) -> (r: Result<Card, TokenError>)
    ensures
        r == card_at(parts@, cursor as int),
        r is Ok ==> cursor < parts@.len() && cursor < usize::MAX,
{
    if cursor >= parts.len() {
        return Err(TokenError::InvalidFormat);
    }
    match parts[cursor].card() {
        Some(c) => Ok(c),
        None => Err(TokenError::UnknownCard),
    }
}

pub(crate) fn is_action_seat_then_verb(parts: &Vec<Token>, index: usize) -> (b: bool)
    ensures
        b == line_begins(parts@, index as int),
{
    if index >= parts.len() {
        return false;
    }
    if parse_seat_token(parts[index]).is_err() {
        return false;
    }
    if index + 1 >= parts.len() {
        return false;
    }
    parts[index + 1].is_verb()
}

/// Whether some stack of the table shows `card` in the given way.
fn shows_on_table(state: &CutthroatState, kind: TargetKind, card: Card) -> (b: bool)
    requires
        state.players.len() == 3,
    ensures
        b == on_table(state@, kind, card),
{
    let ghost f = shows(kind, card);
    let ghost on = kind.on_points();
    let mut p: Seat = 0;
    while p < 3
        invariant
            state.players.len() == 3,
            p <= 3,
            f == shows(kind, card),
            on == kind.on_points(),
            forall|q: int|
                0 <= q < p ==> first_where(state@.stacks(q, on), f) >= state@.stacks(q, on).len(),
        decreases 3 - p,
    {
        let n = state.stack_count(p, kind);
        let mut i: usize = 0;
        while i < n
            invariant
                state.players.len() == 3,
                p < 3,
                i <= n,
                n == state@.stacks(p as int, on).len(),
                f == shows(kind, card),
                on == kind.on_points(),
                forall|j: int| 0 <= j < i ==> !f(#[trigger] state@.stacks(p as int, on)[j]),
            decreases n - i,
        {
            let shown = match state.key_at(p, i, kind) {
                Some(k) => k == card,
                None => false,
            };
            if shown {
                proof {
                    lemma_first_where_is(state@.stacks(p as int, on), f, i as int);
                }
                return true;
            }
            i = i + 1;
        }
        proof {
            lemma_first_where_is(state@.stacks(p as int, on), f, n as int);
        }
        p = p + 1;
    }
    false
}

pub(crate) fn infer_inline_oneoff_card_target(state: &CutthroatState, target_card: Card) -> (r:
    Result<OneOffTarget, TokenError>)
    requires
        state.players.len() == 3,
    ensures
        r == inferred_target(state@, target_card),
{
    if shows_on_table(state, TargetKind::Point, target_card) {
        return Ok(OneOffTarget::Point { base: target_card });
    }
    if shows_on_table(state, TargetKind::Royal, target_card) {
        return Ok(OneOffTarget::Royal { card: target_card });
    }
    if shows_on_table(state, TargetKind::Jack, target_card) {
        return Ok(OneOffTarget::Jack { card: target_card });
    }
    if shows_on_table(state, TargetKind::Joker, target_card) {
        return Ok(OneOffTarget::Joker { card: target_card });
    }
    Err(TokenError::InvalidFormat)
}

pub(crate) fn parse_inline_oneoff_target(
    parts: &Vec<Token>,
    cursor: usize,
    oneoff_card: Card,
    state: &CutthroatState,
) -> (r: Result<(OneOffTarget, usize), TokenError>)
    requires
        state.players.len() == 3,
        cursor <= parts@.len(),
    ensures
        match r {
            Ok((t, n)) => read_target(parts@, cursor as int, oneoff_card, state@) == Ok::<
                (OneOffTarget, int),
                TokenError,
            >((t, n as int)) && cursor <= n <= parts@.len(),
            Err(e) => read_target(parts@, cursor as int, oneoff_card, state@) == Err::<
                (OneOffTarget, int),
                TokenError,
            >(e),
        },
{
    if cursor >= parts.len() {
        return Ok((OneOffTarget::NoTarget, cursor));
    }
    let tok = parts[cursor];
    match parse_seat_token(tok) {
        Ok(seat) => {
            if oneoff_card.rank_value() == Some(4) {
                return Ok((OneOffTarget::Player { seat }, cursor + 1));
            }
            return Ok((OneOffTarget::NoTarget, cursor));
        },
        Err(_) => {},
    }
    match tok.card() {
        Some(target_card) => {
            match infer_inline_oneoff_card_target(state, target_card) {
                Ok(target) => Ok((target, cursor + 1)),
                Err(e) => Err(e),
            }
        },
        None => Ok((OneOffTarget::NoTarget, cursor)),
    }
}

pub(crate) fn ensure_seven_revealed_contains_card(state: &CutthroatState, card: Card) -> (r: Result<
    (),
    TokenError,
>)
    ensures
        match r {
            Ok(_) => seven_choice(state@, card, SevenPlay::Discard).is_ok(),
            Err(e) => seven_choice(state@, card, SevenPlay::Discard) == Err::<Action, TokenError>(
                e,
            ),
        },
{
    match &state.phase {
        Phase::ResolvingSeven { revealed, .. } => {
            let idx = crate::state::moves::position_of(revealed, card);
            if idx < revealed.len() {
                Ok(())
            } else {
                Err(TokenError::InvalidFormat)
            }
        },
        _ => Err(TokenError::UnknownAction),
    }
}

pub(crate) fn resolve_seven_choose_action(state: &CutthroatState, card: Card, play: SevenPlay) -> (r:
    Result<Action, TokenError>)
    ensures
        r == seven_choice(state@, card, play),
{
    match ensure_seven_revealed_contains_card(state, card) {
        Ok(_) => Ok(Action::ResolveSevenChoose { card, play }),
        Err(e) => Err(e),
    }
}

/// What a play is in the phase of the state.
fn play_for_phase(state: &CutthroatState, card: Card, play: SevenPlay) -> (r: Result<
    Action,
    TokenError,
>)
    requires
        !(play is Discard),
    ensures
        r == play_in(state@, card, play),
{
    match &state.phase {
        Phase::ResolvingSeven { .. } => resolve_seven_choose_action(state, card, play),
        _ => Ok(
            match play {
                SevenPlay::Points => Action::PlayPoints { card },
                SevenPlay::Scuttle { target } => Action::Scuttle {
                    card,
                    target_point_base: target,
                },
                SevenPlay::Royal => Action::PlayRoyal { card },
                SevenPlay::Jack { target } => Action::PlayJack {
                    jack: card,
                    target_point_base: target,
                },
                SevenPlay::Joker { target } => Action::PlayJoker {
                    joker: card,
                    target_royal_card: target,
                },
                SevenPlay::OneOff { target } => Action::PlayOneOff { card, target },
                SevenPlay::Discard => Action::Pass,
            },
        ),
    }
}

/// The seat that is to act, or the seat at turn when the game is over.
pub(crate) fn current_actor(state: &CutthroatState) -> (seat: Seat)
    ensures
        seat == actor_of(state@),
{
    match &state.phase {
        Phase::Main => state.turn,
        Phase::Countering(counter) => counter.next_seat,
        Phase::ResolvingThree { seat, .. } => *seat,
        Phase::ResolvingFour { seat, .. } => *seat,
        Phase::ResolvingFive { seat, .. } => *seat,
        Phase::ResolvingSeven { seat, .. } => *seat,
        Phase::GameOver => state.turn,
    }
}

/// Reads the hand of seat `opp` with its seat before it.
fn parse_seat_and_hand(parts: &Vec<Token>, cursor: usize, opp: Seat, hand: &Vec<Card>) -> (r: Result<
    usize,
    TokenError,
>)
    requires
        cursor <= parts@.len(),
    ensures
        match r {
            Ok(n) => after_seat_and_hand(parts@, cursor as int, opp, hand@) == Ok::<
                int,
                TokenError,
            >(n as int) && cursor <= n <= parts@.len(),
            Err(e) => after_seat_and_hand(parts@, cursor as int, opp, hand@) == Err::<
                int,
                TokenError,
            >(e),
        },
{
    if cursor >= parts.len() {
        return Err(TokenError::InvalidFormat);
    }
    match parse_seat_token(parts[cursor]) {
        Ok(seat) => {
            if seat != opp {
                return Err(TokenError::InvalidFormat);
            }
        },
        Err(e) => {
            return Err(TokenError::InvalidFormat);
        },
    }
    let start = cursor + 1;
    let mut at = start;
    let mut k: usize = 0;
    proof {
        assert(hand@.skip(0) =~= hand@);
    }
    while k < hand.len()
        invariant
            k <= hand.len(),
            start <= at <= parts@.len(),
            at == start + k,
            after_seat_and_hand(parts@, cursor as int, opp, hand@) == after_hand(
                parts@,
                start as int,
                hand@,
            ),
            after_hand(parts@, start as int, hand@) == after_hand(
                parts@,
                at as int,
                hand@.skip(k as int),
            ),
        decreases hand.len() - k,
    {
        proof {
            assert(hand@.skip(k as int).drop_first() =~= hand@.skip(k + 1));
            assert(hand@.skip(k as int).len() > 0);
            assert(hand@.skip(k as int)[0] == hand@[k as int]);
        }
        let card = match parse_card_at(parts, at) {
            Ok(card) => card,
            Err(e) => {
                return Err(e);
            },
        };
        if card != hand[k] {
            return Err(TokenError::InvalidFormat);
        }
        at = at + 1;
        k = k + 1;
    }
    Ok(at)
}

pub(crate) fn parse_glasses_snapshot_tokens(
    parts: &Vec<Token>,
    cursor: usize,
    state: &CutthroatState,
) -> (r: Result<usize, TokenError>)
    requires
        state.shaped(),
        cursor <= parts@.len(),
    ensures
        match r {
            Ok(n) => read_snapshot(parts@, cursor as int, state@) == Ok::<int, TokenError>(
                n as int,
            ) && cursor <= n <= parts@.len(),
            Err(e) => read_snapshot(parts@, cursor as int, state@) == Err::<int, TokenError>(e),
        },
{
    let actor = current_actor(state);
    let one = next_seat(actor);
    let two = next_seat(one);
    let after_one = match parse_seat_and_hand(
        parts,
        cursor,
        one,
        &state.players[one as usize].hand,
    ) {
        Ok(n) => n,
        Err(e) => {
            return Err(e);
        },
    };
    let after_two = match parse_seat_and_hand(
        parts,
        after_one,
        two,
        &state.players[two as usize].hand,
    ) {
        Ok(n) => n,
        Err(e) => {
            return Err(e);
        },
    };
    if after_two == parts.len() || is_action_seat_then_verb(parts, after_two) {
        Ok(after_two)
    } else {
        Err(TokenError::InvalidFormat)
    }
}

/// Whether what was read is what the grammar says.
pub open spec fn agrees(
    r: Result<(Action, usize), TokenError>,
    want: Result<(Action, int), TokenError>,
    cursor: usize,
    len: nat,
) -> bool {
    match r {
        Ok((a, n)) => want == Ok::<(Action, int), TokenError>((a, n as int)) && cursor <= n <= len,
        Err(e) => want == Err::<(Action, int), TokenError>(e),
    }
}

fn parse_draw(parts: &Vec<Token>, cursor: usize, state: &CutthroatState) -> (r: Result<
    (Action, usize),
    TokenError,
>)
    requires
        cursor <= parts@.len(),
    ensures
        agrees(r, super::grammar::read_draw(parts@, cursor as int, state@), cursor, parts@.len()),
{
    let card = match parse_card_at(parts, cursor) {
        Ok(c) => c,
        Err(e) => {
            return Err(e);
        },
    };
    if state.deck.len() == 0 || state.deck[0] != card {
        return Err(TokenError::InvalidFormat);
    }
    Ok((Action::Draw, cursor + 1))
}

fn parse_resolve(parts: &Vec<Token>, cursor: usize, state: &CutthroatState) -> (r: Result<
    (Action, usize),
    TokenError,
>)
    requires
        cursor <= parts@.len(),
    ensures
        agrees(r, super::grammar::read_resolve(parts@, cursor as int, state@), cursor, parts@.len()),
{
    match &state.phase {
        Phase::Countering(_) => Ok((Action::CounterPass, cursor)),
        Phase::ResolvingThree { .. } => {
            match parse_card_at(parts, cursor) {
                Ok(card) => Ok((Action::ResolveThreePick { card_from_scrap: card }, cursor + 1)),
                Err(e) => Err(e),
            }
        },
        Phase::ResolvingFour { .. } => {
            if cursor >= parts.len() || parts[cursor] != Token::Discard {
                return Err(TokenError::InvalidFormat);
            }
            match parse_card_at(parts, cursor + 1) {
                Ok(card) => Ok((Action::ResolveFourDiscard { card }, cursor + 2)),
                Err(e) => Err(e),
            }
        },
        _ => Err(TokenError::UnknownAction),
    }
}

fn parse_discard(parts: &Vec<Token>, cursor: usize, state: &CutthroatState) -> (r: Result<
    (Action, usize),
    TokenError,
>)
    requires
        cursor <= parts@.len(),
    ensures
        agrees(r, super::grammar::read_discard(parts@, cursor as int, state@), cursor, parts@.len()),
{
    let card = match parse_card_at(parts, cursor) {
        Ok(c) => c,
        Err(e) => {
            return Err(e);
        },
    };
    match &state.phase {
        Phase::ResolvingFive { .. } => Ok((Action::ResolveFiveDiscard { card }, cursor + 1)),
        Phase::ResolvingSeven { .. } => {
            match resolve_seven_choose_action(state, card, SevenPlay::Discard) {
                Ok(a) => Ok((a, cursor + 1)),
                Err(e) => Err(e),
            }
        },
        _ => Err(TokenError::UnknownAction),
    }
}

fn parse_scuttle(parts: &Vec<Token>, cursor: usize, state: &CutthroatState) -> (r: Result<
    (Action, usize),
    TokenError,
>)
    requires
        cursor <= parts@.len(),
    ensures
        agrees(r, super::grammar::read_scuttle(parts@, cursor as int, state@), cursor, parts@.len()),
{
    let card = match parse_card_at(parts, cursor) {
        Ok(c) => c,
        Err(e) => {
            return Err(e);
        },
    };
    let target = match parse_card_at(parts, cursor + 1) {
        Ok(c) => c,
        Err(e) => {
            return Err(e);
        },
    };
    match play_for_phase(state, card, SevenPlay::Scuttle { target }) {
        Ok(a) => Ok((a, cursor + 2)),
        Err(e) => Err(e),
    }
}

fn parse_royal(parts: &Vec<Token>, cursor: usize, state: &CutthroatState) -> (r: Result<
    (Action, usize),
    TokenError,
>)
    requires
        state.shaped(),
        cursor <= parts@.len(),
    ensures
        agrees(r, super::grammar::read_royal(parts@, cursor as int, state@), cursor, parts@.len()),
{
    let card = match parse_card_at(parts, cursor) {
        Ok(c) => c,
        Err(e) => {
            return Err(e);
        },
    };
    if is_jack(card) || is_joker(card) {
        let target = match parse_card_at(parts, cursor + 1) {
            Ok(c) => c,
            Err(e) => {
                return Err(e);
            },
        };
        let play = if is_jack(card) {
            SevenPlay::Jack { target }
        } else {
            SevenPlay::Joker { target }
        };
        match play_for_phase(state, card, play) {
            Ok(a) => Ok((a, cursor + 2)),
            Err(e) => Err(e),
        }
    } else if is_plain_royal(card) {
        let after = if is_glasses_card(card) {
            match parse_glasses_snapshot_tokens(parts, cursor + 1, state) {
                Ok(n) => n,
                Err(e) => {
                    return Err(e);
                },
            }
        } else {
            cursor + 1
        };
        match play_for_phase(state, card, SevenPlay::Royal) {
            Ok(a) => Ok((a, after)),
            Err(e) => Err(e),
        }
    } else {
        Err(TokenError::UnknownAction)
    }
}

fn parse_oneoff(parts: &Vec<Token>, cursor: usize, state: &CutthroatState) -> (r: Result<
    (Action, usize),
    TokenError,
>)
    requires
        state.players.len() == 3,
        cursor <= parts@.len(),
    ensures
        agrees(r, super::grammar::read_oneoff(parts@, cursor as int, state@), cursor, parts@.len()),
{
    let card = match parse_card_at(parts, cursor) {
        Ok(c) => c,
        Err(e) => {
            return Err(e);
        },
    };
    let (target, after) = match parse_inline_oneoff_target(parts, cursor + 1, card, state) {
        Ok(found) => found,
        Err(e) => {
            return Err(e);
        },
    };
    match play_for_phase(state, card, SevenPlay::OneOff { target }) {
        Ok(a) => Ok((a, after)),
        Err(e) => Err(e),
    }
}

/// Reads the action that is written from `cursor` on, in the state that the
/// log has led to, and says where the next line begins.
pub(crate) fn parse_action_with_state(parts: &Vec<Token>, cursor: usize, state: &CutthroatState) -> (r:
    Result<(Action, usize), TokenError>)
    requires
        state.shaped(),
        cursor <= parts@.len(),
    ensures
        agrees(r, read_action(parts@, cursor as int, state@), cursor, parts@.len()),
        r matches Ok((a, n)) ==> cursor < n,
{
    if cursor >= parts.len() {
        return Err(TokenError::InvalidFormat);
    }
    let verb = parts[cursor];
    let next = cursor + 1;
    match verb {
        Token::Draw => parse_draw(parts, next, state),
        Token::Pass => Ok((Action::Pass, next)),
        Token::Counter => {
            match parse_card_at(parts, next) {
                Ok(card) => Ok((Action::CounterTwo { two_card: card }, next + 1)),
                Err(e) => Err(e),
            }
        },
        Token::Resolve => parse_resolve(parts, next, state),
        Token::Discard => parse_discard(parts, next, state),
        Token::Points => {
            let card = match parse_card_at(parts, next) {
                Ok(c) => c,
                Err(e) => {
                    return Err(e);
                },
            };
            match play_for_phase(state, card, SevenPlay::Points) {
                Ok(a) => Ok((a, next + 1)),
                Err(e) => Err(e),
            }
        },
        Token::Scuttle => parse_scuttle(parts, next, state),
        Token::PlayRoyal => parse_royal(parts, next, state),
        Token::OneOff => parse_oneoff(parts, next, state),
        _ => Err(TokenError::UnknownAction),
    }
}

/// Reads the deck of the header, from the place after its opening bracket.
fn parse_deck(parts: &Vec<Token>, cursor: usize) -> (r: Result<(Vec<Card>, usize), TokenError>)
    requires
        cursor <= parts@.len(),
    ensures
        match r {
            Ok((deck, n)) => read_deck(parts@, cursor as int) == Ok::<
                (Seq<Card>, int),
                TokenError,
            >((deck@, n as int)) && cursor < n <= parts@.len(),
            Err(e) => read_deck(parts@, cursor as int) == Err::<(Seq<Card>, int), TokenError>(e),
        },
{
    let mut deck: Vec<Card> = Vec::new();
    let mut at = cursor;
    proof {
        lemma_read_deck_bounds(parts@, cursor as int);
        if let Ok((rest, n)) = read_deck(parts@, cursor as int) {
            assert(deck@ + rest =~= rest);
        }
    }
    while at < parts.len()
        invariant
            cursor <= at <= parts@.len(),
            match read_deck(parts@, at as int) {
                Ok((rest, n)) => read_deck(parts@, cursor as int) == Ok::<
                    (Seq<Card>, int),
                    TokenError,
                >((deck@ + rest, n)) && at < n <= parts@.len(),
                Err(e) => read_deck(parts@, cursor as int) == Err::<(Seq<Card>, int), TokenError>(
                    e,
                ),
            },
        decreases parts@.len() - at,
    {
        let tok = parts[at];
        if tok == Token::EndDeck {
            proof {
                assert(deck@ + Seq::<Card>::empty() =~= deck@);
            }
            return Ok((deck, at + 1));
        }
        match tok.card() {
            Some(card) => {
                proof {
                    lemma_read_deck_bounds(parts@, at + 1);
                    let rest = read_deck(parts@, at + 1);
                    if let Ok((more, n)) = rest {
                        assert(deck@.push(card) + more =~= deck@ + (seq![card] + more));
                    }
                }
                deck.push(card);
            },
            None => {
                return Err(TokenError::UnknownCard);
            },
        }
        at = at + 1;
    }
    Err(TokenError::InvalidFormat)
}

/// The deck ends after the place where it begins, and within the atoms.
pub proof fn lemma_read_deck_bounds(parts: Seq<Token>, i: int)
    ensures
        read_deck(parts, i) matches Ok((deck, n)) ==> i < n <= parts.len(),
    decreases parts.len() - i,
{
    if 0 <= i < parts.len() && parts[i] != Token::EndDeck && parts[i].spec_card().is_some() {
        lemma_read_deck_bounds(parts, i + 1);
    }
}

/// Reads the lines of a log from `cursor` on, playing each on `state`.
fn parse_lines(parts: &Vec<Token>, cursor: usize, state: &mut CutthroatState) -> (r: Result<
    Vec<(Seat, Action)>,
    TokenError,
>)
    requires
        old(state).shaped(),
        cursor <= parts@.len(),
    ensures
        final(state).shaped(),
        match r {
            Ok(actions) => read_lines(parts@, cursor as int, old(state)@) == Ok::<
                Seq<(Seat, Action)>,
                TokenError,
            >(actions@),
            Err(e) => read_lines(parts@, cursor as int, old(state)@) == Err::<
                Seq<(Seat, Action)>,
                TokenError,
            >(e),
        },
{
    let mut actions: Vec<(Seat, Action)> = Vec::new();
    let mut at = cursor;
    while at < parts.len()
        invariant
            cursor <= at <= parts@.len(),
            state.shaped(),
            match read_lines(parts@, at as int, state@) {
                Ok(rest) => read_lines(parts@, cursor as int, old(state)@) == Ok::<
                    Seq<(Seat, Action)>,
                    TokenError,
                >(actions@ + rest),
                Err(e) => read_lines(parts@, cursor as int, old(state)@) == Err::<
                    Seq<(Seat, Action)>,
                    TokenError,
                >(e),
            },
        decreases parts@.len() - at,
    {
        let seat = match parse_seat_token(parts[at]) {
            Ok(seat) => seat,
            Err(e) => {
                return Err(e);
            },
        };
        let (action, next) = match parse_action_with_state(parts, at + 1, state) {
            Ok(found) => found,
            Err(e) => {
                return Err(e);
            },
        };
        assert(read_action(parts@, at + 1, state@) == Ok::<(Action, int), TokenError>(
            (action, next as int),
        ));
        let legal = state.legal_actions(seat);
        if !action_in(&legal, action) {
            return Err(TokenError::InvalidFormat);
        }
        let ghost before = state@;
        match state.apply(seat, action) {
            Ok(_) => {},
            Err(e) => {
                return Err(TokenError::Replay(e));
            },
        }
        proof {
            let rest = read_lines(parts@, next as int, state@);
            if let Ok(more) = rest {
                assert(actions@.push((seat, action)) + more =~= actions@ + (seq![(seat, action)]
                    + more));
            }
        }
        actions.push((seat, action));
        at = next;
    }
    proof {
        assert(actions@ + Seq::<(Seat, Action)>::empty() =~= actions@);
    }
    Ok(actions)
}

/// Reads a log. It is accepted only if it is well written and every line
/// of it is a legal action in the state that the lines before it led to.
pub fn parse(tokens: &str) -> (r: Result<TokenLog, TokenError>)
    ensures
        match r {
            Ok(log) => parsed(tokens@) == Ok::<LogModel, TokenError>(log@),
            Err(e) => parsed(tokens@) == Err::<LogModel, TokenError>(e),
        },
{
    let parts = match parse_token_slice(tokens) {
        Some(parts) => parts,
        None => {
            return Err(TokenError::InvalidFormat);
        },
    };
    if parts.len() < 5 || parts[0] != Token::V1 || parts[1] != Token::Cutthroat3P || parts[2]
        != Token::Dealer {
        proof {
            assert(read_log(parts@) == Err::<LogModel, TokenError>(TokenError::InvalidFormat)) by {
                if parts@.len() >= 3 && parts@[0] == Token::V1 && parts@[1] == Token::Cutthroat3P
                    && parts@[2] == Token::Dealer {
                    if parts@.len() > 3 {
                        if let Ok(d) = seat_of(parts@[3]) {
                        }
                    }
                }
            }
        }
        return Err(TokenError::InvalidFormat);
    }
    let dealer = match parse_seat_token(parts[3]) {
        Ok(seat) => seat,
        Err(e) => {
            return Err(e);
        },
    };
    if parts[4] != Token::Deck {
        return Err(TokenError::InvalidFormat);
    }
    let (deck, cursor) = match parse_deck(&parts, 5) {
        Ok(found) => found,
        Err(e) => {
            return Err(e);
        },
    };
    if deck.len() < 15 {
        return Err(TokenError::InvalidFormat);
    }
    let mut state = CutthroatState::new_with_deck(dealer, slice_to_vec(deck.as_slice()));
    proof {
        lemma_initial_shaped(dealer, deck@);
    }
    match parse_lines(&parts, cursor, &mut state) {
        Ok(actions) => Ok(TokenLog { dealer, deck, actions }),
        Err(e) => Err(e),
    }
}

/// Plays a log again from its deal. The first action that is not legal
/// stops it.
pub fn replay(log: &TokenLog) -> (r: Result<CutthroatState, TokenError>)
    ensures
        match r {
            Ok(state) => {
                &&& log.dealer < 3
                &&& log.deck@.len() >= 15
                &&& played(GameModel::initial(log.dealer, log.deck@), log.actions@) == Ok::<
                    GameModel,
                    TokenError,
                >(state@)
                &&& state.shaped()
            },
            Err(e) => if log.dealer >= 3 || log.deck@.len() < 15 {
                e == TokenError::InvalidFormat
            } else {
                played(GameModel::initial(log.dealer, log.deck@), log.actions@) == Err::<
                    GameModel,
                    TokenError,
                >(e)
            },
        },
{
    if log.dealer >= 3 || log.deck.len() < 15 {
        return Err(TokenError::InvalidFormat);
    }
    let mut state = CutthroatState::new_with_deck(log.dealer, slice_to_vec(log.deck.as_slice()));
    proof {
        lemma_initial_shaped(log.dealer, log.deck@);
        assert(log.actions@.skip(0) =~= log.actions@);
    }
    let ghost start = state@;
    let mut i: usize = 0;
    while i < log.actions.len()
        invariant
            i <= log.actions.len(),
            state.shaped(),
            log.dealer < 3,
            log.deck@.len() >= 15,
            start == GameModel::initial(log.dealer, log.deck@),
            played(start, log.actions@) == played(state@, log.actions@.skip(i as int)),
        decreases log.actions.len() - i,
    {
        let (seat, action) = log.actions[i];
        proof {
            assert(log.actions@.skip(i as int).drop_first() =~= log.actions@.skip(i + 1));
            assert(log.actions@.skip(i as int).len() > 0);
            assert(log.actions@.skip(i as int)[0] == (seat, action));
        }
        match state.apply(seat, action) {
            Ok(_) => {},
            Err(e) => {
                return Err(TokenError::Replay(e));
            },
        }
        i = i + 1;
    }
    proof {
        assert(log.actions@.skip(i as int).len() == 0);
    }
    Ok(state)
}

/// The snapshot of the hands that the seat to act sees joins `tokens`.
pub(crate) fn append_glasses_snapshot_token_strings(tokens: &mut Vec<Token>, state: &CutthroatState)
    requires
        state.shaped(),
    ensures
        final(tokens)@ == old(tokens)@ + snapshot_atoms(state@, actor_of(state@)),
{
    let actor = current_actor(state);
    append_glasses_snapshot_tokens(tokens, state, actor);
}

/// Makes a line whole as a player may send it: a bare `draw` gets the card
/// on top of the deck, a bare eight played as a royal the snapshot of the
/// hands.
pub(crate) fn normalize_action_tokens_for_state(tokens: &mut Vec<Token>, state: &CutthroatState) -> (r:
    Result<(), TokenError>)
    requires
        state.shaped(),
    ensures
        match r {
            Ok(_) => super::grammar::normalized(old(tokens)@, state@) == Ok::<
                Seq<Token>,
                TokenError,
            >(final(tokens)@),
            Err(e) => super::grammar::normalized(old(tokens)@, state@) == Err::<
                Seq<Token>,
                TokenError,
            >(e) && final(tokens)@ == old(tokens)@,
        },
{
    if tokens.len() < 2 {
        return Err(TokenError::InvalidFormat);
    }
    let verb = tokens[1];
    if verb == Token::Draw && tokens.len() == 2 {
        if state.deck.len() == 0 {
            return Err(TokenError::InvalidFormat);
        }
        tokens.push(state.deck[0].to_token_enum());
        return Ok(());
    }
    if verb == Token::PlayRoyal {
        if tokens.len() < 3 {
            return Err(TokenError::InvalidFormat);
        }
        let card = match tokens[2].card() {
            Some(c) => c,
            None => {
                return Err(TokenError::UnknownCard);
            },
        };
        if !is_glasses_card(card) {
            return Ok(());
        }
        if tokens.len() == 3 {
            append_glasses_snapshot_token_strings(tokens, state);
        }
    }
    Ok(())
}

/// Reads one line by itself, as a player sends it: a seat and an action,
/// with nothing after them. The atoms are made whole on the way.
pub fn parse_action_token_stream_for_state(parts: &mut Vec<Token>, state: &CutthroatState) -> (r:
    Result<(Seat, Action), TokenError>)
    requires
        state.shaped(),
    ensures
        r == super::grammar::read_line(old(parts)@, state@),
        final(parts)@ == super::grammar::line_after(old(parts)@, state@),
{
    if parts.len() == 0 {
        return Err(TokenError::InvalidFormat);
    }
    let seat = match parse_seat_token(parts[0]) {
        Ok(seat) => seat,
        Err(e) => {
            return Err(e);
        },
    };
    match normalize_action_tokens_for_state(parts, state) {
        Ok(_) => {},
        Err(e) => {
            return Err(e);
        },
    }
    let (action, next_cursor) = match parse_action_with_state(parts, 1, state) {
        Ok(found) => found,
        Err(e) => {
            return Err(e);
        },
    };
    if next_cursor != parts.len() {
        return Err(TokenError::InvalidFormat);
    }
    Ok((seat, action))
}

/// Reads one line by itself from its text.
pub fn parse_action_tokens_for_state(action_tokens: &str, state: &CutthroatState) -> (r: Result<
    (Seat, Action),
    TokenError,
>)
    requires
        state.shaped(),
    ensures
        r == super::grammar::parsed_line(action_tokens@, state@),
{
    let mut parts = match parse_token_slice(action_tokens) {
        Some(parts) => parts,
        None => {
            return Err(TokenError::InvalidFormat);
        },
    };
    parse_action_token_stream_for_state(&mut parts, state)
}

} // verus!
