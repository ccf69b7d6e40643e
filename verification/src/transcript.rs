//! A game written out in full, or as one seat may read it.

use vstd::prelude::*;
use vstd::string::*;
use crate::action::Action;
use crate::card::Card;
use crate::state::shape::lemma_initial_shaped;
use crate::state::{CutthroatState, GameModel, Phase, Seat};
use crate::tokenlog::grammar::{header_atoms, line_atoms, seat_atom};
use crate::tokenlog::{append_action, encode_header, TokenLog};
use crate::tokens::{join_tokens, joined, Token};

verus! {

/// The seat that is to act in the phase; the seat at turn when the game is
/// over.
pub fn action_seat_for_phase(phase: &Phase, turn: Seat) -> (seat: Seat)
    ensures
        seat == match phase@.actor(turn) {
            Some(s) => s,
            None => turn,
        },
{
    match phase {
        Phase::Countering(counter) => counter.next_seat,
        Phase::ResolvingThree { seat, .. } => *seat,
        Phase::ResolvingFour { seat, .. } => *seat,
        Phase::ResolvingFive { seat, .. } => *seat,
        Phase::ResolvingSeven { seat, .. } => *seat,
        _ => turn,
    }
}

/// A text with one more line: a space before the line unless the text is
/// empty.
pub open spec fn with_line(text: Seq<char>, line: Seq<char>) -> Seq<char> {
    text + (if text.len() > 0 {
        seq![' ']
    } else {
        Seq::empty()
    }) + line
}

/// The line of an action that `seat` takes in the state `s`, with the
/// snapshot of hands where the action is an eight played as a royal.
#[verifier::opaque]
pub open spec fn line_text(s: GameModel, seat: Seat, a: Action) -> Seq<char> {
    joined(line_atoms(s, seat, a, true))
}

/// The line that hides what a seat drew.
#[verifier::opaque]
pub open spec fn hidden_draw_text(seat: Seat) -> Seq<char> {
    joined(hidden_draw(seat))
}

/// Whether a line can be written for the action: the seat is one of the
/// table, and a draw has a card to name.
pub open spec fn writable(s: GameModel, seat: Seat, a: Action) -> bool {
    seat < 3 && !(a is Draw && s.deck.len() == 0)
}

/// The text after the lines of the actions are written to it, each in the
/// state that the actions before it led to. Writing stops at the first
/// action that cannot be written, and after the first that is not legal.
pub open spec fn written(text: Seq<char>, s: GameModel, actions: Seq<(Seat, Action)>) -> Seq<char>
    decreases actions.len(),
{
    if actions.len() == 0 {
        text
    } else {
        let (seat, a) = actions[0];
        if !writable(s, seat, a) {
            text
        } else {
            let next = with_line(text, line_text(s, seat, a));
            if s.legal(seat, a) {
                written(next, s.step(seat, a), actions.drop_first())
            } else {
                next
            }
        }
    }
}

/// The line that hides what a seat drew.
pub open spec fn hidden_draw(seat: Seat) -> Seq<Token> {
    seq![seat_atom(seat), Token::Draw, Token::Unknown]
}

/// Whether a viewer may not see what `seat` draws: every seat but the
/// viewer, and every seat for one who only watches.
pub open spec fn hides_draw(viewer: Option<Seat>, seat: Seat, a: Action) -> bool {
    a is Draw && viewer != Some(seat)
}

/// The text after the lines of the actions are written to it as `viewer`
/// may read them: the card of a draw that is hidden from it is `UNKNOWN`.
pub open spec fn redacted(
    text: Seq<char>,
    s: GameModel,
    actions: Seq<(Seat, Action)>,
    viewer: Option<Seat>,
) -> Seq<char>
    decreases actions.len(),
{
    if actions.len() == 0 {
        text
    } else {
        let (seat, a) = actions[0];
        if !writable(s, seat, a) {
            text
        } else {
            let next = with_line(
                text,
                if hides_draw(viewer, seat, a) {
                    hidden_draw_text(seat)
                } else {
                    line_text(s, seat, a)
                },
            );
            if s.legal(seat, a) {
                redacted(next, s.step(seat, a), actions.drop_first(), viewer)
            } else {
                next
            }
        }
    }
}

fn copy_cards(cards: &Vec<Card>) -> (copy: Vec<Card>)
    ensures
        copy@ == cards@,
{
    vstd::slice::slice_to_vec(cards.as_slice())
}

/// Writes the line of one action and plays it. Says whether writing can go
/// on: the line could be written, and the action was legal.
fn write_and_play(
    text: &mut String,
    state: &mut CutthroatState,
    seat: Seat,
    action: Action,
    viewer: Option<Option<Seat>>,
) -> (go: bool)
    requires
        old(state).shaped(),
    ensures
        final(state).shaped(),
        go == (writable(old(state)@, seat, action) && old(state)@.legal(seat, action)),
        go ==> final(state)@ == old(state)@.step(seat, action),
        final(text)@ == if writable(old(state)@, seat, action) {
            with_line(
                old(text)@,
                if viewer is Some && hides_draw(viewer->0, seat, action) {
                    hidden_draw_text(seat)
                } else {
                    line_text(old(state)@, seat, action)
                },
            )
        } else {
            old(text)@
        },
{
    proof {
        reveal(line_text);
        reveal(hidden_draw_text);
    }
    let is_draw = match action {
        Action::Draw => true,
        _ => false,
    };
    let hide = is_draw && match viewer {
        Some(Some(v)) => v != seat,
        Some(None) => true,
        None => false,
    };
    if hide {
        if seat >= 3 || state.deck.len() == 0 {
            return false;
        }
        let mut line: Vec<Token> = Vec::new();
        line.push(Token::from_seat(seat).unwrap());
        line.push(Token::Draw);
        line.push(Token::Unknown);
        proof {
            assert(line@ =~= hidden_draw(seat));
        }
        if text.as_str().unicode_len() > 0 {
            proof {
                reveal_strlit(" ");
                assert(" "@ =~= seq![' ']);
            }
            text.append(" ");
        }
        let written_line = join_tokens(line.as_slice());
        text.append(written_line.as_str());
    } else if append_action(text, state, seat, &action).is_err() {
        return false;
    }
    state.apply(seat, action).is_ok()
}

/// A log as text: the header, then a line for each action.
pub fn serialize_tokenlog(transcript: &TokenLog) -> (text: String)
    requires
        transcript.dealer < 3,
        transcript.deck@.len() >= 15,
    ensures
        text@ == log_text(transcript.dealer, transcript.deck@, transcript.actions@),
{
    let mut encoded = encode_header(transcript.dealer, transcript.deck.as_slice());
    let mut state = CutthroatState::new_with_deck(transcript.dealer, copy_cards(&transcript.deck));
    let ghost head = encoded@;
    let ghost start = state@;
    proof {
        lemma_initial_shaped(transcript.dealer, transcript.deck@);
        assert(transcript.actions@.skip(0) =~= transcript.actions@);
    }
    let mut i: usize = 0;
    while i < transcript.actions.len()
        invariant
            i <= transcript.actions.len(),
            state.shaped(),
            head == joined(header_atoms(transcript.dealer, transcript.deck@)),
            start == GameModel::initial(transcript.dealer, transcript.deck@),
            written(head, start, transcript.actions@) == written(
                encoded@,
                state@,
                transcript.actions@.skip(i as int),
            ),
        decreases transcript.actions.len() - i,
    {
        let (seat, action) = transcript.actions[i];
        proof {
            assert(transcript.actions@.skip(i as int).drop_first() =~= transcript.actions@.skip(
                i + 1,
            ));
            assert(transcript.actions@.skip(i as int).len() > 0);
            assert(transcript.actions@.skip(i as int)[0] == (seat, action));
        }
        if !write_and_play(&mut encoded, &mut state, seat, action, None) {
            return encoded;
        }
        i = i + 1;
    }
    proof {
        assert(transcript.actions@.skip(i as int).len() == 0);
    }
    encoded
}

/// A log as `viewer` may read it: without the deck, and without the cards
/// that others drew. One who only watches sees no drawn card at all.
pub fn redact_tokenlog_for_client(transcript: &TokenLog, viewer: Option<Seat>) -> (text: String)
    requires
        transcript.dealer < 3,
        transcript.deck@.len() >= 15,
    ensures
        text@ == redacted(
            joined(header_atoms(transcript.dealer, Seq::empty())),
            GameModel::initial(transcript.dealer, transcript.deck@),
            transcript.actions@,
            viewer,
        ),
{
    let no_cards: Vec<Card> = Vec::new();
    let mut text = encode_header(transcript.dealer, no_cards.as_slice());
    let mut state = CutthroatState::new_with_deck(transcript.dealer, copy_cards(&transcript.deck));
    let ghost head = text@;
    let ghost start = state@;
    proof {
        lemma_initial_shaped(transcript.dealer, transcript.deck@);
        assert(transcript.actions@.skip(0) =~= transcript.actions@);
        assert(no_cards@ =~= Seq::<Card>::empty());
    }
    let mut i: usize = 0;
    while i < transcript.actions.len()
        invariant
            i <= transcript.actions.len(),
            state.shaped(),
            head == joined(header_atoms(transcript.dealer, Seq::empty())),
            start == GameModel::initial(transcript.dealer, transcript.deck@),
            redacted(head, start, transcript.actions@, viewer) == redacted(
                text@,
                state@,
                transcript.actions@.skip(i as int),
                viewer,
            ),
        decreases transcript.actions.len() - i,
    {
        let (seat, action) = transcript.actions[i];
        proof {
            assert(transcript.actions@.skip(i as int).drop_first() =~= transcript.actions@.skip(
                i + 1,
            ));
            assert(transcript.actions@.skip(i as int).len() > 0);
            assert(transcript.actions@.skip(i as int)[0] == (seat, action));
        }
        if !write_and_play(&mut text, &mut state, seat, action, Some(viewer)) {
            return text;
        }
        i = i + 1;
    }
    proof {
        assert(transcript.actions@.skip(i as int).len() == 0);
    }
    text
}

/// Atoms, unless there are none, are written with a character or more.
pub proof fn lemma_joined_is_text(tokens: Seq<Token>)
    ensures
        joined(tokens).len() > 0 <==> tokens.len() > 0,
    decreases tokens.len(),
{
    if tokens.len() > 0 {
        crate::tokens::lemma_spelling_is_a_word(tokens.last());
        if tokens.len() == 1 {
            assert(tokens.last() == tokens[0]);
        }
    }
}

/// Atoms written after others are written as one more line.
pub proof fn lemma_joined_add(a: Seq<Token>, b: Seq<Token>)
    requires
        b.len() > 0,
    ensures
        joined(a + b) == with_line(joined(a), joined(b)),
    decreases b.len(),
{
    lemma_joined_is_text(a);
    if b.len() == 1 {
        if a.len() == 0 {
            assert(a + b =~= b);
            assert(with_line(joined(a), joined(b)) =~= joined(b));
        } else {
            assert((a + b).drop_last() =~= a);
            assert((a + b).last() == b[0]);
            assert(with_line(joined(a), joined(b)) =~= joined(a) + seq![' '] + b[0].spelling());
        }
    } else {
        let init = b.drop_last();
        assert((a + b).drop_last() =~= a + init);
        assert((a + b).last() == b.last());
        lemma_joined_add(a, init);
        assert(with_line(joined(a), joined(b)) =~= with_line(joined(a), joined(init)) + seq![' ']
            + b.last().spelling());
    }
}

/// The text of a legal game is its atoms joined: the lines written one
/// after another are the lines written at once.
pub proof fn lemma_written_is_joined(head: Seq<Token>, s: GameModel, actions: Seq<(Seat, Action)>)
    requires
        s.shaped(),
        s.run(actions) is Some,
    ensures
        written(joined(head), s, actions) == joined(
            head + crate::tokenlog::roundtrip::lines_atoms(s, actions),
        ),
    decreases actions.len(),
{
    if actions.len() == 0 {
        assert(head + crate::tokenlog::roundtrip::lines_atoms(s, actions) =~= head);
    } else {
        let (seat, a) = actions[0];
        let rest = actions.drop_first();
        let t = s.step(seat, a);
        assert(s.legal(seat, a));
        crate::tokenlog::roundtrip::lemma_legal_seat(s, seat, a);
        crate::tokenlog::roundtrip::lemma_line_begins(s, seat, a);
        crate::state::shape::lemma_step_keeps_shape(s, seat, a);
        assert(writable(s, seat, a)) by {
            reveal(GameModel::legal);
        }
        let line = crate::tokenlog::roundtrip::written_line(s, seat, a);
        assert(line == line_atoms(s, seat, a, true)) by {
            reveal(crate::tokenlog::roundtrip::written_line);
        }
        assert(line_text(s, seat, a) == joined(line)) by {
            reveal(line_text);
        }
        lemma_joined_add(head, line);
        lemma_written_is_joined(head + line, t, rest);
        assert(head + crate::tokenlog::roundtrip::lines_atoms(s, actions) =~= (head + line)
            + crate::tokenlog::roundtrip::lines_atoms(t, rest));
    }
}

/// The text of a game: its header and a line for each action.
pub open spec fn log_text(dealer: Seat, deck: Seq<Card>, actions: Seq<(Seat, Action)>) -> Seq<
    char,
> {
    written(joined(header_atoms(dealer, deck)), GameModel::initial(dealer, deck), actions)
}

/// The round trip of the token log. A legal game that was dealt from a
/// proper deck, written as a log, is read as the same game: the same dealer,
/// deck and actions. What is read, written again, is the same text; and
/// replayed, it leads to the state that the game led to.
pub proof fn lemma_round_trip(dealer: Seat, deck: Seq<Card>, actions: Seq<(Seat, Action)>)
    requires
        dealer < 3,
        deck.len() >= 15,
        crate::tokenlog::roundtrip::proper_deck(deck),
        GameModel::initial(dealer, deck).run(actions) is Some,
    ensures
        crate::tokenlog::grammar::parsed(log_text(dealer, deck, actions)) == Ok::<
            crate::tokenlog::LogModel,
            crate::tokenlog::TokenError,
        >(crate::tokenlog::LogModel { dealer, deck, actions }),
        ({
            let read = crate::tokenlog::grammar::parsed(log_text(dealer, deck, actions)).unwrap();
            &&& log_text(read.dealer, read.deck, read.actions) == log_text(dealer, deck, actions)
            &&& crate::tokenlog::grammar::played(
                GameModel::initial(read.dealer, read.deck),
                read.actions,
            ) == Ok::<GameModel, crate::tokenlog::TokenError>(
                GameModel::initial(dealer, deck).run(actions).unwrap(),
            )
        }),
{
    let start = GameModel::initial(dealer, deck);
    lemma_initial_shaped(dealer, deck);
    lemma_written_is_joined(header_atoms(dealer, deck), start, actions);
    crate::tokens::lemma_atoms_of_joined(
        crate::tokenlog::roundtrip::log_atoms(dealer, deck, actions),
    );
    crate::tokenlog::roundtrip::lemma_read_log(dealer, deck, actions);
    crate::tokenlog::roundtrip::lemma_played_is_run(start, actions);
}

} // verus!
