//! What is written reads back: a legal game, written line by line, is read
//! as the same game.

use vstd::prelude::*;
use super::grammar::{action_atoms, actor_of, after_hand, body_atoms, card_atoms, header_atoms, inferred_target, is_eight, line_atoms, line_begins, on_table, play_atoms, play_in, puts_on_glasses, read_action, read_deck, read_lines, read_log, read_snapshot, seat_atom, seat_of, shows, snapshot_atoms, target_atoms};
use super::types::{LogModel, TokenError};
use crate::action::{Action, OneOffTarget, SevenPlay};
use crate::card::Card;
use crate::state::conserve::{lemma_occ_add, lemma_pile_stripped, lemma_rider_cards};

use crate::state::rules::{pile, riders_pile, stripping};
use crate::state::shape::lemma_found_is_stack;
use crate::state::util::{first_where, lemma_first_where, lemma_occurrences_contains, occurrences, spec_next_seat};
use crate::state::{GameModel, PhaseModel, Seat, StackModel, TargetKind};
use crate::tokens::{lemma_card_atoms_are_a_bijection, Token};

verus! {

impl GameModel {
    /// No card is twice in the game, and every card in it is a card of the
    /// deck.
    pub open spec fn clean(self) -> bool {
        forall|c: Card| #[trigger] self.tally(c) <= 1 && (self.tally(c) > 0 ==> c.in_deck())
    }
}

/// The atom of a card of the deck names that card, and is neither a seat nor
/// a verb nor a bracket.
pub proof fn lemma_card_atom(c: Card)
    requires
        c.in_deck(),
    ensures
        Token::of_card(c).spec_card() == Some(c),
        Token::of_card(c).spec_seat() is None,
        seat_of(Token::of_card(c)) is Err,
        !Token::of_card(c).spec_is_verb(),
        Token::of_card(c) != Token::EndDeck,
        Token::of_card(c) != Token::Discard,
{
    lemma_card_atoms_are_a_bijection();
}

/// The atom of a seat of the table names that seat and no card.
pub proof fn lemma_seat_atom(seat: Seat)
    requires
        seat < 3,
    ensures
        seat_of(seat_atom(seat)) == Ok::<Seat, TokenError>(seat),
        seat_atom(seat).spec_card() is None,
        !seat_atom(seat).spec_is_verb(),
{
}

/// What is in a sequence is counted in it.
pub proof fn lemma_held_counts(s: Seq<Card>, i: int)
    requires
        0 <= i < s.len(),
    ensures
        occurrences(s, s[i]) >= 1,
{
    assert(s.contains(s[i]));
    lemma_occurrences_contains(s, s[i]);
}

/// The bases of the stacks.
pub open spec fn bases(stacks: Seq<StackModel>) -> Seq<Card> {
    pile(stacks.map_values(stripping()))
}

/// The cards of some stacks are their bases and their riders.
pub proof fn lemma_pile_parts(stacks: Seq<StackModel>, c: Card)
    ensures
        occurrences(pile(stacks), c) == occurrences(bases(stacks), c) + occurrences(
            riders_pile(stacks),
            c,
        ),
{
    lemma_pile_stripped(stacks, c);
}

/// The base of a stack is counted among the bases, and its topmost rider
/// among the riders.
pub proof fn lemma_stack_counts(stacks: Seq<StackModel>, i: int)
    requires
        0 <= i < stacks.len(),
    ensures
        occurrences(bases(stacks), stacks[i].base) >= 1,
        stacks[i].riders.len() > 0 ==> occurrences(
            riders_pile(stacks),
            stacks[i].riders.last().card,
        ) >= 1,
    decreases stacks.len(),
{
    let last = stacks.last();
    let rest = stacks.drop_last();
    let bare = stacks.map_values(stripping());
    assert(bare.drop_last() =~= rest.map_values(stripping()));
    let b = stacks[i].base;
    lemma_occ_add(pile(bare.drop_last()), bare.last().cards(), b);
    lemma_rider_cards(last, b, 0, b);
    if stacks[i].riders.len() > 0 {
        let r = stacks[i].riders.last().card;
        lemma_occ_add(riders_pile(rest), last.rider_cards(), r);
        if i == stacks.len() - 1 {
            let cards = last.rider_cards();
            assert(cards[cards.len() - 1] == r);
            lemma_held_counts(cards, cards.len() - 1);
        }
    }
    if i < stacks.len() - 1 {
        lemma_stack_counts(rest, i);
    }
}

/// How often the card `c` is a base of a point stack, a rider of one, a
/// base of a royal stack and a rider of one.
pub open spec fn on_points_as_base(s: GameModel, c: Card) -> nat {
    occurrences(bases(s.players[0].points), c) + occurrences(bases(s.players[1].points), c)
        + occurrences(bases(s.players[2].points), c)
}

pub open spec fn on_points_as_rider(s: GameModel, c: Card) -> nat {
    occurrences(riders_pile(s.players[0].points), c) + occurrences(
        riders_pile(s.players[1].points),
        c,
    ) + occurrences(riders_pile(s.players[2].points), c)
}

pub open spec fn on_royals_as_base(s: GameModel, c: Card) -> nat {
    occurrences(bases(s.players[0].royals), c) + occurrences(bases(s.players[1].royals), c)
        + occurrences(bases(s.players[2].royals), c)
}

pub open spec fn on_royals_as_rider(s: GameModel, c: Card) -> nat {
    occurrences(riders_pile(s.players[0].royals), c) + occurrences(
        riders_pile(s.players[1].royals),
        c,
    ) + occurrences(riders_pile(s.players[2].royals), c)
}

/// How often the card `c` is shown by a stack in the given way.
pub open spec fn shown(s: GameModel, kind: TargetKind, c: Card) -> nat {
    match kind {
        TargetKind::Point => on_points_as_base(s, c),
        TargetKind::Royal => on_royals_as_base(s, c),
        TargetKind::Jack => on_points_as_rider(s, c),
        TargetKind::Joker => on_royals_as_rider(s, c),
    }
}

/// The cards in the stacks are in the game.
pub proof fn lemma_tally_of_stacks(s: GameModel, c: Card)
    ensures
        s.tally(c) >= on_points_as_base(s, c) + on_points_as_rider(s, c) + on_royals_as_base(s, c)
            + on_royals_as_rider(s, c),
        s.tally(c) >= occurrences(s.deck, c),
        s.tally(c) >= occurrences(s.scrap, c),
        s.tally(c) >= occurrences(s.players[0].hand, c),
        s.tally(c) >= occurrences(s.players[1].hand, c),
        s.tally(c) >= occurrences(s.players[2].hand, c),
        s.tally(c) >= occurrences(s.phase.cards(), c),
{
    lemma_pile_parts(s.players[0].points, c);
    lemma_pile_parts(s.players[1].points, c);
    lemma_pile_parts(s.players[2].points, c);
    lemma_pile_parts(s.players[0].royals, c);
    lemma_pile_parts(s.players[1].royals, c);
    lemma_pile_parts(s.players[2].royals, c);
}

/// A card that some stack shows is counted as shown.
pub proof fn lemma_on_table_shown(s: GameModel, kind: TargetKind, c: Card)
    requires
        on_table(s, kind, c),
    ensures
        shown(s, kind, c) >= 1,
{
    let f = shows(kind, c);
    let on = kind.on_points();
    lemma_first_where(s.stacks(0, on), f);
    lemma_first_where(s.stacks(1, on), f);
    lemma_first_where(s.stacks(2, on), f);
    let p: int = if first_where(s.stacks(0, on), f) < s.stacks(0, on).len() {
        0
    } else if first_where(s.stacks(1, on), f) < s.stacks(1, on).len() {
        1
    } else {
        2
    };
    let stacks = s.stacks(p, on);
    let i = first_where(stacks, f);
    assert(f(stacks[i]));
    lemma_stack_counts(stacks, i);
}

/// What an aim finds is on the table.
pub proof fn lemma_target_on_table(s: GameModel, seat: Seat, kind: TargetKind, c: Card, guarded: bool)
    requires
        s.table_ok(),
        s.has_target(seat, kind, c, guarded),
    ensures
        on_table(s, kind, c),
        shown(s, kind, c) >= 1,
        s.tally(c) >= 1,
{
    lemma_found_is_stack(s, seat, kind, c, guarded);
    let at = s.find_target(seat, kind, c, guarded).unwrap();
    let on = kind.on_points();
    let f = shows(kind, c);
    let stacks = s.stacks(at.0 as int, on);
    assert(f(stacks[at.1]));
    super::super::state::targeting::lemma_first_where_exists(stacks, f);
    lemma_on_table_shown(s, kind, c);
    lemma_tally_of_stacks(s, c);
}

/// In a clean game a card that an action is aimed at is read as the target
/// that was meant.
pub proof fn lemma_inferred_target(s: GameModel, seat: Seat, kind: TargetKind, c: Card)
    requires
        s.table_ok(),
        s.clean(),
        s.has_target(seat, kind, c, true),
    ensures
        inferred_target(s, c) == Ok::<OneOffTarget, TokenError>(kind.target(c)),
        c.in_deck(),
{
    lemma_target_on_table(s, seat, kind, c, true);
    lemma_tally_of_stacks(s, c);
    assert(s.tally(c) <= 1);
    if !(kind is Point) && on_table(s, TargetKind::Point, c) {
        lemma_on_table_shown(s, TargetKind::Point, c);
    }
    if !(kind is Royal) && on_table(s, TargetKind::Royal, c) {
        lemma_on_table_shown(s, TargetKind::Royal, c);
    }
    if !(kind is Jack) && on_table(s, TargetKind::Jack, c) {
        lemma_on_table_shown(s, TargetKind::Jack, c);
    }
}

/// A hand of cards of the deck, written, reads back.
pub proof fn lemma_after_hand(parts: Seq<Token>, i: int, hand: Seq<Card>)
    requires
        0 <= i,
        i + hand.len() <= parts.len(),
        forall|k: int| 0 <= k < hand.len() ==> parts[i + k] == Token::of_card(#[trigger] hand[k]),
        forall|k: int| 0 <= k < hand.len() ==> (#[trigger] hand[k]).in_deck(),
    ensures
        after_hand(parts, i, hand) == Ok::<int, TokenError>(i + hand.len()),
    decreases hand.len(),
{
    if hand.len() > 0 {
        assert(parts[i + 0] == Token::of_card(hand[0]));
        lemma_card_atom(hand[0]);
        let rest = hand.drop_first();
        assert forall|k: int| 0 <= k < rest.len() implies parts[i + 1 + k] == Token::of_card(
            #[trigger] rest[k],
        ) by {
            assert(rest[k] == hand[k + 1]);
            assert(parts[i + (k + 1)] == Token::of_card(hand[k + 1]));
        }
        assert forall|k: int| 0 <= k < rest.len() implies (#[trigger] rest[k]).in_deck() by {
            assert(rest[k] == hand[k + 1]);
        }
        lemma_after_hand(parts, i + 1, rest);
    }
}

/// The cards of a hand in a clean game are cards of the deck.
pub proof fn lemma_hand_in_deck(s: GameModel, p: Seat)
    requires
        s.clean(),
        p < 3,
    ensures
        forall|k: int|
            0 <= k < s.players[p as int].hand.len() ==> (
            #[trigger] s.players[p as int].hand[k]).in_deck(),
{
    let hand = s.players[p as int].hand;
    assert forall|k: int| 0 <= k < hand.len() implies (#[trigger] hand[k]).in_deck() by {
        lemma_held_counts(hand, k);
        lemma_tally_of_stacks(s, hand[k]);
        assert(s.tally(hand[k]) > 0);
    }
}

/// Whether the atoms from place `i` on begin with `atoms`.
pub open spec fn begins_at(parts: Seq<Token>, i: int, atoms: Seq<Token>) -> bool {
    &&& 0 <= i
    &&& i + atoms.len() <= parts.len()
    &&& forall|k: int| 0 <= k < atoms.len() ==> parts[i + k] == #[trigger] atoms[k]
}

/// The snapshot of the hands, written, reads back.
pub proof fn lemma_read_snapshot(parts: Seq<Token>, i: int, s: GameModel, seat: Seat)
    requires
        s.shaped(),
        s.clean(),
        seat < 3,
        actor_of(s) == seat,
        begins_at(parts, i, snapshot_atoms(s, seat)),
        i + snapshot_atoms(s, seat).len() == parts.len() || line_begins(
            parts,
            i + snapshot_atoms(s, seat).len(),
        ),
    ensures
        read_snapshot(parts, i, s) == Ok::<int, TokenError>(i + snapshot_atoms(s, seat).len()),
{
    let one = spec_next_seat(seat);
    let two = spec_next_seat(one);
    let h1 = s.players[one as int].hand;
    let h2 = s.players[two as int].hand;
    let atoms = snapshot_atoms(s, seat);
    lemma_seat_atom(one);
    lemma_seat_atom(two);
    lemma_hand_in_deck(s, one);
    lemma_hand_in_deck(s, two);
    assert(atoms.len() == 2 + h1.len() + h2.len());
    assert(parts[i + 0] == atoms[0]);
    assert(atoms[0] == seat_atom(one));
    assert forall|k: int| 0 <= k < h1.len() implies parts[i + 1 + k] == Token::of_card(
        #[trigger] h1[k],
    ) by {
        assert(parts[i + (1 + k)] == atoms[1 + k]);
        assert(atoms[1 + k] == card_atoms(h1)[k]);
    }
    lemma_after_hand(parts, i + 1, h1);
    let j = i + 1 + h1.len();
    assert(parts[i + (1 + h1.len())] == atoms[1 + h1.len() as int]);
    assert(atoms[1 + h1.len() as int] == seat_atom(two));
    assert forall|k: int| 0 <= k < h2.len() implies parts[j + 1 + k] == Token::of_card(
        #[trigger] h2[k],
    ) by {
        assert(parts[i + (2 + h1.len() + k)] == atoms[2 + h1.len() + k]);
        assert(atoms[2 + h1.len() + k] == card_atoms(h2)[k]);
    }
    lemma_after_hand(parts, j + 1, h2);
}

/// What is held somewhere in a clean game is a card of the deck.
pub proof fn lemma_held_in_deck(s: GameModel, c: Card)
    requires
        s.clean(),
        s.players.len() == 3,
        s.deck.contains(c) || s.scrap.contains(c) || s.players[0].hand.contains(c)
            || s.players[1].hand.contains(c) || s.players[2].hand.contains(c)
            || s.phase.cards().contains(c),
    ensures
        c.in_deck(),
{
    lemma_tally_of_stacks(s, c);
    lemma_occurrences_contains(s.deck, c);
    lemma_occurrences_contains(s.scrap, c);
    lemma_occurrences_contains(s.players[0].hand, c);
    lemma_occurrences_contains(s.players[1].hand, c);
    lemma_occurrences_contains(s.players[2].hand, c);
    lemma_occurrences_contains(s.phase.cards(), c);
    assert(s.tally(c) > 0);
}

/// The card that a legal action plays is a card of the deck.
pub proof fn lemma_lead_in_deck(s: GameModel, seat: Seat, a: Action)
    requires
        s.shaped(),
        s.clean(),
        s.legal(seat, a),
        a.lead() is Some,
    ensures
        a.lead().unwrap().in_deck(),
{
    reveal(GameModel::legal);
    let c = a.lead().unwrap();
    match s.phase {
        PhaseModel::ResolvingSeven { revealed, .. } => {
            assert(s.phase.cards() == revealed);
            lemma_held_in_deck(s, c);
        },
        _ => {
            assert(s.available(seat, c));
            lemma_occurrences_contains(s.players[seat as int].hand, c);
            lemma_held_in_deck(s, c);
        },
    }
}

/// The stack that a play is aimed at shows a card of the deck.
pub proof fn lemma_play_target_in_deck(s: GameModel, seat: Seat, card: Card, play: SevenPlay)
    requires
        s.table_ok(),
        s.clean(),
        s.seven_play_ok(seat, card, play),
    ensures
        match play {
            SevenPlay::Scuttle { target } => target.in_deck(),
            SevenPlay::Jack { target } => target.in_deck(),
            SevenPlay::Joker { target } => target.in_deck(),
            _ => true,
        },
{
    match play {
        SevenPlay::Scuttle { target } => {
            lemma_target_on_table(s, seat, TargetKind::Point, target, false);
        },
        SevenPlay::Jack { target } => {
            lemma_target_on_table(s, seat, TargetKind::Point, target, true);
        },
        SevenPlay::Joker { target } => {
            if s.has_target(seat, TargetKind::Royal, target, true) {
                lemma_target_on_table(s, seat, TargetKind::Royal, target, true);
            } else {
                lemma_target_on_table(s, seat, TargetKind::Jack, target, true);
            }
        },
        _ => {},
    }
}

/// The play that a legal action makes of its card, and whether the card is
/// one that a seven revealed.
pub open spec fn play_of(a: Action) -> Option<SevenPlay> {
    match a {
        Action::PlayPoints { .. } => Some(SevenPlay::Points),
        Action::Scuttle { target_point_base, .. } => Some(
            SevenPlay::Scuttle { target: target_point_base },
        ),
        Action::PlayRoyal { .. } => Some(SevenPlay::Royal),
        Action::PlayJack { target_point_base, .. } => Some(
            SevenPlay::Jack { target: target_point_base },
        ),
        Action::PlayJoker { target_royal_card, .. } => Some(
            SevenPlay::Joker { target: target_royal_card },
        ),
        Action::PlayOneOff { target, .. } => Some(SevenPlay::OneOff { target }),
        Action::ResolveSevenChoose { play, .. } => Some(play),
        _ => None,
    }
}

/// A legal play is what its card and its way of playing make in the phase of
/// the state, and its card may be played so.
pub proof fn lemma_play_in(s: GameModel, seat: Seat, a: Action)
    requires
        s.shaped(),
        s.legal(seat, a),
        play_of(a) matches Some(play) && !(play is Discard),
    ensures
        play_in(s, a.lead().unwrap(), play_of(a).unwrap()) == Ok::<Action, TokenError>(a),
        s.seven_play_ok(seat, a.lead().unwrap(), play_of(a).unwrap()),
        s.phase is Main || s.phase is ResolvingSeven,
{
    reveal(GameModel::legal);
}

/// Points, a scuttle, a jack or a joker, written, reads back.
pub proof fn lemma_read_plain_play(parts: Seq<Token>, i: int, s: GameModel, seat: Seat, a: Action)
    requires
        s.shaped(),
        s.clean(),
        s.legal(seat, a),
        play_of(a) matches Some(play) && (play is Points || play is Scuttle || play is Jack
            || play is Joker),
        begins_at(parts, i, body_atoms(s, a)),
    ensures
        read_action(parts, i, s) == Ok::<(Action, int), TokenError>(
            (a, i + body_atoms(s, a).len()),
        ),
{
    let card = a.lead().unwrap();
    let play = play_of(a).unwrap();
    lemma_play_in(s, seat, a);
    lemma_lead_in_deck(s, seat, a);
    lemma_play_target_in_deck(s, seat, card, play);
    lemma_card_atom(card);
    let atoms = body_atoms(s, a);
    assert(atoms == play_atoms(card, play));
    assert(parts[i + 0] == atoms[0]);
    assert(parts[i + 1] == atoms[1]);
    match play {
        SevenPlay::Points => {},
        SevenPlay::Scuttle { target } => {
            lemma_card_atom(target);
            assert(parts[i + 2] == atoms[2]);
        },
        SevenPlay::Jack { target } => {
            lemma_card_atom(target);
            assert(parts[i + 2] == atoms[2]);
        },
        SevenPlay::Joker { target } => {
            lemma_card_atom(target);
            assert(parts[i + 2] == atoms[2]);
        },
        _ => {},
    }
}

/// An eight, a queen or a king played as a royal, written with the snapshot
/// of the hands after an eight, reads back.
pub proof fn lemma_read_royal_play(parts: Seq<Token>, i: int, s: GameModel, seat: Seat, a: Action)
    requires
        s.shaped(),
        s.clean(),
        s.legal(seat, a),
        play_of(a) == Some(SevenPlay::Royal),
        begins_at(parts, i, action_atoms(s, seat, a, true)),
        i + action_atoms(s, seat, a, true).len() == parts.len() || line_begins(
            parts,
            i + action_atoms(s, seat, a, true).len(),
        ),
    ensures
        read_action(parts, i, s) == Ok::<(Action, int), TokenError>(
            (a, i + action_atoms(s, seat, a, true).len()),
        ),
{
    reveal(GameModel::legal);
    let card = a.lead().unwrap();
    lemma_play_in(s, seat, a);
    lemma_lead_in_deck(s, seat, a);
    lemma_card_atom(card);
    let atoms = action_atoms(s, seat, a, true);
    let body = body_atoms(s, a);
    assert(body == play_atoms(card, SevenPlay::Royal));
    assert(parts[i + 0] == atoms[0]);
    assert(parts[i + 1] == atoms[1]);
    assert(atoms[0] == body[0] && atoms[1] == body[1]);
    if is_eight(card) {
        assert(puts_on_glasses(a));
        let snap = snapshot_atoms(s, seat);
        assert(atoms == body + snap);
        assert forall|k: int| 0 <= k < snap.len() implies parts[i + 2 + k] == #[trigger] snap[k] by {
            assert(parts[i + (2 + k)] == atoms[2 + k]);
        }
        assert(actor_of(s) == seat);
        lemma_read_snapshot(parts, i + 2, s, seat);
    } else {
        assert(!puts_on_glasses(a));
    }
}

/// A one-off, written with its target, reads back.
pub proof fn lemma_read_oneoff_play(parts: Seq<Token>, i: int, s: GameModel, seat: Seat, a: Action)
    requires
        s.shaped(),
        s.clean(),
        s.legal(seat, a),
        play_of(a) matches Some(SevenPlay::OneOff { .. }),
        begins_at(parts, i, body_atoms(s, a)),
        i + body_atoms(s, a).len() == parts.len() || line_begins(
            parts,
            i + body_atoms(s, a).len(),
        ),
    ensures
        read_action(parts, i, s) == Ok::<(Action, int), TokenError>(
            (a, i + body_atoms(s, a).len()),
        ),
{
    let card = a.lead().unwrap();
    let play = play_of(a).unwrap();
    let target = play->OneOff_target;
    lemma_play_in(s, seat, a);
    lemma_lead_in_deck(s, seat, a);
    lemma_card_atom(card);
    let atoms = body_atoms(s, a);
    assert(atoms == play_atoms(card, play));
    assert(atoms =~= seq![Token::OneOff, Token::of_card(card)] + target_atoms(target));
    assert(parts[i + 0] == atoms[0]);
    assert(parts[i + 1] == atoms[1]);
    assert(s.oneoff_ok(seat, card, target));
    let n = i + 2;
    match target {
        OneOffTarget::NoTarget => {
            if n < parts.len() {
                // a new line begins: its seat is no target but for a four
                assert(line_begins(parts, n));
                assert(card.spec_rank_value() != Some(4u8));
            }
        },
        OneOffTarget::Player { seat: t } => {
            lemma_seat_atom(t);
            assert(parts[i + 2] == atoms[2]);
        },
        OneOffTarget::Point { base } => {
            lemma_inferred_target(s, seat, TargetKind::Point, base);
            lemma_card_atom(base);
            assert(parts[i + 2] == atoms[2]);
        },
        OneOffTarget::Royal { card: c } => {
            lemma_inferred_target(s, seat, TargetKind::Royal, c);
            lemma_card_atom(c);
            assert(parts[i + 2] == atoms[2]);
        },
        OneOffTarget::Jack { card: c } => {
            lemma_inferred_target(s, seat, TargetKind::Jack, c);
            lemma_card_atom(c);
            assert(parts[i + 2] == atoms[2]);
        },
        OneOffTarget::Joker { card: c } => {
            lemma_inferred_target(s, seat, TargetKind::Joker, c);
            lemma_card_atom(c);
            assert(parts[i + 2] == atoms[2]);
        },
    }
}

/// A draw, a pass, an answer in a counter window, a pick or a discard,
/// written, reads back.
pub proof fn lemma_read_simple(parts: Seq<Token>, i: int, s: GameModel, seat: Seat, a: Action)
    requires
        s.shaped(),
        s.clean(),
        s.legal(seat, a),
        play_of(a) is None || play_of(a) == Some(SevenPlay::Discard),
        begins_at(parts, i, body_atoms(s, a)),
    ensures
        read_action(parts, i, s) == Ok::<(Action, int), TokenError>(
            (a, i + body_atoms(s, a).len()),
        ),
{
    reveal(GameModel::legal);
    let atoms = body_atoms(s, a);
    assert(parts[i + 0] == atoms[0]);
    match a {
        Action::Draw => {
            assert(s.deck[0] == s.deck[0] && s.deck.contains(s.deck[0]));
            lemma_held_in_deck(s, s.deck[0]);
            lemma_card_atom(s.deck[0]);
            assert(parts[i + 1] == atoms[1]);
        },
        Action::Pass => {},
        Action::CounterTwo { two_card } => {
            lemma_lead_in_deck(s, seat, a);
            lemma_card_atom(two_card);
            assert(parts[i + 1] == atoms[1]);
        },
        Action::CounterPass => {},
        Action::ResolveThreePick { card_from_scrap } => {
            lemma_held_in_deck(s, card_from_scrap);
            lemma_card_atom(card_from_scrap);
            assert(parts[i + 1] == atoms[1]);
        },
        Action::ResolveFourDiscard { card } => {
            lemma_held_in_deck(s, card);
            lemma_card_atom(card);
            assert(parts[i + 1] == atoms[1]);
            assert(parts[i + 2] == atoms[2]);
        },
        Action::ResolveFiveDiscard { card } => {
            lemma_held_in_deck(s, card);
            lemma_card_atom(card);
            assert(parts[i + 1] == atoms[1]);
        },
        Action::ResolveSevenChoose { card, play } => {
            lemma_lead_in_deck(s, seat, a);
            lemma_card_atom(card);
            assert(parts[i + 1] == atoms[1]);
        },
        _ => {},
    }
}

/// Reading what was written, action by action. In a clean game the atoms
/// of a legal action, with nothing or a new line after them, read back as
/// that action.
pub proof fn lemma_read_action(parts: Seq<Token>, i: int, s: GameModel, seat: Seat, a: Action)
    requires
        s.shaped(),
        s.clean(),
        s.legal(seat, a),
        begins_at(parts, i, action_atoms(s, seat, a, true)),
        i + action_atoms(s, seat, a, true).len() == parts.len() || line_begins(
            parts,
            i + action_atoms(s, seat, a, true).len(),
        ),
    ensures
        read_action(parts, i, s) == Ok::<(Action, int), TokenError>(
            (a, i + action_atoms(s, seat, a, true).len()),
        ),
{
    match play_of(a) {
        Some(SevenPlay::Royal) => {
            lemma_read_royal_play(parts, i, s, seat, a);
        },
        Some(SevenPlay::OneOff { .. }) => {
            assert(!puts_on_glasses(a));
            lemma_read_oneoff_play(parts, i, s, seat, a);
        },
        Some(SevenPlay::Discard) => {
            assert(!puts_on_glasses(a));
            lemma_read_simple(parts, i, s, seat, a);
        },
        None => {
            assert(!puts_on_glasses(a));
            lemma_read_simple(parts, i, s, seat, a);
        },
        _ => {
            assert(!puts_on_glasses(a));
            lemma_read_plain_play(parts, i, s, seat, a);
        },
    }
}

/// The line of an action: its seat, its atoms and, after an eight played as
/// a royal, the snapshot of the hands.
#[verifier::opaque]
pub open spec fn written_line(s: GameModel, seat: Seat, a: Action) -> Seq<Token> {
    line_atoms(s, seat, a, true)
}

/// The lines of the actions, each written in the state that the actions
/// before it led to.
pub open spec fn lines_atoms(s: GameModel, actions: Seq<(Seat, Action)>) -> Seq<Token>
    decreases actions.len(),
{
    if actions.len() == 0 {
        Seq::empty()
    } else {
        written_line(s, actions[0].0, actions[0].1) + lines_atoms(
            s.step(actions[0].0, actions[0].1),
            actions.drop_first(),
        )
    }
}

/// A whole game in atoms: the header, then the lines.
pub open spec fn log_atoms(dealer: Seat, deck: Seq<Card>, actions: Seq<(Seat, Action)>) -> Seq<
    Token,
> {
    header_atoms(dealer, deck) + lines_atoms(GameModel::initial(dealer, deck), actions)
}

/// Only a seat of the table has a legal action.
pub proof fn lemma_legal_seat(s: GameModel, seat: Seat, a: Action)
    requires
        s.shaped(),
        s.legal(seat, a),
    ensures
        seat < 3,
{
    reveal(GameModel::legal);
}

/// A legal action leaves a clean game clean.
pub proof fn lemma_step_keeps_clean(s: GameModel, seat: Seat, a: Action)
    requires
        s.shaped(),
        s.settled(),
        s.clean(),
        s.legal(seat, a),
    ensures
        s.step(seat, a).clean(),
        s.step(seat, a).shaped(),
        s.step(seat, a).settled(),
{
    crate::state::shape::lemma_step_keeps_shape(s, seat, a);
    let t = s.step(seat, a);
    assert forall|c: Card| #[trigger] t.tally(c) <= 1 && (t.tally(c) > 0 ==> c.in_deck()) by {
        crate::state::conserve::lemma_step_conserves_cards(s, seat, a, c);
        assert(s.tally(c) <= 1);
    }
    crate::state::conserve::lemma_step_conserves_cards(s, seat, a, Card::Joker(0));
}

/// A line begins with the atom of a seat of the table and a verb.
pub proof fn lemma_line_begins(s: GameModel, seat: Seat, a: Action)
    requires
        seat < 3,
    ensures
        written_line(s, seat, a).len() >= 2,
        seat_of(written_line(s, seat, a)[0]) == Ok::<Seat, TokenError>(seat),
        written_line(s, seat, a)[1].spec_is_verb(),
{
    reveal(written_line);
    lemma_seat_atom(seat);
    let line = line_atoms(s, seat, a, true);
    let atoms = action_atoms(s, seat, a, true);
    assert(atoms[0] == body_atoms(s, a)[0]);
    assert(line[1] == atoms[0]);
}

/// One line of a legal game, written with nothing or a new line after it,
/// reads back as its seat and its action.
pub proof fn lemma_read_line(parts: Seq<Token>, i: int, s: GameModel, seat: Seat, a: Action)
    requires
        s.shaped(),
        s.clean(),
        s.legal(seat, a),
        begins_at(parts, i, written_line(s, seat, a)),
        i + written_line(s, seat, a).len() == parts.len() || line_begins(
            parts,
            i + written_line(s, seat, a).len(),
        ),
    ensures
        seat_of(parts[i]) == Ok::<Seat, TokenError>(seat),
        read_action(parts, i + 1, s) == Ok::<(Action, int), TokenError>(
            (a, i + written_line(s, seat, a).len()),
        ),
{
    reveal(written_line);
    lemma_legal_seat(s, seat, a);
    lemma_seat_atom(seat);
    let line = line_atoms(s, seat, a, true);
    let atoms = action_atoms(s, seat, a, true);
    assert(line =~= seq![seat_atom(seat)] + atoms);
    assert(parts[i + 0] == line[0]);
    assert forall|k: int| 0 <= k < atoms.len() implies parts[i + 1 + k] == #[trigger] atoms[k] by {
        assert(parts[i + (1 + k)] == line[1 + k]);
    }
    lemma_read_action(parts, i + 1, s, seat, a);
}

/// Reading the lines from a line on is reading that line and then the rest.
pub proof fn lemma_read_lines_step(parts: Seq<Token>, i: int, s: GameModel, seat: Seat, a: Action, n: int)
    requires
        0 <= i < parts.len(),
        i < n,
        seat_of(parts[i]) == Ok::<Seat, TokenError>(seat),
        read_action(parts, i + 1, s) == Ok::<(Action, int), TokenError>((a, n)),
        s.legal(seat, a),
    ensures
        read_lines(parts, i, s) == match read_lines(parts, n, s.step(seat, a)) {
            Ok(rest) => Ok::<Seq<(Seat, Action)>, TokenError>(seq![(seat, a)] + rest),
            Err(e) => Err::<Seq<(Seat, Action)>, TokenError>(e),
        },
{
}

/// Whether a new line begins where the atoms `more` begin.
pub proof fn lemma_more_begins(parts: Seq<Token>, j: int, more: Seq<Token>, first: Seq<Token>)
    requires
        0 <= j <= parts.len(),
        parts.skip(j) == more,
        first.len() >= 2,
        more.len() >= first.len(),
        forall|k: int| 0 <= k < first.len() ==> more[k] == first[k],
        seat_of(first[0]).is_ok(),
        first[1].spec_is_verb(),
    ensures
        line_begins(parts, j),
{
    assert(parts[j] == parts.skip(j)[0]);
    assert(parts[j + 1] == parts.skip(j)[1]);
    assert(more[0] == first[0]);
    assert(more[1] == first[1]);
}

/// Atoms that begin with a line go on with what follows the line.
pub proof fn lemma_split_lines(parts: Seq<Token>, i: int, line: Seq<Token>, more: Seq<Token>)
    requires
        0 <= i <= parts.len(),
        parts.skip(i) == line + more,
    ensures
        begins_at(parts, i, line),
        i + line.len() + more.len() == parts.len(),
        parts.skip(i + line.len()) == more,
{
    let tail = parts.skip(i);
    let n = line.len() as int;
    assert(tail.len() == n + more.len());
    assert forall|k: int| 0 <= k < n implies parts[i + k] == #[trigger] line[k] by {
        assert(parts[i + k] == tail[k]);
    }
    assert(parts.skip(i + n) =~= more) by {
        assert forall|k: int| 0 <= k < more.len() implies parts.skip(i + n)[k] == more[k] by {
            assert(parts[i + n + k] == tail[n + k]);
        }
    }
}

/// After the lines of a legal game comes nothing, or a new line.
pub proof fn lemma_lines_begin(parts: Seq<Token>, j: int, t: GameModel, rest: Seq<(Seat, Action)>)
    requires
        t.shaped(),
        t.run(rest) is Some,
        0 <= j <= parts.len(),
        parts.skip(j) == lines_atoms(t, rest),
    ensures
        j == parts.len() || line_begins(parts, j),
{
    if rest.len() > 0 {
        let (seat2, a2) = rest[0];
        assert(t.legal(seat2, a2));
        lemma_legal_seat(t, seat2, a2);
        lemma_line_begins(t, seat2, a2);
        let first = written_line(t, seat2, a2);
        let more = lines_atoms(t, rest);
        assert(more == first + lines_atoms(t.step(seat2, a2), rest.drop_first()));
        lemma_more_begins(parts, j, more, first);
    } else {
        assert(parts.skip(j).len() == 0);
    }
}

/// The lines of a legal game, written, read back as the actions of the
/// game.
#[verifier::rlimit(50)]
pub proof fn lemma_read_lines(parts: Seq<Token>, i: int, s: GameModel, actions: Seq<(Seat, Action)>)
    requires
        s.shaped(),
        s.settled(),
        s.clean(),
        s.run(actions) is Some,
        0 <= i <= parts.len(),
        parts.skip(i) == lines_atoms(s, actions),
    ensures
        read_lines(parts, i, s) == Ok::<Seq<(Seat, Action)>, TokenError>(actions),
    decreases actions.len(),
{
    if actions.len() == 0 {
        assert(parts.skip(i).len() == 0);
        assert(actions =~= Seq::<(Seat, Action)>::empty());
    } else {
        let seat = actions[0].0;
        let a = actions[0].1;
        let rest = actions.drop_first();
        let t = s.step(seat, a);
        let line = written_line(s, seat, a);
        let n = line.len() as int;
        lemma_legal_seat(s, seat, a);
        lemma_step_keeps_clean(s, seat, a);
        lemma_line_begins(s, seat, a);
        lemma_split_lines(parts, i, line, lines_atoms(t, rest));
        lemma_lines_begin(parts, i + n, t, rest);
        lemma_read_line(parts, i, s, seat, a);
        lemma_read_lines(parts, i + n, t, rest);
        lemma_read_lines_step(parts, i, s, seat, a, i + n);
        assert(seq![(seat, a)] + rest =~= actions);
    }
}

/// A deck of cards of the deck, written between its brackets, reads back.
pub proof fn lemma_read_deck(parts: Seq<Token>, i: int, deck: Seq<Card>)
    requires
        0 <= i,
        i + deck.len() < parts.len(),
        forall|k: int| 0 <= k < deck.len() ==> parts[i + k] == Token::of_card(#[trigger] deck[k]),
        forall|k: int| 0 <= k < deck.len() ==> (#[trigger] deck[k]).in_deck(),
        parts[i + deck.len()] == Token::EndDeck,
    ensures
        read_deck(parts, i) == Ok::<(Seq<Card>, int), TokenError>((deck, i + deck.len() + 1)),
    decreases deck.len(),
{
    if deck.len() == 0 {
        assert(deck =~= Seq::<Card>::empty());
    } else {
        assert(parts[i + 0] == Token::of_card(deck[0]));
        lemma_card_atom(deck[0]);
        let rest = deck.drop_first();
        assert forall|k: int| 0 <= k < rest.len() implies parts[i + 1 + k] == Token::of_card(
            #[trigger] rest[k],
        ) by {
            assert(rest[k] == deck[k + 1]);
            assert(parts[i + (k + 1)] == Token::of_card(deck[k + 1]));
        }
        assert forall|k: int| 0 <= k < rest.len() implies (#[trigger] rest[k]).in_deck() by {
            assert(rest[k] == deck[k + 1]);
        }
        lemma_read_deck(parts, i + 1, rest);
        assert(seq![deck[0]] + rest =~= deck);
    }
}

/// A deck in which no card is twice and every card is a card of the game.
pub open spec fn proper_deck(deck: Seq<Card>) -> bool {
    forall|c: Card| #[trigger] occurrences(deck, c) <= 1 && (occurrences(deck, c) > 0 ==> c.in_deck())
}

/// A deck without a card twice, all its cards cards of the game, is proper:
/// so is the full deck in any order.
pub proof fn lemma_proper_deck(deck: Seq<Card>)
    requires
        deck.no_duplicates(),
        forall|i: int| 0 <= i < deck.len() ==> (#[trigger] deck[i]).in_deck(),
    ensures
        proper_deck(deck),
    decreases deck.len(),
{
    if deck.len() == 0 {
        assert forall|c: Card| #[trigger] occurrences(deck, c) <= 1 && (occurrences(deck, c) > 0
            ==> c.in_deck()) by {}
    } else {
        let rest = deck.drop_last();
        assert forall|i: int| 0 <= i < rest.len() implies (#[trigger] rest[i]).in_deck() by {
            assert(rest[i] == deck[i]);
        }
        assert(rest.no_duplicates()) by {
            assert forall|i: int, j: int| 0 <= i < rest.len() && 0 <= j < rest.len() && i
                != j implies rest[i] != rest[j] by {
                assert(rest[i] == deck[i] && rest[j] == deck[j]);
            }
        }
        lemma_proper_deck(rest);
        assert forall|c: Card| #[trigger] occurrences(deck, c) <= 1 && (occurrences(deck, c) > 0
            ==> c.in_deck()) by {
            assert(occurrences(rest, c) <= 1);
            lemma_occurrences_contains(rest, c);
            lemma_occurrences_contains(deck, c);
            if deck.last() == c && rest.contains(c) {
                let i = choose|i: int| 0 <= i < rest.len() && rest[i] == c;
                assert(deck[i] == c && deck[deck.len() - 1] == c);
            }
            if deck.contains(c) {
                let i = choose|i: int| 0 <= i < deck.len() && deck[i] == c;
                assert(deck[i].in_deck());
            }
        }
    }
}

/// The full deck is proper.
pub proof fn lemma_full_deck_is_proper()
    ensures
        proper_deck(crate::card::full_deck()),
{
    crate::card::lemma_full_deck_holds_each_card_once();
    let d = crate::card::full_deck();
    assert forall|i: int| 0 <= i < d.len() implies (#[trigger] d[i]).in_deck() by {
        assert(d.contains(d[i]));
    }
    lemma_proper_deck(d);
}

/// A game dealt from a proper deck is clean, sound and settled.
pub proof fn lemma_initial_clean(dealer: Seat, deck: Seq<Card>)
    requires
        dealer < 3,
        deck.len() >= 15,
        proper_deck(deck),
    ensures
        GameModel::initial(dealer, deck).clean(),
        GameModel::initial(dealer, deck).wf(),
{
    let s = GameModel::initial(dealer, deck);
    crate::state::shape::lemma_initial_shaped(dealer, deck);
    assert forall|c: Card| #[trigger] s.tally(c) <= 1 && (s.tally(c) > 0 ==> c.in_deck()) by {
        crate::state::conserve::lemma_initial_tally(dealer, deck, c);
        assert(occurrences(deck, c) <= 1);
    }
}

/// Reading what was written, game by game. The atoms of a legal game that
/// was dealt from a proper deck read back as that game: the dealer, the
/// deck and every action.
pub proof fn lemma_read_log(dealer: Seat, deck: Seq<Card>, actions: Seq<(Seat, Action)>)
    requires
        dealer < 3,
        deck.len() >= 15,
        proper_deck(deck),
        GameModel::initial(dealer, deck).run(actions) is Some,
    ensures
        read_log(log_atoms(dealer, deck, actions)) == Ok::<LogModel, TokenError>(
            LogModel { dealer, deck, actions },
        ),
{
    let start = GameModel::initial(dealer, deck);
    let head = header_atoms(dealer, deck);
    let lines = lines_atoms(start, actions);
    let parts = log_atoms(dealer, deck, actions);
    lemma_initial_clean(dealer, deck);
    lemma_seat_atom(dealer);
    assert(head.len() == 6 + deck.len());
    assert(parts[0] == head[0] && parts[1] == head[1] && parts[2] == head[2] && parts[3] == head[3]
        && parts[4] == head[4]);
    assert forall|k: int| 0 <= k < deck.len() implies parts[5 + k] == Token::of_card(
        #[trigger] deck[k],
    ) by {
        assert(parts[5 + k] == head[5 + k]);
        assert(head[5 + k] == card_atoms(deck)[k]);
    }
    assert forall|k: int| 0 <= k < deck.len() implies (#[trigger] deck[k]).in_deck() by {
        lemma_held_counts(deck, k);
    }
    let n = deck.len() as int;
    assert(parts[5 + n] == head[5 + n]);
    lemma_read_deck(parts, 5, deck);
    assert(parts.skip(head.len() as int) =~= lines);
    lemma_read_lines(parts, head.len() as int, start, actions);
}

/// A legal game replays to the state that it led to.
pub proof fn lemma_played_is_run(s: GameModel, actions: Seq<(Seat, Action)>)
    requires
        s.run(actions) is Some,
    ensures
        super::grammar::played(s, actions) == Ok::<GameModel, TokenError>(s.run(actions).unwrap()),
    decreases actions.len(),
{
    if actions.len() > 0 {
        lemma_played_is_run(s.step(actions[0].0, actions[0].1), actions.drop_first());
    }
}

} // verus!
