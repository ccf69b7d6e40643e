//! What holds of every game: laws of the rules, proved from their
//! definition.

use vstd::prelude::*;
use super::rules::{frozen_cards, thawed, TargetKind};
use super::shape::{lemma_found_is_stack, lemma_step_keeps_shape};
use super::types::{FrozenCard, GameModel, Seat, Winner};
use super::util::{lemma_occurrences_contains, spec_is_queen, spec_next_seat};
use crate::action::{Action, OneOffTarget, SevenPlay};
use crate::card::Card;

verus! {

/// The stack that an action is aimed at under queen protection, named by
/// kind and card: the target of a jack or a joker, and of a two or a nine
/// played as a one-off, from the hand or from what a seven revealed.
pub open spec fn guarded_aim(s: GameModel, seat: Seat, a: Action) -> Option<(TargetKind, Card)> {
    match a {
        Action::PlayJack { target_point_base, .. } => Some((TargetKind::Point, target_point_base)),
        Action::PlayJoker { target_royal_card, .. } => Some(joker_aim(s, seat, target_royal_card)),
        Action::PlayOneOff { target, .. } => oneoff_aim(target),
        Action::ResolveSevenChoose { play, .. } => match play {
            SevenPlay::Jack { target } => Some((TargetKind::Point, target)),
            SevenPlay::Joker { target } => Some(joker_aim(s, seat, target)),
            SevenPlay::OneOff { target } => oneoff_aim(target),
            _ => None,
        },
        _ => None,
    }
}

/// A joker is aimed at a royal stack by its base, or else at a point stack
/// by the jack on top of it.
pub open spec fn joker_aim(s: GameModel, seat: Seat, target: Card) -> (TargetKind, Card) {
    if s.has_target(seat, TargetKind::Royal, target, true) {
        (TargetKind::Royal, target)
    } else {
        (TargetKind::Jack, target)
    }
}

pub open spec fn oneoff_aim(target: OneOffTarget) -> Option<(TargetKind, Card)> {
    match target {
        OneOffTarget::Point { base } => Some((TargetKind::Point, base)),
        OneOffTarget::Royal { card } => Some((TargetKind::Royal, card)),
        OneOffTarget::Jack { card } => Some((TargetKind::Jack, card)),
        OneOffTarget::Joker { card } => Some((TargetKind::Joker, card)),
        _ => None,
    }
}

/// Queen protection. Where a legal action is aimed at a stack, the stack is
/// controlled by another seat, and that seat has no queen, or it has one
/// queen and the stack is that queen. So a seat with two queens or more
/// cannot be aimed at, and a seat with one only at its queen.
pub proof fn lemma_queen_protection(s: GameModel, seat: Seat, a: Action)
    requires
        s.shaped(),
        s.legal(seat, a),
        guarded_aim(s, seat, a).is_some(),
    ensures
        ({
            let (kind, card) = guarded_aim(s, seat, a).unwrap();
            let at = s.find_target(seat, kind, card, true);
            &&& at.is_some()
            &&& ({
                let st = s.stack_at(at.unwrap(), kind.on_points());
                let owner = st.controller();
                &&& kind.key(st) == Some(card)
                &&& owner != seat
                &&& (s.queens(owner) == 0 || (s.queens(owner) == 1 && kind is Royal
                    && spec_is_queen(st.base)))
            })
        }),
{
    reveal(GameModel::legal);
    let (kind, card) = guarded_aim(s, seat, a).unwrap();
    assert(s.has_target(seat, kind, card, true));
    lemma_found_is_stack(s, seat, kind, card, true);
}

/// No legal action of `seat` is aimed at a stack of a seat that controls two
/// queens or more.
pub proof fn lemma_two_queens_protect_all(s: GameModel, seat: Seat, a: Action)
    requires
        s.shaped(),
        s.legal(seat, a),
        guarded_aim(s, seat, a).is_some(),
    ensures
        ({
            let (kind, card) = guarded_aim(s, seat, a).unwrap();
            let st = s.stack_at(s.find_target(seat, kind, card, true).unwrap(), kind.on_points());
            s.queens(st.controller()) < 2
        }),
{
    lemma_queen_protection(s, seat, a);
}

/// Only the seat that the phase waits for has a legal action, and when the
/// game is over no seat has one.
pub proof fn lemma_only_the_actor_acts(s: GameModel, seat: Seat, a: Action)
    requires
        s.legal(seat, a),
    ensures
        s.phase.actor(s.turn) == Some(seat),
        !(s.phase is GameOver),
{
    reveal(GameModel::legal);
}

/// The frozen entries that are left after the end of a turn all have a turn
/// or more to wait, and none is left of those that had one turn to wait.
pub proof fn lemma_thawed(frozen: Seq<FrozenCard>)
    ensures
        forall|i: int|
            0 <= i < thawed(frozen).len() ==> (#[trigger] thawed(frozen)[i]).remaining_turns > 0,
        thawed(frozen).len() == frozen.filter(|f: FrozenCard| f.remaining_turns > 1).len(),
        forall|i: int|
            0 <= i < thawed(frozen).len() ==> exists|j: int|
                0 <= j < frozen.len() && frozen[j].card == (#[trigger] thawed(frozen)[i]).card
                    && frozen[j].remaining_turns == thawed(frozen)[i].remaining_turns + 1,
{
    let keep = |f: FrozenCard| f.remaining_turns > 1;
    let kept = frozen.filter(keep);
    assert forall|i: int| 0 <= i < thawed(frozen).len() implies exists|j: int|
        0 <= j < frozen.len() && frozen[j].card == (#[trigger] thawed(frozen)[i]).card
            && frozen[j].remaining_turns == thawed(frozen)[i].remaining_turns + 1 by {
        frozen.lemma_filter_pred(keep, i);
        assert(keep(kept[i]));
        assert(kept.contains(kept[i]));
        frozen.lemma_filter_contains_rev(keep, kept[i]);
        let j = choose|j: int| 0 <= j < frozen.len() && frozen[j] == kept[i];
        assert(frozen[j].card == thawed(frozen)[i].card);
    }
    assert forall|i: int| 0 <= i < thawed(frozen).len() implies (#[trigger] thawed(
        frozen,
    )[i]).remaining_turns > 0 by {
        frozen.lemma_filter_pred(keep, i);
        assert(keep(kept[i]));
    }
}

/// A card that is frozen for one turn is free again after the next end of
/// its holder's turn: no frozen entry is left for it, and if it is in the
/// hand it can be played.
pub proof fn lemma_frozen_for_one_turn(s: GameModel, seat: Seat, card: Card)
    requires
        s.players.len() == 3,
        seat < 3,
        forall|i: int|
            0 <= i < s.players[seat as int].frozen.len() && (
            #[trigger] s.players[seat as int].frozen[i]).card == card
                ==> s.players[seat as int].frozen[i].remaining_turns <= 1,
    ensures
        !frozen_cards(s.end_turn(seat).players[seat as int].frozen).contains(card),
        s.end_turn(seat).players[seat as int].hand == s.players[seat as int].hand,
        s.players[seat as int].hand.contains(card) ==> s.end_turn(seat).available(seat, card),
{
    let frozen = s.players[seat as int].frozen;
    let after = s.end_turn(seat).players[seat as int].frozen;
    assert(after == thawed(frozen));
    lemma_thawed(frozen);
    let names = frozen_cards(after);
    if names.contains(card) {
        let i = choose|i: int| 0 <= i < names.len() && names[i] == card;
        assert(after[i].card == card);
        let j = choose|j: int|
            0 <= j < frozen.len() && frozen[j].card == after[i].card && frozen[j].remaining_turns
                == after[i].remaining_turns + 1;
        assert(frozen[j].remaining_turns <= 1);
    }
    lemma_occurrences_contains(names, card);
    lemma_occurrences_contains(s.players[seat as int].hand, card);
}

/// Stalemate. A pass that brings the streak of passes back to the seat that
/// began it, every seat having passed in between, ends the game as a draw.
pub proof fn lemma_stalemate(s: GameModel, seat: Seat)
    requires
        s.shaped(),
        s.legal(seat, Action::Pass),
        s.pass_streak_start == Some(seat),
        s.pass_streak_len >= 3,
    ensures
        s.step(seat, Action::Pass).winner == Some(Winner::Draw),
        s.step(seat, Action::Pass).phase is GameOver,
{
    reveal(GameModel::legal);
    reveal(GameModel::step);
}

/// A pass is legal for the seat at turn exactly when the deck is empty.
/// Unless it ends the game it hands the turn on, makes the streak one
/// longer and changes no score.
pub proof fn lemma_pass(s: GameModel, seat: Seat)
    requires
        s.shaped(),
        s.winner_ok(),
        s.phase is Main,
        forall|p: Seat| p < 3 ==> !s.has_won(p),
    ensures
        s.legal(seat, Action::Pass) <==> seat == s.turn && s.deck.len() == 0,
        s.legal(seat, Action::Pass) && !s.one_more_pass(seat).is_stalemate(seat) ==> ({
            let t = s.step(seat, Action::Pass);
            &&& t.phase is Main
            &&& t.winner is None
            &&& t.turn == spec_next_seat(seat)
            &&& t.pass_streak_len == s.pass_streak_len + 1
            &&& t.pass_streak_start == if s.pass_streak_len == 0 {
                Some(seat)
            } else {
                s.pass_streak_start
            }
            &&& t.deck == s.deck
            &&& forall|p: Seat| p < 3 ==> !t.has_won(p)
        }),
{
    reveal(GameModel::legal);
    reveal(GameModel::step);
    if s.legal(seat, Action::Pass) && !s.one_more_pass(seat).is_stalemate(seat) {
        let t = s.advance(seat, Action::Pass);
        assert forall|p: Seat| p < 3 implies !t.has_won(p) by {
            assert(t.players[p as int].points == s.players[p as int].points);
            assert(t.players[p as int].royals == s.players[p as int].royals);
            assert(!s.has_won(p));
        }
        assert(!t.has_won(0) && !t.has_won(1) && !t.has_won(2));
    }
}

/// A full round of passes. From a sound state in the main phase with an
/// empty deck, no pass streak and no seat at its winning score, four
/// passes in a row are legal, and the fourth ends the game as a draw.
pub proof fn lemma_four_passes_are_a_draw(s: GameModel)
    requires
        s.shaped(),
        s.winner_ok(),
        s.phase is Main,
        s.deck.len() == 0,
        s.pass_streak_len == 0,
        forall|p: Seat| p < 3 ==> !s.has_won(p),
    ensures
        ({
            let a = s.turn;
            let b = spec_next_seat(a);
            let c = spec_next_seat(b);
            let s1 = s.step(a, Action::Pass);
            let s2 = s1.step(b, Action::Pass);
            let s3 = s2.step(c, Action::Pass);
            let s4 = s3.step(a, Action::Pass);
            &&& s.legal(a, Action::Pass)
            &&& s1.legal(b, Action::Pass)
            &&& s2.legal(c, Action::Pass)
            &&& s3.legal(a, Action::Pass)
            &&& s1.winner is None
            &&& s2.winner is None
            &&& s3.winner is None
            &&& s4.winner == Some(Winner::Draw)
        }),
{
    let a = s.turn;
    let b = spec_next_seat(a);
    let c = spec_next_seat(b);
    lemma_pass(s, a);
    lemma_step_keeps_shape(s, a, Action::Pass);
    let s1 = s.step(a, Action::Pass);
    lemma_pass(s1, b);
    lemma_step_keeps_shape(s1, b, Action::Pass);
    let s2 = s1.step(b, Action::Pass);
    lemma_pass(s2, c);
    lemma_step_keeps_shape(s2, c, Action::Pass);
    let s3 = s2.step(c, Action::Pass);
    lemma_pass(s3, a);
    lemma_stalemate(s3, a);
}

/// A legal game with one more legal action is a legal game, and leads to
/// the state that the action leads to.
pub proof fn lemma_run_push(s: GameModel, actions: Seq<(Seat, Action)>, seat: Seat, a: Action)
    requires
        s.run(actions) is Some,
        s.run(actions).unwrap().legal(seat, a),
    ensures
        s.run(actions.push((seat, a))) == Some(s.run(actions).unwrap().step(seat, a)),
    decreases actions.len(),
{
    let more = actions.push((seat, a));
    if actions.len() == 0 {
        let t = s.step(seat, a);
        assert(s.run(actions) == Some(s));
        assert(more.drop_first() =~= Seq::<(Seat, Action)>::empty());
        assert(more[0] == (seat, a));
        assert(t.run(more.drop_first()) == Some(t));
    } else {
        let first = s.step(actions[0].0, actions[0].1);
        assert(s.legal(actions[0].0, actions[0].1));
        assert(s.run(actions) == first.run(actions.drop_first()));
        assert(more.drop_first() =~= actions.drop_first().push((seat, a)));
        assert(more[0] == actions[0]);
        lemma_run_push(first, actions.drop_first(), seat, a);
        assert(s.run(more) == first.run(more.drop_first()));
    }
}

} // verus!
