//! Every legal action leads from a sound state to a sound state.

use vstd::prelude::*;
use super::rules::{owned_by, stripping, TargetKind};
use super::types::{GameModel, PhaseModel, Seat, StackModel};
use super::util::lemma_first_where;
use crate::action::{Action, OneOffTarget, SevenPlay};
use crate::card::Card;

verus! {

impl GameModel {
    /// The stacks of both kinds are those of `other`.
    pub open spec fn same_table(self, other: GameModel) -> bool {
        &&& self.players.len() == other.players.len()
        &&& forall|p: int|
            0 <= p < self.players.len() ==> (#[trigger] self.players[p]).points
                == other.players[p].points && self.players[p].royals == other.players[p].royals
    }
}

impl GameModel {
    /// Turn, phase, winner and pass streak are those of `other`.
    pub open spec fn framed(self, other: GameModel) -> bool {
        &&& self.turn == other.turn
        &&& self.phase == other.phase
        &&& self.winner == other.winner
        &&& self.pass_streak_start == other.pass_streak_start
        &&& self.pass_streak_len == other.pass_streak_len
    }
}

/// A state whose stacks are those of a state with a sound table has a sound
/// table.
pub proof fn lemma_same_table_ok(s: GameModel, t: GameModel)
    requires
        s.table_ok(),
        t.same_table(s),
    ensures
        t.table_ok(),
{
    assert forall|p: int| 0 <= p < 3 implies (#[trigger] t.players[p]).seats_ok() by {
        assert(s.players[p].seats_ok());
    }
}

/// What an aim finds is a stack of the table.
pub proof fn lemma_found_is_stack(s: GameModel, seat: Seat, kind: TargetKind, card: Card, guarded: bool)
    requires
        s.table_ok(),
        s.has_target(seat, kind, card, guarded),
    ensures
        ({
            let at = s.find_target(seat, kind, card, guarded).unwrap();
            &&& at.0 < 3
            &&& 0 <= at.1 < s.stacks(at.0 as int, kind.on_points()).len()
            &&& s.stack_at(at, kind.on_points()).seats_ok()
            &&& s.aims_at(seat, kind, card, guarded)(s.stack_at(at, kind.on_points()))
        }),
{
    let f = s.aims_at(seat, kind, card, guarded);
    let on = kind.on_points();
    lemma_first_where(s.stacks(0, on), f);
    lemma_first_where(s.stacks(1, on), f);
    lemma_first_where(s.stacks(2, on), f);
    let at = s.find_target(seat, kind, card, guarded).unwrap();
    assert(s.players[at.0 as int].seats_ok());
}

pub proof fn lemma_take_stack_ok(s: GameModel, at: (Seat, int), on: bool)
    requires
        s.table_ok(),
        at.0 < 3,
        0 <= at.1 < s.stacks(at.0 as int, on).len(),
    ensures
        s.take_stack(at, on).framed(s),
        s.take_stack(at, on).table_ok(),
{
    let t = s.take_stack(at, on);
    assert forall|p: int| 0 <= p < 3 implies (#[trigger] t.players[p]).seats_ok() by {
        assert(s.players[p].seats_ok());
        if p == at.0 {
            let old = s.players[p];
            let new = t.players[p];
            assert forall|i: int| 0 <= i < new.points.len() implies (#[trigger] new.points[i]).seats_ok() by {
                if on {
                    if i < at.1 {
                        assert(new.points[i] == old.points[i]);
                    } else {
                        assert(new.points[i] == old.points[i + 1]);
                    }
                } else {
                    assert(new.points[i] == old.points[i]);
                }
            }
            assert forall|i: int| 0 <= i < new.royals.len() implies (#[trigger] new.royals[i]).seats_ok() by {
                if !on {
                    if i < at.1 {
                        assert(new.royals[i] == old.royals[i]);
                    } else {
                        assert(new.royals[i] == old.royals[i + 1]);
                    }
                } else {
                    assert(new.royals[i] == old.royals[i]);
                }
            }
        }
    }
}

pub proof fn lemma_put_stack_ok(s: GameModel, seat: Seat, on: bool, st: StackModel)
    requires
        s.table_ok(),
        seat < 3,
        st.seats_ok(),
    ensures
        s.put_stack(seat, on, st).framed(s),
        s.put_stack(seat, on, st).table_ok(),
{
    let t = s.put_stack(seat, on, st);
    assert forall|p: int| 0 <= p < 3 implies (#[trigger] t.players[p]).seats_ok() by {
        assert(s.players[p].seats_ok());
        if p == seat {
            let old = s.players[p];
            let new = t.players[p];
            assert forall|i: int| 0 <= i < new.points.len() implies (#[trigger] new.points[i]).seats_ok() by {
                if i < old.points.len() {
                    assert(new.points[i] == old.points[i]);
                }
            }
            assert forall|i: int| 0 <= i < new.royals.len() implies (#[trigger] new.royals[i]).seats_ok() by {
                if i < old.royals.len() {
                    assert(new.royals[i] == old.royals[i]);
                }
            }
        }
    }
}

/// Changes to hands and frozen lists leave the table sound.
pub proof fn lemma_hands_ok(s: GameModel, seat: Seat, card: Card)
    requires
        s.table_ok(),
        seat < 3,
    ensures
        s.gain(seat, card).table_ok(),
        s.lose(seat, card).table_ok(),
        s.freeze(seat, card).table_ok(),
        s.end_turn(seat).table_ok(),
        s.gain(seat, card).same_table(s),
        s.lose(seat, card).same_table(s),
        s.freeze(seat, card).same_table(s),
        s.end_turn(seat).same_table(s),
{
    lemma_same_table_ok(s, s.gain(seat, card));
    lemma_same_table_ok(s, s.lose(seat, card));
    lemma_same_table_ok(s, s.freeze(seat, card));
    lemma_same_table_ok(s, s.end_turn(seat));
}

pub proof fn lemma_draw_up_to_ok(s: GameModel, seat: Seat, n: nat)
    requires
        s.table_ok(),
        seat < 3,
    ensures
        s.draw_up_to(seat, n).table_ok(),
        s.draw_up_to(seat, n).same_table(s),
        s.draw_up_to(seat, n).phase == s.phase,
        s.draw_up_to(seat, n).turn == s.turn,
        s.draw_up_to(seat, n).winner == s.winner,
        s.draw_up_to(seat, n).pass_streak_start == s.pass_streak_start,
        s.draw_up_to(seat, n).pass_streak_len == s.pass_streak_len,
    decreases n,
{
    if n == 0 || s.deck.len() == 0 || s.players[seat as int].hand.len() >= 7 {
    } else {
        let s1 = (GameModel { deck: s.deck.drop_first(), ..s }).gain(seat, s.deck[0]);
        lemma_hands_ok(GameModel { deck: s.deck.drop_first(), ..s }, seat, s.deck[0]);
        lemma_draw_up_to_ok(s1, seat, (n - 1) as nat);
        let t = s.draw_up_to(seat, n);
        assert forall|p: int| 0 <= p < t.players.len() implies (#[trigger] t.players[p]).points
            == s.players[p].points && t.players[p].royals == s.players[p].royals by {
            assert(s1.players[p].points == s.players[p].points);
        }
    }
}

/// Putting a card on a stack that an aim found, and taking the stack.
pub proof fn lemma_seize_ok(s: GameModel, seat: Seat, card: Card, at: (Seat, int), on: bool)
    requires
        s.table_ok(),
        seat < 3,
        at.0 < 3,
        0 <= at.1 < s.stacks(at.0 as int, on).len(),
    ensures
        s.seize(seat, card, at, on).framed(s),
        s.seize(seat, card, at, on).table_ok(),
{
    let st = s.stack_at(at, on);
    assert(s.players[at.0 as int].seats_ok());
    assert(st.seats_ok());
    let up = st.ridden_by(card, seat);
    assert forall|i: int| 0 <= i < up.riders.len() implies (#[trigger] up.riders[i]).owner < 3 by {
        if i < st.riders.len() {
            assert(up.riders[i] == st.riders[i]);
        }
    }
    lemma_take_stack_ok(s, at, on);
    lemma_put_stack_ok(s.take_stack(at, on), seat, on, up);
}

pub proof fn lemma_unseat_top_ok(s: GameModel, at: (Seat, int), on: bool)
    requires
        s.table_ok(),
        at.0 < 3,
        0 <= at.1 < s.stacks(at.0 as int, on).len(),
        s.stack_at(at, on).riders.len() > 0,
    ensures
        s.unseat_top(at, on).framed(s),
        s.unseat_top(at, on).table_ok(),
        s.stack_at(at, on).riders.last().owner < 3,
{
    let st = s.stack_at(at, on);
    assert(s.players[at.0 as int].seats_ok());
    assert(st.seats_ok());
    let down = st.without_top();
    assert forall|i: int| 0 <= i < down.riders.len() implies (#[trigger] down.riders[i]).owner < 3 by {
        assert(down.riders[i] == st.riders[i]);
    }
    if down.riders.len() > 0 {
        assert(down.riders.last() == down.riders[down.riders.len() - 1]);
    }
    lemma_take_stack_ok(s, at, on);
    lemma_put_stack_ok(s.take_stack(at, on), down.controller(), on, down);
}

pub proof fn lemma_scuttle_ok(s: GameModel, seat: Seat, card: Card, target: Card)
    requires
        s.table_ok(),
        s.has_target(seat, TargetKind::Point, target, false),
    ensures
        s.scuttle(seat, card, target).framed(s),
        s.scuttle(seat, card, target).table_ok(),
{
    lemma_found_is_stack(s, seat, TargetKind::Point, target, false);
    let at = s.find_target(seat, TargetKind::Point, target, false).unwrap();
    lemma_take_stack_ok(s, at, true);
    lemma_same_table_ok(s.take_stack(at, true), s.scuttle(seat, card, target));
}

pub proof fn lemma_jack_onto_ok(s: GameModel, seat: Seat, jack: Card, target: Card)
    requires
        s.table_ok(),
        seat < 3,
        s.has_target(seat, TargetKind::Point, target, true),
    ensures
        s.jack_onto(seat, jack, target).framed(s),
        s.jack_onto(seat, jack, target).table_ok(),
{
    lemma_found_is_stack(s, seat, TargetKind::Point, target, true);
    lemma_seize_ok(
        s,
        seat,
        jack,
        s.find_target(seat, TargetKind::Point, target, true).unwrap(),
        true,
    );
}

pub proof fn lemma_joker_onto_ok(s: GameModel, seat: Seat, joker: Card, target: Card)
    requires
        s.table_ok(),
        seat < 3,
        s.joker_lands(seat, target),
    ensures
        s.joker_onto(seat, joker, target).framed(s),
        s.joker_onto(seat, joker, target).table_ok(),
{
    if s.has_target(seat, TargetKind::Royal, target, true) {
        lemma_found_is_stack(s, seat, TargetKind::Royal, target, true);
        lemma_seize_ok(
            s,
            seat,
            joker,
            s.find_target(seat, TargetKind::Royal, target, true).unwrap(),
            false,
        );
    } else {
        lemma_found_is_stack(s, seat, TargetKind::Jack, target, true);
        lemma_seize_ok(
            s,
            seat,
            joker,
            s.find_target(seat, TargetKind::Jack, target, true).unwrap(),
            true,
        );
    }
}

pub proof fn lemma_new_stack_ok(s: GameModel, seat: Seat, on: bool, card: Card)
    requires
        s.table_ok(),
        seat < 3,
    ensures
        s.new_stack(seat, on, card).framed(s),
        s.new_stack(seat, on, card).table_ok(),
{
    lemma_put_stack_ok(s, seat, on, StackModel::single(card, seat));
}

pub proof fn lemma_scrap_all_points_ok(s: GameModel)
    requires
        s.table_ok(),
    ensures
        s.scrap_all_points().framed(s),
        s.scrap_all_points().table_ok(),
{
    let t = s.scrap_all_points();
    assert forall|p: int| 0 <= p < 3 implies (#[trigger] t.players[p]).seats_ok() by {
        assert(s.players[p].seats_ok());
        let old = s.players[p];
        let new = t.players[p];
        assert forall|i: int| 0 <= i < new.royals.len() implies (#[trigger] new.royals[i]).seats_ok() by {
            assert(new.royals[i] == old.royals[i]);
        }
    }
}

pub proof fn lemma_scrap_all_royals_ok(s: GameModel)
    requires
        s.table_ok(),
    ensures
        s.scrap_all_royals().framed(s),
        s.scrap_all_royals().table_ok(),
{
    let t = s.scrap_all_royals();
    let all = s.all_points();
    let bare = all.map_values(stripping());
    assert forall|i: int| 0 <= i < all.len() implies (#[trigger] all[i]).seats_ok() by {
        let n0 = s.players[0].points.len();
        let n1 = s.players[1].points.len();
        assert(s.players[0].seats_ok());
        assert(s.players[1].seats_ok());
        assert(s.players[2].seats_ok());
        if i < n0 {
            assert(all[i] == s.players[0].points[i]);
        } else if i < n0 + n1 {
            assert(all[i] == s.players[1].points[i - n0]);
        } else {
            assert(all[i] == s.players[2].points[i - n0 - n1]);
        }
    }
    assert forall|p: int| 0 <= p < 3 implies (#[trigger] t.players[p]).seats_ok() by {
        let new = t.players[p];
        assert(new.points == bare.filter(owned_by(p)));
        assert forall|i: int| 0 <= i < new.points.len() implies (#[trigger] new.points[i]).seats_ok() by {
            let st = new.points[i];
            assert(bare.filter(owned_by(p)).contains(st));
            bare.lemma_filter_contains_rev(owned_by(p), st);
            assert(bare.contains(st));
            let j = choose|j: int| 0 <= j < bare.len() && bare[j] == st;
            assert(all[j].seats_ok());
        }
    }
}

pub proof fn lemma_resolve_two_ok(s: GameModel, seat: Seat, target: OneOffTarget)
    requires
        s.table_ok(),
    ensures
        s.resolve_two(seat, target).framed(s),
        s.resolve_two(seat, target).table_ok(),
{
    match target {
        OneOffTarget::Royal { card } => {
            if s.has_target(seat, TargetKind::Royal, card, true) {
                lemma_found_is_stack(s, seat, TargetKind::Royal, card, true);
                let at = s.find_target(seat, TargetKind::Royal, card, true).unwrap();
                lemma_take_stack_ok(s, at, false);
                lemma_same_table_ok(s.take_stack(at, false), s.resolve_two(seat, target));
            }
        },
        OneOffTarget::Jack { card } => {
            if s.has_target(seat, TargetKind::Jack, card, true) {
                lemma_found_is_stack(s, seat, TargetKind::Jack, card, true);
                let at = s.find_target(seat, TargetKind::Jack, card, true).unwrap();
                lemma_unseat_top_ok(s, at, true);
                lemma_same_table_ok(s.unseat_top(at, true), s.resolve_two(seat, target));
            }
        },
        OneOffTarget::Joker { card } => {
            if s.has_target(seat, TargetKind::Joker, card, true) {
                lemma_found_is_stack(s, seat, TargetKind::Joker, card, true);
                let at = s.find_target(seat, TargetKind::Joker, card, true).unwrap();
                lemma_unseat_top_ok(s, at, false);
                lemma_same_table_ok(s.unseat_top(at, false), s.resolve_two(seat, target));
            }
        },
        _ => {},
    }
}

pub proof fn lemma_bounce_stack_ok(s: GameModel, at: (Seat, int), on: bool)
    requires
        s.table_ok(),
        at.0 < 3,
        0 <= at.1 < s.stacks(at.0 as int, on).len(),
    ensures
        s.bounce_stack(at, on).framed(s),
        s.bounce_stack(at, on).table_ok(),
{
    let st = s.stack_at(at, on);
    assert(s.players[at.0 as int].seats_ok());
    assert(st.seats_ok());
    if st.riders.len() > 0 {
        assert(st.riders.last() == st.riders[st.riders.len() - 1]);
    }
    lemma_take_stack_ok(s, at, on);
    let s1 = s.take_stack(at, on);
    lemma_hands_ok(s1, st.controller(), st.base);
    let s2 = s1.gain(st.controller(), st.base);
    lemma_hands_ok(s2, st.controller(), st.base);
    lemma_same_table_ok(s2.freeze(st.controller(), st.base), s.bounce_stack(at, on));
}

pub proof fn lemma_bounce_top_ok(s: GameModel, at: (Seat, int), on: bool)
    requires
        s.table_ok(),
        at.0 < 3,
        0 <= at.1 < s.stacks(at.0 as int, on).len(),
        s.stack_at(at, on).riders.len() > 0,
    ensures
        s.bounce_top(at, on).framed(s),
        s.bounce_top(at, on).table_ok(),
{
    let top = s.stack_at(at, on).riders.last();
    lemma_unseat_top_ok(s, at, on);
    let s1 = s.unseat_top(at, on);
    lemma_hands_ok(s1, top.owner, top.card);
    lemma_hands_ok(s1.gain(top.owner, top.card), top.owner, top.card);
}

pub proof fn lemma_resolve_nine_ok(s: GameModel, seat: Seat, target: OneOffTarget)
    requires
        s.table_ok(),
    ensures
        s.resolve_nine(seat, target).framed(s),
        s.resolve_nine(seat, target).table_ok(),
{
    match target {
        OneOffTarget::Point { base } => {
            if s.has_target(seat, TargetKind::Point, base, true) {
                lemma_found_is_stack(s, seat, TargetKind::Point, base, true);
                lemma_bounce_stack_ok(
                    s,
                    s.find_target(seat, TargetKind::Point, base, true).unwrap(),
                    true,
                );
            }
        },
        OneOffTarget::Royal { card } => {
            if s.has_target(seat, TargetKind::Royal, card, true) {
                lemma_found_is_stack(s, seat, TargetKind::Royal, card, true);
                lemma_bounce_stack_ok(
                    s,
                    s.find_target(seat, TargetKind::Royal, card, true).unwrap(),
                    false,
                );
            }
        },
        OneOffTarget::Jack { card } => {
            if s.has_target(seat, TargetKind::Jack, card, true) {
                lemma_found_is_stack(s, seat, TargetKind::Jack, card, true);
                lemma_bounce_top_ok(
                    s,
                    s.find_target(seat, TargetKind::Jack, card, true).unwrap(),
                    true,
                );
            }
        },
        OneOffTarget::Joker { card } => {
            if s.has_target(seat, TargetKind::Joker, card, true) {
                lemma_found_is_stack(s, seat, TargetKind::Joker, card, true);
                lemma_bounce_top_ok(
                    s,
                    s.find_target(seat, TargetKind::Joker, card, true).unwrap(),
                    false,
                );
            }
        },
        _ => {},
    }
}

/// What a one-off does leaves the table sound, changes neither the turn,
/// the winner nor the pass streak, and leaves the main phase only for a
/// phase in which a seat of the table is to decide.
pub proof fn lemma_resolve_oneoff_ok(s: GameModel, seat: Seat, card: Card, target: OneOffTarget)
    requires
        s.table_ok(),
        seat < 3,
        s.phase is Main,
        target matches OneOffTarget::Player { seat: t } ==> t < 3,
    ensures
        ({
            let t = s.resolve_oneoff(seat, card, target);
            &&& t.table_ok()
            &&& t.turn == s.turn
            &&& t.winner == s.winner
            &&& t.pass_streak_start == s.pass_streak_start
            &&& t.pass_streak_len == s.pass_streak_len
            &&& (t.phase is Main || t.phase.is_resolving())
            &&& t.phase.seats_ok()
        }),
{
    match card.spec_rank_value() {
        Some(v) => {
            if v == 1 {
                lemma_scrap_all_points_ok(s);
            } else if v == 2 {
                lemma_resolve_two_ok(s, seat, target);
            } else if v == 3 {
                lemma_same_table_ok(s, s.resolve_oneoff(seat, card, target));
            } else if v == 4 {
                lemma_same_table_ok(s, s.resolve_oneoff(seat, card, target));
            } else if v == 5 {
                lemma_draw_up_to_ok(s, seat, 3);
                lemma_same_table_ok(s, s.resolve_oneoff(seat, card, target));
            } else if v == 6 {
                lemma_scrap_all_royals_ok(s);
            } else if v == 7 {
                lemma_same_table_ok(s, s.reveal_top_two(seat));
            } else if v == 9 {
                lemma_resolve_nine_ok(s, seat, target);
            }
        },
        None => {},
    }
}

pub proof fn lemma_play_revealed_ok(s: GameModel, seat: Seat, card: Card, play: SevenPlay, bp: Seat)
    requires
        s.table_ok(),
        seat < 3,
        bp < 3,
        s.turn < 3,
        s.phase is Main,
        play is Discard || s.seven_play_ok(seat, card, play),
    ensures
        ({
            let t = s.play_revealed(seat, card, play, bp);
            &&& t.table_ok()
            &&& t.winner == s.winner
            &&& t.pass_streak_start == s.pass_streak_start
            &&& t.pass_streak_len == s.pass_streak_len
            &&& t.turn < 3
            &&& (t.phase is Main || t.phase is Countering)
            &&& t.phase.seats_ok()
        }),
{
    match play {
        SevenPlay::Discard => {
            lemma_same_table_ok(s, s.scrapping(seq![card]));
            lemma_hands_ok(s.scrapping(seq![card]), bp, card);
        },
        SevenPlay::Points => {
            lemma_new_stack_ok(s, seat, true, card);
            lemma_hands_ok(s.new_stack(seat, true, card), bp, card);
        },
        SevenPlay::Scuttle { target } => {
            lemma_scuttle_ok(s, seat, card, target);
            lemma_hands_ok(s.scuttle(seat, card, target), bp, card);
        },
        SevenPlay::Royal => {
            lemma_new_stack_ok(s, seat, false, card);
            lemma_hands_ok(s.new_stack(seat, false, card), bp, card);
        },
        SevenPlay::Jack { target } => {
            lemma_jack_onto_ok(s, seat, card, target);
            lemma_hands_ok(s.jack_onto(seat, card, target), bp, card);
        },
        SevenPlay::Joker { target } => {
            lemma_joker_onto_ok(s, seat, card, target);
            lemma_hands_ok(s.joker_onto(seat, card, target), bp, card);
        },
        SevenPlay::OneOff { target } => {
            lemma_same_table_ok(s, s.open_window(seat, card, target));
        },
    }
}

pub proof fn lemma_step_main_keeps_shape(s: GameModel, seat: Seat, a: Action)
    requires
        s.shaped(),
        s.phase is Main,
        s.legal(seat, a),
    ensures
        s.winner_ok() ==> s.step_main(seat, a).winner_ok(),
        s.step_main(seat, a).shaped(),
{
    reveal(GameModel::legal);
    let t = s.step_main(seat, a);
    match a {
        Action::Draw => {
            let s0 = GameModel { deck: s.deck.drop_first(), ..s };
            lemma_hands_ok(s0, seat, s.deck[0]);
            lemma_hands_ok(s0.gain(seat, s.deck[0]).no_pass_streak(), seat, s.deck[0]);
        },
        Action::Pass => {
            lemma_hands_ok(s.one_more_pass(seat), seat, Card::Joker(0));
        },
        Action::PlayPoints { card } => {
            lemma_hands_ok(s, seat, card);
            lemma_new_stack_ok(s.lose(seat, card), seat, true, card);
            lemma_hands_ok(s.lose(seat, card).new_stack(seat, true, card).no_pass_streak(), seat, card);
        },
        Action::Scuttle { card, target_point_base } => {
            lemma_scuttle_ok(s, seat, card, target_point_base);
            let s1 = s.scuttle(seat, card, target_point_base);
            lemma_hands_ok(s1, seat, card);
            lemma_hands_ok(s1.lose(seat, card).no_pass_streak(), seat, card);
        },
        Action::PlayRoyal { card } => {
            lemma_hands_ok(s, seat, card);
            lemma_new_stack_ok(s.lose(seat, card), seat, false, card);
            lemma_hands_ok(s.lose(seat, card).new_stack(seat, false, card).no_pass_streak(), seat, card);
        },
        Action::PlayJack { jack, target_point_base } => {
            lemma_jack_onto_ok(s, seat, jack, target_point_base);
            let s1 = s.jack_onto(seat, jack, target_point_base);
            lemma_hands_ok(s1, seat, jack);
            lemma_hands_ok(s1.lose(seat, jack).no_pass_streak(), seat, jack);
        },
        Action::PlayJoker { joker, target_royal_card } => {
            lemma_joker_onto_ok(s, seat, joker, target_royal_card);
            let s1 = s.joker_onto(seat, joker, target_royal_card);
            lemma_hands_ok(s1, seat, joker);
            lemma_hands_ok(s1.lose(seat, joker).no_pass_streak(), seat, joker);
        },
        Action::PlayOneOff { card, target } => {
            lemma_hands_ok(s, seat, card);
            lemma_same_table_ok(s.lose(seat, card), t);
        },
        _ => {},
    }
}

pub proof fn lemma_step_counter_keeps_shape(s: GameModel, seat: Seat, a: Action)
    requires
        s.shaped(),
        s.phase is Countering,
        s.legal(seat, a),
    ensures
        s.winner_ok() ==> s.step_counter(seat, a).winner_ok(),
        s.step_counter(seat, a).shaped(),
{
    reveal(GameModel::legal);
    let c = s.phase->Countering_0;
    match a {
        Action::CounterTwo { two_card } => {
            lemma_hands_ok(s, seat, two_card);
            lemma_same_table_ok(s.lose(seat, two_card), s.step_counter(seat, a));
        },
        Action::CounterPass => {
            if super::util::spec_next_seat(c.next_seat) == c.rotation_anchor {
                let s1 = s.with_phase(PhaseModel::Main).scrapping(
                    c.twos.map_values(super::rules::two_card()),
                );
                lemma_same_table_ok(s, s1);
                match c.oneoff {
                    Action::PlayOneOff { card, target } => {
                        let s2 = s1.scrapping(seq![card]);
                        lemma_same_table_ok(s, s2);
                        lemma_resolve_oneoff_ok(s2, c.base_player, card, target);
                        let s3 = if c.twos.len() % 2 == 0 {
                            s2.resolve_oneoff(c.base_player, card, target)
                        } else {
                            s2
                        };
                        lemma_hands_ok(s3, c.base_player, card);
                    },
                    _ => {},
                }
            } else {
                lemma_same_table_ok(s, s.step_counter(seat, a));
            }
        },
        _ => {},
    }
}

/// The state that a legal action leads to, before the winner is looked for,
/// is sound but for that: it can show a winner that the game does not have
/// yet.
pub proof fn lemma_advance_keeps_shape(s: GameModel, seat: Seat, a: Action)
    requires
        s.shaped(),
        s.legal(seat, a),
    ensures
        s.winner_ok() ==> s.advance(seat, a).winner_ok(),
        s.advance(seat, a).shaped(),
{
    reveal(GameModel::legal);
    match s.phase {
        PhaseModel::Main => {
            lemma_step_main_keeps_shape(s, seat, a);
        },
        PhaseModel::Countering(_) => {
            lemma_step_counter_keeps_shape(s, seat, a);
        },
        PhaseModel::ResolvingThree { base_player, .. } => {
            match a {
                Action::ResolveThreePick { card_from_scrap } => {
                    let s0 = GameModel {
                        scrap: super::rules::without_first(s.scrap, card_from_scrap),
                        ..s
                    };
                    lemma_same_table_ok(s, s0);
                    lemma_hands_ok(s0, seat, card_from_scrap);
                    lemma_hands_ok(
                        s0.gain(seat, card_from_scrap).with_phase(PhaseModel::Main),
                        base_player,
                        card_from_scrap,
                    );
                },
                _ => {},
            }
        },
        PhaseModel::ResolvingFour { base_player, .. } => {
            match a {
                Action::ResolveFourDiscard { card } => {
                    lemma_hands_ok(s, seat, card);
                    let s1 = s.lose(seat, card).scrapping(seq![card]);
                    lemma_same_table_ok(s, s1);
                    lemma_hands_ok(s1.with_phase(PhaseModel::Main), base_player, card);
                    lemma_same_table_ok(s, s.advance(seat, a));
                },
                _ => {},
            }
        },
        PhaseModel::ResolvingFive { base_player, .. } => {
            match a {
                Action::ResolveFiveDiscard { card } => {
                    lemma_hands_ok(s, seat, card);
                    let s1 = s.lose(seat, card).scrapping(seq![card]);
                    lemma_same_table_ok(s, s1);
                    lemma_draw_up_to_ok(s1, seat, 3);
                    lemma_hands_ok(
                        s1.draw_up_to(seat, 3).with_phase(PhaseModel::Main),
                        base_player,
                        card,
                    );
                },
                _ => {},
            }
        },
        PhaseModel::ResolvingSeven { base_player, revealed, .. } => {
            match a {
                Action::ResolveSevenChoose { card, play } => {
                    let s1 = GameModel {
                        deck: super::rules::without_first(revealed, card) + s.deck,
                        phase: PhaseModel::Main,
                        ..s
                    };
                    lemma_same_table_ok(s, s1);
                    assert(s1.seven_play_ok(seat, card, play) == s.seven_play_ok(seat, card, play));
                    lemma_play_revealed_ok(s1, seat, card, play, base_player);
                },
                _ => {},
            }
        },
        PhaseModel::GameOver => {},
    }
}

/// Every legal action leads from a sound state to a sound state.
pub proof fn lemma_step_keeps_shape(s: GameModel, seat: Seat, a: Action)
    requires
        s.shaped(),
        s.legal(seat, a),
    ensures
        s.winner_ok() ==> s.step(seat, a).winner_ok(),
        s.step(seat, a).shaped(),
{
    reveal(GameModel::step);
    lemma_advance_keeps_shape(s, seat, a);
    lemma_same_table_ok(s.advance(seat, a), s.step(seat, a));
}

/// A game is sound as it is dealt.
pub proof fn lemma_initial_shaped(dealer: Seat, deck: Seq<Card>)
    requires
        dealer < 3,
    ensures
        GameModel::initial(dealer, deck).shaped(),
        GameModel::initial(dealer, deck).wf(),
{
    let s = GameModel::initial(dealer, deck);
    assert forall|p: int| 0 <= p < 3 implies (#[trigger] s.players[p]).seats_ok() by {}
    reveal(Seq::filter);
    assert(s.players[0].points.len() == 0 && s.players[1].points.len() == 0
        && s.players[2].points.len() == 0);
    assert(s.players[0].royals.len() == 0 && s.players[1].royals.len() == 0
        && s.players[2].royals.len() == 0);
}

} // verus!
