//! Every legal action keeps a game in order: each stack lies with the seat
//! that controls it, and what is frozen has a turn or more to wait.

use vstd::prelude::*;
use super::laws::lemma_thawed;
use super::rules::{owned_by, stripping, two_card, without_first, TargetKind};
use super::shape::{lemma_found_is_stack, lemma_step_keeps_shape};
use super::types::{GameModel, PhaseModel, Seat, StackModel};
use super::util::{lemma_first_where, spec_is_two, spec_next_seat};
use crate::action::{Action, OneOffTarget, SevenPlay};
use crate::card::Card;

verus! {

impl GameModel {
    /// Every stack lies with the seat that controls it, and every frozen
    /// card has a turn or more to wait.
    pub open spec fn tidy(self) -> bool {
        &&& self.players.len() == 3
        &&& forall|p: int| 0 <= p < 3 ==> (#[trigger] self.players[p]).controls_all(p as Seat)
        &&& forall|p: int, i: int|
            0 <= p < 3 && 0 <= i < self.players[p].frozen.len() ==> (
            #[trigger] self.players[p].frozen[i]).remaining_turns > 0
    }

    /// The frozen lists are those of `other`.
    pub open spec fn same_frozen(self, other: GameModel) -> bool {
        &&& self.players.len() == other.players.len()
        &&& forall|p: int|
            0 <= p < self.players.len() ==> (#[trigger] self.players[p]).frozen
                == other.players[p].frozen
    }
}

pub proof fn lemma_same_tidy(s: GameModel, t: GameModel)
    requires
        s.tidy(),
        t.same_table(s),
        t.same_frozen(s),
    ensures
        t.tidy(),
{
    assert forall|p: int| 0 <= p < 3 implies (#[trigger] t.players[p]).controls_all(p as Seat) by {
        assert(s.players[p].controls_all(p as Seat));
    }
    assert forall|p: int, i: int| 0 <= p < 3 && 0 <= i < t.players[p].frozen.len() implies (
    #[trigger] t.players[p].frozen[i]).remaining_turns > 0 by {
        assert(t.players[p].frozen == s.players[p].frozen);
        assert(s.players[p].frozen[i].remaining_turns > 0);
    }
}

/// Changes to hands and frozen lists keep the game in order.
pub proof fn lemma_hands_tidy(s: GameModel, seat: Seat, card: Card)
    requires
        s.tidy(),
        seat < 3,
    ensures
        s.gain(seat, card).tidy(),
        s.lose(seat, card).tidy(),
        s.freeze(seat, card).tidy(),
        s.end_turn(seat).tidy(),
{
    lemma_same_tidy(s, s.gain(seat, card));
    let frozen = s.players[seat as int].frozen;
    lemma_first_where(frozen, super::rules::freezes(card));
    lemma_thawed(frozen);
    let lost = s.lose(seat, card);
    let iced = s.freeze(seat, card);
    let ended = s.end_turn(seat);
    assert forall|p: int| 0 <= p < 3 implies (#[trigger] lost.players[p]).controls_all(p as Seat)
        && iced.players[p].controls_all(p as Seat) && ended.players[p].controls_all(
        p as Seat,
    ) by {
        assert(s.players[p].controls_all(p as Seat));
    }
    assert forall|p: int, i: int| 0 <= p < 3 && 0 <= i < lost.players[p].frozen.len() implies (
    #[trigger] lost.players[p].frozen[i]).remaining_turns > 0 by {
        if p == seat {
            let k = super::util::first_where(frozen, super::rules::freezes(card));
            if k < frozen.len() {
                if i < k {
                    assert(lost.players[p].frozen[i] == frozen[i]);
                } else {
                    assert(lost.players[p].frozen[i] == frozen[i + 1]);
                }
            } else {
                assert(lost.players[p].frozen[i] == frozen[i]);
            }
        } else {
            assert(lost.players[p].frozen[i] == s.players[p].frozen[i]);
        }
    }
    assert forall|p: int, i: int| 0 <= p < 3 && 0 <= i < iced.players[p].frozen.len() implies (
    #[trigger] iced.players[p].frozen[i]).remaining_turns > 0 by {
        if p == seat && i < frozen.len() {
            assert(iced.players[p].frozen[i] == frozen[i]);
        } else if p != seat {
            assert(iced.players[p].frozen[i] == s.players[p].frozen[i]);
        }
    }
    assert forall|p: int, i: int| 0 <= p < 3 && 0 <= i < ended.players[p].frozen.len() implies (
    #[trigger] ended.players[p].frozen[i]).remaining_turns > 0 by {
        if p != seat {
            assert(ended.players[p].frozen[i] == s.players[p].frozen[i]);
        }
    }
}

pub proof fn lemma_take_stack_tidy(s: GameModel, at: (Seat, int), on: bool)
    requires
        s.tidy(),
        at.0 < 3,
        0 <= at.1 < s.stacks(at.0 as int, on).len(),
    ensures
        s.take_stack(at, on).tidy(),
        s.take_stack(at, on).same_frozen(s),
{
    let t = s.take_stack(at, on);
    assert forall|p: int| 0 <= p < 3 implies (#[trigger] t.players[p]).controls_all(p as Seat) by {
        assert(s.players[p].controls_all(p as Seat));
        if p == at.0 {
            let old = s.players[p];
            let new = t.players[p];
            assert forall|i: int| 0 <= i < new.points.len() implies (#[trigger] new.points[i]).controller()
                == p by {
                if on {
                    if i < at.1 {
                        assert(new.points[i] == old.points[i]);
                    } else {
                        assert(new.points[i] == old.points[i + 1]);
                    }
                } else {
                    assert(new.points[i] == old.points[i]);
                }
            }
            assert forall|i: int| 0 <= i < new.royals.len() implies (#[trigger] new.royals[i]).controller()
                == p by {
                if !on {
                    if i < at.1 {
                        assert(new.royals[i] == old.royals[i]);
                    } else {
                        assert(new.royals[i] == old.royals[i + 1]);
                    }
                } else {
                    assert(new.royals[i] == old.royals[i]);
                }
            }
        }
    }
    assert forall|p: int, i: int| 0 <= p < 3 && 0 <= i < t.players[p].frozen.len() implies (
    #[trigger] t.players[p].frozen[i]).remaining_turns > 0 by {
        assert(t.players[p].frozen[i] == s.players[p].frozen[i]);
    }
}

pub proof fn lemma_put_stack_tidy(s: GameModel, seat: Seat, on: bool, st: StackModel)
    requires
        s.tidy(),
        seat < 3,
        st.controller() == seat,
    ensures
        s.put_stack(seat, on, st).tidy(),
        s.put_stack(seat, on, st).same_frozen(s),
{
    let t = s.put_stack(seat, on, st);
    assert forall|p: int| 0 <= p < 3 implies (#[trigger] t.players[p]).controls_all(p as Seat) by {
        assert(s.players[p].controls_all(p as Seat));
        if p == seat {
            let old = s.players[p];
            let new = t.players[p];
            assert forall|i: int| 0 <= i < new.points.len() implies (#[trigger] new.points[i]).controller()
                == p by {
                if i < old.points.len() {
                    assert(new.points[i] == old.points[i]);
                }
            }
            assert forall|i: int| 0 <= i < new.royals.len() implies (#[trigger] new.royals[i]).controller()
                == p by {
                if i < old.royals.len() {
                    assert(new.royals[i] == old.royals[i]);
                }
            }
        }
    }
    assert forall|p: int, i: int| 0 <= p < 3 && 0 <= i < t.players[p].frozen.len() implies (
    #[trigger] t.players[p].frozen[i]).remaining_turns > 0 by {
        assert(t.players[p].frozen[i] == s.players[p].frozen[i]);
    }
}

pub proof fn lemma_seize_tidy(s: GameModel, seat: Seat, card: Card, at: (Seat, int), on: bool)
    requires
        s.tidy(),
        seat < 3,
        at.0 < 3,
        0 <= at.1 < s.stacks(at.0 as int, on).len(),
    ensures
        s.seize(seat, card, at, on).tidy(),
{
    let st = s.stack_at(at, on);
    lemma_take_stack_tidy(s, at, on);
    lemma_put_stack_tidy(s.take_stack(at, on), seat, on, st.ridden_by(card, seat));
}

pub proof fn lemma_unseat_top_tidy(s: GameModel, at: (Seat, int), on: bool)
    requires
        s.tidy(),
        s.table_ok(),
        at.0 < 3,
        0 <= at.1 < s.stacks(at.0 as int, on).len(),
        s.stack_at(at, on).riders.len() > 0,
    ensures
        s.unseat_top(at, on).tidy(),
{
    let st = s.stack_at(at, on);
    assert(s.players[at.0 as int].seats_ok());
    assert(st.seats_ok());
    let down = st.without_top();
    if down.riders.len() > 0 {
        assert(down.riders.last() == st.riders[down.riders.len() - 1]);
    }
    lemma_take_stack_tidy(s, at, on);
    lemma_put_stack_tidy(s.take_stack(at, on), down.controller(), on, down);
}

pub proof fn lemma_scuttle_tidy(s: GameModel, seat: Seat, card: Card, target: Card)
    requires
        s.tidy(),
        s.table_ok(),
        s.has_target(seat, TargetKind::Point, target, false),
    ensures
        s.scuttle(seat, card, target).tidy(),
{
    lemma_found_is_stack(s, seat, TargetKind::Point, target, false);
    let at = s.find_target(seat, TargetKind::Point, target, false).unwrap();
    lemma_take_stack_tidy(s, at, true);
    lemma_same_tidy(s.take_stack(at, true), s.scuttle(seat, card, target));
}

pub proof fn lemma_jack_onto_tidy(s: GameModel, seat: Seat, jack: Card, target: Card)
    requires
        s.tidy(),
        s.table_ok(),
        seat < 3,
        s.has_target(seat, TargetKind::Point, target, true),
    ensures
        s.jack_onto(seat, jack, target).tidy(),
{
    lemma_found_is_stack(s, seat, TargetKind::Point, target, true);
    lemma_seize_tidy(
        s,
        seat,
        jack,
        s.find_target(seat, TargetKind::Point, target, true).unwrap(),
        true,
    );
}

pub proof fn lemma_joker_onto_tidy(s: GameModel, seat: Seat, joker: Card, target: Card)
    requires
        s.tidy(),
        s.table_ok(),
        seat < 3,
        s.joker_lands(seat, target),
    ensures
        s.joker_onto(seat, joker, target).tidy(),
{
    if s.has_target(seat, TargetKind::Royal, target, true) {
        lemma_found_is_stack(s, seat, TargetKind::Royal, target, true);
        lemma_seize_tidy(
            s,
            seat,
            joker,
            s.find_target(seat, TargetKind::Royal, target, true).unwrap(),
            false,
        );
    } else {
        lemma_found_is_stack(s, seat, TargetKind::Jack, target, true);
        lemma_seize_tidy(
            s,
            seat,
            joker,
            s.find_target(seat, TargetKind::Jack, target, true).unwrap(),
            true,
        );
    }
}

pub proof fn lemma_new_stack_tidy(s: GameModel, seat: Seat, on: bool, card: Card)
    requires
        s.tidy(),
        seat < 3,
    ensures
        s.new_stack(seat, on, card).tidy(),
{
    lemma_put_stack_tidy(s, seat, on, StackModel::single(card, seat));
}

pub proof fn lemma_scrap_all_points_tidy(s: GameModel)
    requires
        s.tidy(),
    ensures
        s.scrap_all_points().tidy(),
{
    let t = s.scrap_all_points();
    assert forall|p: int| 0 <= p < 3 implies (#[trigger] t.players[p]).controls_all(p as Seat) by {
        assert(s.players[p].controls_all(p as Seat));
        let old = s.players[p];
        let new = t.players[p];
        assert forall|i: int| 0 <= i < new.royals.len() implies (#[trigger] new.royals[i]).controller()
            == p by {
            assert(new.royals[i] == old.royals[i]);
        }
    }
    assert forall|p: int, i: int| 0 <= p < 3 && 0 <= i < t.players[p].frozen.len() implies (
    #[trigger] t.players[p].frozen[i]).remaining_turns > 0 by {
        assert(t.players[p].frozen[i] == s.players[p].frozen[i]);
    }
}

pub proof fn lemma_scrap_all_royals_tidy(s: GameModel)
    requires
        s.tidy(),
    ensures
        s.scrap_all_royals().tidy(),
{
    let t = s.scrap_all_royals();
    let all = s.all_points();
    let bare = all.map_values(stripping());
    assert forall|p: int| 0 <= p < 3 implies (#[trigger] t.players[p]).controls_all(p as Seat) by {
        let new = t.players[p];
        assert(new.points == bare.filter(owned_by(p)));
        assert forall|i: int| 0 <= i < new.points.len() implies (#[trigger] new.points[i]).controller()
            == p by {
            let st = new.points[i];
            bare.lemma_filter_pred(owned_by(p), i);
            assert(owned_by(p)(st));
            assert(bare.filter(owned_by(p)).contains(st));
            bare.lemma_filter_contains_rev(owned_by(p), st);
            let j = choose|j: int| 0 <= j < bare.len() && bare[j] == st;
            assert(st == all[j].stripped());
        }
    }
    assert forall|p: int, i: int| 0 <= p < 3 && 0 <= i < t.players[p].frozen.len() implies (
    #[trigger] t.players[p].frozen[i]).remaining_turns > 0 by {
        assert(t.players[p].frozen[i] == s.players[p].frozen[i]);
    }
}

pub proof fn lemma_resolve_two_tidy(s: GameModel, seat: Seat, target: OneOffTarget)
    requires
        s.tidy(),
        s.table_ok(),
    ensures
        s.resolve_two(seat, target).tidy(),
{
    match target {
        OneOffTarget::Royal { card } => {
            if s.has_target(seat, TargetKind::Royal, card, true) {
                lemma_found_is_stack(s, seat, TargetKind::Royal, card, true);
                let at = s.find_target(seat, TargetKind::Royal, card, true).unwrap();
                lemma_take_stack_tidy(s, at, false);
                lemma_same_tidy(s.take_stack(at, false), s.resolve_two(seat, target));
            }
        },
        OneOffTarget::Jack { card } => {
            if s.has_target(seat, TargetKind::Jack, card, true) {
                lemma_found_is_stack(s, seat, TargetKind::Jack, card, true);
                let at = s.find_target(seat, TargetKind::Jack, card, true).unwrap();
                lemma_unseat_top_tidy(s, at, true);
                lemma_same_tidy(s.unseat_top(at, true), s.resolve_two(seat, target));
            }
        },
        OneOffTarget::Joker { card } => {
            if s.has_target(seat, TargetKind::Joker, card, true) {
                lemma_found_is_stack(s, seat, TargetKind::Joker, card, true);
                let at = s.find_target(seat, TargetKind::Joker, card, true).unwrap();
                lemma_unseat_top_tidy(s, at, false);
                lemma_same_tidy(s.unseat_top(at, false), s.resolve_two(seat, target));
            }
        },
        _ => {},
    }
}

pub proof fn lemma_bounce_stack_tidy(s: GameModel, at: (Seat, int), on: bool)
    requires
        s.tidy(),
        s.table_ok(),
        at.0 < 3,
        0 <= at.1 < s.stacks(at.0 as int, on).len(),
    ensures
        s.bounce_stack(at, on).tidy(),
{
    let st = s.stack_at(at, on);
    assert(s.players[at.0 as int].seats_ok());
    assert(st.seats_ok());
    if st.riders.len() > 0 {
        assert(st.riders.last() == st.riders[st.riders.len() - 1]);
    }
    lemma_take_stack_tidy(s, at, on);
    let s1 = s.take_stack(at, on);
    lemma_hands_tidy(s1, st.controller(), st.base);
    let s2 = s1.gain(st.controller(), st.base);
    lemma_hands_tidy(s2, st.controller(), st.base);
    lemma_same_tidy(s2.freeze(st.controller(), st.base), s.bounce_stack(at, on));
}

pub proof fn lemma_bounce_top_tidy(s: GameModel, at: (Seat, int), on: bool)
    requires
        s.tidy(),
        s.table_ok(),
        at.0 < 3,
        0 <= at.1 < s.stacks(at.0 as int, on).len(),
        s.stack_at(at, on).riders.len() > 0,
    ensures
        s.bounce_top(at, on).tidy(),
{
    let top = s.stack_at(at, on).riders.last();
    super::shape::lemma_unseat_top_ok(s, at, on);
    lemma_unseat_top_tidy(s, at, on);
    let s1 = s.unseat_top(at, on);
    lemma_hands_tidy(s1, top.owner, top.card);
    lemma_hands_tidy(s1.gain(top.owner, top.card), top.owner, top.card);
}

pub proof fn lemma_resolve_nine_tidy(s: GameModel, seat: Seat, target: OneOffTarget)
    requires
        s.tidy(),
        s.table_ok(),
    ensures
        s.resolve_nine(seat, target).tidy(),
{
    match target {
        OneOffTarget::Point { base } => {
            if s.has_target(seat, TargetKind::Point, base, true) {
                lemma_found_is_stack(s, seat, TargetKind::Point, base, true);
                lemma_bounce_stack_tidy(
                    s,
                    s.find_target(seat, TargetKind::Point, base, true).unwrap(),
                    true,
                );
            }
        },
        OneOffTarget::Royal { card } => {
            if s.has_target(seat, TargetKind::Royal, card, true) {
                lemma_found_is_stack(s, seat, TargetKind::Royal, card, true);
                lemma_bounce_stack_tidy(
                    s,
                    s.find_target(seat, TargetKind::Royal, card, true).unwrap(),
                    false,
                );
            }
        },
        OneOffTarget::Jack { card } => {
            if s.has_target(seat, TargetKind::Jack, card, true) {
                lemma_found_is_stack(s, seat, TargetKind::Jack, card, true);
                lemma_bounce_top_tidy(
                    s,
                    s.find_target(seat, TargetKind::Jack, card, true).unwrap(),
                    true,
                );
            }
        },
        OneOffTarget::Joker { card } => {
            if s.has_target(seat, TargetKind::Joker, card, true) {
                lemma_found_is_stack(s, seat, TargetKind::Joker, card, true);
                lemma_bounce_top_tidy(
                    s,
                    s.find_target(seat, TargetKind::Joker, card, true).unwrap(),
                    false,
                );
            }
        },
        _ => {},
    }
}

pub proof fn lemma_draw_up_to_tidy(s: GameModel, seat: Seat, n: nat)
    requires
        s.tidy(),
        seat < 3,
    ensures
        s.draw_up_to(seat, n).tidy(),
    decreases n,
{
    if n == 0 || s.deck.len() == 0 || s.players[seat as int].hand.len() >= 7 {
    } else {
        let s0 = GameModel { deck: s.deck.drop_first(), ..s };
        lemma_same_tidy(s, s0);
        lemma_hands_tidy(s0, seat, s.deck[0]);
        lemma_draw_up_to_tidy(s0.gain(seat, s.deck[0]), seat, (n - 1) as nat);
    }
}

/// What a one-off does keeps the game in order, and asks for a decision
/// only as the rules have it: two cards to discard after a four, one or two
/// cards revealed by a seven.
pub proof fn lemma_resolve_oneoff_tidy(s: GameModel, seat: Seat, card: Card, target: OneOffTarget)
    requires
        s.tidy(),
        s.table_ok(),
        seat < 3,
        s.phase is Main,
        target matches OneOffTarget::Player { seat: t } ==> t < 3,
    ensures
        ({
            let t = s.resolve_oneoff(seat, card, target);
            &&& t.tidy()
            &&& (t.phase matches PhaseModel::ResolvingFour { remaining, .. } ==> 1 <= remaining
                <= 2)
            &&& (t.phase matches PhaseModel::ResolvingSeven { revealed, .. } ==> 1
                <= revealed.len() <= 2)
        }),
{
    match card.spec_rank_value() {
        Some(v) => {
            if v == 1 {
                lemma_scrap_all_points_tidy(s);
            } else if v == 2 {
                lemma_resolve_two_tidy(s, seat, target);
                super::shape::lemma_resolve_two_ok(s, seat, target);
            } else if v == 3 {
                lemma_same_tidy(s, s.resolve_oneoff(seat, card, target));
            } else if v == 4 {
                lemma_same_tidy(s, s.resolve_oneoff(seat, card, target));
            } else if v == 5 {
                lemma_draw_up_to_tidy(s, seat, 3);
                super::shape::lemma_draw_up_to_ok(s, seat, 3);
                lemma_same_tidy(s, s.with_phase(
                    PhaseModel::ResolvingFive { seat, base_player: seat, discarded: false },
                ));
            } else if v == 6 {
                lemma_scrap_all_royals_tidy(s);
                super::shape::lemma_scrap_all_royals_ok(s);
            } else if v == 7 {
                lemma_same_tidy(s, s.reveal_top_two(seat));
            } else if v == 9 {
                lemma_resolve_nine_tidy(s, seat, target);
                super::shape::lemma_resolve_nine_ok(s, seat, target);
            }
        },
        None => {},
    }
}

pub proof fn lemma_play_revealed_tidy(s: GameModel, seat: Seat, card: Card, play: SevenPlay, bp: Seat)
    requires
        s.tidy(),
        s.table_ok(),
        seat < 3,
        bp < 3,
        s.phase is Main,
        play is Discard || s.seven_play_ok(seat, card, play),
    ensures
        s.play_revealed(seat, card, play, bp).tidy(),
        s.play_revealed(seat, card, play, bp).phase matches PhaseModel::Countering(c)
            ==> c.twos.len() == 0,
{
    match play {
        SevenPlay::Discard => {
            lemma_same_tidy(s, s.scrapping(seq![card]));
            lemma_hands_tidy(s.scrapping(seq![card]), bp, card);
        },
        SevenPlay::Points => {
            lemma_new_stack_tidy(s, seat, true, card);
            lemma_hands_tidy(s.new_stack(seat, true, card), bp, card);
        },
        SevenPlay::Scuttle { target } => {
            lemma_scuttle_tidy(s, seat, card, target);
            lemma_hands_tidy(s.scuttle(seat, card, target), bp, card);
        },
        SevenPlay::Royal => {
            lemma_new_stack_tidy(s, seat, false, card);
            lemma_hands_tidy(s.new_stack(seat, false, card), bp, card);
        },
        SevenPlay::Jack { target } => {
            lemma_jack_onto_tidy(s, seat, card, target);
            lemma_hands_tidy(s.jack_onto(seat, card, target), bp, card);
        },
        SevenPlay::Joker { target } => {
            lemma_joker_onto_tidy(s, seat, card, target);
            lemma_hands_tidy(s.joker_onto(seat, card, target), bp, card);
        },
        SevenPlay::OneOff { target } => {
            lemma_same_tidy(s, s.open_window(seat, card, target));
        },
    }
}

impl GameModel {
    /// What the phase holds is as the rules leave it: one or two cards to
    /// discard after a four, one or two cards revealed by a seven, twos and
    /// nothing else played into a counter window.
    pub open spec fn phase_in_order(self) -> bool {
        &&& (self.phase matches PhaseModel::ResolvingFour { remaining, .. } ==> 1 <= remaining
            <= 2)
        &&& (self.phase matches PhaseModel::ResolvingSeven { revealed, .. } ==> 1 <= revealed.len()
            <= 2)
        &&& (self.phase matches PhaseModel::Countering(c) ==> forall|i: int|
            0 <= i < c.twos.len() ==> (#[trigger] c.twos[i]).0 < 3 && spec_is_two(c.twos[i].1))
    }
}

pub proof fn lemma_step_main_tidy(s: GameModel, seat: Seat, a: Action)
    requires
        s.shaped(),
        s.tidy(),
        s.phase is Main,
        s.legal(seat, a),
    ensures
        s.step_main(seat, a).tidy(),
        s.step_main(seat, a).phase_in_order(),
{
    reveal(GameModel::legal);
    match a {
        Action::Draw => {
            let s0 = GameModel { deck: s.deck.drop_first(), ..s };
            lemma_same_tidy(s, s0);
            lemma_hands_tidy(s0, seat, s.deck[0]);
            lemma_same_tidy(s0.gain(seat, s.deck[0]), s0.gain(seat, s.deck[0]).no_pass_streak());
            lemma_hands_tidy(s0.gain(seat, s.deck[0]).no_pass_streak(), seat, s.deck[0]);
        },
        Action::Pass => {
            let s1 = s.one_more_pass(seat);
            lemma_same_tidy(s, s1);
            if s1.is_stalemate(seat) {
                lemma_same_tidy(s1, s.step_main(seat, a));
            } else {
                lemma_hands_tidy(s1, seat, Card::Joker(0));
            }
        },
        Action::PlayPoints { card } => {
            lemma_hands_tidy(s, seat, card);
            lemma_new_stack_tidy(s.lose(seat, card), seat, true, card);
            let s2 = s.lose(seat, card).new_stack(seat, true, card);
            lemma_same_tidy(s2, s2.no_pass_streak());
            lemma_hands_tidy(s2.no_pass_streak(), seat, card);
        },
        Action::Scuttle { card, target_point_base } => {
            lemma_scuttle_tidy(s, seat, card, target_point_base);
            let s1 = s.scuttle(seat, card, target_point_base);
            lemma_hands_tidy(s1, seat, card);
            lemma_same_tidy(s1.lose(seat, card), s1.lose(seat, card).no_pass_streak());
            lemma_hands_tidy(s1.lose(seat, card).no_pass_streak(), seat, card);
        },
        Action::PlayRoyal { card } => {
            lemma_hands_tidy(s, seat, card);
            lemma_new_stack_tidy(s.lose(seat, card), seat, false, card);
            let s2 = s.lose(seat, card).new_stack(seat, false, card);
            lemma_same_tidy(s2, s2.no_pass_streak());
            lemma_hands_tidy(s2.no_pass_streak(), seat, card);
        },
        Action::PlayJack { jack, target_point_base } => {
            lemma_jack_onto_tidy(s, seat, jack, target_point_base);
            let s1 = s.jack_onto(seat, jack, target_point_base);
            lemma_hands_tidy(s1, seat, jack);
            lemma_same_tidy(s1.lose(seat, jack), s1.lose(seat, jack).no_pass_streak());
            lemma_hands_tidy(s1.lose(seat, jack).no_pass_streak(), seat, jack);
        },
        Action::PlayJoker { joker, target_royal_card } => {
            lemma_joker_onto_tidy(s, seat, joker, target_royal_card);
            let s1 = s.joker_onto(seat, joker, target_royal_card);
            lemma_hands_tidy(s1, seat, joker);
            lemma_same_tidy(s1.lose(seat, joker), s1.lose(seat, joker).no_pass_streak());
            lemma_hands_tidy(s1.lose(seat, joker).no_pass_streak(), seat, joker);
        },
        Action::PlayOneOff { card, target } => {
            lemma_hands_tidy(s, seat, card);
            lemma_same_tidy(s.lose(seat, card), s.step_main(seat, a));
        },
        _ => {},
    }
}

pub proof fn lemma_step_counter_tidy(s: GameModel, seat: Seat, a: Action)
    requires
        s.shaped(),
        s.tidy(),
        s.phase_in_order(),
        s.phase is Countering,
        s.legal(seat, a),
    ensures
        s.step_counter(seat, a).tidy(),
        s.step_counter(seat, a).phase_in_order(),
{
    reveal(GameModel::legal);
    let c = s.phase->Countering_0;
    match a {
        Action::CounterTwo { two_card } => {
            lemma_hands_tidy(s, seat, two_card);
            lemma_same_tidy(s.lose(seat, two_card), s.step_counter(seat, a));
            let t = s.step_counter(seat, a);
            let c2 = t.phase->Countering_0;
            assert forall|i: int| 0 <= i < c2.twos.len() implies (#[trigger] c2.twos[i]).0 < 3
                && spec_is_two(c2.twos[i].1) by {
                if i < c.twos.len() {
                    assert(c2.twos[i] == c.twos[i]);
                }
            }
        },
        Action::CounterPass => {
            if spec_next_seat(c.next_seat) == c.rotation_anchor {
                let s1 = s.with_phase(PhaseModel::Main).scrapping(c.twos.map_values(two_card()));
                lemma_same_tidy(s, s1);
                super::shape::lemma_same_table_ok(s, s1);
                match c.oneoff {
                    Action::PlayOneOff { card, target } => {
                        let s2 = s1.scrapping(seq![card]);
                        lemma_same_tidy(s, s2);
                        super::shape::lemma_same_table_ok(s, s2);
                        lemma_resolve_oneoff_tidy(s2, c.base_player, card, target);
                        super::shape::lemma_resolve_oneoff_ok(s2, c.base_player, card, target);
                        let s3 = if c.twos.len() % 2 == 0 {
                            s2.resolve_oneoff(c.base_player, card, target)
                        } else {
                            s2
                        };
                        lemma_hands_tidy(s3, c.base_player, card);
                    },
                    _ => {},
                }
            } else {
                lemma_same_tidy(s, s.step_counter(seat, a));
            }
        },
        _ => {},
    }
}

pub proof fn lemma_resolve_three_tidy(s: GameModel, seat: Seat, a: Action)
    requires
        s.wf(),
        s.phase is ResolvingThree,
        s.legal(seat, a),
    ensures
        s.advance(seat, a).tidy(),
        s.advance(seat, a).phase_in_order(),
{
    reveal(GameModel::legal);
    let base_player = s.phase->ResolvingThree_base_player;
    match a {
        Action::ResolveThreePick { card_from_scrap } => {
            let s0 = GameModel { scrap: without_first(s.scrap, card_from_scrap), ..s };
            lemma_same_tidy(s, s0);
            lemma_hands_tidy(s0, seat, card_from_scrap);
            let s1 = s0.gain(seat, card_from_scrap);
            lemma_same_tidy(s1, s1.with_phase(PhaseModel::Main));
            lemma_hands_tidy(s1.with_phase(PhaseModel::Main), base_player, card_from_scrap);
        },
        _ => {},
    }
}

pub proof fn lemma_resolve_four_tidy(s: GameModel, seat: Seat, a: Action)
    requires
        s.wf(),
        s.phase is ResolvingFour,
        s.legal(seat, a),
    ensures
        s.advance(seat, a).tidy(),
        s.advance(seat, a).phase_in_order(),
{
    reveal(GameModel::legal);
    let base_player = s.phase->ResolvingFour_base_player;
    let remaining = s.phase->ResolvingFour_remaining;
    match a {
        Action::ResolveFourDiscard { card } => {
            lemma_hands_tidy(s, seat, card);
            let s1 = s.lose(seat, card).scrapping(seq![card]);
            lemma_same_tidy(s.lose(seat, card), s1);
            if remaining <= 1 || s1.players[seat as int].hand.len() == 0 {
                lemma_same_tidy(s1, s1.with_phase(PhaseModel::Main));
                lemma_hands_tidy(s1.with_phase(PhaseModel::Main), base_player, card);
            } else {
                lemma_same_tidy(s1, s.advance(seat, a));
            }
        },
        _ => {},
    }
}

pub proof fn lemma_resolve_five_tidy(s: GameModel, seat: Seat, a: Action)
    requires
        s.wf(),
        s.phase is ResolvingFive,
        s.legal(seat, a),
    ensures
        s.advance(seat, a).tidy(),
        s.advance(seat, a).phase_in_order(),
{
    reveal(GameModel::legal);
    let base_player = s.phase->ResolvingFive_base_player;
    match a {
        Action::ResolveFiveDiscard { card } => {
            lemma_hands_tidy(s, seat, card);
            let s1 = s.lose(seat, card).scrapping(seq![card]);
            lemma_same_tidy(s.lose(seat, card), s1);
            lemma_draw_up_to_tidy(s1, seat, 3);
            super::shape::lemma_same_table_ok(s, s.lose(seat, card));
            super::shape::lemma_same_table_ok(s.lose(seat, card), s1);
            super::shape::lemma_draw_up_to_ok(s1, seat, 3);
            let s2 = s1.draw_up_to(seat, 3);
            lemma_same_tidy(s2, s2.with_phase(PhaseModel::Main));
            lemma_hands_tidy(s2.with_phase(PhaseModel::Main), base_player, card);
        },
        _ => {},
    }
}

pub proof fn lemma_resolve_seven_tidy(s: GameModel, seat: Seat, a: Action)
    requires
        s.wf(),
        s.phase is ResolvingSeven,
        s.legal(seat, a),
    ensures
        s.advance(seat, a).tidy(),
        s.advance(seat, a).phase_in_order(),
{
    reveal(GameModel::legal);
    let base_player = s.phase->ResolvingSeven_base_player;
    let revealed = s.phase->ResolvingSeven_revealed;
    match a {
        Action::ResolveSevenChoose { card, play } => {
            let s1 = GameModel {
                deck: without_first(revealed, card) + s.deck,
                phase: PhaseModel::Main,
                ..s
            };
            lemma_same_tidy(s, s1);
            super::shape::lemma_same_table_ok(s, s1);
            assert(s1.seven_play_ok(seat, card, play) == s.seven_play_ok(seat, card, play));
            lemma_play_revealed_tidy(s1, seat, card, play, base_player);
            super::shape::lemma_play_revealed_ok(s1, seat, card, play, base_player);
        },
        _ => {},
    }
}

pub proof fn lemma_advance_tidy(s: GameModel, seat: Seat, a: Action)
    requires
        s.wf(),
        s.legal(seat, a),
    ensures
        s.advance(seat, a).tidy(),
        s.advance(seat, a).phase_in_order(),
{
    match s.phase {
        PhaseModel::Main => {
            lemma_step_main_tidy(s, seat, a);
        },
        PhaseModel::Countering(_) => {
            lemma_step_counter_tidy(s, seat, a);
        },
        PhaseModel::ResolvingThree { .. } => {
            lemma_resolve_three_tidy(s, seat, a);
        },
        PhaseModel::ResolvingFour { .. } => {
            lemma_resolve_four_tidy(s, seat, a);
        },
        PhaseModel::ResolvingFive { .. } => {
            lemma_resolve_five_tidy(s, seat, a);
        },
        PhaseModel::ResolvingSeven { .. } => {
            lemma_resolve_seven_tidy(s, seat, a);
        },
        PhaseModel::GameOver => {
            reveal(GameModel::legal);
        },
    }
}

/// The invariants of a game hold after every legal action: every stack lies
/// with the seat that controls it, a pass streak is Some exactly when it
/// has a length, there is a winner exactly when the game is over, and no
/// frozen card has no turn left to wait.
pub proof fn lemma_step_keeps_wf(s: GameModel, seat: Seat, a: Action)
    requires
        s.wf(),
        s.legal(seat, a),
    ensures
        s.step(seat, a).wf(),
{
    lemma_step_keeps_shape(s, seat, a);
    lemma_advance_tidy(s, seat, a);
    reveal(GameModel::step);
    let t = s.advance(seat, a);
    lemma_same_tidy(t, s.step(seat, a));
    if t.winner_now().is_none() {
        assert(s.step(seat, a) == t);
        if t.phase is GameOver {
            super::shape::lemma_advance_keeps_shape(s, seat, a);
        }
    }
}

/// Every legal sequence of actions keeps the invariants of the game.
pub proof fn lemma_run_keeps_wf(s: GameModel, actions: Seq<(Seat, Action)>)
    requires
        s.wf(),
        s.run(actions).is_some(),
    ensures
        s.run(actions).unwrap().wf(),
    decreases actions.len(),
{
    if actions.len() > 0 {
        lemma_step_keeps_wf(s, actions[0].0, actions[0].1);
        lemma_run_keeps_wf(s.step(actions[0].0, actions[0].1), actions.drop_first());
    }
}

/// What the invariants say, spelled out.
pub proof fn lemma_wf_means(s: GameModel)
    requires
        s.wf(),
    ensures
        forall|p: int, i: int|
            0 <= p < 3 && 0 <= i < s.players[p].points.len() ==> (
            #[trigger] s.players[p].points[i]).controller() == p,
        forall|p: int, i: int|
            0 <= p < 3 && 0 <= i < s.players[p].royals.len() ==> (
            #[trigger] s.players[p].royals[i]).controller() == p,
        s.pass_streak_len > 0 <==> s.pass_streak_start.is_some(),
        s.winner.is_some() <==> s.phase is GameOver,
        forall|p: int, i: int|
            0 <= p < 3 && 0 <= i < s.players[p].frozen.len() ==> (
            #[trigger] s.players[p].frozen[i]).remaining_turns > 0,
{
    assert forall|p: int, i: int| 0 <= p < 3 && 0 <= i < s.players[p].points.len() implies (
    #[trigger] s.players[p].points[i]).controller() == p by {
        assert(s.players[p].controls_all(p as Seat));
    }
    assert forall|p: int, i: int| 0 <= p < 3 && 0 <= i < s.players[p].royals.len() implies (
    #[trigger] s.players[p].royals[i]).controller() == p by {
        assert(s.players[p].controls_all(p as Seat));
    }
}

} // verus!
