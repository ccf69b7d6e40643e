//! No card is lost and none is made: every action leaves each card as often
//! in the game as it was.

use vstd::prelude::*;
use super::rules::{is_card, owned_by, pile, riders_pile, stripping, two_card, without_first, TargetKind};
use super::shape::{lemma_found_is_stack, lemma_initial_shaped, lemma_step_keeps_shape};
use super::types::{GameModel, PhaseModel, PlayerModel, Seat, StackModel};
use super::util::{first_where, lemma_first_where, lemma_occurrences_contains, occurrences};
use crate::action::{Action, OneOffTarget, SevenPlay};
use crate::card::Card;

verus! {

/// One if the cards are the same, else nothing.
pub open spec fn one_if(x: Card, c: Card) -> nat {
    if x == c {
        1
    } else {
        0
    }
}

impl PlayerModel {
    /// How often `c` lies with the player: in the hand and in the stacks.
    pub open spec fn tally(self, c: Card) -> nat {
        occurrences(self.hand, c) + occurrences(pile(self.points), c) + occurrences(
            pile(self.royals),
            c,
        )
    }
}

impl GameModel {
    /// How often the card `c` is in the game: in the deck, in the scrap, with
    /// the players, and among the cards that the phase holds.
    pub open spec fn tally(self, c: Card) -> nat {
        occurrences(self.deck, c) + occurrences(self.scrap, c) + self.players[0].tally(c)
            + self.players[1].tally(c) + self.players[2].tally(c) + occurrences(
            self.phase.cards(),
            c,
        )
    }

    /// How often the card `c` is on the table: in the deck, in the scrap, in
    /// a hand or in a stack.
    pub open spec fn table_tally(self, c: Card) -> nat {
        occurrences(self.deck, c) + occurrences(self.scrap, c) + self.players[0].tally(c)
            + self.players[1].tally(c) + self.players[2].tally(c)
    }
}

pub proof fn lemma_occ_push(s: Seq<Card>, x: Card, c: Card)
    ensures
        occurrences(s.push(x), c) == occurrences(s, c) + one_if(x, c),
{
    assert(s.push(x).drop_last() =~= s);
}

pub proof fn lemma_occ_add(a: Seq<Card>, b: Seq<Card>, c: Card)
    ensures
        occurrences(a + b, c) == occurrences(a, c) + occurrences(b, c),
    decreases b.len(),
{
    if b.len() == 0 {
        assert(a + b =~= a);
    } else {
        assert((a + b).drop_last() =~= a + b.drop_last());
        lemma_occ_add(a, b.drop_last(), c);
    }
}

pub proof fn lemma_occ_one(x: Card, c: Card)
    ensures
        occurrences(seq![x], c) == one_if(x, c),
        occurrences(Seq::<Card>::empty(), c) == 0,
{
    let e = Seq::<Card>::empty();
    assert(occurrences(e, c) == 0);
    assert(seq![x].drop_last() =~= e);
    assert(seq![x].last() == x);
}

pub proof fn lemma_occ_split(s: Seq<Card>, n: int, c: Card)
    requires
        0 <= n <= s.len(),
    ensures
        occurrences(s.take(n), c) + occurrences(s.skip(n), c) == occurrences(s, c),
{
    assert(s.take(n) + s.skip(n) =~= s);
    lemma_occ_add(s.take(n), s.skip(n), c);
}

pub proof fn lemma_occ_remove(s: Seq<Card>, i: int, c: Card)
    requires
        0 <= i < s.len(),
    ensures
        occurrences(s.remove(i), c) + one_if(s[i], c) == occurrences(s, c),
{
    assert(s.remove(i) =~= s.take(i) + s.skip(i + 1));
    assert(s =~= s.take(i) + seq![s[i]] + s.skip(i + 1));
    lemma_occ_add(s.take(i), s.skip(i + 1), c);
    lemma_occ_add(s.take(i), seq![s[i]], c);
    lemma_occ_add(s.take(i) + seq![s[i]], s.skip(i + 1), c);
    lemma_occ_one(s[i], c);
}

pub proof fn lemma_occ_without_first(s: Seq<Card>, x: Card, c: Card)
    ensures
        occurrences(without_first(s, x), c) + (if s.contains(x) {
            one_if(x, c)
        } else {
            0
        }) == occurrences(s, c),
{
    lemma_first_where(s, is_card(x));
    let i = first_where(s, is_card(x));
    if i < s.len() {
        assert(s[i] == x);
        lemma_occ_remove(s, i, c);
    } else {
        if s.contains(x) {
            let j = choose|j: int| 0 <= j < s.len() && s[j] == x;
            assert(!is_card(x)(s[j]));
        }
    }
}

pub proof fn lemma_rider_cards(st: StackModel, card: Card, owner: Seat, c: Card)
    ensures
        occurrences(st.cards(), c) == one_if(st.base, c) + occurrences(st.rider_cards(), c),
        occurrences(st.ridden_by(card, owner).cards(), c) == occurrences(st.cards(), c) + one_if(
            card,
            c,
        ),
        occurrences(st.stripped().cards(), c) == one_if(st.base, c),
        st.riders.len() > 0 ==> occurrences(st.without_top().cards(), c) + one_if(
            st.riders.last().card,
            c,
        ) == occurrences(st.cards(), c),
        occurrences(StackModel::single(card, owner).cards(), c) == one_if(card, c),
{
    lemma_occ_add(seq![st.base], st.rider_cards(), c);
    lemma_occ_one(st.base, c);
    let up = st.ridden_by(card, owner);
    assert(up.rider_cards() =~= st.rider_cards().push(card));
    lemma_occ_push(st.rider_cards(), card, c);
    lemma_occ_add(seq![up.base], up.rider_cards(), c);
    let bare = st.stripped();
    assert(bare.rider_cards() =~= Seq::<Card>::empty());
    lemma_occ_add(seq![bare.base], bare.rider_cards(), c);
    if st.riders.len() > 0 {
        let down = st.without_top();
        assert(st.rider_cards() =~= down.rider_cards().push(st.riders.last().card));
        lemma_occ_push(down.rider_cards(), st.riders.last().card, c);
        lemma_occ_add(seq![down.base], down.rider_cards(), c);
    }
    let one = StackModel::single(card, owner);
    assert(one.rider_cards() =~= Seq::<Card>::empty());
    lemma_occ_add(seq![one.base], one.rider_cards(), c);
    lemma_occ_one(card, c);
}

pub proof fn lemma_pile_push(stacks: Seq<StackModel>, st: StackModel, c: Card)
    ensures
        occurrences(pile(stacks.push(st)), c) == occurrences(pile(stacks), c) + occurrences(
            st.cards(),
            c,
        ),
{
    assert(stacks.push(st).drop_last() =~= stacks);
    lemma_occ_add(pile(stacks), st.cards(), c);
}

pub proof fn lemma_pile_add(a: Seq<StackModel>, b: Seq<StackModel>, c: Card)
    ensures
        occurrences(pile(a + b), c) == occurrences(pile(a), c) + occurrences(pile(b), c),
    decreases b.len(),
{
    if b.len() == 0 {
        assert(a + b =~= a);
    } else {
        assert((a + b).drop_last() =~= a + b.drop_last());
        lemma_pile_add(a, b.drop_last(), c);
        lemma_occ_add(pile(a + b.drop_last()), b.last().cards(), c);
        lemma_occ_add(pile(b.drop_last()), b.last().cards(), c);
    }
}

pub proof fn lemma_pile_remove(stacks: Seq<StackModel>, i: int, c: Card)
    requires
        0 <= i < stacks.len(),
    ensures
        occurrences(pile(stacks.remove(i)), c) + occurrences(stacks[i].cards(), c) == occurrences(
            pile(stacks),
            c,
        ),
{
    assert(stacks.remove(i) =~= stacks.take(i) + stacks.skip(i + 1));
    assert(stacks =~= stacks.take(i).push(stacks[i]) + stacks.skip(i + 1));
    lemma_pile_add(stacks.take(i), stacks.skip(i + 1), c);
    lemma_pile_add(stacks.take(i).push(stacks[i]), stacks.skip(i + 1), c);
    lemma_pile_push(stacks.take(i), stacks[i], c);
}

/// The cards of some stacks are the cards of the bare stacks and the
/// riders.
pub proof fn lemma_pile_stripped(stacks: Seq<StackModel>, c: Card)
    ensures
        occurrences(pile(stacks), c) == occurrences(pile(stacks.map_values(stripping())), c)
            + occurrences(riders_pile(stacks), c),
    decreases stacks.len(),
{
    let bare = stacks.map_values(stripping());
    if stacks.len() == 0 {
        assert(bare =~= Seq::<StackModel>::empty());
    } else {
        assert(bare.drop_last() =~= stacks.drop_last().map_values(stripping()));
        lemma_pile_stripped(stacks.drop_last(), c);
        let st = stacks.last();
        lemma_rider_cards(st, st.base, 0, c);
        lemma_occ_add(pile(stacks.drop_last()), st.cards(), c);
        lemma_occ_add(pile(bare.drop_last()), bare.last().cards(), c);
        lemma_occ_add(riders_pile(stacks.drop_last()), st.rider_cards(), c);
    }
}

/// Stacks sorted by the owner of their base hold the cards that they held.
pub proof fn lemma_pile_by_owner(stacks: Seq<StackModel>, c: Card)
    requires
        forall|i: int| 0 <= i < stacks.len() ==> (#[trigger] stacks[i]).base_owner < 3,
    ensures
        occurrences(pile(stacks.filter(owned_by(0))), c) + occurrences(
            pile(stacks.filter(owned_by(1))),
            c,
        ) + occurrences(pile(stacks.filter(owned_by(2))), c) == occurrences(pile(stacks), c),
    decreases stacks.len(),
{
    reveal(Seq::filter);
    if stacks.len() > 0 {
        let rest = stacks.drop_last();
        let st = stacks.last();
        assert forall|i: int| 0 <= i < rest.len() implies (#[trigger] rest[i]).base_owner < 3 by {
            assert(rest[i] == stacks[i]);
        }
        lemma_pile_by_owner(rest, c);
        lemma_pile_push(rest.filter(owned_by(0)), st, c);
        lemma_pile_push(rest.filter(owned_by(1)), st, c);
        lemma_pile_push(rest.filter(owned_by(2)), st, c);
        lemma_occ_add(pile(rest), st.cards(), c);
        assert(st.base_owner < 3);
    }
}

/// The tally with one player replaced.
pub proof fn lemma_tally_with_player(s: GameModel, seat: Seat, p: PlayerModel, c: Card)
    requires
        s.players.len() == 3,
        seat < 3,
    ensures
        s.with_player(seat, p).tally(c) + s.players[seat as int].tally(c) == s.tally(c) + p.tally(
            c,
        ),
{
}

pub proof fn lemma_tally_hands(s: GameModel, seat: Seat, x: Card, c: Card)
    requires
        s.players.len() == 3,
        seat < 3,
    ensures
        s.gain(seat, x).tally(c) == s.tally(c) + one_if(x, c),
        s.lose(seat, x).tally(c) + (if s.players[seat as int].hand.contains(x) {
            one_if(x, c)
        } else {
            0
        }) == s.tally(c),
        s.freeze(seat, x).tally(c) == s.tally(c),
        s.end_turn(seat).tally(c) == s.tally(c),
        s.no_pass_streak().tally(c) == s.tally(c),
        s.one_more_pass(seat).tally(c) == s.tally(c),
{
    let p = s.players[seat as int];
    lemma_occ_push(p.hand, x, c);
    lemma_occ_without_first(p.hand, x, c);
    lemma_tally_with_player(s, seat, PlayerModel { hand: p.hand.push(x), ..p }, c);
    lemma_tally_with_player(
        s,
        seat,
        PlayerModel {
            hand: without_first(p.hand, x),
            frozen: super::rules::unfrozen(p.frozen, x),
            ..p
        },
        c,
    );
}

pub proof fn lemma_tally_scrapping(s: GameModel, cards: Seq<Card>, c: Card)
    ensures
        s.scrapping(cards).tally(c) == s.tally(c) + occurrences(cards, c),
{
    lemma_occ_add(s.scrap, cards, c);
}

pub proof fn lemma_tally_take_stack(s: GameModel, at: (Seat, int), on: bool, c: Card)
    requires
        s.players.len() == 3,
        at.0 < 3,
        0 <= at.1 < s.stacks(at.0 as int, on).len(),
    ensures
        s.take_stack(at, on).tally(c) + occurrences(s.stack_at(at, on).cards(), c) == s.tally(c),
{
    let p = s.players[at.0 as int];
    if on {
        lemma_pile_remove(p.points, at.1, c);
        lemma_tally_with_player(s, at.0, PlayerModel { points: p.points.remove(at.1), ..p }, c);
    } else {
        lemma_pile_remove(p.royals, at.1, c);
        lemma_tally_with_player(s, at.0, PlayerModel { royals: p.royals.remove(at.1), ..p }, c);
    }
}

pub proof fn lemma_tally_put_stack(s: GameModel, seat: Seat, on: bool, st: StackModel, c: Card)
    requires
        s.players.len() == 3,
        seat < 3,
    ensures
        s.put_stack(seat, on, st).tally(c) == s.tally(c) + occurrences(st.cards(), c),
{
    let p = s.players[seat as int];
    if on {
        lemma_pile_push(p.points, st, c);
        lemma_tally_with_player(s, seat, PlayerModel { points: p.points.push(st), ..p }, c);
    } else {
        lemma_pile_push(p.royals, st, c);
        lemma_tally_with_player(s, seat, PlayerModel { royals: p.royals.push(st), ..p }, c);
    }
}

pub proof fn lemma_tally_seize(s: GameModel, seat: Seat, card: Card, at: (Seat, int), on: bool, c: Card)
    requires
        s.players.len() == 3,
        seat < 3,
        at.0 < 3,
        0 <= at.1 < s.stacks(at.0 as int, on).len(),
    ensures
        s.seize(seat, card, at, on).tally(c) == s.tally(c) + one_if(card, c),
{
    let st = s.stack_at(at, on);
    lemma_tally_take_stack(s, at, on, c);
    lemma_tally_put_stack(s.take_stack(at, on), seat, on, st.ridden_by(card, seat), c);
    lemma_rider_cards(st, card, seat, c);
}

pub proof fn lemma_tally_unseat_top(s: GameModel, at: (Seat, int), on: bool, c: Card)
    requires
        s.table_ok(),
        at.0 < 3,
        0 <= at.1 < s.stacks(at.0 as int, on).len(),
        s.stack_at(at, on).riders.len() > 0,
    ensures
        s.unseat_top(at, on).tally(c) + one_if(s.stack_at(at, on).riders.last().card, c)
            == s.tally(c),
{
    let st = s.stack_at(at, on);
    assert(s.players[at.0 as int].seats_ok());
    assert(st.seats_ok());
    let down = st.without_top();
    if down.riders.len() > 0 {
        assert(down.riders.last() == st.riders[down.riders.len() - 1]);
    }
    lemma_tally_take_stack(s, at, on, c);
    lemma_tally_put_stack(s.take_stack(at, on), down.controller(), on, down, c);
    lemma_rider_cards(st, st.base, 0, c);
}

pub proof fn lemma_tally_scuttle(s: GameModel, seat: Seat, card: Card, target: Card, c: Card)
    requires
        s.table_ok(),
        s.has_target(seat, TargetKind::Point, target, false),
    ensures
        s.scuttle(seat, card, target).tally(c) == s.tally(c) + one_if(card, c),
{
    lemma_found_is_stack(s, seat, TargetKind::Point, target, false);
    let at = s.find_target(seat, TargetKind::Point, target, false).unwrap();
    let st = s.stack_at(at, true);
    lemma_tally_take_stack(s, at, true, c);
    lemma_tally_scrapping(s.take_stack(at, true), seq![card] + st.cards(), c);
    lemma_occ_add(seq![card], st.cards(), c);
    lemma_occ_one(card, c);
}

pub proof fn lemma_tally_jack_onto(s: GameModel, seat: Seat, jack: Card, target: Card, c: Card)
    requires
        s.table_ok(),
        seat < 3,
        s.has_target(seat, TargetKind::Point, target, true),
    ensures
        s.jack_onto(seat, jack, target).tally(c) == s.tally(c) + one_if(jack, c),
{
    lemma_found_is_stack(s, seat, TargetKind::Point, target, true);
    lemma_tally_seize(
        s,
        seat,
        jack,
        s.find_target(seat, TargetKind::Point, target, true).unwrap(),
        true,
        c,
    );
}

pub proof fn lemma_tally_joker_onto(s: GameModel, seat: Seat, joker: Card, target: Card, c: Card)
    requires
        s.table_ok(),
        seat < 3,
        s.joker_lands(seat, target),
    ensures
        s.joker_onto(seat, joker, target).tally(c) == s.tally(c) + one_if(joker, c),
{
    if s.has_target(seat, TargetKind::Royal, target, true) {
        lemma_found_is_stack(s, seat, TargetKind::Royal, target, true);
        lemma_tally_seize(
            s,
            seat,
            joker,
            s.find_target(seat, TargetKind::Royal, target, true).unwrap(),
            false,
            c,
        );
    } else {
        lemma_found_is_stack(s, seat, TargetKind::Jack, target, true);
        lemma_tally_seize(
            s,
            seat,
            joker,
            s.find_target(seat, TargetKind::Jack, target, true).unwrap(),
            true,
            c,
        );
    }
}

pub proof fn lemma_tally_new_stack(s: GameModel, seat: Seat, on: bool, card: Card, c: Card)
    requires
        s.players.len() == 3,
        seat < 3,
    ensures
        s.new_stack(seat, on, card).tally(c) == s.tally(c) + one_if(card, c),
{
    lemma_tally_put_stack(s, seat, on, StackModel::single(card, seat), c);
    lemma_rider_cards(StackModel::single(card, seat), card, seat, c);
}

pub proof fn lemma_tally_scrap_all_points(s: GameModel, c: Card)
    requires
        s.players.len() == 3,
    ensures
        s.scrap_all_points().tally(c) == s.tally(c),
{
    let cards = pile(s.players[0].points) + pile(s.players[1].points) + pile(s.players[2].points);
    lemma_occ_add(pile(s.players[0].points), pile(s.players[1].points), c);
    lemma_occ_add(pile(s.players[0].points) + pile(s.players[1].points), pile(s.players[2].points), c);
    lemma_occ_add(s.scrap, cards, c);
}

pub proof fn lemma_tally_scrap_all_royals(s: GameModel, c: Card)
    requires
        s.table_ok(),
    ensures
        s.scrap_all_royals().tally(c) == s.tally(c),
{
    let t = s.scrap_all_royals();
    let royals = pile(s.players[0].royals) + pile(s.players[1].royals) + pile(s.players[2].royals);
    let all = s.all_points();
    let bare = all.map_values(stripping());
    lemma_occ_add(pile(s.players[0].royals), pile(s.players[1].royals), c);
    lemma_occ_add(pile(s.players[0].royals) + pile(s.players[1].royals), pile(s.players[2].royals), c);
    lemma_occ_add(royals, riders_pile(all), c);
    lemma_occ_add(s.scrap, royals + riders_pile(all), c);
    lemma_pile_add(s.players[0].points, s.players[1].points, c);
    lemma_pile_add(s.players[0].points + s.players[1].points, s.players[2].points, c);
    lemma_pile_stripped(all, c);
    assert forall|i: int| 0 <= i < bare.len() implies (#[trigger] bare[i]).base_owner < 3 by {
        let n0 = s.players[0].points.len();
        let n1 = s.players[1].points.len();
        assert(s.players[0].seats_ok());
        assert(s.players[1].seats_ok());
        assert(s.players[2].seats_ok());
        if i < n0 {
            assert(all[i] == s.players[0].points[i]);
        } else if i < n0 + n1 {
            assert(all[i] == s.players[1].points[i - n0]);
        } else {
            assert(all[i] == s.players[2].points[i - n0 - n1]);
        }
    }
    lemma_pile_by_owner(bare, c);
    assert(t.players[0].points == bare.filter(owned_by(0)));
    assert(t.players[1].points == bare.filter(owned_by(1)));
    assert(t.players[2].points == bare.filter(owned_by(2)));
    assert(t.players[0].royals =~= Seq::<StackModel>::empty());
    assert(t.players[1].royals =~= Seq::<StackModel>::empty());
    assert(t.players[2].royals =~= Seq::<StackModel>::empty());
}

pub proof fn lemma_tally_resolve_two(s: GameModel, seat: Seat, target: OneOffTarget, c: Card)
    requires
        s.table_ok(),
    ensures
        s.resolve_two(seat, target).tally(c) == s.tally(c),
{
    match target {
        OneOffTarget::Royal { card } => {
            if s.has_target(seat, TargetKind::Royal, card, true) {
                lemma_found_is_stack(s, seat, TargetKind::Royal, card, true);
                let at = s.find_target(seat, TargetKind::Royal, card, true).unwrap();
                lemma_tally_take_stack(s, at, false, c);
                lemma_tally_scrapping(s.take_stack(at, false), s.stack_at(at, false).cards(), c);
            }
        },
        OneOffTarget::Jack { card } => {
            if s.has_target(seat, TargetKind::Jack, card, true) {
                lemma_found_is_stack(s, seat, TargetKind::Jack, card, true);
                let at = s.find_target(seat, TargetKind::Jack, card, true).unwrap();
                lemma_tally_unseat_top(s, at, true, c);
                lemma_tally_scrapping(s.unseat_top(at, true), seq![card], c);
                lemma_occ_one(card, c);
            }
        },
        OneOffTarget::Joker { card } => {
            if s.has_target(seat, TargetKind::Joker, card, true) {
                lemma_found_is_stack(s, seat, TargetKind::Joker, card, true);
                let at = s.find_target(seat, TargetKind::Joker, card, true).unwrap();
                lemma_tally_unseat_top(s, at, false, c);
                lemma_tally_scrapping(s.unseat_top(at, false), seq![card], c);
                lemma_occ_one(card, c);
            }
        },
        _ => {},
    }
}

pub proof fn lemma_tally_bounce_stack(s: GameModel, at: (Seat, int), on: bool, c: Card)
    requires
        s.table_ok(),
        at.0 < 3,
        0 <= at.1 < s.stacks(at.0 as int, on).len(),
    ensures
        s.bounce_stack(at, on).tally(c) == s.tally(c),
{
    let st = s.stack_at(at, on);
    assert(s.players[at.0 as int].seats_ok());
    assert(st.seats_ok());
    if st.riders.len() > 0 {
        assert(st.riders.last() == st.riders[st.riders.len() - 1]);
    }
    lemma_tally_take_stack(s, at, on, c);
    let s1 = s.take_stack(at, on);
    lemma_tally_hands(s1, st.controller(), st.base, c);
    let s2 = s1.gain(st.controller(), st.base);
    lemma_tally_hands(s2, st.controller(), st.base, c);
    lemma_tally_scrapping(s2.freeze(st.controller(), st.base), st.rider_cards(), c);
    lemma_rider_cards(st, st.base, 0, c);
}

pub proof fn lemma_tally_bounce_top(s: GameModel, at: (Seat, int), on: bool, c: Card)
    requires
        s.table_ok(),
        at.0 < 3,
        0 <= at.1 < s.stacks(at.0 as int, on).len(),
        s.stack_at(at, on).riders.len() > 0,
    ensures
        s.bounce_top(at, on).tally(c) == s.tally(c),
{
    let top = s.stack_at(at, on).riders.last();
    super::shape::lemma_unseat_top_ok(s, at, on);
    lemma_tally_unseat_top(s, at, on, c);
    let s1 = s.unseat_top(at, on);
    lemma_tally_hands(s1, top.owner, top.card, c);
    lemma_tally_hands(s1.gain(top.owner, top.card), top.owner, top.card, c);
}

pub proof fn lemma_tally_resolve_nine(s: GameModel, seat: Seat, target: OneOffTarget, c: Card)
    requires
        s.table_ok(),
    ensures
        s.resolve_nine(seat, target).tally(c) == s.tally(c),
{
    match target {
        OneOffTarget::Point { base } => {
            if s.has_target(seat, TargetKind::Point, base, true) {
                lemma_found_is_stack(s, seat, TargetKind::Point, base, true);
                lemma_tally_bounce_stack(
                    s,
                    s.find_target(seat, TargetKind::Point, base, true).unwrap(),
                    true,
                    c,
                );
            }
        },
        OneOffTarget::Royal { card } => {
            if s.has_target(seat, TargetKind::Royal, card, true) {
                lemma_found_is_stack(s, seat, TargetKind::Royal, card, true);
                lemma_tally_bounce_stack(
                    s,
                    s.find_target(seat, TargetKind::Royal, card, true).unwrap(),
                    false,
                    c,
                );
            }
        },
        OneOffTarget::Jack { card } => {
            if s.has_target(seat, TargetKind::Jack, card, true) {
                lemma_found_is_stack(s, seat, TargetKind::Jack, card, true);
                lemma_tally_bounce_top(
                    s,
                    s.find_target(seat, TargetKind::Jack, card, true).unwrap(),
                    true,
                    c,
                );
            }
        },
        OneOffTarget::Joker { card } => {
            if s.has_target(seat, TargetKind::Joker, card, true) {
                lemma_found_is_stack(s, seat, TargetKind::Joker, card, true);
                lemma_tally_bounce_top(
                    s,
                    s.find_target(seat, TargetKind::Joker, card, true).unwrap(),
                    false,
                    c,
                );
            }
        },
        _ => {},
    }
}

pub proof fn lemma_tally_draw_up_to(s: GameModel, seat: Seat, n: nat, c: Card)
    requires
        s.players.len() == 3,
        seat < 3,
    ensures
        s.draw_up_to(seat, n).tally(c) == s.tally(c),
    decreases n,
{
    if n == 0 || s.deck.len() == 0 || s.players[seat as int].hand.len() >= 7 {
    } else {
        let s0 = GameModel { deck: s.deck.drop_first(), ..s };
        assert(s.deck.drop_first() =~= s.deck.remove(0));
        lemma_occ_remove(s.deck, 0, c);
        lemma_tally_hands(s0, seat, s.deck[0], c);
        lemma_tally_draw_up_to(s0.gain(seat, s.deck[0]), seat, (n - 1) as nat, c);
    }
}

/// What a one-off does moves cards and nothing else.
pub proof fn lemma_tally_resolve_oneoff(
    s: GameModel,
    seat: Seat,
    card: Card,
    target: OneOffTarget,
    c: Card,
)
    requires
        s.table_ok(),
        seat < 3,
        s.phase is Main,
        target matches OneOffTarget::Player { seat: t } ==> t < 3,
    ensures
        s.resolve_oneoff(seat, card, target).tally(c) == s.tally(c),
{
    lemma_occ_one(card, c);
    match card.spec_rank_value() {
        Some(v) => {
            if v == 1 {
                lemma_tally_scrap_all_points(s, c);
            } else if v == 2 {
                lemma_tally_resolve_two(s, seat, target, c);
            } else if v == 5 {
                lemma_tally_draw_up_to(s, seat, 3, c);
            } else if v == 6 {
                lemma_tally_scrap_all_royals(s, c);
            } else if v == 7 {
                let n = if s.deck.len() < 2 {
                    s.deck.len() as int
                } else {
                    2
                };
                lemma_occ_split(s.deck, n, c);
            } else if v == 9 {
                lemma_tally_resolve_nine(s, seat, target, c);
            }
        },
        None => {},
    }
}

pub proof fn lemma_tally_play_revealed(
    s: GameModel,
    seat: Seat,
    card: Card,
    play: SevenPlay,
    bp: Seat,
    c: Card,
)
    requires
        s.table_ok(),
        seat < 3,
        bp < 3,
        s.phase is Main,
        play is Discard || s.seven_play_ok(seat, card, play),
    ensures
        s.play_revealed(seat, card, play, bp).tally(c) == s.tally(c) + one_if(card, c),
{
    lemma_occ_one(card, c);
    match play {
        SevenPlay::Discard => {
            lemma_tally_scrapping(s, seq![card], c);
            lemma_tally_hands(s.scrapping(seq![card]), bp, card, c);
        },
        SevenPlay::Points => {
            lemma_tally_new_stack(s, seat, true, card, c);
            lemma_tally_hands(s.new_stack(seat, true, card), bp, card, c);
        },
        SevenPlay::Scuttle { target } => {
            lemma_tally_scuttle(s, seat, card, target, c);
            lemma_tally_hands(s.scuttle(seat, card, target), bp, card, c);
        },
        SevenPlay::Royal => {
            lemma_tally_new_stack(s, seat, false, card, c);
            lemma_tally_hands(s.new_stack(seat, false, card), bp, card, c);
        },
        SevenPlay::Jack { target } => {
            lemma_tally_jack_onto(s, seat, card, target, c);
            lemma_tally_hands(s.jack_onto(seat, card, target), bp, card, c);
        },
        SevenPlay::Joker { target } => {
            lemma_tally_joker_onto(s, seat, card, target, c);
            lemma_tally_hands(s.joker_onto(seat, card, target), bp, card, c);
        },
        SevenPlay::OneOff { target } => {
            let t = s.open_window(seat, card, target);
            assert(t.phase.cards() =~= seq![card]);
        },
    }
}

/// A card that can be played is in the hand.
pub proof fn lemma_available_is_held(s: GameModel, seat: Seat, card: Card)
    requires
        s.available(seat, card),
    ensures
        s.players[seat as int].hand.contains(card),
{
    lemma_occurrences_contains(s.players[seat as int].hand, card);
}

/// The end of a main-phase play: the pass streak is over, and so is the
/// turn.
pub proof fn lemma_tally_finish(s: GameModel, seat: Seat, c: Card)
    requires
        s.players.len() == 3,
        seat < 3,
    ensures
        s.no_pass_streak().end_turn(seat).tally(c) == s.tally(c),
        s.end_turn(seat).tally(c) == s.tally(c),
        s.with_phase(PhaseModel::Main).end_turn(seat).tally(c) + occurrences(s.phase.cards(), c)
            == s.tally(c),
{
    lemma_tally_hands(s, seat, Card::Joker(0), c);
    lemma_tally_hands(s.no_pass_streak(), seat, Card::Joker(0), c);
    lemma_tally_hands(s.with_phase(PhaseModel::Main), seat, Card::Joker(0), c);
    assert(s.with_phase(PhaseModel::Main).phase.cards() =~= Seq::<Card>::empty());
}

pub proof fn lemma_tally_draw(s: GameModel, seat: Seat, c: Card)
    requires
        s.players.len() == 3,
        seat < 3,
        s.deck.len() > 0,
    ensures
        (GameModel { deck: s.deck.drop_first(), ..s }).gain(seat, s.deck[0]).tally(c) == s.tally(c),
{
    let s0 = GameModel { deck: s.deck.drop_first(), ..s };
    assert(s.deck.drop_first() =~= s.deck.remove(0));
    lemma_occ_remove(s.deck, 0, c);
    lemma_tally_hands(s0, seat, s.deck[0], c);
}

pub proof fn lemma_tally_play_stack(s: GameModel, seat: Seat, on: bool, card: Card, c: Card)
    requires
        s.players.len() == 3,
        seat < 3,
        s.available(seat, card),
    ensures
        s.lose(seat, card).new_stack(seat, on, card).tally(c) == s.tally(c),
{
    lemma_available_is_held(s, seat, card);
    lemma_tally_hands(s, seat, card, c);
    lemma_tally_new_stack(s.lose(seat, card), seat, on, card, c);
}

pub proof fn lemma_tally_play_scuttle(s: GameModel, seat: Seat, card: Card, target: Card, c: Card)
    requires
        s.table_ok(),
        seat < 3,
        s.available(seat, card),
        s.has_target(seat, TargetKind::Point, target, false),
    ensures
        s.scuttle(seat, card, target).lose(seat, card).tally(c) == s.tally(c),
        s.scuttle(seat, card, target).players.len() == 3,
{
    lemma_available_is_held(s, seat, card);
    lemma_tally_scuttle(s, seat, card, target, c);
    let s1 = s.scuttle(seat, card, target);
    lemma_found_is_stack(s, seat, TargetKind::Point, target, false);
    assert(s1.players[seat as int].hand == s.players[seat as int].hand);
    lemma_tally_hands(s1, seat, card, c);
}

pub proof fn lemma_tally_play_jack(s: GameModel, seat: Seat, jack: Card, target: Card, c: Card)
    requires
        s.table_ok(),
        seat < 3,
        s.available(seat, jack),
        s.has_target(seat, TargetKind::Point, target, true),
    ensures
        s.jack_onto(seat, jack, target).lose(seat, jack).tally(c) == s.tally(c),
        s.jack_onto(seat, jack, target).players.len() == 3,
{
    lemma_available_is_held(s, seat, jack);
    lemma_tally_jack_onto(s, seat, jack, target, c);
    let s1 = s.jack_onto(seat, jack, target);
    lemma_found_is_stack(s, seat, TargetKind::Point, target, true);
    assert(s1.players[seat as int].hand == s.players[seat as int].hand);
    lemma_tally_hands(s1, seat, jack, c);
}

pub proof fn lemma_tally_play_joker(s: GameModel, seat: Seat, joker: Card, target: Card, c: Card)
    requires
        s.table_ok(),
        seat < 3,
        s.available(seat, joker),
        s.joker_lands(seat, target),
    ensures
        s.joker_onto(seat, joker, target).lose(seat, joker).tally(c) == s.tally(c),
        s.joker_onto(seat, joker, target).players.len() == 3,
{
    lemma_available_is_held(s, seat, joker);
    lemma_tally_joker_onto(s, seat, joker, target, c);
    let s1 = s.joker_onto(seat, joker, target);
    if s.has_target(seat, TargetKind::Royal, target, true) {
        lemma_found_is_stack(s, seat, TargetKind::Royal, target, true);
    } else {
        lemma_found_is_stack(s, seat, TargetKind::Jack, target, true);
    }
    assert(s1.players[seat as int].hand == s.players[seat as int].hand);
    lemma_tally_hands(s1, seat, joker, c);
}

pub proof fn lemma_tally_play_oneoff(s: GameModel, seat: Seat, card: Card, target: OneOffTarget, c: Card)
    requires
        s.players.len() == 3,
        seat < 3,
        s.phase is Main,
        s.available(seat, card),
    ensures
        s.lose(seat, card).no_pass_streak().open_window(seat, card, target).tally(c) == s.tally(c),
{
    lemma_available_is_held(s, seat, card);
    lemma_tally_hands(s, seat, card, c);
    lemma_tally_hands(s.lose(seat, card), seat, card, c);
    let t = s.lose(seat, card).no_pass_streak().open_window(seat, card, target);
    assert(t.phase.cards() =~= seq![card]);
    lemma_occ_one(card, c);
    assert(s.phase.cards() =~= Seq::<Card>::empty());
}

pub proof fn lemma_tally_step_main(s: GameModel, seat: Seat, a: Action, c: Card)
    requires
        s.shaped(),
        s.phase is Main,
        s.legal(seat, a),
    ensures
        s.step_main(seat, a).tally(c) == s.tally(c),
{
    reveal(GameModel::legal);
    assert(s.phase.cards() =~= Seq::<Card>::empty());
    match a {
        Action::Draw => {
            lemma_tally_draw(s, seat, c);
            lemma_tally_finish(
                (GameModel { deck: s.deck.drop_first(), ..s }).gain(seat, s.deck[0]),
                seat,
                c,
            );
        },
        Action::Pass => {
            lemma_tally_hands(s, seat, Card::Joker(0), c);
            lemma_tally_finish(s.one_more_pass(seat), seat, c);
        },
        Action::PlayPoints { card } => {
            lemma_tally_play_stack(s, seat, true, card, c);
            lemma_tally_finish(s.lose(seat, card).new_stack(seat, true, card), seat, c);
        },
        Action::Scuttle { card, target_point_base } => {
            lemma_tally_play_scuttle(s, seat, card, target_point_base, c);
            lemma_tally_finish(s.scuttle(seat, card, target_point_base).lose(seat, card), seat, c);
        },
        Action::PlayRoyal { card } => {
            lemma_tally_play_stack(s, seat, false, card, c);
            lemma_tally_finish(s.lose(seat, card).new_stack(seat, false, card), seat, c);
        },
        Action::PlayJack { jack, target_point_base } => {
            lemma_tally_play_jack(s, seat, jack, target_point_base, c);
            lemma_tally_finish(s.jack_onto(seat, jack, target_point_base).lose(seat, jack), seat, c);
        },
        Action::PlayJoker { joker, target_royal_card } => {
            lemma_tally_play_joker(s, seat, joker, target_royal_card, c);
            lemma_tally_finish(
                s.joker_onto(seat, joker, target_royal_card).lose(seat, joker),
                seat,
                c,
            );
        },
        Action::PlayOneOff { card, target } => {
            lemma_tally_play_oneoff(s, seat, card, target, c);
        },
        _ => {},
    }
}

pub proof fn lemma_tally_step_counter(s: GameModel, seat: Seat, a: Action, c: Card)
    requires
        s.shaped(),
        s.phase is Countering,
        s.legal(seat, a),
    ensures
        s.step_counter(seat, a).tally(c) == s.tally(c),
{
    reveal(GameModel::legal);
    let w = s.phase->Countering_0;
    let card = w.oneoff->PlayOneOff_card;
    let target = w.oneoff->PlayOneOff_target;
    let twos = w.twos.map_values(two_card());
    lemma_occ_add(twos, seq![card], c);
    lemma_occ_one(card, c);
    match a {
        Action::CounterTwo { two_card: two } => {
            lemma_available_is_held(s, seat, two);
            lemma_tally_hands(s, seat, two, c);
            let t = s.step_counter(seat, a);
            let w2 = t.phase->Countering_0;
            assert(w2.twos.map_values(two_card()) =~= twos.push(two));
            lemma_occ_push(twos, two, c);
            lemma_occ_add(twos.push(two), seq![card], c);
        },
        Action::CounterPass => {
            if super::util::spec_next_seat(w.next_seat) == w.rotation_anchor {
                let s0 = s.with_phase(PhaseModel::Main);
                assert(s0.phase.cards() =~= Seq::<Card>::empty());
                let s1 = s0.scrapping(twos);
                lemma_tally_scrapping(s0, twos, c);
                let s2 = s1.scrapping(seq![card]);
                lemma_tally_scrapping(s1, seq![card], c);
                super::shape::lemma_same_table_ok(s, s2);
                lemma_tally_resolve_oneoff(s2, w.base_player, card, target, c);
                super::shape::lemma_resolve_oneoff_ok(s2, w.base_player, card, target);
                let s3 = if w.twos.len() % 2 == 0 {
                    s2.resolve_oneoff(w.base_player, card, target)
                } else {
                    s2
                };
                lemma_tally_hands(s3, w.base_player, card, c);
            }
        },
        _ => {},
    }
}

pub proof fn lemma_tally_three(s: GameModel, seat: Seat, card: Card, c: Card)
    requires
        s.players.len() == 3,
        seat < 3,
        s.scrap.contains(card),
    ensures
        (GameModel { scrap: without_first(s.scrap, card), ..s }).gain(seat, card).tally(c)
            == s.tally(c),
{
    let s0 = GameModel { scrap: without_first(s.scrap, card), ..s };
    lemma_occ_without_first(s.scrap, card, c);
    lemma_tally_hands(s0, seat, card, c);
}

pub proof fn lemma_tally_discard(s: GameModel, seat: Seat, card: Card, c: Card)
    requires
        s.players.len() == 3,
        seat < 3,
        s.players[seat as int].hand.contains(card),
    ensures
        s.lose(seat, card).scrapping(seq![card]).tally(c) == s.tally(c),
        s.lose(seat, card).scrapping(seq![card]).players.len() == 3,
{
    lemma_tally_hands(s, seat, card, c);
    lemma_tally_scrapping(s.lose(seat, card), seq![card], c);
    lemma_occ_one(card, c);
}

pub proof fn lemma_tally_seven(s: GameModel, seat: Seat, card: Card, play: SevenPlay, c: Card)
    requires
        s.shaped(),
        s.phase is ResolvingSeven,
        s.legal(seat, Action::ResolveSevenChoose { card, play }),
    ensures
        s.step_seven(seat, card, play).tally(c) == s.tally(c),
{
    reveal(GameModel::legal);
    let base_player = s.phase->ResolvingSeven_base_player;
    let revealed = s.phase->ResolvingSeven_revealed;
    let s1 = GameModel {
        deck: without_first(revealed, card) + s.deck,
        phase: PhaseModel::Main,
        ..s
    };
    lemma_occ_without_first(revealed, card, c);
    lemma_occ_add(without_first(revealed, card), s.deck, c);
    assert(s1.phase.cards() =~= Seq::<Card>::empty());
    super::shape::lemma_same_table_ok(s, s1);
    assert(s1.seven_play_ok(seat, card, play) == s.seven_play_ok(seat, card, play));
    lemma_tally_play_revealed(s1, seat, card, play, base_player, c);
}

pub proof fn lemma_tally_resolve(s: GameModel, seat: Seat, a: Action, c: Card)
    requires
        s.shaped(),
        s.phase.is_resolving(),
        s.legal(seat, a),
    ensures
        s.advance(seat, a).tally(c) == s.tally(c),
{
    reveal(GameModel::legal);
    if !(s.phase is ResolvingSeven) {
        assert(s.phase.cards() =~= Seq::<Card>::empty());
    }
    match s.phase {
        PhaseModel::ResolvingThree { base_player, .. } => {
            match a {
                Action::ResolveThreePick { card_from_scrap } => {
                    lemma_tally_three(s, seat, card_from_scrap, c);
                    lemma_tally_finish(
                        (GameModel {
                            scrap: without_first(s.scrap, card_from_scrap),
                            ..s
                        }).gain(seat, card_from_scrap),
                        base_player,
                        c,
                    );
                },
                _ => {},
            }
        },
        PhaseModel::ResolvingFour { base_player, .. } => {
            match a {
                Action::ResolveFourDiscard { card } => {
                    lemma_tally_discard(s, seat, card, c);
                    let s1 = s.lose(seat, card).scrapping(seq![card]);
                    lemma_tally_finish(s1, base_player, c);
                    assert(s.advance(seat, a).phase.cards() =~= Seq::<Card>::empty());
                },
                _ => {},
            }
        },
        PhaseModel::ResolvingFive { base_player, .. } => {
            match a {
                Action::ResolveFiveDiscard { card } => {
                    lemma_tally_discard(s, seat, card, c);
                    let s1 = s.lose(seat, card).scrapping(seq![card]);
                    lemma_tally_draw_up_to(s1, seat, 3, c);
                    super::shape::lemma_hands_ok(s, seat, card);
                    super::shape::lemma_same_table_ok(s.lose(seat, card), s1);
                    super::shape::lemma_draw_up_to_ok(s1, seat, 3);
                    lemma_tally_finish(s1.draw_up_to(seat, 3), base_player, c);
                },
                _ => {},
            }
        },
        PhaseModel::ResolvingSeven { .. } => {
            match a {
                Action::ResolveSevenChoose { card, play } => {
                    lemma_tally_seven(s, seat, card, play, c);
                },
                _ => {},
            }
        },
        _ => {},
    }
}

impl GameModel {
    /// The game is over, or no seat is at its winning score: as it is after
    /// every action, since each ends with a look for the winner.
    pub open spec fn settled(self) -> bool {
        self.phase is GameOver || (!self.has_won(0) && !self.has_won(1) && !self.has_won(2))
    }
}

/// A state with the stacks of a settled state in which no game is over is as
/// settled.
pub proof fn lemma_same_table_settled(s: GameModel, t: GameModel)
    requires
        s.settled(),
        !(s.phase is GameOver),
        s.players.len() == 3,
        t.same_table(s),
    ensures
        !t.has_won(0) && !t.has_won(1) && !t.has_won(2),
{
    assert(t.players[0].points == s.players[0].points);
    assert(t.players[1].points == s.players[1].points);
    assert(t.players[2].points == s.players[2].points);
}

/// Of all one-offs only the seven leads to the phase in which a seven
/// resolves, and it changes no stack.
pub proof fn lemma_seven_alone_reveals(s: GameModel, seat: Seat, card: Card, target: OneOffTarget)
    requires
        s.table_ok(),
        seat < 3,
        s.phase is Main,
        target matches OneOffTarget::Player { seat: t } ==> t < 3,
    ensures
        s.resolve_oneoff(seat, card, target).phase is ResolvingSeven ==> s.resolve_oneoff(
            seat,
            card,
            target,
        ).same_table(s),
{
    match card.spec_rank_value() {
        Some(v) => {
            if v == 1 {
                super::shape::lemma_scrap_all_points_ok(s);
            } else if v == 2 {
                super::shape::lemma_resolve_two_ok(s, seat, target);
            } else if v == 5 {
                super::shape::lemma_draw_up_to_ok(s, seat, 3);
            } else if v == 6 {
                super::shape::lemma_scrap_all_royals_ok(s);
            } else if v == 9 {
                super::shape::lemma_resolve_nine_ok(s, seat, target);
            }
        },
        None => {},
    }
}

/// While the phase holds cards, no stack has changed in the action that
/// led to it.
pub proof fn lemma_cards_held_table_same(s: GameModel, seat: Seat, a: Action)
    requires
        s.shaped(),
        s.legal(seat, a),
        s.advance(seat, a).phase is Countering || s.advance(seat, a).phase is ResolvingSeven,
    ensures
        s.advance(seat, a).same_table(s),
        !(s.phase is GameOver),
{
    reveal(GameModel::legal);
    let t = s.advance(seat, a);
    match s.phase {
        PhaseModel::Main => {
            match a {
                Action::PlayOneOff { card, target } => {},
                Action::Pass => {},
                _ => {},
            }
        },
        PhaseModel::Countering(w) => {
            match a {
                Action::CounterPass => {
                    if spec_next(w.next_seat) == w.rotation_anchor {
                        let card = w.oneoff->PlayOneOff_card;
                        let target = w.oneoff->PlayOneOff_target;
                        let s2 = s.with_phase(PhaseModel::Main).scrapping(
                            w.twos.map_values(two_card()),
                        ).scrapping(seq![card]);
                        super::shape::lemma_same_table_ok(s, s2);
                        super::shape::lemma_resolve_oneoff_ok(s2, w.base_player, card, target);
                        if w.twos.len() % 2 == 0 {
                            lemma_seven_alone_reveals(s2, w.base_player, card, target);
                        }
                    }
                },
                _ => {},
            }
        },
        PhaseModel::ResolvingSeven { base_player, revealed, .. } => {
            match a {
                Action::ResolveSevenChoose { card, play } => {
                    let s1 = GameModel {
                        deck: without_first(revealed, card) + s.deck,
                        phase: PhaseModel::Main,
                        ..s
                    };
                    super::shape::lemma_same_table_ok(s, s1);
                    assert(s1.seven_play_ok(seat, card, play) == s.seven_play_ok(seat, card, play));
                    super::shape::lemma_play_revealed_ok(s1, seat, card, play, base_player);
                },
                _ => {},
            }
        },
        _ => {},
    }
}

pub open spec fn spec_next(seat: Seat) -> Seat {
    super::util::spec_next_seat(seat)
}

/// Conservation. A legal action in a settled state leaves every card as
/// often in the game as it was: in the deck, in the scrap, in a hand, in a
/// stack or, while a one-off waits or a seven resolves, among the cards
/// that the phase holds.
pub proof fn lemma_step_conserves_cards(s: GameModel, seat: Seat, a: Action, c: Card)
    requires
        s.shaped(),
        s.settled(),
        s.legal(seat, a),
    ensures
        s.step(seat, a).tally(c) == s.tally(c),
        s.step(seat, a).settled(),
{
    reveal(GameModel::step);
    let t = s.advance(seat, a);
    match s.phase {
        PhaseModel::Main => {
            lemma_tally_step_main(s, seat, a, c);
        },
        PhaseModel::Countering(_) => {
            lemma_tally_step_counter(s, seat, a, c);
        },
        PhaseModel::GameOver => {
            reveal(GameModel::legal);
        },
        _ => {
            lemma_tally_resolve(s, seat, a, c);
        },
    }
    if t.phase is Countering || t.phase is ResolvingSeven {
        lemma_cards_held_table_same(s, seat, a);
        lemma_same_table_settled(s, t);
    } else {
        assert(t.phase.cards() =~= Seq::<Card>::empty());
        assert(t.settle().phase.cards() =~= Seq::<Card>::empty());
    }
}

/// On the table alone every card is as often as in the game, while the
/// phase holds none.
pub proof fn lemma_table_tally(s: GameModel, c: Card)
    requires
        !(s.phase is Countering) && !(s.phase is ResolvingSeven),
    ensures
        s.table_tally(c) == s.tally(c),
{
    assert(s.phase.cards() =~= Seq::<Card>::empty());
}

/// The cards dealt in `rounds` rounds are the first three times as many of
/// the deck.
pub proof fn lemma_deal_tally(deck: Seq<Card>, first: Seat, rounds: int, c: Card)
    requires
        first < 3,
        0 <= rounds,
        3 * rounds <= deck.len(),
    ensures
        occurrences(super::engine::dealt(deck, first, 0, rounds).hand, c) + occurrences(
            super::engine::dealt(deck, first, 1, rounds).hand,
            c,
        ) + occurrences(super::engine::dealt(deck, first, 2, rounds).hand, c) == occurrences(
            deck.take(3 * rounds),
            c,
        ),
    decreases rounds,
{
    let h0 = super::engine::dealt(deck, first, 0, rounds).hand;
    let h1 = super::engine::dealt(deck, first, 1, rounds).hand;
    let h2 = super::engine::dealt(deck, first, 2, rounds).hand;
    if rounds == 0 {
        assert(h0 =~= Seq::<Card>::empty());
        assert(h1 =~= Seq::<Card>::empty());
        assert(h2 =~= Seq::<Card>::empty());
        assert(deck.take(0) =~= Seq::<Card>::empty());
    } else {
        let r = rounds - 1;
        lemma_deal_tally(deck, first, r, c);
        let g0 = super::engine::dealt(deck, first, 0, r).hand;
        let g1 = super::engine::dealt(deck, first, 1, r).hand;
        let g2 = super::engine::dealt(deck, first, 2, r).hand;
        assert(h0 =~= g0.push(deck[3 * r + (0 + 3 - first) % 3]));
        assert(h1 =~= g1.push(deck[3 * r + (1 + 3 - first) % 3]));
        assert(h2 =~= g2.push(deck[3 * r + (2 + 3 - first) % 3]));
        lemma_occ_push(g0, deck[3 * r + (0 + 3 - first) % 3], c);
        lemma_occ_push(g1, deck[3 * r + (1 + 3 - first) % 3], c);
        lemma_occ_push(g2, deck[3 * r + (2 + 3 - first) % 3], c);
        let t = deck.take(3 * r);
        assert(deck.take(3 * rounds) =~= t.push(deck[3 * r]).push(deck[3 * r + 1]).push(
            deck[3 * r + 2],
        ));
        lemma_occ_push(t, deck[3 * r], c);
        lemma_occ_push(t.push(deck[3 * r]), deck[3 * r + 1], c);
        lemma_occ_push(t.push(deck[3 * r]).push(deck[3 * r + 1]), deck[3 * r + 2], c);
    }
}

/// As a game is dealt, every card is as often in it as in the deck that it
/// is dealt from.
pub proof fn lemma_initial_tally(dealer: Seat, deck: Seq<Card>, c: Card)
    requires
        dealer < 3,
        deck.len() >= 15,
    ensures
        GameModel::initial(dealer, deck).tally(c) == occurrences(deck, c),
        GameModel::initial(dealer, deck).table_tally(c) == occurrences(deck, c),
{
    let s = GameModel::initial(dealer, deck);
    let first = super::util::spec_next_seat(dealer);
    lemma_deal_tally(deck, first, 5, c);
    lemma_occ_split(deck, 15, c);
    lemma_occ_one(c, c);
    assert(s.scrap =~= Seq::<Card>::empty());
    assert(s.phase.cards() =~= Seq::<Card>::empty());
    assert(s.players[0].points =~= Seq::<StackModel>::empty());
    assert(s.players[1].points =~= Seq::<StackModel>::empty());
    assert(s.players[2].points =~= Seq::<StackModel>::empty());
    assert(s.players[0].royals =~= Seq::<StackModel>::empty());
    assert(s.players[1].royals =~= Seq::<StackModel>::empty());
    assert(s.players[2].royals =~= Seq::<StackModel>::empty());
}

/// Conservation along a game. After every legal sequence of actions from a
/// state that is sound and settled, every card is as often in the game as
/// it was.
pub proof fn lemma_run_conserves_cards(s: GameModel, actions: Seq<(Seat, Action)>, c: Card)
    requires
        s.shaped(),
        s.settled(),
        s.run(actions).is_some(),
    ensures
        s.run(actions).unwrap().tally(c) == s.tally(c),
        s.run(actions).unwrap().shaped(),
        s.run(actions).unwrap().settled(),
    decreases actions.len(),
{
    if actions.len() > 0 {
        lemma_step_conserves_cards(s, actions[0].0, actions[0].1, c);
        lemma_step_keeps_shape(s, actions[0].0, actions[0].1);
        lemma_run_conserves_cards(s.step(actions[0].0, actions[0].1), actions.drop_first(), c);
    }
}

/// Conservation from the deal. Whatever is played by the rules, every card
/// stays as often in the game as it is in the deck that was dealt from; and
/// whenever no one-off waits and no seven resolves, it is as often on the
/// table: in the deck, in the scrap, in a hand or in a stack.
pub proof fn lemma_game_conserves_deck(
    dealer: Seat,
    deck: Seq<Card>,
    actions: Seq<(Seat, Action)>,
    c: Card,
)
    requires
        dealer < 3,
        deck.len() >= 15,
        GameModel::initial(dealer, deck).run(actions).is_some(),
    ensures
        ({
            let s = GameModel::initial(dealer, deck).run(actions).unwrap();
            &&& s.tally(c) == occurrences(deck, c)
            &&& (!(s.phase is Countering) && !(s.phase is ResolvingSeven) ==> s.table_tally(c)
                == occurrences(deck, c))
        }),
{
    let start = GameModel::initial(dealer, deck);
    lemma_initial_shaped(dealer, deck);
    lemma_initial_tally(dealer, deck, c);
    lemma_run_conserves_cards(start, actions, c);
    let s = start.run(actions).unwrap();
    if !(s.phase is Countering) && !(s.phase is ResolvingSeven) {
        lemma_table_tally(s, c);
    }
}

} // verus!
