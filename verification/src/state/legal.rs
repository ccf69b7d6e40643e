//! Listing the actions that a seat may take.

use vstd::prelude::*;
use super::rules::{frozen_cards, TargetKind};
use super::types::{CutthroatState, FrozenCard, GameModel, Phase, Seat, StackModel};
use super::util::{first_where, is_jack, is_joker, is_plain_royal, is_point_card, is_two, occurrences};
use super::targeting::lemma_first_where_exists;
use crate::action::{Action, OneOffTarget, SevenPlay};
use crate::card::Card;

verus! {

broadcast use vstd::seq_lib::lemma_seq_contains_after_push;

/// How often `card` occurs among the first `upto` of `cards`.
fn count_card(cards: &Vec<Card>, upto: usize, card: Card) -> (n: usize)
    requires
        upto <= cards.len(),
    ensures
        n == occurrences(cards@.take(upto as int), card),
{
    let mut n: usize = 0;
    let mut i: usize = 0;
    proof {
        assert(cards@.take(upto as int).take(0) =~= Seq::empty());
    }
    while i < upto
        invariant
            i <= upto <= cards.len(),
            n <= i,
            n == occurrences(cards@.take(upto as int).take(i as int), card),
        decreases upto - i,
    {
        proof {
            let s = cards@.take(upto as int);
            assert(s.take(i + 1).drop_last() =~= s.take(i as int));
        }
        if cards[i] == card {
            n = n + 1;
        }
        i = i + 1;
    }
    proof {
        assert(cards@.take(upto as int).take(upto as int) =~= cards@.take(upto as int));
    }
    n
}

/// How many frozen entries there are for `card`.
fn count_frozen(frozen: &Vec<FrozenCard>, card: Card) -> (n: usize)
    ensures
        n == occurrences(frozen_cards(frozen@), card),
{
    let ghost all = frozen_cards(frozen@);
    let mut n: usize = 0;
    let mut i: usize = 0;
    proof {
        assert(all.take(0) =~= Seq::empty());
    }
    while i < frozen.len()
        invariant
            i <= frozen.len(),
            all == frozen_cards(frozen@),
            n <= i,
            n == occurrences(all.take(i as int), card),
        decreases frozen.len() - i,
    {
        proof {
            assert(all.take(i + 1).drop_last() =~= all.take(i as int));
        }
        if frozen[i].card == card {
            n = n + 1;
        }
        i = i + 1;
    }
    proof {
        assert(all.take(i as int) =~= all);
    }
    n
}

/// Whether `action` is one of `list`.
pub(crate) fn action_in(list: &Vec<Action>, action: Action) -> (b: bool)
    ensures
        b == list@.contains(action),
{
    let mut i: usize = 0;
    while i < list.len()
        invariant
            i <= list.len(),
            forall|j: int| 0 <= j < i ==> list@[j] != action,
        decreases list.len() - i,
    {
        if list[i] == action {
            return true;
        }
        i = i + 1;
    }
    false
}

/// An action with a gap for one card: the card itself for the simple ones,
/// the target for those that `card` plays.
#[derive(Clone, Copy)]
pub(crate) enum Shape {
    CounterTwo,
    ThreePick,
    FourDiscard,
    FiveDiscard,
    Scuttle { card: Card, seven: bool },
    Jack { card: Card, seven: bool },
    Joker { card: Card, seven: bool },
    OneOff { card: Card, kind: TargetKind, seven: bool },
}

/// The action that plays `card` in the given way: from the hand, or as the
/// choice among the cards that a seven revealed.
pub open spec fn play_as(seven: bool, card: Card, play: SevenPlay) -> Action {
    if seven {
        Action::ResolveSevenChoose { card, play }
    } else {
        match play {
            SevenPlay::Points => Action::PlayPoints { card },
            SevenPlay::Scuttle { target } => Action::Scuttle { card, target_point_base: target },
            SevenPlay::Royal => Action::PlayRoyal { card },
            SevenPlay::Jack { target } => Action::PlayJack { jack: card, target_point_base: target },
            SevenPlay::Joker { target } => Action::PlayJoker {
                joker: card,
                target_royal_card: target,
            },
            SevenPlay::OneOff { target } => Action::PlayOneOff { card, target },
            SevenPlay::Discard => Action::Pass,
        }
    }
}

fn play_as_exec(seven: bool, card: Card, play: SevenPlay) -> (a: Action)
    ensures
        a == play_as(seven, card, play),
{
    if seven {
        Action::ResolveSevenChoose { card, play }
    } else {
        match play {
            SevenPlay::Points => Action::PlayPoints { card },
            SevenPlay::Scuttle { target } => Action::Scuttle { card, target_point_base: target },
            SevenPlay::Royal => Action::PlayRoyal { card },
            SevenPlay::Jack { target } => Action::PlayJack { jack: card, target_point_base: target },
            SevenPlay::Joker { target } => Action::PlayJoker {
                joker: card,
                target_royal_card: target,
            },
            SevenPlay::OneOff { target } => Action::PlayOneOff { card, target },
            SevenPlay::Discard => Action::Pass,
        }
    }
}

impl TargetKind {
    fn target_exec(self, card: Card) -> (t: OneOffTarget)
        ensures
            t == self.target(card),
    {
        match self {
            TargetKind::Point => OneOffTarget::Point { base: card },
            TargetKind::Royal => OneOffTarget::Royal { card },
            TargetKind::Jack => OneOffTarget::Jack { card },
            TargetKind::Joker => OneOffTarget::Joker { card },
        }
    }
}

impl Action {
    /// The card that fills the gap of the shape the action was made from.
    pub(crate) open spec fn gap(self) -> Option<Card> {
        match self {
            Action::CounterTwo { two_card } => Some(two_card),
            Action::ResolveThreePick { card_from_scrap } => Some(card_from_scrap),
            Action::ResolveFourDiscard { card } => Some(card),
            Action::ResolveFiveDiscard { card } => Some(card),
            Action::Scuttle { target_point_base, .. } => Some(target_point_base),
            Action::PlayJack { target_point_base, .. } => Some(target_point_base),
            Action::PlayJoker { target_royal_card, .. } => Some(target_royal_card),
            Action::PlayOneOff { target, .. } => target_card(target),
            Action::ResolveSevenChoose { play, .. } => match play {
                SevenPlay::Scuttle { target } => Some(target),
                SevenPlay::Jack { target } => Some(target),
                SevenPlay::Joker { target } => Some(target),
                SevenPlay::OneOff { target } => target_card(target),
                _ => None,
            },
            _ => None,
        }
    }
}

/// The card that a one-off target names.
pub(crate) open spec fn target_card(target: OneOffTarget) -> Option<Card> {
    match target {
        OneOffTarget::Point { base } => Some(base),
        OneOffTarget::Royal { card } => Some(card),
        OneOffTarget::Jack { card } => Some(card),
        OneOffTarget::Joker { card } => Some(card),
        _ => None,
    }
}

/// Being the action of the given shape for one of the cards that fits it.
pub(crate) open spec fn made_from(shape: Shape, cards: Seq<Card>, a: Action) -> bool {
    match a.gap() {
        Some(x) => cards.contains(x) && shape.fits(x) && a == shape.fill(x),
        None => false,
    }
}

impl Shape {
    pub(crate) open spec fn fits(self, x: Card) -> bool {
        match self {
            Shape::Scuttle { card, .. } => card.spec_scuttle_beats(x),
            _ => true,
        }
    }

    pub(crate) open spec fn fill(self, x: Card) -> Action {
        match self {
            Shape::CounterTwo => Action::CounterTwo { two_card: x },
            Shape::ThreePick => Action::ResolveThreePick { card_from_scrap: x },
            Shape::FourDiscard => Action::ResolveFourDiscard { card: x },
            Shape::FiveDiscard => Action::ResolveFiveDiscard { card: x },
            Shape::Scuttle { card, seven } => play_as(seven, card, SevenPlay::Scuttle { target: x }),
            Shape::Jack { card, seven } => play_as(seven, card, SevenPlay::Jack { target: x }),
            Shape::Joker { card, seven } => play_as(seven, card, SevenPlay::Joker { target: x }),
            Shape::OneOff { card, kind, seven } => play_as(
                seven,
                card,
                SevenPlay::OneOff { target: kind.target(x) },
            ),
        }
    }

    fn fits_exec(self, x: Card) -> (b: bool)
        ensures
            b == self.fits(x),
    {
        match self {
            Shape::Scuttle { card, .. } => card.scuttle_beats(x),
            _ => true,
        }
    }

    fn fill_exec(self, x: Card) -> (a: Action)
        ensures
            a == self.fill(x),
    {
        match self {
            Shape::CounterTwo => Action::CounterTwo { two_card: x },
            Shape::ThreePick => Action::ResolveThreePick { card_from_scrap: x },
            Shape::FourDiscard => Action::ResolveFourDiscard { card: x },
            Shape::FiveDiscard => Action::ResolveFiveDiscard { card: x },
            Shape::Scuttle { card, seven } => play_as_exec(
                seven,
                card,
                SevenPlay::Scuttle { target: x },
            ),
            Shape::Jack { card, seven } => play_as_exec(seven, card, SevenPlay::Jack { target: x }),
            Shape::Joker { card, seven } => play_as_exec(
                seven,
                card,
                SevenPlay::Joker { target: x },
            ),
            Shape::OneOff { card, kind, seven } => play_as_exec(
                seven,
                card,
                SevenPlay::OneOff { target: kind.target_exec(x) },
            ),
        }
    }
}

/// The action of the given shape for each of the cards that fits it joins
/// the list.
pub(crate) fn extend_with(actions: &mut Vec<Action>, cards: &Vec<Card>, shape: Shape)
    ensures
        final(actions)@.len() >= old(actions)@.len(),
        final(actions)@.take(old(actions)@.len() as int) == old(actions)@,
        forall|k: int|
            old(actions)@.len() <= k < final(actions)@.len() ==> made_from(
                shape,
                cards@,
                #[trigger] final(actions)@[k],
            ),
        forall|a: Action| #[trigger]
            made_from(shape, cards@, a) ==> final(actions)@.len() > old(actions)@.len()
                && final(actions)@.contains(a),
        forall|a: Action|
            #[trigger] final(actions)@.contains(a) <==> old(actions)@.contains(a) || made_from(
                shape,
                cards@,
                a,
            ),
{
    let mut i: usize = 0;
    proof {
        assert(actions@.take(actions@.len() as int) =~= actions@);
    }
    while i < cards.len()
        invariant
            i <= cards.len(),
            actions@.len() >= old(actions)@.len(),
            actions@.take(old(actions)@.len() as int) == old(actions)@,
            forall|k: int|
                old(actions)@.len() <= k < actions@.len() ==> made_from(
                    shape,
                    cards@,
                    #[trigger] actions@[k],
                ),
            forall|a: Action| #[trigger]
                made_from(shape, cards@.take(i as int), a) ==> actions@.len() > old(actions)@.len()
                    && actions@.contains(a),
        decreases cards.len() - i,
    {
        let x = cards[i];
        let ghost before = actions@;
        if shape.fits_exec(x) {
            actions.push(shape.fill_exec(x));
            proof {
                assert(shape.fill(x).gap() == Some(x));
                assert(cards@.contains(x));
                assert(actions@.take(old(actions)@.len() as int) =~= before.take(
                    old(actions)@.len() as int,
                ));
            }
        }
        proof {
            assert forall|a: Action| #[trigger]
                made_from(shape, cards@.take(i + 1), a) implies actions@.len() > old(
                actions,
            )@.len() && actions@.contains(a) by {
                let y = a.gap().unwrap();
                let next = cards@.take(i + 1);
                let j = choose|j: int| 0 <= j < next.len() && next[j] == y;
                if j < i {
                    assert(cards@.take(i as int)[j] == y);
                    assert(made_from(shape, cards@.take(i as int), a));
                    assert(before.contains(a));
                    let k = choose|k: int| 0 <= k < before.len() && before[k] == a;
                    assert(actions@[k] == a);
                } else {
                    assert(y == x);
                    assert(actions@[actions@.len() - 1] == a);
                }
            }
            assert forall|k: int| old(actions)@.len() <= k < actions@.len() implies made_from(
                shape,
                cards@,
                #[trigger] actions@[k],
            ) by {
                if k < before.len() {
                    assert(actions@[k] == before[k]);
                }
            }
        }
        i = i + 1;
    }
    proof {
        assert(cards@.take(i as int) =~= cards@);
        assert forall|a: Action|
            #[trigger] actions@.contains(a) <==> old(actions)@.contains(a) || made_from(
                shape,
                cards@,
                a,
            ) by {
            if made_from(shape, cards@, a) {
                assert(actions@.contains(a));
            }
            if actions@.contains(a) {
                let k = choose|k: int| 0 <= k < actions@.len() && actions@[k] == a;
                if k < old(actions)@.len() {
                    assert(actions@.take(old(actions)@.len() as int)[k] == a);
                }
            }
            if old(actions)@.contains(a) {
                let k = choose|k: int| 0 <= k < old(actions)@.len() && old(actions)@[k] == a;
                assert(actions@.take(old(actions)@.len() as int)[k] == a);
                assert(actions@[k] == a);
            }
        }
    }
}

/// Whether one of the first `n` stacks satisfies `f`.
pub(crate) open spec fn hit_in(stacks: Seq<StackModel>, f: spec_fn(StackModel) -> bool, n: int)
    -> bool {
    exists|j: int| 0 <= j < n && f(#[trigger] stacks[j])
}

/// Whether a stack of one of the seats before `p` satisfies `f`.
pub(crate) open spec fn hit_before(s: GameModel, on: bool, f: spec_fn(StackModel) -> bool, p: int)
    -> bool {
    ||| (0 < p && first_where(s.stacks(0, on), f) < s.stacks(0, on).len())
    ||| (1 < p && first_where(s.stacks(1, on), f) < s.stacks(1, on).len())
    ||| (2 < p && first_where(s.stacks(2, on), f) < s.stacks(2, on).len())
}

proof fn lemma_hit_step(stacks: Seq<StackModel>, f: spec_fn(StackModel) -> bool, i: int)
    requires
        0 <= i < stacks.len(),
    ensures
        hit_in(stacks, f, i + 1) <==> hit_in(stacks, f, i) || f(stacks[i]),
{
    if hit_in(stacks, f, i + 1) {
        let j = choose|j: int| 0 <= j < i + 1 && f(#[trigger] stacks[j]);
        if j < i {
            assert(hit_in(stacks, f, i));
        }
    }
    if hit_in(stacks, f, i) {
        let j = choose|j: int| 0 <= j < i && f(#[trigger] stacks[j]);
        assert(0 <= j < i + 1 && f(stacks[j]));
    }
    if f(stacks[i]) {
        assert(0 <= i < i + 1 && f(stacks[i]));
    }
}

proof fn lemma_hit_all(stacks: Seq<StackModel>, f: spec_fn(StackModel) -> bool)
    ensures
        hit_in(stacks, f, stacks.len() as int) <==> first_where(stacks, f) < stacks.len(),
{
    lemma_first_where_exists(stacks, f);
}

/// The cards that `seat` can name to aim at a stack, kind by kind.
pub(crate) struct Targets {
    pub open_points: Vec<Card>,
    pub points: Vec<Card>,
    pub royals: Vec<Card>,
    pub jacks: Vec<Card>,
    pub jokers: Vec<Card>,
}

impl Targets {
    pub(crate) open spec fn describes(&self, s: GameModel, seat: Seat) -> bool {
        &&& forall|c: Card|
            self.open_points@.contains(c) <==> s.has_target(seat, TargetKind::Point, c, false)
        &&& forall|c: Card|
            self.points@.contains(c) <==> s.has_target(seat, TargetKind::Point, c, true)
        &&& forall|c: Card|
            self.royals@.contains(c) <==> s.has_target(seat, TargetKind::Royal, c, true)
        &&& forall|c: Card|
            self.jacks@.contains(c) <==> s.has_target(seat, TargetKind::Jack, c, true)
        &&& forall|c: Card|
            self.jokers@.contains(c) <==> s.has_target(seat, TargetKind::Joker, c, true)
    }
}

impl CutthroatState {
    /// The cards of the hand of `seat` that it may play: each card as often as
    /// the hand holds more copies of it than the frozen list has entries.
    pub(crate) fn available_cards(&self, seat: Seat) -> (available: Vec<Card>)
        requires
            self.players.len() == 3,
            seat < 3,
        ensures
            forall|c: Card| available@.contains(c) <==> self@.available(seat, c),
    {
        let player = &self.players[seat as usize];
        let ghost hand = player.hand@;
        let ghost frozen = frozen_cards(player.frozen@);
        let mut available: Vec<Card> = Vec::new();
        let mut i: usize = 0;
        proof {
            assert(hand.take(0) =~= Seq::empty());
        }
        while i < player.hand.len()
            invariant
                i <= player.hand.len(),
                hand == player.hand@,
                frozen == frozen_cards(player.frozen@),
                forall|c: Card|
                    available@.contains(c) <==> occurrences(hand.take(i as int), c) > occurrences(
                        frozen,
                        c,
                    ),
            decreases player.hand.len() - i,
        {
            let card = player.hand[i];
            let before = count_card(&player.hand, i, card);
            let waiting = count_frozen(&player.frozen, card);
            proof {
                assert(hand.take(i + 1).drop_last() =~= hand.take(i as int));
            }
            if before >= waiting {
                available.push(card);
            }
            i = i + 1;
        }
        proof {
            assert(hand.take(i as int) =~= hand);
        }
        available
    }

    /// The cards that `seat` can name to aim at a stack in the given way.
    pub(crate) fn targets(&self, seat: Seat, kind: TargetKind, guarded: bool) -> (found: Vec<Card>)
        requires
            self@.table_ok(),
        ensures
            forall|c: Card| found@.contains(c) <==> self@.has_target(seat, kind, c, guarded),
    {
        let ghost on = kind.on_points();
        let mut found: Vec<Card> = Vec::new();
        let mut p: Seat = 0;
        while p < 3
            invariant
                self@.table_ok(),
                p <= 3,
                on == kind.on_points(),
                forall|c: Card|
                    #[trigger] found@.contains(c) <==> hit_before(
                        self@,
                        on,
                        self@.aims_at(seat, kind, c, guarded),
                        p as int,
                    ),
            decreases 3 - p,
        {
            let n = self.stack_count(p, kind);
            let ghost stacks = self@.stacks(p as int, on);
            let ghost before = found@;
            let mut i: usize = 0;
            while i < n
                invariant
                    self@.table_ok(),
                    p < 3,
                    i <= n,
                    on == kind.on_points(),
                    stacks == self@.stacks(p as int, on),
                    n == stacks.len(),
                    forall|c: Card|
                        #[trigger] found@.contains(c) <==> before.contains(c) || hit_in(
                            stacks,
                            self@.aims_at(seat, kind, c, guarded),
                            i as int,
                        ),
                decreases n - i,
            {
                let key = self.key_at(p, i, kind);
                let ghost earlier = found@;
                match key {
                    Some(card) => {
                        if self.aims_at_place(p, i, seat, kind, card, guarded) {
                            found.push(card);
                        }
                    },
                    None => {},
                }
                proof {
                    assert forall|c: Card|
                        #[trigger] found@.contains(c) <==> before.contains(c) || hit_in(
                            stacks,
                            self@.aims_at(seat, kind, c, guarded),
                            i + 1,
                        ) by {
                        let f = self@.aims_at(seat, kind, c, guarded);
                        lemma_hit_step(stacks, f, i as int);
                        assert(earlier.contains(c) <==> before.contains(c) || hit_in(
                            stacks,
                            f,
                            i as int,
                        ));
                        assert(f(stacks[i as int]) ==> key == Some(c));
                        assert(found@.contains(c) <==> earlier.contains(c) || (key == Some(c) && f(
                            stacks[i as int],
                        )));
                    }
                }
                i = i + 1;
            }
            proof {
                assert forall|c: Card|
                    #[trigger] found@.contains(c) <==> hit_before(
                        self@,
                        on,
                        self@.aims_at(seat, kind, c, guarded),
                        p + 1,
                    ) by {
                    let f = self@.aims_at(seat, kind, c, guarded);
                    lemma_hit_all(stacks, f);
                    assert(before.contains(c) <==> hit_before(self@, on, f, p as int));
                    assert(found@.contains(c) <==> before.contains(c) || hit_in(
                        stacks,
                        f,
                        n as int,
                    ));
                }
            }
            p = p + 1;
        }
        found
    }

    /// The card by which the stack at the given place is aimed at.
    pub(crate) fn key_at(&self, p: Seat, i: usize, kind: TargetKind) -> (key: Option<Card>)
        requires
            self.players.len() == 3,
            p < 3,
            i < self@.stacks(p as int, kind.on_points()).len(),
        ensures
            key == kind.key(self@.stacks(p as int, kind.on_points())[i as int]),
    {
        match kind {
            TargetKind::Point => {
                assert(self@.players[p as int].points[i as int] == self.players[p as int].points[i as int]@);
                Some(self.players[p as usize].points[i].base)
            },
            TargetKind::Royal => {
                assert(self@.players[p as int].royals[i as int] == self.players[p as int].royals[i as int]@);
                Some(self.players[p as usize].royals[i].base)
            },
            TargetKind::Jack => {
                assert(self@.players[p as int].points[i as int] == self.players[p as int].points[i as int]@);
                self.players[p as usize].points[i].top_card()
            },
            TargetKind::Joker => {
                assert(self@.players[p as int].royals[i as int] == self.players[p as int].royals[i as int]@);
                self.players[p as usize].royals[i].top_card()
            },
        }
    }

    /// The bases of the point stacks that `seat` can aim at.
    pub(crate) fn iter_point_targets(&self, seat: Seat, guarded: bool) -> (found: Vec<Card>)
        requires
            self@.table_ok(),
        ensures
            forall|c: Card|
                found@.contains(c) <==> self@.has_target(seat, TargetKind::Point, c, guarded),
    {
        self.targets(seat, TargetKind::Point, guarded)
    }

    /// The bases of the royal stacks that `seat` can aim at.
    pub(crate) fn iter_royal_targets(&self, seat: Seat) -> (found: Vec<Card>)
        requires
            self@.table_ok(),
        ensures
            forall|c: Card|
                found@.contains(c) <==> self@.has_target(seat, TargetKind::Royal, c, true),
    {
        self.targets(seat, TargetKind::Royal, true)
    }

    /// The topmost jacks that `seat` can aim at.
    pub(crate) fn iter_jack_targets(&self, seat: Seat) -> (found: Vec<Card>)
        requires
            self@.table_ok(),
        ensures
            forall|c: Card|
                found@.contains(c) <==> self@.has_target(seat, TargetKind::Jack, c, true),
    {
        self.targets(seat, TargetKind::Jack, true)
    }

    /// The topmost jokers that `seat` can aim at.
    pub(crate) fn iter_joker_targets(&self, seat: Seat) -> (found: Vec<Card>)
        requires
            self@.table_ok(),
        ensures
            forall|c: Card|
                found@.contains(c) <==> self@.has_target(seat, TargetKind::Joker, c, true),
    {
        self.targets(seat, TargetKind::Joker, true)
    }

    /// Everything that `seat` can aim at.
    pub(crate) fn all_targets(&self, seat: Seat) -> (t: Targets)
        requires
            self@.table_ok(),
        ensures
            t.describes(self@, seat),
    {
        Targets {
            open_points: self.iter_point_targets(seat, false),
            points: self.iter_point_targets(seat, true),
            royals: self.iter_royal_targets(seat),
            jacks: self.iter_jack_targets(seat),
            jokers: self.iter_joker_targets(seat),
        }
    }
}

/// The list has grown at its end, by actions that satisfy `p` only and by
/// each action that satisfies `p` at least once.
pub(crate) open spec fn grown(before: Seq<Action>, after: Seq<Action>, p: spec_fn(Action) -> bool)
    -> bool {
    &&& before.len() <= after.len()
    &&& after.take(before.len() as int) == before
    &&& forall|k: int| before.len() <= k < after.len() ==> p(#[trigger] after[k])
    &&& forall|a: Action| #[trigger] p(a) ==> after.len() > before.len() && after.contains(a)
}

proof fn lemma_grown_contains(before: Seq<Action>, after: Seq<Action>, p: spec_fn(Action) -> bool)
    requires
        grown(before, after, p),
    ensures
        forall|a: Action| #[trigger] after.contains(a) <==> before.contains(a) || p(a),
{
    assert forall|a: Action| #[trigger] after.contains(a) <==> before.contains(a) || p(a) by {
        if after.contains(a) {
            let k = choose|k: int| 0 <= k < after.len() && after[k] == a;
            if k < before.len() {
                assert(after.take(before.len() as int)[k] == a);
            }
        }
        if before.contains(a) {
            let k = choose|k: int| 0 <= k < before.len() && before[k] == a;
            assert(after.take(before.len() as int)[k] == a);
            assert(after[k] == a);
        }
    }
}

proof fn lemma_grown_none(list: Seq<Action>, p: spec_fn(Action) -> bool)
    requires
        forall|a: Action| !#[trigger] p(a),
    ensures
        grown(list, list, p),
{
    assert(list.take(list.len() as int) =~= list);
}

proof fn lemma_grown_then(
    s0: Seq<Action>,
    s1: Seq<Action>,
    s2: Seq<Action>,
    p: spec_fn(Action) -> bool,
    q: spec_fn(Action) -> bool,
    r: spec_fn(Action) -> bool,
)
    requires
        grown(s0, s1, p),
        grown(s1, s2, q),
        forall|a: Action| #[trigger] r(a) <==> p(a) || q(a),
    ensures
        grown(s0, s2, r),
{
    assert(s2.take(s0.len() as int) =~= s1.take(s0.len() as int)) by {
        assert forall|k: int| 0 <= k < s0.len() implies s2[k] == s1[k] by {
            assert(s2.take(s1.len() as int)[k] == s1[k]);
        }
    }
    assert forall|k: int| s0.len() <= k < s2.len() implies r(#[trigger] s2[k]) by {
        if k < s1.len() {
            assert(s2.take(s1.len() as int)[k] == s1[k]);
            assert(p(s1[k]));
        } else {
            assert(q(s2[k]));
        }
    }
    assert forall|a: Action| #[trigger] r(a) implies s2.len() > s0.len() && s2.contains(a) by {
        if p(a) {
            let k = choose|k: int| 0 <= k < s1.len() && s1[k] == a;
            assert(s2.take(s1.len() as int)[k] == a);
            assert(s2[k] == a);
        }
    }
}

proof fn lemma_grown_push(list: Seq<Action>, x: Action, p: spec_fn(Action) -> bool)
    requires
        forall|a: Action| #[trigger] p(a) <==> a == x,
    ensures
        grown(list, list.push(x), p),
{
    assert(list.push(x).take(list.len() as int) =~= list);
    assert(list.push(x)[list.len() as int] == x);
}

/// Being made from the shape and one of the cards.
pub(crate) open spec fn made_by(shape: Shape, cards: Seq<Card>) -> spec_fn(Action) -> bool {
    |a: Action| made_from(shape, cards, a)
}

/// Being the action `x`.
pub(crate) open spec fn just(x: Action) -> spec_fn(Action) -> bool {
    |a: Action| a == x
}

/// The kinds of main-phase plays, in the order in which they are listed.
#[derive(Clone, Copy)]
pub(crate) enum Stage {
    Points,
    Scuttle,
    Royal,
    Jack,
    Joker,
    OneOff,
}

impl Stage {
    pub(crate) open spec fn of(self, a: Action) -> bool {
        match self {
            Stage::Points => a is PlayPoints,
            Stage::Scuttle => a is Scuttle,
            Stage::Royal => a is PlayRoyal,
            Stage::Jack => a is PlayJack,
            Stage::Joker => a is PlayJoker,
            Stage::OneOff => a is PlayOneOff,
        }
    }
}

impl Action {
    /// The target of the one-off that the action plays.
    pub(crate) open spec fn oneoff_target(self) -> Option<OneOffTarget> {
        match self {
            Action::PlayOneOff { target, .. } => Some(target),
            Action::ResolveSevenChoose { play: SevenPlay::OneOff { target }, .. } => Some(target),
            _ => None,
        }
    }
}

/// The ways to play `card` as a one-off.
pub(crate) open spec fn oneoff_plays(s: GameModel, seat: Seat, card: Card, seven: bool) -> spec_fn(
    Action,
) -> bool {
    |a: Action|
        match a.oneoff_target() {
            Some(t) => s.oneoff_ok(seat, card, t) && a == play_as(
                seven,
                card,
                SevenPlay::OneOff { target: t },
            ),
            None => false,
        }
}

/// The plays of one kind that `card` allows in the main phase.
pub(crate) open spec fn card_plays(s: GameModel, seat: Seat, card: Card, stage: Stage) -> spec_fn(
    Action,
) -> bool {
    |a: Action| stage.of(a) && a.lead() == Some(card) && s.card_play_ok(seat, a)
}

/// The plays of one kind that the cards allow in the main phase.
pub(crate) open spec fn stage_plays(s: GameModel, seat: Seat, cards: Seq<Card>, stage: Stage)
    -> spec_fn(Action) -> bool {
    |a: Action|
        stage.of(a) && s.card_play_ok(seat, a) && match a.lead() {
            Some(c) => cards.contains(c),
            None => false,
        }
}

/// The ways to play a revealed card, discarding aside.
pub(crate) open spec fn seven_plays(s: GameModel, seat: Seat, card: Card) -> spec_fn(Action) -> bool {
    |a: Action|
        match a {
            Action::ResolveSevenChoose { card: c, play } => c == card && s.seven_play_ok(
                seat,
                card,
                play,
            ),
            _ => false,
        }
}

/// The choices that a seven leaves for one of the cards it revealed.
pub(crate) open spec fn seven_choices(s: GameModel, seat: Seat, card: Card) -> spec_fn(Action) -> bool {
    |a: Action|
        match a {
            Action::ResolveSevenChoose { card: c, play } => c == card && s.legal_seven(
                seat,
                card,
                play,
            ),
            _ => false,
        }
}

/// The choices that a seven leaves for the cards it revealed.
pub(crate) open spec fn seven_choices_among(s: GameModel, seat: Seat, cards: Seq<Card>) -> spec_fn(
    Action,
) -> bool {
    |a: Action|
        match a {
            Action::ResolveSevenChoose { card, play } => cards.contains(card) && s.legal_seven(
                seat,
                card,
                play,
            ),
            _ => false,
        }
}

/// The cards among `cards` that are twos.
fn only_twos(cards: &Vec<Card>) -> (twos: Vec<Card>)
    ensures
        forall|c: Card| #[trigger] twos@.contains(c) <==> cards@.contains(c) && super::util::spec_is_two(c),
{
    let mut twos: Vec<Card> = Vec::new();
    let mut i: usize = 0;
    while i < cards.len()
        invariant
            i <= cards.len(),
            forall|c: Card|
                #[trigger] twos@.contains(c) <==> cards@.take(i as int).contains(c)
                    && super::util::spec_is_two(c),
        decreases cards.len() - i,
    {
        let x = cards[i];
        let ghost before = twos@;
        if is_two(x) {
            twos.push(x);
        }
        proof {
            assert(cards@.take(i + 1) =~= cards@.take(i as int).push(x));
            assert forall|c: Card|
                #[trigger] twos@.contains(c) <==> cards@.take(i + 1).contains(c)
                    && super::util::spec_is_two(c) by {
                assert(before.contains(c) <==> cards@.take(i as int).contains(c)
                    && super::util::spec_is_two(c));
            }
        }
        i = i + 1;
    }
    proof {
        assert(cards@.take(i as int) =~= cards@);
    }
    twos
}

impl CutthroatState {
    /// The ways to play `card` as a one-off join the list: from the hand, or
    /// as the choice among the cards that a seven revealed.
    pub(crate) fn oneoff_actions_for_card(
        &self,
        actions: &mut Vec<Action>,
        seat: Seat,
        card: Card,
        targets: &Targets,
        seven: bool,
    )
        requires
            targets.describes(self@, seat),
        ensures
            grown(old(actions)@, final(actions)@, oneoff_plays(self@, seat, card, seven)),
    {
        let ghost s = self@;
        let ghost start = actions@;
        let ghost want = oneoff_plays(s, seat, card, seven);
        let rank = match card.rank_value() {
            Some(v) => v,
            None => {
                proof {
                    lemma_grown_none(start, want);
                }
                return ;
            },
        };
        if rank == 1 || rank == 3 || rank == 5 || rank == 6 || rank == 7 {
            let x = play_as_exec(seven, card, SevenPlay::OneOff { target: OneOffTarget::NoTarget });
            actions.push(x);
            proof {
                lemma_grown_push(start, x, want);
            }
        } else if rank == 2 {
            let royal = Shape::OneOff { card, kind: TargetKind::Royal, seven };
            let jack = Shape::OneOff { card, kind: TargetKind::Jack, seven };
            let joker = Shape::OneOff { card, kind: TargetKind::Joker, seven };
            extend_with(actions, &targets.royals, royal);
            let ghost s1 = actions@;
            extend_with(actions, &targets.jacks, jack);
            let ghost s2 = actions@;
            extend_with(actions, &targets.jokers, joker);
            proof {
                let first_made = made_by(royal, targets.royals@);
                let second_made = made_by(jack, targets.jacks@);
                let third_made = made_by(joker, targets.jokers@);
                let royals_or_jacks = |a: Action| first_made(a) || second_made(a);
                lemma_grown_then(start, s1, s2, first_made, second_made, royals_or_jacks);
                lemma_grown_then(start, s2, actions@, royals_or_jacks, third_made, want);
            }
        } else if rank == 4 {
            let mut t: Seat = 0;
            proof {
                lemma_grown_none(start, four_plays(seat, card, seven, 0));
            }
            while t < 3
                invariant
                    t <= 3,
                    grown(start, actions@, four_plays(seat, card, seven, t)),
                decreases 3 - t,
            {
                let ghost s1 = actions@;
                if t != seat {
                    let x = play_as_exec(
                        seven,
                        card,
                        SevenPlay::OneOff { target: OneOffTarget::Player { seat: t } },
                    );
                    actions.push(x);
                    proof {
                        lemma_grown_push(s1, x, just(x));
                        lemma_grown_then(
                            start,
                            s1,
                            actions@,
                            four_plays(seat, card, seven, t),
                            just(x),
                            four_plays(seat, card, seven, (t + 1) as Seat),
                        );
                    }
                } else {
                    proof {
                        lemma_grown_none(s1, |a: Action| false);
                        lemma_grown_then(
                            start,
                            s1,
                            actions@,
                            four_plays(seat, card, seven, t),
                            |a: Action| false,
                            four_plays(seat, card, seven, (t + 1) as Seat),
                        );
                    }
                }
                t = t + 1;
            }
            proof {
                lemma_grown_none(actions@, |a: Action| false);
                lemma_grown_then(
                    start,
                    actions@,
                    actions@,
                    four_plays(seat, card, seven, 3),
                    |a: Action| false,
                    want,
                );
            }
        } else if rank == 9 {
            let point = Shape::OneOff { card, kind: TargetKind::Point, seven };
            let royal = Shape::OneOff { card, kind: TargetKind::Royal, seven };
            let jack = Shape::OneOff { card, kind: TargetKind::Jack, seven };
            let joker = Shape::OneOff { card, kind: TargetKind::Joker, seven };
            extend_with(actions, &targets.points, point);
            let ghost s1 = actions@;
            extend_with(actions, &targets.royals, royal);
            let ghost s2 = actions@;
            extend_with(actions, &targets.jacks, jack);
            let ghost s3 = actions@;
            extend_with(actions, &targets.jokers, joker);
            proof {
                let at_points = made_by(point, targets.points@);
                let first_made = made_by(royal, targets.royals@);
                let second_made = made_by(jack, targets.jacks@);
                let third_made = made_by(joker, targets.jokers@);
                let first_two = |a: Action| at_points(a) || first_made(a);
                let first_three = |a: Action| first_two(a) || second_made(a);
                lemma_grown_then(start, s1, s2, at_points, first_made, first_two);
                lemma_grown_then(start, s2, s3, first_two, second_made, first_three);
                lemma_grown_then(start, s3, actions@, first_three, third_made, want);
            }
        } else {
            proof {
                lemma_grown_none(start, want);
            }
        }
    }
}

/// A four played at one of the other seats before seat `upto`.
pub(crate) open spec fn four_plays(seat: Seat, card: Card, seven: bool, upto: Seat) -> spec_fn(
    Action,
) -> bool {
    |a: Action|
        match a.oneoff_target() {
            Some(OneOffTarget::Player { seat: t }) => t < upto && t != seat && a == play_as(
                seven,
                card,
                SevenPlay::OneOff { target: OneOffTarget::Player { seat: t } },
            ),
            _ => false,
        }
}

/// The cards among the first `n` of `cards`.
pub(crate) open spec fn first_of(cards: Seq<Card>, n: int) -> Seq<Card> {
    cards.take(n)
}

impl CutthroatState {
    /// The plays of one kind that `card` allows in the main phase join the
    /// list.
    pub(crate) fn card_actions(
        &self,
        actions: &mut Vec<Action>,
        seat: Seat,
        card: Card,
        stage: Stage,
        targets: &Targets,
    )
        requires
            targets.describes(self@, seat),
        ensures
            grown(old(actions)@, final(actions)@, card_plays(self@, seat, card, stage)),
    {
        let ghost s = self@;
        let ghost start = actions@;
        let ghost want = card_plays(s, seat, card, stage);
        match stage {
            Stage::Points => {
                if is_point_card(card) {
                    let x = Action::PlayPoints { card };
                    actions.push(x);
                    proof {
                        lemma_grown_push(start, x, want);
                    }
                } else {
                    proof {
                        lemma_grown_none(start, want);
                    }
                }
            },
            Stage::Scuttle => {
                if is_point_card(card) {
                    let shape = Shape::Scuttle { card, seven: false };
                    extend_with(actions, &targets.open_points, shape);
                    proof {
                        let p = made_by(shape, targets.open_points@);
                        lemma_grown_none(actions@, |a: Action| false);
                        lemma_grown_then(start, actions@, actions@, p, |a: Action| false, want);
                    }
                } else {
                    proof {
                        lemma_grown_none(start, want);
                    }
                }
            },
            Stage::Royal => {
                if is_plain_royal(card) {
                    let x = Action::PlayRoyal { card };
                    actions.push(x);
                    proof {
                        lemma_grown_push(start, x, want);
                    }
                } else {
                    proof {
                        lemma_grown_none(start, want);
                    }
                }
            },
            Stage::Jack => {
                if is_jack(card) {
                    let shape = Shape::Jack { card, seven: false };
                    extend_with(actions, &targets.points, shape);
                    proof {
                        let p = made_by(shape, targets.points@);
                        lemma_grown_none(actions@, |a: Action| false);
                        lemma_grown_then(start, actions@, actions@, p, |a: Action| false, want);
                    }
                } else {
                    proof {
                        lemma_grown_none(start, want);
                    }
                }
            },
            Stage::Joker => {
                if is_joker(card) {
                    let shape = Shape::Joker { card, seven: false };
                    extend_with(actions, &targets.royals, shape);
                    let ghost s1 = actions@;
                    extend_with(actions, &targets.jacks, shape);
                    proof {
                        let first_made = made_by(shape, targets.royals@);
                        let second_made = made_by(shape, targets.jacks@);
                        lemma_grown_then(start, s1, actions@, first_made, second_made, want);
                    }
                } else {
                    proof {
                        lemma_grown_none(start, want);
                    }
                }
            },
            Stage::OneOff => {
                self.oneoff_actions_for_card(actions, seat, card, targets, false);
                proof {
                    let p = oneoff_plays(s, seat, card, false);
                    lemma_grown_none(actions@, |a: Action| false);
                    lemma_grown_then(start, actions@, actions@, p, |a: Action| false, want);
                }
            },
        }
    }

    /// The plays of one kind that the cards allow in the main phase join the
    /// list, card after card.
    pub(crate) fn push_stage(
        &self,
        actions: &mut Vec<Action>,
        seat: Seat,
        cards: &Vec<Card>,
        stage: Stage,
        targets: &Targets,
    )
        requires
            targets.describes(self@, seat),
        ensures
            grown(old(actions)@, final(actions)@, stage_plays(self@, seat, cards@, stage)),
    {
        let ghost s = self@;
        let ghost start = actions@;
        let mut i: usize = 0;
        proof {
            assert(first_of(cards@, 0) =~= Seq::empty());
            lemma_grown_none(start, stage_plays(s, seat, first_of(cards@, 0), stage));
        }
        while i < cards.len()
            invariant
                i <= cards.len(),
                s == self@,
                targets.describes(self@, seat),
                grown(start, actions@, stage_plays(s, seat, first_of(cards@, i as int), stage)),
            decreases cards.len() - i,
        {
            let ghost s1 = actions@;
            self.card_actions(actions, seat, cards[i], stage, targets);
            proof {
                let done = first_of(cards@, i as int);
                let next = first_of(cards@, i + 1);
                assert(next =~= done.push(cards@[i as int]));
                assert forall|c: Card| next.contains(c) <==> done.contains(c) || c == cards@[i as int] by {
                    if done.contains(c) {
                        let j = choose|j: int| 0 <= j < done.len() && done[j] == c;
                        assert(next[j] == c);
                    }
                    if c == cards@[i as int] {
                        assert(next[i as int] == c);
                    }
                }
                lemma_grown_then(
                    start,
                    s1,
                    actions@,
                    stage_plays(s, seat, done, stage),
                    card_plays(s, seat, cards@[i as int], stage),
                    stage_plays(s, seat, next, stage),
                );
            }
            i = i + 1;
        }
        proof {
            assert(first_of(cards@, i as int) =~= cards@);
        }
    }

    /// The actions that `seat` may take in the main phase.
    pub(crate) fn legal_main_actions(&self, seat: Seat) -> (actions: Vec<Action>)
        requires
            self@.table_ok(),
            seat < 3,
        ensures
            forall|a: Action|
                #[trigger] actions@.contains(a) <==> seat == self.turn && self@.legal_main(seat, a),
    {
        let mut actions: Vec<Action> = Vec::new();
        if seat != self.turn {
            return actions;
        }
        let ghost s = self@;
        let player = &self.players[seat as usize];
        let available = self.available_cards(seat);
        let targets = self.all_targets(seat);
        if self.deck.len() > 0 && player.hand.len() < 7 {
            actions.push(Action::Draw);
        }
        if self.deck.len() == 0 {
            actions.push(Action::Pass);
        }
        let ghost s0 = actions@;
        self.push_stage(&mut actions, seat, &available, Stage::Points, &targets);
        let ghost s1 = actions@;
        self.push_stage(&mut actions, seat, &available, Stage::Scuttle, &targets);
        let ghost s2 = actions@;
        self.push_stage(&mut actions, seat, &available, Stage::Royal, &targets);
        let ghost s3 = actions@;
        self.push_stage(&mut actions, seat, &available, Stage::Jack, &targets);
        let ghost s4 = actions@;
        self.push_stage(&mut actions, seat, &available, Stage::Joker, &targets);
        let ghost s5 = actions@;
        self.push_stage(&mut actions, seat, &available, Stage::OneOff, &targets);
        proof {
            lemma_grown_contains(s0, s1, stage_plays(s, seat, available@, Stage::Points));
            lemma_grown_contains(s1, s2, stage_plays(s, seat, available@, Stage::Scuttle));
            lemma_grown_contains(s2, s3, stage_plays(s, seat, available@, Stage::Royal));
            lemma_grown_contains(s3, s4, stage_plays(s, seat, available@, Stage::Jack));
            lemma_grown_contains(s4, s5, stage_plays(s, seat, available@, Stage::Joker));
            lemma_grown_contains(s5, actions@, stage_plays(s, seat, available@, Stage::OneOff));
            assert forall|a: Action| #[trigger] actions@.contains(a) <==> s.legal_main(seat, a) by {
                assert(s0.contains(a) <==> (a == Action::Draw && s.legal_main(seat, a)) || (a
                    == Action::Pass && s.legal_main(seat, a))) by {
                    if s0.contains(a) {
                        let k = choose|k: int| 0 <= k < s0.len() && s0[k] == a;
                    }
                    if a == Action::Draw && s.legal_main(seat, a) {
                        assert(s0[0] == a);
                    }
                    if a == Action::Pass && s.legal_main(seat, a) {
                        assert(s0[0] == a);
                    }
                }
                assert(s1.contains(a) <==> s0.contains(a) || stage_plays(
                    s,
                    seat,
                    available@,
                    Stage::Points,
                )(a));
                assert(s2.contains(a) <==> s1.contains(a) || stage_plays(
                    s,
                    seat,
                    available@,
                    Stage::Scuttle,
                )(a));
                assert(s3.contains(a) <==> s2.contains(a) || stage_plays(
                    s,
                    seat,
                    available@,
                    Stage::Royal,
                )(a));
                assert(s4.contains(a) <==> s3.contains(a) || stage_plays(
                    s,
                    seat,
                    available@,
                    Stage::Jack,
                )(a));
                assert(s5.contains(a) <==> s4.contains(a) || stage_plays(
                    s,
                    seat,
                    available@,
                    Stage::Joker,
                )(a));
                assert(actions@.contains(a) <==> s5.contains(a) || stage_plays(
                    s,
                    seat,
                    available@,
                    Stage::OneOff,
                )(a));
                match a.lead() {
                    Some(c) => {
                        assert(available@.contains(c) <==> s.available(seat, c));
                    },
                    None => {},
                }
            }
        }
        actions
    }

    /// The actions that `seat` may take while a counter window is open and it
    /// is the one to speak.
    pub(crate) fn legal_counter_actions(&self, seat: Seat) -> (actions: Vec<Action>)
        requires
            self.players.len() == 3,
            seat < 3,
        ensures
            forall|a: Action|
                #[trigger] actions@.contains(a) <==> (match a {
                    Action::CounterPass => true,
                    Action::CounterTwo { two_card } => super::util::spec_is_two(two_card)
                        && self@.available(seat, two_card),
                    _ => false,
                }),
    {
        let mut actions: Vec<Action> = Vec::new();
        actions.push(Action::CounterPass);
        let available = self.available_cards(seat);
        let twos = only_twos(&available);
        let ghost s0 = actions@;
        extend_with(&mut actions, &twos, Shape::CounterTwo);
        proof {
            assert forall|a: Action|
                #[trigger] actions@.contains(a) <==> (match a {
                    Action::CounterPass => true,
                    Action::CounterTwo { two_card } => super::util::spec_is_two(two_card)
                        && self@.available(seat, two_card),
                    _ => false,
                }) by {
                assert(s0.contains(a) <==> a == Action::CounterPass) by {
                    if a == Action::CounterPass {
                        assert(s0[0] == a);
                    }
                }
                assert(actions@.contains(a) <==> s0.contains(a) || made_from(
                    Shape::CounterTwo,
                    twos@,
                    a,
                ));
                match a {
                    Action::CounterTwo { two_card } => {
                        assert(twos@.contains(two_card) <==> available@.contains(two_card)
                            && super::util::spec_is_two(two_card));
                    },
                    _ => {},
                }
            }
        }
        actions
    }

    /// The choices that a seven leaves for one of the cards it revealed join
    /// the list: every way to play the card, or else to discard it.
    pub(crate) fn seven_actions_for_card(
        &self,
        actions: &mut Vec<Action>,
        seat: Seat,
        card: Card,
        targets: &Targets,
    )
        requires
            targets.describes(self@, seat),
        ensures
            grown(old(actions)@, final(actions)@, seven_choices(self@, seat, card)),
    {
        let ghost s = self@;
        let ghost start = actions@;
        let first = actions.len();
        let jack = Shape::Jack { card, seven: true };
        let joker = Shape::Joker { card, seven: true };
        let scuttle = Shape::Scuttle { card, seven: true };
        let no_cards: Vec<Card> = Vec::new();
        let ghost none = |a: Action| false;
        if is_jack(card) {
            extend_with(actions, &targets.points, jack);
        }
        let ghost s1 = actions@;
        let ghost first_made = |a: Action| super::util::spec_is_jack(card) && made_from(jack, targets.points@, a);
        if is_plain_royal(card) {
            actions.push(Action::ResolveSevenChoose { card, play: SevenPlay::Royal });
        }
        let ghost s2 = actions@;
        let ghost second_made = |a: Action|
            super::util::spec_is_plain_royal(card) && a == (Action::ResolveSevenChoose {
                card,
                play: SevenPlay::Royal,
            });
        self.oneoff_actions_for_card(actions, seat, card, targets, true);
        let ghost s3 = actions@;
        let ghost third_made = oneoff_plays(s, seat, card, true);
        if is_joker(card) {
            extend_with(actions, &targets.royals, joker);
        }
        let ghost s4 = actions@;
        let ghost fourth_made = |a: Action|
            super::util::spec_is_joker(card) && made_from(joker, targets.royals@, a);
        if is_joker(card) {
            extend_with(actions, &targets.jacks, joker);
        }
        let ghost s5 = actions@;
        let ghost fifth_made = |a: Action|
            super::util::spec_is_joker(card) && made_from(joker, targets.jacks@, a);
        if is_point_card(card) {
            actions.push(Action::ResolveSevenChoose { card, play: SevenPlay::Points });
        }
        let ghost s6 = actions@;
        let ghost sixth_made = |a: Action|
            card.spec_is_number() && a == (Action::ResolveSevenChoose {
                card,
                play: SevenPlay::Points,
            });
        if is_point_card(card) {
            extend_with(actions, &targets.open_points, scuttle);
        }
        let ghost s7 = actions@;
        let ghost seventh_made = |a: Action| card.spec_is_number() && made_from(scuttle, targets.open_points@, a);
        let ghost plays = seven_plays(s, seat, card);
        proof {
            let upto_second = |a: Action| first_made(a) || second_made(a);
            let upto_third = |a: Action| upto_second(a) || third_made(a);
            let upto_fourth = |a: Action| upto_third(a) || fourth_made(a);
            let upto_fifth = |a: Action| upto_fourth(a) || fifth_made(a);
            let upto_sixth = |a: Action| upto_fifth(a) || sixth_made(a);
            if !super::util::spec_is_jack(card) {
                lemma_grown_none(start, first_made);
            }
            if super::util::spec_is_plain_royal(card) {
                lemma_grown_push(s1, Action::ResolveSevenChoose { card, play: SevenPlay::Royal }, second_made);
            } else {
                lemma_grown_none(s1, second_made);
            }
            if !super::util::spec_is_joker(card) {
                lemma_grown_none(s3, fourth_made);
                lemma_grown_none(s4, fifth_made);
            }
            if card.spec_is_number() {
                lemma_grown_push(s5, Action::ResolveSevenChoose { card, play: SevenPlay::Points }, sixth_made);
            } else {
                lemma_grown_none(s5, sixth_made);
                lemma_grown_none(s6, seventh_made);
            }
            lemma_grown_then(start, s1, s2, first_made, second_made, upto_second);
            lemma_grown_then(start, s2, s3, upto_second, third_made, upto_third);
            lemma_grown_then(start, s3, s4, upto_third, fourth_made, upto_fourth);
            lemma_grown_then(start, s4, s5, upto_fourth, fifth_made, upto_fifth);
            lemma_grown_then(start, s5, s6, upto_fifth, sixth_made, upto_sixth);
            lemma_grown_then(start, s6, s7, upto_sixth, seventh_made, plays);
        }
        if actions.len() == first {
            let x = Action::ResolveSevenChoose { card, play: SevenPlay::Discard };
            actions.push(x);
            proof {
                assert forall|p: SevenPlay| !s.seven_play_ok(seat, card, p) by {
                    if s.seven_play_ok(seat, card, p) {
                        assert(plays(Action::ResolveSevenChoose { card, play: p }));
                    }
                }
                lemma_grown_push(s7, x, just(x));
                lemma_grown_then(start, s7, actions@, plays, just(x), seven_choices(s, seat, card));
            }
        } else {
            proof {
                let witness = s7[first as int];
                assert(plays(witness));
                lemma_grown_none(s7, none);
                lemma_grown_then(start, s7, s7, plays, none, seven_choices(s, seat, card));
            }
        }
    }

    /// The choices that a seven leaves for the cards it revealed.
    pub(crate) fn legal_seven_actions(&self, seat: Seat, revealed: &Vec<Card>) -> (actions: Vec<
        Action,
    >)
        requires
            self@.table_ok(),
        ensures
            forall|a: Action|
                #[trigger] actions@.contains(a) <==> seven_choices_among(self@, seat, revealed@)(a),
    {
        let ghost s = self@;
        let targets = self.all_targets(seat);
        let mut actions: Vec<Action> = Vec::new();
        let mut i: usize = 0;
        proof {
            assert(first_of(revealed@, 0) =~= Seq::empty());
            lemma_grown_none(actions@, seven_choices_among(s, seat, first_of(revealed@, 0)));
        }
        while i < revealed.len()
            invariant
                i <= revealed.len(),
                s == self@,
                targets.describes(self@, seat),
                grown(
                    Seq::empty(),
                    actions@,
                    seven_choices_among(s, seat, first_of(revealed@, i as int)),
                ),
            decreases revealed.len() - i,
        {
            let ghost s1 = actions@;
            self.seven_actions_for_card(&mut actions, seat, revealed[i], &targets);
            proof {
                let done = first_of(revealed@, i as int);
                let next = first_of(revealed@, i + 1);
                assert(next =~= done.push(revealed@[i as int]));
                assert forall|c: Card| next.contains(c) <==> done.contains(c) || c == revealed@[i as int] by {
                    if done.contains(c) {
                        let j = choose|j: int| 0 <= j < done.len() && done[j] == c;
                        assert(next[j] == c);
                    }
                    if c == revealed@[i as int] {
                        assert(next[i as int] == c);
                    }
                }
                lemma_grown_then(
                    Seq::empty(),
                    s1,
                    actions@,
                    seven_choices_among(s, seat, done),
                    seven_choices(s, seat, revealed@[i as int]),
                    seven_choices_among(s, seat, next),
                );
            }
            i = i + 1;
        }
        proof {
            assert(first_of(revealed@, i as int) =~= revealed@);
            lemma_grown_contains(Seq::empty(), actions@, seven_choices_among(s, seat, revealed@));
        }
        actions
    }

    /// The actions that `seat` may take: every action that `apply` accepts
    /// from it, and no other. None for a seat that is not the one to act, and
    /// none when the game is over.
    pub fn legal_actions(&self, seat: Seat) -> (actions: Vec<Action>)
        requires
            self.shaped(),
        ensures
            forall|a: Action| #[trigger] actions@.contains(a) <==> self@.legal(seat, a),
    {
        proof {
            reveal(GameModel::legal);
        }
        if seat >= 3 {
            return Vec::new();
        }
        match &self.phase {
            Phase::Main => self.legal_main_actions(seat),
            Phase::Countering(counter) => {
                if seat != counter.next_seat {
                    return Vec::new();
                }
                self.legal_counter_actions(seat)
            },
            Phase::ResolvingThree { seat: s, .. } => {
                let mut actions: Vec<Action> = Vec::new();
                if seat != *s {
                    return actions;
                }
                extend_with(&mut actions, &self.scrap, Shape::ThreePick);
                actions
            },
            Phase::ResolvingFour { seat: s, .. } => {
                let mut actions: Vec<Action> = Vec::new();
                if seat != *s {
                    return actions;
                }
                extend_with(&mut actions, &self.players[seat as usize].hand, Shape::FourDiscard);
                actions
            },
            Phase::ResolvingFive { seat: s, discarded, .. } => {
                let mut actions: Vec<Action> = Vec::new();
                if seat != *s || *discarded {
                    return actions;
                }
                extend_with(&mut actions, &self.players[seat as usize].hand, Shape::FiveDiscard);
                actions
            },
            Phase::ResolvingSeven { seat: s, revealed, .. } => {
                if seat != *s {
                    return Vec::new();
                }
                self.legal_seven_actions(seat, revealed)
            },
            Phase::GameOver => Vec::new(),
        }
    }
}

} // verus!
