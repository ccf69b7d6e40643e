//! The rules as mathematics: which states are sound, which actions are legal
//! in a state, and the state that a legal action leads to.

use vstd::prelude::*;
use super::types::{CounterModel, FrozenCard, GameModel, PhaseModel, PlayerModel, Seat, StackModel, Winner};
use super::util::{first_where, occurrences, spec_is_jack, spec_is_joker, spec_is_king, spec_is_plain_royal, spec_is_queen, spec_is_two, spec_next_seat};
use crate::action::{Action, OneOffTarget, SevenPlay};
use crate::card::Card;

verus! {

/// What of a stack an action is aimed at.
#[derive(Clone, Copy, Debug, PartialEq, Eq, Structural)]
pub enum TargetKind {
    Point,
    Royal,
    Jack,
    Joker,
}

impl Action {
    /// The card that the action plays, from the hand or from what a seven
    /// revealed.
    pub open spec fn lead(self) -> Option<Card> {
        match self {
            Action::PlayPoints { card } => Some(card),
            Action::Scuttle { card, .. } => Some(card),
            Action::PlayRoyal { card } => Some(card),
            Action::PlayJack { jack, .. } => Some(jack),
            Action::PlayJoker { joker, .. } => Some(joker),
            Action::PlayOneOff { card, .. } => Some(card),
            Action::CounterTwo { two_card } => Some(two_card),
            Action::ResolveSevenChoose { card, .. } => Some(card),
            _ => None,
        }
    }
}

impl TargetKind {
    /// The target of a one-off that names `card` as a stack's base or rider.
    pub open spec fn target(self, card: Card) -> OneOffTarget {
        match self {
            TargetKind::Point => OneOffTarget::Point { base: card },
            TargetKind::Royal => OneOffTarget::Royal { card },
            TargetKind::Jack => OneOffTarget::Jack { card },
            TargetKind::Joker => OneOffTarget::Joker { card },
        }
    }

    /// Points and jacks are looked for among the point stacks, royals and
    /// jokers among the royal stacks.
    pub open spec fn on_points(self) -> bool {
        self is Point || self is Jack
    }

    /// The card by which a stack is aimed at: its base, or its topmost rider.
    pub open spec fn key(self, st: StackModel) -> Option<Card> {
        match self {
            TargetKind::Point | TargetKind::Royal => Some(st.base),
            TargetKind::Jack | TargetKind::Joker => st.top(),
        }
    }
}

/// The cards of some stacks, stack after stack.
pub open spec fn pile(stacks: Seq<StackModel>) -> Seq<Card>
    decreases stacks.len(),
{
    if stacks.len() == 0 {
        Seq::empty()
    } else {
        pile(stacks.drop_last()) + stacks.last().cards()
    }
}

/// The riders of some stacks, stack after stack.
pub open spec fn riders_pile(stacks: Seq<StackModel>) -> Seq<Card>
    decreases stacks.len(),
{
    if stacks.len() == 0 {
        Seq::empty()
    } else {
        riders_pile(stacks.drop_last()) + stacks.last().rider_cards()
    }
}

/// Frozen entries after the end of their holder's turn: each has one turn
/// less to wait, and those with none left are gone.
pub open spec fn thawed(frozen: Seq<FrozenCard>) -> Seq<FrozenCard> {
    frozen.filter(|f: FrozenCard| f.remaining_turns > 1).map_values(
        |f: FrozenCard| FrozenCard { card: f.card, remaining_turns: (f.remaining_turns - 1) as u8 },
    )
}

pub open spec fn frozen_cards(frozen: Seq<FrozenCard>) -> Seq<Card> {
    frozen.map_values(|f: FrozenCard| f.card)
}

/// Being the card `c`.
pub open spec fn is_card(c: Card) -> spec_fn(Card) -> bool {
    |x: Card| x == c
}

/// Being a frozen entry for the card `c`.
pub open spec fn freezes(c: Card) -> spec_fn(FrozenCard) -> bool {
    |f: FrozenCard| f.card == c
}

/// `s` without its first occurrence of `c`.
pub open spec fn without_first(s: Seq<Card>, c: Card) -> Seq<Card> {
    let i = first_where(s, is_card(c));
    if i < s.len() {
        s.remove(i)
    } else {
        s
    }
}

/// The frozen entries without the first one for `c`.
pub open spec fn unfrozen(frozen: Seq<FrozenCard>, c: Card) -> Seq<FrozenCard> {
    let i = first_where(frozen, freezes(c));
    if i < frozen.len() {
        frozen.remove(i)
    } else {
        frozen
    }
}

/// Taking every rider off a stack.
pub open spec fn stripping() -> spec_fn(StackModel) -> StackModel {
    |st: StackModel| st.stripped()
}

/// Having a base that seat `p` owns.
pub open spec fn owned_by(p: int) -> spec_fn(StackModel) -> bool {
    |st: StackModel| st.base_owner == p
}

/// The card of a two that was played into a counter window.
pub open spec fn two_card() -> spec_fn((Seat, Card)) -> Card {
    |t: (Seat, Card)| t.1
}

pub open spec fn controlled_queen(seat: Seat) -> spec_fn(StackModel) -> bool {
    |st: StackModel| st.controller() == seat && spec_is_queen(st.base)
}

pub open spec fn controlled_king(seat: Seat) -> spec_fn(StackModel) -> bool {
    |st: StackModel| st.controller() == seat && spec_is_king(st.base)
}

pub open spec fn controlled_eight(seat: Seat) -> spec_fn(StackModel) -> bool {
    |st: StackModel| st.controller() == seat && st.base.spec_rank_value() == Some(8u8)
}

/// Queen protection among the given players: whether a stack that `owner`
/// controls may be aimed at.
pub open spec fn unprotected(players: Seq<PlayerModel>, owner: Seat, kind: TargetKind, card: Card)
    -> bool {
    let q = players[owner as int].royals.filter(controlled_queen(owner)).len();
    q == 0 || (q == 1 && kind is Royal && spec_is_queen(card))
}

/// Being a stack that `seat` aims at by naming `card`: one that shows the
/// card, that another seat controls and, where the aim is `guarded`, that
/// queen protection leaves open.
pub open spec fn aim(
    players: Seq<PlayerModel>,
    seat: Seat,
    kind: TargetKind,
    card: Card,
    guarded: bool,
) -> spec_fn(StackModel) -> bool {
    |st: StackModel|
        kind.key(st) == Some(card) && st.controller() != seat && (guarded ==> unprotected(
            players,
            st.controller(),
            kind,
            card,
        ))
}

/// The points that the stacks are worth to `seat`: the values of the bases
/// of those it controls.
pub open spec fn points_in(stacks: Seq<StackModel>, seat: Seat) -> nat
    decreases stacks.len(),
{
    if stacks.len() == 0 {
        0
    } else {
        points_in(stacks.drop_last(), seat) + if stacks.last().controller() == seat {
            stacks.last().base.spec_point_value() as nat
        } else {
            0nat
        }
    }
}

/// The points a seat needs to win with the given number of kings.
pub open spec fn threshold(kings: nat) -> nat {
    if kings == 0 {
        14
    } else if kings == 1 {
        9
    } else if kings == 2 {
        5
    } else {
        0
    }
}

impl PhaseModel {
    /// The seat that may act in this phase.
    pub open spec fn actor(self, turn: Seat) -> Option<Seat> {
        match self {
            PhaseModel::Main => Some(turn),
            PhaseModel::Countering(c) => Some(c.next_seat),
            PhaseModel::ResolvingThree { seat, .. } => Some(seat),
            PhaseModel::ResolvingFour { seat, .. } => Some(seat),
            PhaseModel::ResolvingFive { seat, .. } => Some(seat),
            PhaseModel::ResolvingSeven { seat, .. } => Some(seat),
            PhaseModel::GameOver => None,
        }
    }

    /// The cards that are in play but lie nowhere on the table: a one-off
    /// that waits for its counter window to close, the twos played against
    /// it, the cards that a seven has revealed.
    pub open spec fn cards(self) -> Seq<Card> {
        match self {
            PhaseModel::Countering(c) => c.twos.map_values(two_card()) + (match c.oneoff {
                Action::PlayOneOff { card, .. } => seq![card],
                _ => Seq::empty(),
            }),
            PhaseModel::ResolvingSeven { revealed, .. } => revealed,
            _ => Seq::empty(),
        }
    }

    pub open spec fn is_resolving(self) -> bool {
        self is ResolvingThree || self is ResolvingFour || self is ResolvingFive
            || self is ResolvingSeven
    }

    /// Every seat named in the phase is a seat of the table, and an open
    /// counter window holds a one-off.
    pub open spec fn seats_ok(self) -> bool {
        match self {
            PhaseModel::Main => true,
            PhaseModel::Countering(c) => {
                &&& c.base_player < 3
                &&& c.next_seat < 3
                &&& c.rotation_anchor < 3
                &&& c.oneoff is PlayOneOff
                &&& (c.oneoff->PlayOneOff_target matches OneOffTarget::Player { seat } ==> seat < 3)
            },
            PhaseModel::ResolvingThree { seat, base_player } => seat < 3 && base_player < 3,
            PhaseModel::ResolvingFour { seat, base_player, .. } => seat < 3 && base_player < 3,
            PhaseModel::ResolvingFive { seat, base_player, .. } => seat < 3 && base_player < 3,
            PhaseModel::ResolvingSeven { seat, base_player, .. } => seat < 3 && base_player < 3,
            PhaseModel::GameOver => true,
        }
    }
}

impl PlayerModel {
    pub open spec fn seats_ok(self) -> bool {
        &&& forall|i: int| 0 <= i < self.points.len() ==> (#[trigger] self.points[i]).seats_ok()
        &&& forall|i: int| 0 <= i < self.royals.len() ==> (#[trigger] self.royals[i]).seats_ok()
    }

    /// Every stack that lies with `seat` is controlled by it.
    pub open spec fn controls_all(self, seat: Seat) -> bool {
        &&& forall|i: int|
            0 <= i < self.points.len() ==> (#[trigger] self.points[i]).controller() == seat
        &&& forall|i: int|
            0 <= i < self.royals.len() ==> (#[trigger] self.royals[i]).controller() == seat
    }

    /// A card of the hand can be played while the hand holds more copies of
    /// it than the frozen list has entries for it.
    pub open spec fn available(self, c: Card) -> bool {
        occurrences(self.hand, c) > occurrences(frozen_cards(self.frozen), c)
    }
}

impl GameModel {
    // ------------------------------------------------------------------
    // Sound states
    // ------------------------------------------------------------------
    /// A pass streak that began with seat `a` and is `n` passes long has
    /// brought the turn to the seat `n` places after `a`. Only a streak of
    /// four ends a game.
    pub open spec fn streak_ok(self) -> bool {
        match self.pass_streak_start {
            None => self.pass_streak_len == 0,
            Some(a) => {
                &&& a < 3
                &&& 1 <= self.pass_streak_len <= 4
                &&& (self.phase is Main || self.phase is GameOver)
                &&& (self.phase is Main ==> self.pass_streak_len <= 3 && self.turn as int == (a
                    + self.pass_streak_len) % 3)
            },
        }
    }

    /// Three players, and every stack names seats of the table only.
    pub open spec fn table_ok(self) -> bool {
        &&& self.players.len() == 3
        &&& forall|p: int| 0 <= p < 3 ==> (#[trigger] self.players[p]).seats_ok()
    }

    /// What every function of the engine asks of a state: three players,
    /// seats that exist wherever a seat is named, and a pass streak that
    /// agrees with the turn.
    pub open spec fn shaped(self) -> bool {
        &&& self.table_ok()
        &&& self.turn < 3
        &&& self.phase.seats_ok()
        &&& self.streak_ok()
    }

    /// There is a winner exactly when the game is over.
    pub open spec fn winner_ok(self) -> bool {
        self.winner.is_some() <==> self.phase is GameOver
    }

    /// The invariants of a game that has been played by the rules.
    pub open spec fn wf(self) -> bool {
        &&& self.shaped()
        &&& self.winner_ok()
        &&& self.tidy()
        &&& self.phase_in_order()
        &&& self.settled()
    }

    /// The state after the actions, each taken by its seat from the state
    /// before it, if each is legal there.
    pub open spec fn run(self, actions: Seq<(Seat, Action)>) -> Option<GameModel>
        decreases actions.len(),
    {
        if actions.len() == 0 {
            Some(self)
        } else if self.legal(actions[0].0, actions[0].1) {
            self.step(actions[0].0, actions[0].1).run(actions.drop_first())
        } else {
            None
        }
    }

    // ------------------------------------------------------------------
    // Reading a state
    // ------------------------------------------------------------------
    pub open spec fn stacks(self, seat: int, on_points: bool) -> Seq<StackModel> {
        if on_points {
            self.players[seat].points
        } else {
            self.players[seat].royals
        }
    }

    /// The number of queens that a seat controls.
    pub open spec fn queens(self, seat: Seat) -> nat {
        self.players[seat as int].royals.filter(controlled_queen(seat)).len()
    }

    /// The number of kings that a seat controls.
    pub open spec fn kings(self, seat: Seat) -> nat {
        self.players[seat as int].royals.filter(controlled_king(seat)).len()
    }

    /// Whether a seat controls an eight among its royals, and so sees every
    /// hand.
    pub open spec fn has_glasses(self, seat: Seat) -> bool {
        self.players[seat as int].royals.filter(controlled_eight(seat)).len() > 0
    }

    pub open spec fn points(self, seat: Seat) -> nat {
        points_in(self.players[seat as int].points, seat)
    }

    pub open spec fn has_won(self, seat: Seat) -> bool {
        self.points(seat) >= threshold(self.kings(seat))
    }

    /// Queen protection. A seat with no queen can be aimed at freely; a seat
    /// with one queen only at that queen; a seat with two or more not at all.
    pub open spec fn can_target(self, owner: Seat, kind: TargetKind, card: Card) -> bool {
        unprotected(self.players, owner, kind, card)
    }

    /// The stacks that `seat` can aim at with `card` named as the target: those
    /// of another seat that show the card, and, where the aim is `guarded`,
    /// that queen protection leaves open.
    pub open spec fn aims_at(self, seat: Seat, kind: TargetKind, card: Card, guarded: bool)
        -> spec_fn(StackModel) -> bool {
        aim(self.players, seat, kind, card, guarded)
    }

    /// Where the stack lies that the aim finds: the first such stack of the
    /// first seat that holds one.
    pub open spec fn find_target(self, seat: Seat, kind: TargetKind, card: Card, guarded: bool)
        -> Option<(Seat, int)> {
        let f = self.aims_at(seat, kind, card, guarded);
        let p = kind.on_points();
        if first_where(self.stacks(0, p), f) < self.stacks(0, p).len() {
            Some((0u8, first_where(self.stacks(0, p), f)))
        } else if first_where(self.stacks(1, p), f) < self.stacks(1, p).len() {
            Some((1u8, first_where(self.stacks(1, p), f)))
        } else if first_where(self.stacks(2, p), f) < self.stacks(2, p).len() {
            Some((2u8, first_where(self.stacks(2, p), f)))
        } else {
            None
        }
    }

    pub open spec fn has_target(self, seat: Seat, kind: TargetKind, card: Card, guarded: bool)
        -> bool {
        self.find_target(seat, kind, card, guarded).is_some()
    }

    pub open spec fn available(self, seat: Seat, c: Card) -> bool {
        self.players[seat as int].available(c)
    }

    // ------------------------------------------------------------------
    // Legal actions
    // ------------------------------------------------------------------
    /// Whether a one-off card may be played by `seat` at the given target.
    pub open spec fn oneoff_ok(self, seat: Seat, card: Card, target: OneOffTarget) -> bool {
        match card.spec_rank_value() {
            Some(v) => if v == 1 || v == 3 || v == 5 || v == 6 || v == 7 {
                target is NoTarget
            } else if v == 2 {
                match target {
                    OneOffTarget::Royal { card: c } => self.has_target(
                        seat,
                        TargetKind::Royal,
                        c,
                        true,
                    ),
                    OneOffTarget::Jack { card: c } => self.has_target(
                        seat,
                        TargetKind::Jack,
                        c,
                        true,
                    ),
                    OneOffTarget::Joker { card: c } => self.has_target(
                        seat,
                        TargetKind::Joker,
                        c,
                        true,
                    ),
                    _ => false,
                }
            } else if v == 4 {
                match target {
                    OneOffTarget::Player { seat: t } => t < 3 && t != seat,
                    _ => false,
                }
            } else if v == 9 {
                match target {
                    OneOffTarget::Point { base } => self.has_target(
                        seat,
                        TargetKind::Point,
                        base,
                        true,
                    ),
                    OneOffTarget::Royal { card: c } => self.has_target(
                        seat,
                        TargetKind::Royal,
                        c,
                        true,
                    ),
                    OneOffTarget::Jack { card: c } => self.has_target(
                        seat,
                        TargetKind::Jack,
                        c,
                        true,
                    ),
                    OneOffTarget::Joker { card: c } => self.has_target(
                        seat,
                        TargetKind::Joker,
                        c,
                        true,
                    ),
                    _ => false,
                }
            } else {
                false
            },
            None => false,
        }
    }

    /// Whether a joker may be put on the stack that `target` names: a royal
    /// stack by its base, or a point stack by the jack on top of it.
    pub open spec fn joker_lands(self, seat: Seat, target: Card) -> bool {
        self.has_target(seat, TargetKind::Royal, target, true) || self.has_target(
            seat,
            TargetKind::Jack,
            target,
            true,
        )
    }

    /// Whether a card may be played from the hand as the action says, its
    /// being at hand and free to play aside.
    pub open spec fn card_play_ok(self, seat: Seat, a: Action) -> bool {
        match a {
            Action::PlayPoints { card } => card.spec_is_number(),
            Action::Scuttle { card, target_point_base } => {
                &&& card.spec_is_number()
                &&& card.spec_scuttle_beats(target_point_base)
                &&& self.has_target(seat, TargetKind::Point, target_point_base, false)
            },
            Action::PlayRoyal { card } => spec_is_plain_royal(card),
            Action::PlayJack { jack, target_point_base } => {
                &&& spec_is_jack(jack)
                &&& self.has_target(seat, TargetKind::Point, target_point_base, true)
            },
            Action::PlayJoker { joker, target_royal_card } => {
                &&& spec_is_joker(joker)
                &&& self.joker_lands(seat, target_royal_card)
            },
            Action::PlayOneOff { card, target } => self.oneoff_ok(seat, card, target),
            _ => false,
        }
    }

    /// Whether `seat`, at its turn in the main phase, may take the action.
    pub open spec fn legal_main(self, seat: Seat, a: Action) -> bool {
        match a {
            Action::Draw => self.deck.len() > 0 && self.players[seat as int].hand.len() < 7,
            Action::Pass => self.deck.len() == 0,
            _ => match a.lead() {
                Some(card) => self.available(seat, card) && self.card_play_ok(seat, a),
                None => false,
            },
        }
    }

    /// Whether a card that a seven revealed may be played in the given way,
    /// discarding aside.
    pub open spec fn seven_play_ok(self, seat: Seat, card: Card, play: SevenPlay) -> bool {
        match play {
            SevenPlay::Points => card.spec_is_number(),
            SevenPlay::Scuttle { target } => {
                &&& card.spec_is_number()
                &&& card.spec_scuttle_beats(target)
                &&& self.has_target(seat, TargetKind::Point, target, false)
            },
            SevenPlay::Royal => spec_is_plain_royal(card),
            SevenPlay::Jack { target } => spec_is_jack(card) && self.has_target(
                seat,
                TargetKind::Point,
                target,
                true,
            ),
            SevenPlay::Joker { target } => spec_is_joker(card) && self.joker_lands(seat, target),
            SevenPlay::OneOff { target } => self.oneoff_ok(seat, card, target),
            SevenPlay::Discard => false,
        }
    }

    /// A revealed card may be discarded only where it cannot be played.
    pub open spec fn legal_seven(self, seat: Seat, card: Card, play: SevenPlay) -> bool {
        if play is Discard {
            forall|p: SevenPlay| !self.seven_play_ok(seat, card, p)
        } else {
            self.seven_play_ok(seat, card, play)
        }
    }

    /// Whether `seat` may take the action in this state.
    #[verifier::opaque]
    pub open spec fn legal(self, seat: Seat, a: Action) -> bool {
        &&& self.phase.actor(self.turn) == Some(seat)
        &&& match self.phase {
            PhaseModel::Main => self.legal_main(seat, a),
            PhaseModel::Countering(_) => match a {
                Action::CounterPass => true,
                Action::CounterTwo { two_card } => spec_is_two(two_card) && self.available(
                    seat,
                    two_card,
                ),
                _ => false,
            },
            PhaseModel::ResolvingThree { .. } => match a {
                Action::ResolveThreePick { card_from_scrap } => self.scrap.contains(
                    card_from_scrap,
                ),
                _ => false,
            },
            PhaseModel::ResolvingFour { .. } => match a {
                Action::ResolveFourDiscard { card } => self.players[seat as int].hand.contains(
                    card,
                ),
                _ => false,
            },
            PhaseModel::ResolvingFive { discarded, .. } => match a {
                Action::ResolveFiveDiscard { card } => !discarded
                    && self.players[seat as int].hand.contains(card),
                _ => false,
            },
            PhaseModel::ResolvingSeven { revealed, .. } => match a {
                Action::ResolveSevenChoose { card, play } => revealed.contains(card)
                    && self.legal_seven(seat, card, play),
                _ => false,
            },
            PhaseModel::GameOver => false,
        }
    }

    // ------------------------------------------------------------------
    // Moving cards
    // ------------------------------------------------------------------
    pub open spec fn with_player(self, seat: Seat, p: PlayerModel) -> GameModel {
        GameModel { players: self.players.update(seat as int, p), ..self }
    }

    pub open spec fn with_phase(self, phase: PhaseModel) -> GameModel {
        GameModel { phase, ..self }
    }

    /// The card joins the hand of `seat`.
    pub open spec fn gain(self, seat: Seat, card: Card) -> GameModel {
        let p = self.players[seat as int];
        self.with_player(seat, PlayerModel { hand: p.hand.push(card), ..p })
    }

    /// The card leaves the hand of `seat`, and with it the first frozen entry
    /// for it, if there is one.
    pub open spec fn lose(self, seat: Seat, card: Card) -> GameModel {
        let p = self.players[seat as int];
        self.with_player(
            seat,
            PlayerModel {
                hand: without_first(p.hand, card),
                frozen: unfrozen(p.frozen, card),
                ..p
            },
        )
    }

    /// The card, in the hand of `seat`, may not be played for one turn.
    pub open spec fn freeze(self, seat: Seat, card: Card) -> GameModel {
        let p = self.players[seat as int];
        self.with_player(
            seat,
            PlayerModel {
                frozen: p.frozen.push(FrozenCard { card, remaining_turns: 1 }),
                ..p
            },
        )
    }

    pub open spec fn scrapping(self, cards: Seq<Card>) -> GameModel {
        GameModel { scrap: self.scrap + cards, ..self }
    }

    /// The stack at the given place.
    pub open spec fn stack_at(self, at: (Seat, int), on_points: bool) -> StackModel {
        self.stacks(at.0 as int, on_points)[at.1]
    }

    /// The state without the stack at the given place.
    pub open spec fn take_stack(self, at: (Seat, int), on_points: bool) -> GameModel {
        let p = self.players[at.0 as int];
        if on_points {
            self.with_player(at.0, PlayerModel { points: p.points.remove(at.1), ..p })
        } else {
            self.with_player(at.0, PlayerModel { royals: p.royals.remove(at.1), ..p })
        }
    }

    /// The stack joins those that lie with `seat`, as the last of them.
    pub open spec fn put_stack(self, seat: Seat, on_points: bool, st: StackModel) -> GameModel {
        let p = self.players[seat as int];
        if on_points {
            self.with_player(seat, PlayerModel { points: p.points.push(st), ..p })
        } else {
            self.with_player(seat, PlayerModel { royals: p.royals.push(st), ..p })
        }
    }

    /// `seat` draws from the top of the deck until it has drawn `n` cards,
    /// the deck is empty or its hand is full.
    pub open spec fn draw_up_to(self, seat: Seat, n: nat) -> GameModel
        decreases n,
    {
        if n == 0 || self.deck.len() == 0 || self.players[seat as int].hand.len() >= 7 {
            self
        } else {
            GameModel { deck: self.deck.drop_first(), ..self }.gain(seat, self.deck[0]).draw_up_to(
                seat,
                (n - 1) as nat,
            )
        }
    }

    pub open spec fn no_pass_streak(self) -> GameModel {
        GameModel { pass_streak_start: None, pass_streak_len: 0, ..self }
    }

    /// The turn of `seat` ends: its frozen cards thaw by one turn, and the
    /// next seat is to play.
    pub open spec fn end_turn(self, seat: Seat) -> GameModel {
        let p = self.players[seat as int];
        GameModel { turn: spec_next_seat(seat), ..self }.with_player(
            seat,
            PlayerModel { frozen: thawed(p.frozen), ..p },
        )
    }

    /// The main phase again, and the turn of `seat` over.
    pub open spec fn back_to_main(self, seat: Seat) -> GameModel {
        self.with_phase(PhaseModel::Main).end_turn(seat)
    }

    // ------------------------------------------------------------------
    // What the cards do
    // ------------------------------------------------------------------
    /// The stack that `seat` aims at leaves the table for the scrap, the
    /// attacking card before it.
    pub open spec fn scuttle(self, seat: Seat, card: Card, target: Card) -> GameModel {
        let at = self.find_target(seat, TargetKind::Point, target, false).unwrap();
        let st = self.stack_at(at, true);
        self.take_stack(at, true).scrapping(seq![card] + st.cards())
    }

    /// `seat` puts `card` on the stack at the given place and takes the stack.
    pub open spec fn seize(self, seat: Seat, card: Card, at: (Seat, int), on_points: bool)
        -> GameModel {
        let st = self.stack_at(at, on_points);
        self.take_stack(at, on_points).put_stack(seat, on_points, st.ridden_by(card, seat))
    }

    pub open spec fn jack_onto(self, seat: Seat, jack: Card, target: Card) -> GameModel {
        self.seize(
            seat,
            jack,
            self.find_target(seat, TargetKind::Point, target, true).unwrap(),
            true,
        )
    }

    /// A joker goes onto the royal stack with the named base, or else onto
    /// the point stack with the named jack on top.
    pub open spec fn joker_onto(self, seat: Seat, joker: Card, target: Card) -> GameModel {
        match self.find_target(seat, TargetKind::Royal, target, true) {
            Some(at) => self.seize(seat, joker, at, false),
            None => self.seize(
                seat,
                joker,
                self.find_target(seat, TargetKind::Jack, target, true).unwrap(),
                true,
            ),
        }
    }

    pub open spec fn new_stack(self, seat: Seat, on_points: bool, card: Card) -> GameModel {
        self.put_stack(seat, on_points, StackModel::single(card, seat))
    }

    /// Every point stack goes to the scrap, seat after seat.
    pub open spec fn scrap_all_points(self) -> GameModel {
        let cards = pile(self.players[0].points) + pile(self.players[1].points) + pile(
            self.players[2].points,
        );
        GameModel {
            players: self.players.map_values(
                |p: PlayerModel| PlayerModel { points: Seq::empty(), ..p },
            ),
            ..self
        }.scrapping(cards)
    }

    /// Every point stack of the table, seat after seat.
    pub open spec fn all_points(self) -> Seq<StackModel> {
        self.players[0].points + self.players[1].points + self.players[2].points
    }

    /// Every royal stack goes to the scrap, seat after seat, and after them
    /// every jack that rides on a point stack. The point stacks, bare again,
    /// lie with the owners of their bases.
    pub open spec fn scrap_all_royals(self) -> GameModel {
        let royals = pile(self.players[0].royals) + pile(self.players[1].royals) + pile(
            self.players[2].royals,
        );
        let all = self.all_points();
        let bare = all.map_values(stripping());
        GameModel {
            players: Seq::new(
                3,
                |p: int|
                    PlayerModel {
                        points: bare.filter(owned_by(p)),
                        royals: Seq::empty(),
                        ..self.players[p]
                    },
            ),
            ..self
        }.scrapping(royals + riders_pile(all))
    }

    /// The topmost rider of the stack at `at` leaves it, and the stack goes
    /// to the seat that controls what is left.
    pub open spec fn unseat_top(self, at: (Seat, int), on_points: bool) -> GameModel {
        let st = self.stack_at(at, on_points).without_top();
        self.take_stack(at, on_points).put_stack(st.controller(), on_points, st)
    }

    /// A two takes a royal stack, or the topmost jack or joker of a stack,
    /// to the scrap. Where the aim finds nothing, nothing happens.
    pub open spec fn resolve_two(self, seat: Seat, target: OneOffTarget) -> GameModel {
        match target {
            OneOffTarget::Royal { card } => match self.find_target(
                seat,
                TargetKind::Royal,
                card,
                true,
            ) {
                Some(at) => self.take_stack(at, false).scrapping(self.stack_at(at, false).cards()),
                None => self,
            },
            OneOffTarget::Jack { card } => match self.find_target(
                seat,
                TargetKind::Jack,
                card,
                true,
            ) {
                Some(at) => self.unseat_top(at, true).scrapping(seq![card]),
                None => self,
            },
            OneOffTarget::Joker { card } => match self.find_target(
                seat,
                TargetKind::Joker,
                card,
                true,
            ) {
                Some(at) => self.unseat_top(at, false).scrapping(seq![card]),
                None => self,
            },
            _ => self,
        }
    }

    /// The base of the stack at `at` returns to the hand of the seat that
    /// controls the stack and is frozen there; what rode on it is scrapped.
    pub open spec fn bounce_stack(self, at: (Seat, int), on_points: bool) -> GameModel {
        let st = self.stack_at(at, on_points);
        self.take_stack(at, on_points).gain(st.controller(), st.base).freeze(
            st.controller(),
            st.base,
        ).scrapping(st.rider_cards())
    }

    /// The topmost rider of the stack at `at` returns to the hand of the seat
    /// that played it and is frozen there; the stack goes to the seat that
    /// controls what is left.
    pub open spec fn bounce_top(self, at: (Seat, int), on_points: bool) -> GameModel {
        let top = self.stack_at(at, on_points).riders.last();
        self.unseat_top(at, on_points).gain(top.owner, top.card).freeze(top.owner, top.card)
    }

    /// A nine returns a stack's base, or the topmost jack or joker of a
    /// stack, to a hand. Where the aim finds nothing, nothing happens.
    pub open spec fn resolve_nine(self, seat: Seat, target: OneOffTarget) -> GameModel {
        match target {
            OneOffTarget::Point { base } => match self.find_target(
                seat,
                TargetKind::Point,
                base,
                true,
            ) {
                Some(at) => self.bounce_stack(at, true),
                None => self,
            },
            OneOffTarget::Royal { card } => match self.find_target(
                seat,
                TargetKind::Royal,
                card,
                true,
            ) {
                Some(at) => self.bounce_stack(at, false),
                None => self,
            },
            OneOffTarget::Jack { card } => match self.find_target(
                seat,
                TargetKind::Jack,
                card,
                true,
            ) {
                Some(at) => self.bounce_top(at, true),
                None => self,
            },
            OneOffTarget::Joker { card } => match self.find_target(
                seat,
                TargetKind::Joker,
                card,
                true,
            ) {
                Some(at) => self.bounce_top(at, false),
                None => self,
            },
            _ => self,
        }
    }

    /// The top two cards of the deck, or the one that is left, are revealed.
    pub open spec fn reveal_top_two(self, seat: Seat) -> GameModel {
        let n = if self.deck.len() < 2 {
            self.deck.len() as int
        } else {
            2
        };
        if n == 0 {
            self
        } else {
            GameModel {
                deck: self.deck.skip(n),
                phase: PhaseModel::ResolvingSeven {
                    seat,
                    base_player: seat,
                    revealed: self.deck.take(n),
                },
                ..self
            }
        }
    }

    /// What a one-off does when it resolves, its card already in the scrap.
    pub open spec fn resolve_oneoff(self, seat: Seat, card: Card, target: OneOffTarget)
        -> GameModel {
        match card.spec_rank_value() {
            Some(v) => if v == 1 {
                self.scrap_all_points()
            } else if v == 2 {
                self.resolve_two(seat, target)
            } else if v == 3 {
                if self.scrap.len() > 1 {
                    self.with_phase(PhaseModel::ResolvingThree { seat, base_player: seat })
                } else {
                    self
                }
            } else if v == 4 {
                match target {
                    OneOffTarget::Player { seat: t } => if self.players[t as int].hand.len() > 0 {
                        self.with_phase(
                            PhaseModel::ResolvingFour { seat: t, base_player: seat, remaining: 2 },
                        )
                    } else {
                        self
                    },
                    _ => self,
                }
            } else if v == 5 {
                if self.players[seat as int].hand.len() == 0 {
                    self.draw_up_to(seat, 3)
                } else {
                    self.with_phase(
                        PhaseModel::ResolvingFive { seat, base_player: seat, discarded: false },
                    )
                }
            } else if v == 6 {
                self.scrap_all_royals()
            } else if v == 7 {
                self.reveal_top_two(seat)
            } else if v == 9 {
                self.resolve_nine(seat, target)
            } else {
                self
            },
            None => self,
        }
    }

    /// A one-off is played: a counter window opens, and the next seat is the
    /// first to speak.
    pub open spec fn open_window(self, seat: Seat, card: Card, target: OneOffTarget) -> GameModel {
        self.with_phase(
            PhaseModel::Countering(
                CounterModel {
                    base_player: seat,
                    oneoff: Action::PlayOneOff { card, target },
                    twos: Seq::empty(),
                    next_seat: spec_next_seat(seat),
                    rotation_anchor: seat,
                },
            ),
        )
    }

    /// The counter window closes. The twos and the one-off go to the scrap;
    /// the one-off resolves if the number of twos is even. Unless it asks
    /// for a decision, the turn of the seat that played it ends.
    pub open spec fn close_window(self, c: CounterModel) -> GameModel {
        let s1 = self.with_phase(PhaseModel::Main).scrapping(c.twos.map_values(two_card()));
        match c.oneoff {
            Action::PlayOneOff { card, target } => {
                let s2 = s1.scrapping(seq![card]);
                let s3 = if c.twos.len() % 2 == 0 {
                    s2.resolve_oneoff(c.base_player, card, target)
                } else {
                    s2
                };
                if s3.phase.is_resolving() {
                    s3
                } else {
                    s3.end_turn(c.base_player)
                }
            },
            _ => s1.end_turn(c.base_player),
        }
    }

    /// One more pass in a row.
    pub open spec fn one_more_pass(self, seat: Seat) -> GameModel {
        if self.pass_streak_len == 0 {
            GameModel { pass_streak_start: Some(seat), pass_streak_len: 1, ..self }
        } else {
            GameModel { pass_streak_len: (self.pass_streak_len + 1) as u8, ..self }
        }
    }

    /// Every seat has passed in turn, and the seat that began is at a loss
    /// again.
    pub open spec fn is_stalemate(self, seat: Seat) -> bool {
        self.pass_streak_start == Some(seat) && self.pass_streak_len > 3
    }

    pub open spec fn step_main(self, seat: Seat, a: Action) -> GameModel {
        match a {
            Action::Draw => GameModel { deck: self.deck.drop_first(), ..self }.gain(
                seat,
                self.deck[0],
            ).no_pass_streak().end_turn(seat),
            Action::Pass => {
                let s1 = self.one_more_pass(seat);
                if s1.is_stalemate(seat) {
                    GameModel { winner: Some(Winner::Draw), phase: PhaseModel::GameOver, ..s1 }
                } else {
                    s1.end_turn(seat)
                }
            },
            Action::PlayPoints { card } => self.lose(seat, card).new_stack(
                seat,
                true,
                card,
            ).no_pass_streak().end_turn(seat),
            Action::Scuttle { card, target_point_base } => self.scuttle(
                seat,
                card,
                target_point_base,
            ).lose(seat, card).no_pass_streak().end_turn(seat),
            Action::PlayRoyal { card } => self.lose(seat, card).new_stack(
                seat,
                false,
                card,
            ).no_pass_streak().end_turn(seat),
            Action::PlayJack { jack, target_point_base } => self.jack_onto(
                seat,
                jack,
                target_point_base,
            ).lose(seat, jack).no_pass_streak().end_turn(seat),
            Action::PlayJoker { joker, target_royal_card } => self.joker_onto(
                seat,
                joker,
                target_royal_card,
            ).lose(seat, joker).no_pass_streak().end_turn(seat),
            Action::PlayOneOff { card, target } => self.lose(seat, card).no_pass_streak().open_window(
                seat,
                card,
                target,
            ),
            _ => self,
        }
    }

    pub open spec fn step_counter(self, seat: Seat, a: Action) -> GameModel {
        match self.phase {
            PhaseModel::Countering(c) => match a {
                Action::CounterTwo { two_card } => self.lose(seat, two_card).with_phase(
                    PhaseModel::Countering(
                        CounterModel {
                            twos: c.twos.push((seat, two_card)),
                            rotation_anchor: seat,
                            next_seat: spec_next_seat(c.next_seat),
                            ..c
                        },
                    ),
                ),
                Action::CounterPass => {
                    let next = spec_next_seat(c.next_seat);
                    if next == c.rotation_anchor {
                        self.close_window(c)
                    } else {
                        self.with_phase(
                            PhaseModel::Countering(CounterModel { next_seat: next, ..c }),
                        )
                    }
                },
                _ => self,
            },
            _ => self,
        }
    }

    /// A card that a seven revealed is played in the chosen way. Unless it
    /// opens a counter window, the turn of the seat that played the seven
    /// ends.
    pub open spec fn play_revealed(self, seat: Seat, card: Card, play: SevenPlay, base_player: Seat)
        -> GameModel {
        match play {
            SevenPlay::Discard => self.scrapping(seq![card]).end_turn(base_player),
            SevenPlay::Points => self.new_stack(seat, true, card).end_turn(base_player),
            SevenPlay::Scuttle { target } => self.scuttle(seat, card, target).end_turn(base_player),
            SevenPlay::Royal => self.new_stack(seat, false, card).end_turn(base_player),
            SevenPlay::Jack { target } => self.jack_onto(seat, card, target).end_turn(base_player),
            SevenPlay::Joker { target } => self.joker_onto(seat, card, target).end_turn(
                base_player,
            ),
            SevenPlay::OneOff { target } => self.open_window(seat, card, target),
        }
    }

    /// The card revealed by a seven that was chosen is played; what else was
    /// revealed goes back on top of the deck.
    pub open spec fn step_seven(self, seat: Seat, card: Card, play: SevenPlay) -> GameModel {
        match self.phase {
            PhaseModel::ResolvingSeven { base_player, revealed, .. } => (GameModel {
                deck: without_first(revealed, card) + self.deck,
                phase: PhaseModel::Main,
                ..self
            }).play_revealed(seat, card, play, base_player),
            _ => self,
        }
    }

    /// The state after a legal action, before the winner is looked for.
    pub open spec fn advance(self, seat: Seat, a: Action) -> GameModel {
        match self.phase {
            PhaseModel::Main => self.step_main(seat, a),
            PhaseModel::Countering(_) => self.step_counter(seat, a),
            PhaseModel::ResolvingThree { base_player, .. } => match a {
                Action::ResolveThreePick { card_from_scrap } => GameModel {
                    scrap: without_first(self.scrap, card_from_scrap),
                    ..self
                }.gain(seat, card_from_scrap).back_to_main(base_player),
                _ => self,
            },
            PhaseModel::ResolvingFour { base_player, remaining, .. } => match a {
                Action::ResolveFourDiscard { card } => {
                    let s1 = self.lose(seat, card).scrapping(seq![card]);
                    if remaining <= 1 || s1.players[seat as int].hand.len() == 0 {
                        s1.back_to_main(base_player)
                    } else {
                        s1.with_phase(
                            PhaseModel::ResolvingFour {
                                seat,
                                base_player,
                                remaining: (remaining - 1) as u8,
                            },
                        )
                    }
                },
                _ => self,
            },
            PhaseModel::ResolvingFive { base_player, .. } => match a {
                Action::ResolveFiveDiscard { card } => self.lose(seat, card).scrapping(
                    seq![card],
                ).draw_up_to(seat, 3).back_to_main(base_player),
                _ => self,
            },
            PhaseModel::ResolvingSeven { .. } => match a {
                Action::ResolveSevenChoose { card, play } => self.step_seven(seat, card, play),
                _ => self,
            },
            PhaseModel::GameOver => self,
        }
    }

    /// The winner that the state shows: the one it already has when the game
    /// is over, else the first seat whose points reach its threshold.
    pub open spec fn winner_now(self) -> Option<Winner> {
        if self.phase is GameOver {
            self.winner
        } else if self.has_won(0) {
            Some(Winner::Seat(0))
        } else if self.has_won(1) {
            Some(Winner::Seat(1))
        } else if self.has_won(2) {
            Some(Winner::Seat(2))
        } else {
            None
        }
    }

    /// The game ends as soon as a state shows a winner.
    pub open spec fn settle(self) -> GameModel {
        match self.winner_now() {
            Some(w) => GameModel { winner: Some(w), phase: PhaseModel::GameOver, ..self },
            None => self,
        }
    }

    /// The state that a legal action leads to.
    #[verifier::opaque]
    pub open spec fn step(self, seat: Seat, a: Action) -> GameModel {
        self.advance(seat, a).settle()
    }

    /// Where the deal puts the cards: five to each seat, one at a time,
    /// beginning with the seat after the dealer, who is the first to play.
    pub open spec fn initial(dealer: Seat, deck: Seq<Card>) -> GameModel {
        let first = spec_next_seat(dealer);
        GameModel {
            dealer,
            turn: first,
            phase: PhaseModel::Main,
            deck: deck.skip(15),
            scrap: Seq::empty(),
            players: Seq::new(3, |p: int| super::engine::dealt(deck, first, p, 5)),
            pass_streak_start: None,
            pass_streak_len: 0,
            winner: None,
        }
    }
}

} // verus!
