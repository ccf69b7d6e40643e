//! The data of a game in progress, and the mathematical model of it that the
//! rules are stated over.

use vstd::prelude::*;
use vstd::string::*;
use crate::action::Action;
use crate::card::Card;

verus! {

/// A seat at the table: 0, 1 or 2.
pub type Seat = u8;

pub const PLAYER_COUNT: u8 = 3;

pub const HAND_LIMIT: usize = 7;

#[derive(Clone, Copy, Debug, PartialEq, Eq, Structural)]
pub enum Winner {
    Seat(Seat),
    Draw,
}

#[derive(Clone, Debug, PartialEq, Eq)]
pub enum Phase {
    Main,
    Countering(CounterState),
    ResolvingThree { seat: Seat, base_player: Seat },
    ResolvingFour { seat: Seat, base_player: Seat, remaining: u8 },
    ResolvingFive { seat: Seat, base_player: Seat, discarded: bool },
    ResolvingSeven { seat: Seat, base_player: Seat, revealed: Vec<Card> },
    GameOver,
}

/// The counter window that is open while a one-off waits to resolve.
#[derive(Clone, Debug, PartialEq, Eq)]
pub struct CounterState {
    pub base_player: Seat,
    pub oneoff: Action,
    pub twos: Vec<(Seat, Card)>,
    pub next_seat: Seat,
    pub rotation_anchor: Seat,
}

/// A card in a hand that its holder may not play yet.
#[derive(Clone, Copy, Debug, PartialEq, Eq, Structural)]
pub struct FrozenCard {
    pub card: Card,
    pub remaining_turns: u8,
}

#[derive(Clone, Copy, Debug, PartialEq, Eq, Structural)]
pub struct JackOnStack {
    pub card: Card,
    pub owner: Seat,
}

#[derive(Clone, Copy, Debug, PartialEq, Eq, Structural)]
pub struct JokerOnStack {
    pub card: Card,
    pub owner: Seat,
}

#[derive(Clone, Debug, PartialEq, Eq)]
pub struct PointStack {
    pub base: Card,
    pub base_owner: Seat,
    pub jacks: Vec<JackOnStack>,
}

#[derive(Clone, Debug, PartialEq, Eq)]
pub struct RoyalStack {
    pub base: Card,
    pub base_owner: Seat,
    pub jokers: Vec<JokerOnStack>,
}

#[derive(Clone, Debug, PartialEq, Eq)]
pub struct PlayerState {
    pub hand: Vec<Card>,
    pub points: Vec<PointStack>,
    pub royals: Vec<RoyalStack>,
    pub frozen: Vec<FrozenCard>,
}

#[derive(Clone, Debug, PartialEq, Eq)]
pub struct CutthroatState {
    pub dealer: Seat,
    pub turn: Seat,
    pub phase: Phase,
    pub deck: Vec<Card>,
    pub scrap: Vec<Card>,
    pub players: Vec<PlayerState>,
    pub pass_streak_start: Option<Seat>,
    pub pass_streak_len: u8,
    pub winner: Option<Winner>,
}

#[derive(Clone, Copy, Debug, PartialEq, Eq, Structural)]
pub enum RuleError {
    NotYourTurn,
    IllegalAction,
    InvalidAction,
    GameOver,
}

impl RuleError {
    pub open spec fn spec_message(self) -> Seq<char> {
        match self {
            RuleError::NotYourTurn => "not your turn"@,
            RuleError::IllegalAction => "illegal action"@,
            RuleError::InvalidAction => "invalid action"@,
            RuleError::GameOver => "game over"@,
        }
    }

    /// The error in words.
    pub fn message(&self) -> (text: String)
        ensures
            text@ == self.spec_message(),
    {
        match self {
            RuleError::NotYourTurn => "not your turn".to_owned(),
            RuleError::IllegalAction => "illegal action".to_owned(),
            RuleError::InvalidAction => "invalid action".to_owned(),
            RuleError::GameOver => "game over".to_owned(),
        }
    }
}

#[derive(Clone, Copy, Debug, PartialEq, Eq, Structural)]
pub enum Event {
    GameOver(Winner),
}

/// A card that rides on a stack, and the seat that put it there.
pub struct Rider {
    pub card: Card,
    pub owner: Seat,
}

/// A point stack or a royal stack: its base and what rides on it, the top
/// rider last.
pub struct StackModel {
    pub base: Card,
    pub base_owner: Seat,
    pub riders: Seq<Rider>,
}

pub struct PlayerModel {
    pub hand: Seq<Card>,
    pub points: Seq<StackModel>,
    pub royals: Seq<StackModel>,
    pub frozen: Seq<FrozenCard>,
}

pub struct CounterModel {
    pub base_player: Seat,
    pub oneoff: Action,
    pub twos: Seq<(Seat, Card)>,
    pub next_seat: Seat,
    pub rotation_anchor: Seat,
}

pub enum PhaseModel {
    Main,
    Countering(CounterModel),
    ResolvingThree { seat: Seat, base_player: Seat },
    ResolvingFour { seat: Seat, base_player: Seat, remaining: u8 },
    ResolvingFive { seat: Seat, base_player: Seat, discarded: bool },
    ResolvingSeven { seat: Seat, base_player: Seat, revealed: Seq<Card> },
    GameOver,
}

/// A game as a value: the deck and the scrap with their top first, the three
/// players in seat order.
pub struct GameModel {
    pub dealer: Seat,
    pub turn: Seat,
    pub phase: PhaseModel,
    pub deck: Seq<Card>,
    pub scrap: Seq<Card>,
    pub players: Seq<PlayerModel>,
    pub pass_streak_start: Option<Seat>,
    pub pass_streak_len: u8,
    pub winner: Option<Winner>,
}

impl View for JackOnStack {
    type V = Rider;

    open spec fn view(&self) -> Rider {
        Rider { card: self.card, owner: self.owner }
    }
}

impl View for JokerOnStack {
    type V = Rider;

    open spec fn view(&self) -> Rider {
        Rider { card: self.card, owner: self.owner }
    }
}

impl View for PointStack {
    type V = StackModel;

    open spec fn view(&self) -> StackModel {
        StackModel {
            base: self.base,
            base_owner: self.base_owner,
            riders: self.jacks@.map_values(|j: JackOnStack| j@),
        }
    }
}

impl View for RoyalStack {
    type V = StackModel;

    open spec fn view(&self) -> StackModel {
        StackModel {
            base: self.base,
            base_owner: self.base_owner,
            riders: self.jokers@.map_values(|j: JokerOnStack| j@),
        }
    }
}

impl View for PlayerState {
    type V = PlayerModel;

    open spec fn view(&self) -> PlayerModel {
        PlayerModel {
            hand: self.hand@,
            points: self.points@.map_values(|p: PointStack| p@),
            royals: self.royals@.map_values(|r: RoyalStack| r@),
            frozen: self.frozen@,
        }
    }
}

impl View for CounterState {
    type V = CounterModel;

    open spec fn view(&self) -> CounterModel {
        CounterModel {
            base_player: self.base_player,
            oneoff: self.oneoff,
            twos: self.twos@,
            next_seat: self.next_seat,
            rotation_anchor: self.rotation_anchor,
        }
    }
}

impl View for Phase {
    type V = PhaseModel;

    open spec fn view(&self) -> PhaseModel {
        match *self {
            Phase::Main => PhaseModel::Main,
            Phase::Countering(counter) => PhaseModel::Countering(counter@),
            Phase::ResolvingThree { seat, base_player } => PhaseModel::ResolvingThree {
                seat,
                base_player,
            },
            Phase::ResolvingFour { seat, base_player, remaining } => PhaseModel::ResolvingFour {
                seat,
                base_player,
                remaining,
            },
            Phase::ResolvingFive { seat, base_player, discarded } => PhaseModel::ResolvingFive {
                seat,
                base_player,
                discarded,
            },
            Phase::ResolvingSeven { seat, base_player, revealed } => PhaseModel::ResolvingSeven {
                seat,
                base_player,
                revealed: revealed@,
            },
            Phase::GameOver => PhaseModel::GameOver,
        }
    }
}

impl View for CutthroatState {
    type V = GameModel;

    open spec fn view(&self) -> GameModel {
        GameModel {
            dealer: self.dealer,
            turn: self.turn,
            phase: self.phase@,
            deck: self.deck@,
            scrap: self.scrap@,
            players: self.players@.map_values(|p: PlayerState| p@),
            pass_streak_start: self.pass_streak_start,
            pass_streak_len: self.pass_streak_len,
            winner: self.winner,
        }
    }
}

impl PointStack {
    /// The seat that controls the stack: the owner of the topmost jack, or
    /// the owner of the base where no jack sits on it.
    pub fn controller(&self) -> (seat: Seat)
        ensures
            seat == self@.controller(),
    {
        let n = self.jacks.len();
        if n == 0 {
            self.base_owner
        } else {
            self.jacks[n - 1].owner
        }
    }
}

impl PointStack {
    /// The cards of the jacks on the stack, from the bottom up.
    pub(crate) fn jack_cards(&self) -> (cards: Vec<Card>)
        ensures
            cards@ == self@.rider_cards(),
    {
        let mut cards: Vec<Card> = Vec::new();
        let mut i: usize = 0;
        while i < self.jacks.len()
            invariant
                i <= self.jacks.len(),
                cards@ == self@.rider_cards().take(i as int),
            decreases self.jacks.len() - i,
        {
            cards.push(self.jacks[i].card);
            assert(cards@ =~= self@.rider_cards().take(i + 1));
            i = i + 1;
        }
        assert(cards@ =~= self@.rider_cards());
        cards
    }

    /// The card of the topmost jack.
    pub(crate) fn top_card(&self) -> (top: Option<Card>)
        ensures
            top == self@.top(),
    {
        let n = self.jacks.len();
        if n == 0 {
            None
        } else {
            Some(self.jacks[n - 1].card)
        }
    }
}

impl RoyalStack {
    /// The cards of the jokers on the stack, from the bottom up.
    pub(crate) fn joker_cards(&self) -> (cards: Vec<Card>)
        ensures
            cards@ == self@.rider_cards(),
    {
        let mut cards: Vec<Card> = Vec::new();
        let mut i: usize = 0;
        while i < self.jokers.len()
            invariant
                i <= self.jokers.len(),
                cards@ == self@.rider_cards().take(i as int),
            decreases self.jokers.len() - i,
        {
            cards.push(self.jokers[i].card);
            assert(cards@ =~= self@.rider_cards().take(i + 1));
            i = i + 1;
        }
        assert(cards@ =~= self@.rider_cards());
        cards
    }

    /// The card of the topmost joker.
    pub(crate) fn top_card(&self) -> (top: Option<Card>)
        ensures
            top == self@.top(),
    {
        let n = self.jokers.len();
        if n == 0 {
            None
        } else {
            Some(self.jokers[n - 1].card)
        }
    }
}

impl RoyalStack {
    /// The seat that controls the stack: the owner of the topmost joker, or
    /// the owner of the base where no joker sits on it.
    pub fn controller(&self) -> (seat: Seat)
        ensures
            seat == self@.controller(),
    {
        let n = self.jokers.len();
        if n == 0 {
            self.base_owner
        } else {
            self.jokers[n - 1].owner
        }
    }
}

impl PlayerState {
    pub fn new() -> (p: Self)
        ensures
            p@ == PlayerModel::empty(),
    {
        let p = Self {
            hand: Vec::new(),
            points: Vec::new(),
            royals: Vec::new(),
            frozen: Vec::new(),
        };
        assert(p@.points =~= Seq::empty());
        assert(p@.royals =~= Seq::empty());
        p
    }
}

impl Default for PlayerState {
    fn default() -> (p: Self)
        ensures
            p@ == PlayerModel::empty(),
    {
        Self::new()
    }
}

impl StackModel {
    /// A stack of one card with nothing on it.
    pub open spec fn single(base: Card, owner: Seat) -> StackModel {
        StackModel { base, base_owner: owner, riders: Seq::empty() }
    }

    pub open spec fn controller(self) -> Seat {
        if self.riders.len() == 0 {
            self.base_owner
        } else {
            self.riders.last().owner
        }
    }

    /// The card of the topmost rider.
    pub open spec fn top(self) -> Option<Card> {
        if self.riders.len() == 0 {
            None
        } else {
            Some(self.riders.last().card)
        }
    }

    pub open spec fn rider_cards(self) -> Seq<Card> {
        self.riders.map_values(|r: Rider| r.card)
    }

    /// Every card of the stack: the base, then the riders from the bottom up.
    pub open spec fn cards(self) -> Seq<Card> {
        seq![self.base] + self.rider_cards()
    }

    /// The stack with one more rider on top.
    pub open spec fn ridden_by(self, card: Card, owner: Seat) -> StackModel {
        StackModel { riders: self.riders.push(Rider { card, owner }), ..self }
    }

    /// The stack without its topmost rider.
    pub open spec fn without_top(self) -> StackModel {
        StackModel { riders: self.riders.drop_last(), ..self }
    }

    /// The base alone.
    pub open spec fn stripped(self) -> StackModel {
        StackModel { riders: Seq::empty(), ..self }
    }

    /// Every seat named in the stack is a seat of the table.
    pub open spec fn seats_ok(self) -> bool {
        &&& self.base_owner < 3
        &&& forall|i: int| 0 <= i < self.riders.len() ==> (#[trigger] self.riders[i]).owner < 3
    }
}

impl PlayerModel {
    pub open spec fn empty() -> PlayerModel {
        PlayerModel {
            hand: Seq::empty(),
            points: Seq::empty(),
            royals: Seq::empty(),
            frozen: Seq::empty(),
        }
    }
}

} // verus!
