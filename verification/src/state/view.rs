//! What a seat is shown of a game.

use vstd::prelude::*;
use super::types::{CutthroatState, Phase, PhaseModel, PlayerModel, PlayerState, PointStack, RoyalStack, Seat, StackModel};
use crate::action::Action;
use crate::card::Card;
use crate::tokens::Token;

verus! {

/// A card of a hand as a viewer sees it.
#[derive(Clone, Debug, PartialEq, Eq)]
pub enum PublicCard {
    Hidden,
    Known(String),
}

#[derive(Clone, Debug, PartialEq, Eq)]
pub struct PointStackView {
    pub base: String,
    pub controller: Seat,
    pub jacks: Vec<String>,
}

#[derive(Clone, Debug, PartialEq, Eq)]
pub struct RoyalStackView {
    pub base: String,
    pub controller: Seat,
    pub jokers: Vec<String>,
}

#[derive(Clone, Debug, PartialEq, Eq)]
pub struct PlayerView {
    pub seat: Seat,
    pub hand: Vec<PublicCard>,
    pub points: Vec<PointStackView>,
    pub royals: Vec<RoyalStackView>,
    pub frozen: Vec<String>,
}

#[derive(Clone, Debug, PartialEq, Eq)]
pub struct PublicView {
    pub seat: Seat,
    pub turn: Seat,
    pub phase: PhaseView,
    pub deck_count: usize,
    pub scrap: Vec<String>,
    pub players: Vec<PlayerView>,
    pub last_event: Option<LastEventView>,
}

/// What the last action was, for display.
#[derive(Clone, Debug, PartialEq, Eq)]
pub struct LastEventView {
    pub actor: Seat,
    pub action_kind: String,
    pub change: String,
    pub source_token: Option<String>,
    pub source_zone: Option<String>,
    pub target_token: Option<String>,
    pub target_seat: Option<Seat>,
    pub target_type: Option<String>,
    pub oneoff_rank: Option<u8>,
}

#[derive(Clone, Debug, PartialEq, Eq)]
pub struct CounterTwoView {
    pub seat: Seat,
    pub card: String,
}

#[derive(Clone, Debug, PartialEq, Eq)]
pub enum PhaseView {
    Main,
    Countering { next_seat: Seat, base_player: Seat, oneoff: Action, twos: Vec<CounterTwoView> },
    ResolvingThree { seat: Seat },
    ResolvingFour { seat: Seat, remaining: u8 },
    ResolvingFive { seat: Seat },
    ResolvingSeven { seat: Seat, revealed: usize, revealed_cards: Vec<String> },
    GameOver,
}

/// The written name of a card.
pub open spec fn name_of(card: Card) -> Seq<char> {
    Token::of_card(card).spelling()
}

/// Whether the strings are the names of the cards, in order.
pub open spec fn names(texts: Seq<String>, cards: Seq<Card>) -> bool {
    &&& texts.len() == cards.len()
    &&& forall|i: int| 0 <= i < texts.len() ==> (#[trigger] texts[i])@ == name_of(cards[i])
}

/// Whether a hand is shown as it is to one who may see it, and as so many
/// hidden cards to one who may not.
pub open spec fn shows_hand(view: Seq<PublicCard>, hand: Seq<Card>, open: bool) -> bool {
    &&& view.len() == hand.len()
    &&& forall|i: int|
        0 <= i < view.len() ==> match #[trigger] view[i] {
            PublicCard::Known(text) => open && text@ == name_of(hand[i]),
            PublicCard::Hidden => !open,
        }
}

impl PointStackView {
    pub open spec fn shows(self, st: StackModel) -> bool {
        &&& self.base@ == name_of(st.base)
        &&& self.controller == st.controller()
        &&& names(self.jacks@, st.rider_cards())
    }
}

impl RoyalStackView {
    pub open spec fn shows(self, st: StackModel) -> bool {
        &&& self.base@ == name_of(st.base)
        &&& self.controller == st.controller()
        &&& names(self.jokers@, st.rider_cards())
    }
}

impl PlayerView {
    /// Whether this is what `viewer` is shown of the player at `seat`: the
    /// stacks always, the hand only if it is `open` to the viewer, the frozen
    /// cards only of the viewer itself.
    pub open spec fn shows(self, p: PlayerModel, seat: Seat, viewer: Seat, open: bool) -> bool {
        &&& self.seat == seat
        &&& shows_hand(self.hand@, p.hand, open)
        &&& self.points@.len() == p.points.len()
        &&& forall|i: int|
            0 <= i < p.points.len() ==> (#[trigger] self.points@[i]).shows(p.points[i])
        &&& self.royals@.len() == p.royals.len()
        &&& forall|i: int|
            0 <= i < p.royals.len() ==> (#[trigger] self.royals@[i]).shows(p.royals[i])
        &&& if seat == viewer {
            names(self.frozen@, super::rules::frozen_cards(p.frozen))
        } else {
            self.frozen@.len() == 0
        }
    }
}

impl PhaseView {
    /// Whether this is what `viewer` is shown of the phase: all of it, but
    /// of the cards that a seven revealed only their number unless the
    /// viewer is the one who resolves it.
    pub open spec fn shows(self, phase: PhaseModel, viewer: Seat) -> bool {
        match phase {
            PhaseModel::Main => self is Main,
            PhaseModel::Countering(c) => match self {
                PhaseView::Countering { next_seat, base_player, oneoff, twos } => {
                    &&& next_seat == c.next_seat
                    &&& base_player == c.base_player
                    &&& oneoff == c.oneoff
                    &&& twos@.len() == c.twos.len()
                    &&& forall|i: int|
                        0 <= i < twos@.len() ==> (#[trigger] twos@[i]).seat == c.twos[i].0
                            && twos@[i].card@ == name_of(c.twos[i].1)
                },
                _ => false,
            },
            PhaseModel::ResolvingThree { seat, .. } => self == (PhaseView::ResolvingThree { seat }),
            PhaseModel::ResolvingFour { seat, remaining, .. } => self == (PhaseView::ResolvingFour {
                seat,
                remaining,
            }),
            PhaseModel::ResolvingFive { seat, .. } => self == (PhaseView::ResolvingFive { seat }),
            PhaseModel::ResolvingSeven { seat, revealed, .. } => match self {
                PhaseView::ResolvingSeven { seat: s, revealed: n, revealed_cards } => {
                    &&& s == seat
                    &&& n == revealed.len()
                    &&& if seat == viewer {
                        names(revealed_cards@, revealed)
                    } else {
                        revealed_cards@.len() == 0
                    }
                },
                _ => false,
            },
            PhaseModel::GameOver => self is GameOver,
        }
    }
}

/// The names of the cards.
pub(crate) fn card_names(cards: &Vec<Card>) -> (texts: Vec<String>)
    ensures
        names(texts@, cards@),
{
    let mut texts: Vec<String> = Vec::new();
    let mut i: usize = 0;
    while i < cards.len()
        invariant
            i <= cards.len(),
            names(texts@, cards@.take(i as int)),
        decreases cards.len() - i,
    {
        texts.push(cards[i].to_token());
        i = i + 1;
    }
    proof {
        assert(cards@.take(i as int) =~= cards@);
    }
    texts
}

impl Phase {
    pub(crate) fn view_for(&self, viewer: Seat) -> (v: PhaseView)
        ensures
            v.shows(self@, viewer),
    {
        match self {
            Phase::Main => PhaseView::Main,
            Phase::Countering(counter) => {
                let mut twos: Vec<CounterTwoView> = Vec::new();
                let mut i: usize = 0;
                while i < counter.twos.len()
                    invariant
                        i <= counter.twos.len(),
                        twos@.len() == i,
                        forall|k: int|
                            0 <= k < i ==> (#[trigger] twos@[k]).seat == counter.twos@[k].0
                                && twos@[k].card@ == name_of(counter.twos@[k].1),
                    decreases counter.twos.len() - i,
                {
                    let (seat, card) = counter.twos[i];
                    twos.push(CounterTwoView { seat, card: card.to_token() });
                    i = i + 1;
                }
                PhaseView::Countering {
                    next_seat: counter.next_seat,
                    base_player: counter.base_player,
                    oneoff: counter.oneoff,
                    twos,
                }
            },
            Phase::ResolvingThree { seat, .. } => PhaseView::ResolvingThree { seat: *seat },
            Phase::ResolvingFour { seat, remaining, .. } => PhaseView::ResolvingFour {
                seat: *seat,
                remaining: *remaining,
            },
            Phase::ResolvingFive { seat, .. } => PhaseView::ResolvingFive { seat: *seat },
            Phase::ResolvingSeven { seat, revealed, .. } => PhaseView::ResolvingSeven {
                seat: *seat,
                revealed: revealed.len(),
                revealed_cards: if *seat == viewer {
                    card_names(revealed)
                } else {
                    Vec::new()
                },
            },
            Phase::GameOver => PhaseView::GameOver,
        }
    }
}

impl PointStack {
    pub(crate) fn view_of(&self) -> (v: PointStackView)
        ensures
            v.shows(self@),
    {
        let riders = self.jack_cards();
        PointStackView {
            base: self.base.to_token(),
            controller: self.controller(),
            jacks: card_names(&riders),
        }
    }
}

impl RoyalStack {
    pub(crate) fn view_of(&self) -> (v: RoyalStackView)
        ensures
            v.shows(self@),
    {
        let riders = self.joker_cards();
        RoyalStackView {
            base: self.base.to_token(),
            controller: self.controller(),
            jokers: card_names(&riders),
        }
    }
}

impl PlayerState {
    pub(crate) fn view_for(&self, seat: Seat, viewer: Seat, open: bool) -> (v: PlayerView)
        ensures
            v.shows(self@, seat, viewer, open),
    {
        let mut hand: Vec<PublicCard> = Vec::new();
        let mut i: usize = 0;
        while i < self.hand.len()
            invariant
                i <= self.hand.len(),
                shows_hand(hand@, self.hand@.take(i as int), open),
            decreases self.hand.len() - i,
        {
            if open {
                hand.push(PublicCard::Known(self.hand[i].to_token()));
            } else {
                hand.push(PublicCard::Hidden);
            }
            i = i + 1;
        }
        proof {
            assert(self.hand@.take(i as int) =~= self.hand@);
        }
        let mut points: Vec<PointStackView> = Vec::new();
        let mut j: usize = 0;
        while j < self.points.len()
            invariant
                j <= self.points.len(),
                points@.len() == j,
                forall|k: int| 0 <= k < j ==> (#[trigger] points@[k]).shows(self@.points[k]),
            decreases self.points.len() - j,
        {
            assert(self@.points[j as int] == self.points[j as int]@);
            points.push(self.points[j].view_of());
            j = j + 1;
        }
        let mut royals: Vec<RoyalStackView> = Vec::new();
        let mut j: usize = 0;
        while j < self.royals.len()
            invariant
                j <= self.royals.len(),
                royals@.len() == j,
                forall|k: int| 0 <= k < j ==> (#[trigger] royals@[k]).shows(self@.royals[k]),
            decreases self.royals.len() - j,
        {
            assert(self@.royals[j as int] == self.royals[j as int]@);
            royals.push(self.royals[j].view_of());
            j = j + 1;
        }
        let mut frozen: Vec<String> = Vec::new();
        if seat == viewer {
            let mut k: usize = 0;
            while k < self.frozen.len()
                invariant
                    k <= self.frozen.len(),
                    names(frozen@, super::rules::frozen_cards(self.frozen@).take(k as int)),
                decreases self.frozen.len() - k,
            {
                frozen.push(self.frozen[k].card.to_token());
                k = k + 1;
            }
            proof {
                assert(super::rules::frozen_cards(self.frozen@).take(k as int)
                    =~= super::rules::frozen_cards(self.frozen@));
            }
        }
        PlayerView { seat, hand, points, royals, frozen }
    }
}

impl CutthroatState {
    /// What `viewer` is shown of the game: its own hand and frozen cards,
    /// every stack, the scrap and the size of the deck. The hands of the
    /// others stay hidden unless the viewer controls an eight.
    pub fn public_view(&self, viewer: Seat) -> (v: PublicView)
        requires
            self.players.len() == 3,
            viewer < 3,
        ensures
            v.seat == viewer,
            v.turn == self.turn,
            v.deck_count == self@.deck.len(),
            v.last_event is None,
            names(v.scrap@, self@.scrap),
            v.phase.shows(self@.phase, viewer),
            v.players@.len() == 3,
            forall|p: int|
                0 <= p < 3 ==> (#[trigger] v.players@[p]).shows(
                    self@.players[p],
                    p as Seat,
                    viewer,
                    p == viewer || self@.has_glasses(viewer),
                ),
    {
        let viewer_has_glasses = self.player_has_glasses(viewer);
        let mut players: Vec<PlayerView> = Vec::new();
        let mut seat: Seat = 0;
        while seat < 3
            invariant
                seat <= 3,
                self.players.len() == 3,
                viewer_has_glasses == self@.has_glasses(viewer),
                players@.len() == seat,
                forall|p: int|
                    0 <= p < seat ==> (#[trigger] players@[p]).shows(
                        self@.players[p],
                        p as Seat,
                        viewer,
                        p == viewer || viewer_has_glasses,
                    ),
            decreases 3 - seat,
        {
            let show_hand = seat == viewer || viewer_has_glasses;
            assert(self@.players[seat as int] == self.players[seat as int]@);
            players.push(self.players[seat as usize].view_for(seat, viewer, show_hand));
            seat = seat + 1;
        }
        PublicView {
            seat: viewer,
            turn: self.turn,
            phase: self.phase.view_for(viewer),
            deck_count: self.deck.len(),
            scrap: card_names(&self.scrap),
            players,
            last_event: None,
        }
    }
}

/// What one who only watches is shown: every hand and every frozen card, as
/// the seat sees them that a seven waits for or else the seat at turn; but
/// not how many cards the deck holds.
pub fn build_spectator_view(state: &CutthroatState, last_event: Option<LastEventView>) -> (v:
    PublicView)
    requires
        state.shaped(),
    ensures
        v.seat == spectator_seat(state@),
        v.turn == state.turn,
        v.deck_count == 0,
        v.last_event == last_event,
        names(v.scrap@, state@.scrap),
        v.phase.shows(state@.phase, spectator_seat(state@)),
        v.players@.len() == 3,
        forall|p: int|
            0 <= p < 3 ==> (#[trigger] v.players@[p]).shows(
                state@.players[p],
                p as Seat,
                p as Seat,
                true,
            ),
{
    let viewer = match &state.phase {
        Phase::ResolvingSeven { seat, .. } => *seat,
        _ => state.turn,
    };
    let mut players: Vec<PlayerView> = Vec::new();
    let mut seat: Seat = 0;
    while seat < 3
        invariant
            seat <= 3,
            state.players.len() == 3,
            players@.len() == seat,
            forall|p: int|
                0 <= p < seat ==> (#[trigger] players@[p]).shows(
                    state@.players[p],
                    p as Seat,
                    p as Seat,
                    true,
                ),
        decreases 3 - seat,
    {
        assert(state@.players[seat as int] == state.players[seat as int]@);
        players.push(state.players[seat as usize].view_for(seat, seat, true));
        seat = seat + 1;
    }
    PublicView {
        seat: viewer,
        turn: state.turn,
        phase: state.phase.view_for(viewer),
        deck_count: 0,
        scrap: card_names(&state.scrap),
        players,
        last_event,
    }
}

/// The seat through whose eyes one who only watches sees the phase.
pub open spec fn spectator_seat(s: super::types::GameModel) -> Seat {
    match s.phase {
        PhaseModel::ResolvingSeven { seat, .. } => seat,
        _ => s.turn,
    }
}

} // verus!
