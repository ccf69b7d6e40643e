//! The game state and the rules that move it.

mod actions;
pub mod conserve;
mod effects;
mod engine;
pub mod laws;
pub mod legal;
pub(crate) mod moves;
pub mod order;
pub mod rules;
mod scoring;
pub mod shape;
mod sound;
pub(crate) mod targeting;
mod types;
pub mod util;
mod view;

pub use engine::{dealt, events_of};
pub use rules::TargetKind;
pub use targeting::lemma_first_where_exists;
pub use types::{
    CounterModel, CounterState, CutthroatState, Event, FrozenCard, GameModel, JackOnStack,
    JokerOnStack, Phase, PhaseModel, PlayerModel, PlayerState, PointStack, Rider, RoyalStack,
    RuleError, Seat, StackModel, Winner, HAND_LIMIT, PLAYER_COUNT,
};
pub use view::{
    build_spectator_view, name_of, names, shows_hand, spectator_seat, CounterTwoView,
    LastEventView, PhaseView, PlayerView, PointStackView, PublicCard, PublicView, RoyalStackView,
};
