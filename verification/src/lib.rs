//! Rules engine and token log for three-player Cutthroat.

pub mod action;
pub mod card;
pub mod config;
pub mod events;
pub mod history;
pub mod lobby;
pub mod session;
pub mod state;
pub mod tokenlog;
pub mod tokens;
pub mod transcript;

pub use action::{Action, OneOffTarget, SevenPlay};
pub use card::{full_deck_with_jokers, Card, Rank, Suit};
pub use state::{
    CutthroatState, LastEventView, Phase, PublicView, RuleError, Seat, Winner,
};
pub use tokenlog::{
    append_action, encode_action_token_vec_for_input, encode_action_tokens_for_input,
    encode_header, parse as parse_tokenlog, parse_action_token_stream_for_state,
    parse_action_tokens_for_state, replay as replay_tokenlog, TokenError, TokenLog,
    TokenizeError,
};
pub use tokens::{join_tokens, parse_token_slice, Token};
