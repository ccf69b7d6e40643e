//! The token log: a game written as a line of atoms, and read back.

mod encode;
pub mod grammar;
mod parse;
pub mod roundtrip;
mod types;

pub use encode::{
    append_action, encode_action_token_vec_for_input, encode_action_tokens_for_input,
    encode_header,
};
pub use parse::{
    agrees, lemma_read_deck_bounds, parse, parse_action_token_stream_for_state,
    parse_action_tokens_for_state, replay,
};
pub use types::{LogModel, TokenError, TokenLog, TokenizeError};
