//! A parsed log, and what can go wrong with one.

use vstd::prelude::*;
use vstd::string::*;
use crate::action::Action;
use crate::card::Card;
use crate::state::{RuleError, Seat};

verus! {

/// A game as it is written down: who dealt, the deck as it was dealt from,
/// and every action in order with the seat that took it.
#[derive(Clone, Debug, PartialEq, Eq)]
pub struct TokenLog {
    pub dealer: Seat,
    pub deck: Vec<Card>,
    pub actions: Vec<(Seat, Action)>,
}

pub struct LogModel {
    pub dealer: Seat,
    pub deck: Seq<Card>,
    pub actions: Seq<(Seat, Action)>,
}

impl View for TokenLog {
    type V = LogModel;

    open spec fn view(&self) -> LogModel {
        LogModel { dealer: self.dealer, deck: self.deck@, actions: self.actions@ }
    }
}

/// Why a log cannot be read or replayed.
#[derive(Clone, Copy, Debug, PartialEq, Eq, Structural)]
pub enum TokenError {
    InvalidFormat,
    UnknownCard,
    UnknownAction,
    Replay(RuleError),
}

impl TokenError {
    pub open spec fn spec_message(self) -> Seq<char> {
        match self {
            TokenError::InvalidFormat => "invalid token stream"@,
            TokenError::UnknownCard => "unknown card token"@,
            TokenError::UnknownAction => "unknown action token"@,
            TokenError::Replay(rule) => "replay error: "@ + rule.spec_message(),
        }
    }

    /// The error in words.
    pub fn message(&self) -> (text: String)
        ensures
            text@ == self.spec_message(),
    {
        match self {
            TokenError::InvalidFormat => "invalid token stream".to_owned(),
            TokenError::UnknownCard => "unknown card token".to_owned(),
            TokenError::UnknownAction => "unknown action token".to_owned(),
            TokenError::Replay(rule) => {
                let mut text = "replay error: ".to_owned();
                let cause = rule.message();
                text.append(cause.as_str());
                text
            },
        }
    }
}

/// Why an action cannot be written down.
#[derive(Clone, Copy, Debug, PartialEq, Eq, Structural)]
pub enum TokenizeError {
    InvalidSeat,
    InvalidActionContext,
}

impl TokenizeError {
    pub open spec fn spec_message(self) -> Seq<char> {
        match self {
            TokenizeError::InvalidSeat => "invalid seat"@,
            TokenizeError::InvalidActionContext => "invalid action context"@,
        }
    }

    /// The error in words.
    pub fn message(&self) -> (text: String)
        ensures
            text@ == self.spec_message(),
    {
        match self {
            TokenizeError::InvalidSeat => "invalid seat".to_owned(),
            TokenizeError::InvalidActionContext => "invalid action context".to_owned(),
        }
    }
}

} // verus!
