//! The closed vocabulary of the token log: every atom, its spelling, and the
//! atoms that name cards and seats.

use vstd::prelude::*;
use vstd::string::*;
use crate::card::{Card, Rank, Suit};
use crate::state::Seat;

verus! {

#[derive(Clone, Copy, Debug, PartialEq, Eq, Hash, Structural)]
pub enum Token {
    V1,
    Cutthroat3P,
    Dealer,
    Deck,
    EndDeck,
    Unknown,
    P0,
    P1,
    P2,
    P3,
    Draw,
    Pass,
    Points,
    Scuttle,
    PlayRoyal,
    OneOff,
    Counter,
    Resolve,
    Discard,
    AC,
    AD,
    AH,
    AS,
    P2C,
    P2D,
    P2H,
    P2S,
    P3C,
    P3D,
    P3H,
    P3S,
    P4C,
    P4D,
    P4H,
    P4S,
    P5C,
    P5D,
    P5H,
    P5S,
    P6C,
    P6D,
    P6H,
    P6S,
    P7C,
    P7D,
    P7H,
    P7S,
    P8C,
    P8D,
    P8H,
    P8S,
    P9C,
    P9D,
    P9H,
    P9S,
    TC,
    TD,
    TH,
    TS,
    JC,
    JD,
    JH,
    JS,
    QC,
    QD,
    QH,
    QS,
    KC,
    KD,
    KH,
    KS,
    J0,
    J1,
}

impl Token {
    /// The printable spelling of the atom.
    pub open spec fn spelling(self) -> Seq<char> {
        match self {
            Token::V1 => "V1"@,
            Token::Cutthroat3P => "CUTTHROAT3P"@,
            Token::Dealer => "DEALER"@,
            Token::Deck => "DECK"@,
            Token::EndDeck => "ENDDECK"@,
            Token::Unknown => "UNKNOWN"@,
            Token::P0 => "P0"@,
            Token::P1 => "P1"@,
            Token::P2 => "P2"@,
            Token::P3 => "P3"@,
            Token::Draw => "draw"@,
            Token::Pass => "pass"@,
            Token::Points => "points"@,
            Token::Scuttle => "scuttle"@,
            Token::PlayRoyal => "playRoyal"@,
            Token::OneOff => "oneOff"@,
            Token::Counter => "counter"@,
            Token::Resolve => "resolve"@,
            Token::Discard => "discard"@,
            Token::AC => "AC"@,
            Token::AD => "AD"@,
            Token::AH => "AH"@,
            Token::AS => "AS"@,
            Token::P2C => "2C"@,
            Token::P2D => "2D"@,
            Token::P2H => "2H"@,
            Token::P2S => "2S"@,
            Token::P3C => "3C"@,
            Token::P3D => "3D"@,
            Token::P3H => "3H"@,
            Token::P3S => "3S"@,
            Token::P4C => "4C"@,
            Token::P4D => "4D"@,
            Token::P4H => "4H"@,
            Token::P4S => "4S"@,
            Token::P5C => "5C"@,
            Token::P5D => "5D"@,
            Token::P5H => "5H"@,
            Token::P5S => "5S"@,
            Token::P6C => "6C"@,
            Token::P6D => "6D"@,
            Token::P6H => "6H"@,
            Token::P6S => "6S"@,
            Token::P7C => "7C"@,
            Token::P7D => "7D"@,
            Token::P7H => "7H"@,
            Token::P7S => "7S"@,
            Token::P8C => "8C"@,
            Token::P8D => "8D"@,
            Token::P8H => "8H"@,
            Token::P8S => "8S"@,
            Token::P9C => "9C"@,
            Token::P9D => "9D"@,
            Token::P9H => "9H"@,
            Token::P9S => "9S"@,
            Token::TC => "TC"@,
            Token::TD => "TD"@,
            Token::TH => "TH"@,
            Token::TS => "TS"@,
            Token::JC => "JC"@,
            Token::JD => "JD"@,
            Token::JH => "JH"@,
            Token::JS => "JS"@,
            Token::QC => "QC"@,
            Token::QD => "QD"@,
            Token::QH => "QH"@,
            Token::QS => "QS"@,
            Token::KC => "KC"@,
            Token::KD => "KD"@,
            Token::KH => "KH"@,
            Token::KS => "KS"@,
            Token::J0 => "J0"@,
            Token::J1 => "J1"@,
        }
    }

    /// The atom with the given spelling, if there is one.
    pub open spec fn spelled(s: Seq<char>) -> Option<Token> {
        if exists|t: Token| t.spelling() == s {
            Some(choose|t: Token| t.spelling() == s)
        } else {
            None
        }
    }

    /// The seat that a seat atom names.
    pub open spec fn spec_seat(self) -> Option<Seat> {
        match self {
            Token::P0 => Some(0),
            Token::P1 => Some(1),
            Token::P2 => Some(2),
            Token::P3 => Some(3),
            _ => None,
        }
    }

    pub open spec fn spec_is_verb(self) -> bool {
        self == Token::Draw || self == Token::Pass || self == Token::Points || self
            == Token::Scuttle || self == Token::PlayRoyal || self == Token::OneOff || self
            == Token::Counter || self == Token::Resolve || self == Token::Discard
    }

    /// The card that a card atom names.
    pub open spec fn spec_card(self) -> Option<Card> {
        match self {
            Token::J0 => Some(Card::Joker(0)),
            Token::J1 => Some(Card::Joker(1)),
            Token::AC => Some(Card::Standard { rank: Rank::Ace, suit: Suit::Clubs }),
            Token::AD => Some(Card::Standard { rank: Rank::Ace, suit: Suit::Diamonds }),
            Token::AH => Some(Card::Standard { rank: Rank::Ace, suit: Suit::Hearts }),
            Token::AS => Some(Card::Standard { rank: Rank::Ace, suit: Suit::Spades }),
            Token::P2C => Some(Card::Standard { rank: Rank::Two, suit: Suit::Clubs }),
            Token::P2D => Some(Card::Standard { rank: Rank::Two, suit: Suit::Diamonds }),
            Token::P2H => Some(Card::Standard { rank: Rank::Two, suit: Suit::Hearts }),
            Token::P2S => Some(Card::Standard { rank: Rank::Two, suit: Suit::Spades }),
            Token::P3C => Some(Card::Standard { rank: Rank::Three, suit: Suit::Clubs }),
            Token::P3D => Some(Card::Standard { rank: Rank::Three, suit: Suit::Diamonds }),
            Token::P3H => Some(Card::Standard { rank: Rank::Three, suit: Suit::Hearts }),
            Token::P3S => Some(Card::Standard { rank: Rank::Three, suit: Suit::Spades }),
            Token::P4C => Some(Card::Standard { rank: Rank::Four, suit: Suit::Clubs }),
            Token::P4D => Some(Card::Standard { rank: Rank::Four, suit: Suit::Diamonds }),
            Token::P4H => Some(Card::Standard { rank: Rank::Four, suit: Suit::Hearts }),
            Token::P4S => Some(Card::Standard { rank: Rank::Four, suit: Suit::Spades }),
            Token::P5C => Some(Card::Standard { rank: Rank::Five, suit: Suit::Clubs }),
            Token::P5D => Some(Card::Standard { rank: Rank::Five, suit: Suit::Diamonds }),
            Token::P5H => Some(Card::Standard { rank: Rank::Five, suit: Suit::Hearts }),
            Token::P5S => Some(Card::Standard { rank: Rank::Five, suit: Suit::Spades }),
            Token::P6C => Some(Card::Standard { rank: Rank::Six, suit: Suit::Clubs }),
            Token::P6D => Some(Card::Standard { rank: Rank::Six, suit: Suit::Diamonds }),
            Token::P6H => Some(Card::Standard { rank: Rank::Six, suit: Suit::Hearts }),
            Token::P6S => Some(Card::Standard { rank: Rank::Six, suit: Suit::Spades }),
            Token::P7C => Some(Card::Standard { rank: Rank::Seven, suit: Suit::Clubs }),
            Token::P7D => Some(Card::Standard { rank: Rank::Seven, suit: Suit::Diamonds }),
            Token::P7H => Some(Card::Standard { rank: Rank::Seven, suit: Suit::Hearts }),
            Token::P7S => Some(Card::Standard { rank: Rank::Seven, suit: Suit::Spades }),
            Token::P8C => Some(Card::Standard { rank: Rank::Eight, suit: Suit::Clubs }),
            Token::P8D => Some(Card::Standard { rank: Rank::Eight, suit: Suit::Diamonds }),
            Token::P8H => Some(Card::Standard { rank: Rank::Eight, suit: Suit::Hearts }),
            Token::P8S => Some(Card::Standard { rank: Rank::Eight, suit: Suit::Spades }),
            Token::P9C => Some(Card::Standard { rank: Rank::Nine, suit: Suit::Clubs }),
            Token::P9D => Some(Card::Standard { rank: Rank::Nine, suit: Suit::Diamonds }),
            Token::P9H => Some(Card::Standard { rank: Rank::Nine, suit: Suit::Hearts }),
            Token::P9S => Some(Card::Standard { rank: Rank::Nine, suit: Suit::Spades }),
            Token::TC => Some(Card::Standard { rank: Rank::Ten, suit: Suit::Clubs }),
            Token::TD => Some(Card::Standard { rank: Rank::Ten, suit: Suit::Diamonds }),
            Token::TH => Some(Card::Standard { rank: Rank::Ten, suit: Suit::Hearts }),
            Token::TS => Some(Card::Standard { rank: Rank::Ten, suit: Suit::Spades }),
            Token::JC => Some(Card::Standard { rank: Rank::Jack, suit: Suit::Clubs }),
            Token::JD => Some(Card::Standard { rank: Rank::Jack, suit: Suit::Diamonds }),
            Token::JH => Some(Card::Standard { rank: Rank::Jack, suit: Suit::Hearts }),
            Token::JS => Some(Card::Standard { rank: Rank::Jack, suit: Suit::Spades }),
            Token::QC => Some(Card::Standard { rank: Rank::Queen, suit: Suit::Clubs }),
            Token::QD => Some(Card::Standard { rank: Rank::Queen, suit: Suit::Diamonds }),
            Token::QH => Some(Card::Standard { rank: Rank::Queen, suit: Suit::Hearts }),
            Token::QS => Some(Card::Standard { rank: Rank::Queen, suit: Suit::Spades }),
            Token::KC => Some(Card::Standard { rank: Rank::King, suit: Suit::Clubs }),
            Token::KD => Some(Card::Standard { rank: Rank::King, suit: Suit::Diamonds }),
            Token::KH => Some(Card::Standard { rank: Rank::King, suit: Suit::Hearts }),
            Token::KS => Some(Card::Standard { rank: Rank::King, suit: Suit::Spades }),
            _ => None,
        }
    }

    /// The atom of a card. A joker with an index other than 0 or 1 is no card
    /// of the game and is written like the first joker.
    pub open spec fn of_card(card: Card) -> Token {
        match card {
            Card::Joker(i) => if i == 1 {
                Token::J1
            } else {
                Token::J0
            },
            Card::Standard { rank, suit } => match (rank, suit) {
                (Rank::Ace, Suit::Clubs) => Token::AC,
                (Rank::Ace, Suit::Diamonds) => Token::AD,
                (Rank::Ace, Suit::Hearts) => Token::AH,
                (Rank::Ace, Suit::Spades) => Token::AS,
                (Rank::Two, Suit::Clubs) => Token::P2C,
                (Rank::Two, Suit::Diamonds) => Token::P2D,
                (Rank::Two, Suit::Hearts) => Token::P2H,
                (Rank::Two, Suit::Spades) => Token::P2S,
                (Rank::Three, Suit::Clubs) => Token::P3C,
                (Rank::Three, Suit::Diamonds) => Token::P3D,
                (Rank::Three, Suit::Hearts) => Token::P3H,
                (Rank::Three, Suit::Spades) => Token::P3S,
                (Rank::Four, Suit::Clubs) => Token::P4C,
                (Rank::Four, Suit::Diamonds) => Token::P4D,
                (Rank::Four, Suit::Hearts) => Token::P4H,
                (Rank::Four, Suit::Spades) => Token::P4S,
                (Rank::Five, Suit::Clubs) => Token::P5C,
                (Rank::Five, Suit::Diamonds) => Token::P5D,
                (Rank::Five, Suit::Hearts) => Token::P5H,
                (Rank::Five, Suit::Spades) => Token::P5S,
                (Rank::Six, Suit::Clubs) => Token::P6C,
                (Rank::Six, Suit::Diamonds) => Token::P6D,
                (Rank::Six, Suit::Hearts) => Token::P6H,
                (Rank::Six, Suit::Spades) => Token::P6S,
                (Rank::Seven, Suit::Clubs) => Token::P7C,
                (Rank::Seven, Suit::Diamonds) => Token::P7D,
                (Rank::Seven, Suit::Hearts) => Token::P7H,
                (Rank::Seven, Suit::Spades) => Token::P7S,
                (Rank::Eight, Suit::Clubs) => Token::P8C,
                (Rank::Eight, Suit::Diamonds) => Token::P8D,
                (Rank::Eight, Suit::Hearts) => Token::P8H,
                (Rank::Eight, Suit::Spades) => Token::P8S,
                (Rank::Nine, Suit::Clubs) => Token::P9C,
                (Rank::Nine, Suit::Diamonds) => Token::P9D,
                (Rank::Nine, Suit::Hearts) => Token::P9H,
                (Rank::Nine, Suit::Spades) => Token::P9S,
                (Rank::Ten, Suit::Clubs) => Token::TC,
                (Rank::Ten, Suit::Diamonds) => Token::TD,
                (Rank::Ten, Suit::Hearts) => Token::TH,
                (Rank::Ten, Suit::Spades) => Token::TS,
                (Rank::Jack, Suit::Clubs) => Token::JC,
                (Rank::Jack, Suit::Diamonds) => Token::JD,
                (Rank::Jack, Suit::Hearts) => Token::JH,
                (Rank::Jack, Suit::Spades) => Token::JS,
                (Rank::Queen, Suit::Clubs) => Token::QC,
                (Rank::Queen, Suit::Diamonds) => Token::QD,
                (Rank::Queen, Suit::Hearts) => Token::QH,
                (Rank::Queen, Suit::Spades) => Token::QS,
                (Rank::King, Suit::Clubs) => Token::KC,
                (Rank::King, Suit::Diamonds) => Token::KD,
                (Rank::King, Suit::Hearts) => Token::KH,
                (Rank::King, Suit::Spades) => Token::KS,
            },
        }
    }

    pub fn as_str(self) -> (s: &'static str)
        ensures
            s@ == self.spelling(),
    {
        match self {
            Token::V1 => "V1",
            Token::Cutthroat3P => "CUTTHROAT3P",
            Token::Dealer => "DEALER",
            Token::Deck => "DECK",
            Token::EndDeck => "ENDDECK",
            Token::Unknown => "UNKNOWN",
            Token::P0 => "P0",
            Token::P1 => "P1",
            Token::P2 => "P2",
            Token::P3 => "P3",
            Token::Draw => "draw",
            Token::Pass => "pass",
            Token::Points => "points",
            Token::Scuttle => "scuttle",
            Token::PlayRoyal => "playRoyal",
            Token::OneOff => "oneOff",
            Token::Counter => "counter",
            Token::Resolve => "resolve",
            Token::Discard => "discard",
            Token::AC => "AC",
            Token::AD => "AD",
            Token::AH => "AH",
            Token::AS => "AS",
            Token::P2C => "2C",
            Token::P2D => "2D",
            Token::P2H => "2H",
            Token::P2S => "2S",
            Token::P3C => "3C",
            Token::P3D => "3D",
            Token::P3H => "3H",
            Token::P3S => "3S",
            Token::P4C => "4C",
            Token::P4D => "4D",
            Token::P4H => "4H",
            Token::P4S => "4S",
            Token::P5C => "5C",
            Token::P5D => "5D",
            Token::P5H => "5H",
            Token::P5S => "5S",
            Token::P6C => "6C",
            Token::P6D => "6D",
            Token::P6H => "6H",
            Token::P6S => "6S",
            Token::P7C => "7C",
            Token::P7D => "7D",
            Token::P7H => "7H",
            Token::P7S => "7S",
            Token::P8C => "8C",
            Token::P8D => "8D",
            Token::P8H => "8H",
            Token::P8S => "8S",
            Token::P9C => "9C",
            Token::P9D => "9D",
            Token::P9H => "9H",
            Token::P9S => "9S",
            Token::TC => "TC",
            Token::TD => "TD",
            Token::TH => "TH",
            Token::TS => "TS",
            Token::JC => "JC",
            Token::JD => "JD",
            Token::JH => "JH",
            Token::JS => "JS",
            Token::QC => "QC",
            Token::QD => "QD",
            Token::QH => "QH",
            Token::QS => "QS",
            Token::KC => "KC",
            Token::KD => "KD",
            Token::KH => "KH",
            Token::KS => "KS",
            Token::J0 => "J0",
            Token::J1 => "J1",
        }
    }

    /// Reads one atom. Parsing is strict: anything but the exact spelling of
    /// an atom is refused.
    pub fn parse(token: &str) -> (r: Option<Self>)
        ensures
            r == Token::spelled(token@),
    {
        let word = chars_of(token);
        Token::parse_word(&word)
    }

    pub(crate) fn parse_word(word: &Vec<char>) -> (r: Option<Self>)
        ensures
            r == Token::spelled(word@),
    {
        let r = Token::match_word(word);
        proof {
            lemma_spelling_is_injective();
            if let Some(t) = r {
                assert(Token::spelled(t.spelling()) == Some(t));
            }
        }
        r
    }

    fn match_word(word: &Vec<char>) -> (r: Option<Self>)
        ensures
            match r {
                Some(t) => t.spelling() == word@,
                None => forall|t: Token| t.spelling() != word@,
            },
    {
        if word_is(word, "V1") {
            return Some(Token::V1);
        }
        if word_is(word, "CUTTHROAT3P") {
            return Some(Token::Cutthroat3P);
        }
        if word_is(word, "DEALER") {
            return Some(Token::Dealer);
        }
        if word_is(word, "DECK") {
            return Some(Token::Deck);
        }
        if word_is(word, "ENDDECK") {
            return Some(Token::EndDeck);
        }
        if word_is(word, "UNKNOWN") {
            return Some(Token::Unknown);
        }
        if word_is(word, "P0") {
            return Some(Token::P0);
        }
        if word_is(word, "P1") {
            return Some(Token::P1);
        }
        if word_is(word, "P2") {
            return Some(Token::P2);
        }
        if word_is(word, "P3") {
            return Some(Token::P3);
        }
        if word_is(word, "draw") {
            return Some(Token::Draw);
        }
        if word_is(word, "pass") {
            return Some(Token::Pass);
        }
        if word_is(word, "points") {
            return Some(Token::Points);
        }
        if word_is(word, "scuttle") {
            return Some(Token::Scuttle);
        }
        if word_is(word, "playRoyal") {
            return Some(Token::PlayRoyal);
        }
        if word_is(word, "oneOff") {
            return Some(Token::OneOff);
        }
        if word_is(word, "counter") {
            return Some(Token::Counter);
        }
        if word_is(word, "resolve") {
            return Some(Token::Resolve);
        }
        if word_is(word, "discard") {
            return Some(Token::Discard);
        }
        if word_is(word, "AC") {
            return Some(Token::AC);
        }
        if word_is(word, "AD") {
            return Some(Token::AD);
        }
        if word_is(word, "AH") {
            return Some(Token::AH);
        }
        if word_is(word, "AS") {
            return Some(Token::AS);
        }
        if word_is(word, "2C") {
            return Some(Token::P2C);
        }
        if word_is(word, "2D") {
            return Some(Token::P2D);
        }
        if word_is(word, "2H") {
            return Some(Token::P2H);
        }
        if word_is(word, "2S") {
            return Some(Token::P2S);
        }
        if word_is(word, "3C") {
            return Some(Token::P3C);
        }
        if word_is(word, "3D") {
            return Some(Token::P3D);
        }
        if word_is(word, "3H") {
            return Some(Token::P3H);
        }
        if word_is(word, "3S") {
            return Some(Token::P3S);
        }
        if word_is(word, "4C") {
            return Some(Token::P4C);
        }
        if word_is(word, "4D") {
            return Some(Token::P4D);
        }
        if word_is(word, "4H") {
            return Some(Token::P4H);
        }
        if word_is(word, "4S") {
            return Some(Token::P4S);
        }
        if word_is(word, "5C") {
            return Some(Token::P5C);
        }
        if word_is(word, "5D") {
            return Some(Token::P5D);
        }
        if word_is(word, "5H") {
            return Some(Token::P5H);
        }
        if word_is(word, "5S") {
            return Some(Token::P5S);
        }
        if word_is(word, "6C") {
            return Some(Token::P6C);
        }
        if word_is(word, "6D") {
            return Some(Token::P6D);
        }
        if word_is(word, "6H") {
            return Some(Token::P6H);
        }
        if word_is(word, "6S") {
            return Some(Token::P6S);
        }
        if word_is(word, "7C") {
            return Some(Token::P7C);
        }
        if word_is(word, "7D") {
            return Some(Token::P7D);
        }
        if word_is(word, "7H") {
            return Some(Token::P7H);
        }
        if word_is(word, "7S") {
            return Some(Token::P7S);
        }
        if word_is(word, "8C") {
            return Some(Token::P8C);
        }
        if word_is(word, "8D") {
            return Some(Token::P8D);
        }
        if word_is(word, "8H") {
            return Some(Token::P8H);
        }
        if word_is(word, "8S") {
            return Some(Token::P8S);
        }
        if word_is(word, "9C") {
            return Some(Token::P9C);
        }
        if word_is(word, "9D") {
            return Some(Token::P9D);
        }
        if word_is(word, "9H") {
            return Some(Token::P9H);
        }
        if word_is(word, "9S") {
            return Some(Token::P9S);
        }
        if word_is(word, "TC") {
            return Some(Token::TC);
        }
        if word_is(word, "TD") {
            return Some(Token::TD);
        }
        if word_is(word, "TH") {
            return Some(Token::TH);
        }
        if word_is(word, "TS") {
            return Some(Token::TS);
        }
        if word_is(word, "JC") {
            return Some(Token::JC);
        }
        if word_is(word, "JD") {
            return Some(Token::JD);
        }
        if word_is(word, "JH") {
            return Some(Token::JH);
        }
        if word_is(word, "JS") {
            return Some(Token::JS);
        }
        if word_is(word, "QC") {
            return Some(Token::QC);
        }
        if word_is(word, "QD") {
            return Some(Token::QD);
        }
        if word_is(word, "QH") {
            return Some(Token::QH);
        }
        if word_is(word, "QS") {
            return Some(Token::QS);
        }
        if word_is(word, "KC") {
            return Some(Token::KC);
        }
        if word_is(word, "KD") {
            return Some(Token::KD);
        }
        if word_is(word, "KH") {
            return Some(Token::KH);
        }
        if word_is(word, "KS") {
            return Some(Token::KS);
        }
        if word_is(word, "J0") {
            return Some(Token::J0);
        }
        if word_is(word, "J1") {
            return Some(Token::J1);
        }
        assert forall|t: Token| t.spelling() != word@ by {
            match t {
                Token::V1 => {},
                Token::Cutthroat3P => {},
                Token::Dealer => {},
                Token::Deck => {},
                Token::EndDeck => {},
                Token::Unknown => {},
                Token::P0 => {},
                Token::P1 => {},
                Token::P2 => {},
                Token::P3 => {},
                Token::Draw => {},
                Token::Pass => {},
                Token::Points => {},
                Token::Scuttle => {},
                Token::PlayRoyal => {},
                Token::OneOff => {},
                Token::Counter => {},
                Token::Resolve => {},
                Token::Discard => {},
                Token::AC => {},
                Token::AD => {},
                Token::AH => {},
                Token::AS => {},
                Token::P2C => {},
                Token::P2D => {},
                Token::P2H => {},
                Token::P2S => {},
                Token::P3C => {},
                Token::P3D => {},
                Token::P3H => {},
                Token::P3S => {},
                Token::P4C => {},
                Token::P4D => {},
                Token::P4H => {},
                Token::P4S => {},
                Token::P5C => {},
                Token::P5D => {},
                Token::P5H => {},
                Token::P5S => {},
                Token::P6C => {},
                Token::P6D => {},
                Token::P6H => {},
                Token::P6S => {},
                Token::P7C => {},
                Token::P7D => {},
                Token::P7H => {},
                Token::P7S => {},
                Token::P8C => {},
                Token::P8D => {},
                Token::P8H => {},
                Token::P8S => {},
                Token::P9C => {},
                Token::P9D => {},
                Token::P9H => {},
                Token::P9S => {},
                Token::TC => {},
                Token::TD => {},
                Token::TH => {},
                Token::TS => {},
                Token::JC => {},
                Token::JD => {},
                Token::JH => {},
                Token::JS => {},
                Token::QC => {},
                Token::QD => {},
                Token::QH => {},
                Token::QS => {},
                Token::KC => {},
                Token::KD => {},
                Token::KH => {},
                Token::KS => {},
                Token::J0 => {},
                Token::J1 => {},
            }
        }
        None
    }

    #[verifier::when_used_as_spec(spec_is_verb)]
    pub fn is_verb(self) -> (b: bool)
        ensures
            b == self.spec_is_verb(),
    {
        match self {
            Token::Draw
            | Token::Pass
            | Token::Points
            | Token::Scuttle
            | Token::PlayRoyal
            | Token::OneOff
            | Token::Counter
            | Token::Resolve
            | Token::Discard => true,
            _ => false,
        }
    }

    pub fn is_seat(self) -> (b: bool)
        ensures
            b == self.spec_seat().is_some(),
    {
        match self {
            Token::P0 | Token::P1 | Token::P2 | Token::P3 => true,
            _ => false,
        }
    }

    #[verifier::when_used_as_spec(spec_seat)]
    pub fn seat(self) -> (r: Option<Seat>)
        ensures
            r == self.spec_seat(),
    {
        match self {
            Token::P0 => Some(0),
            Token::P1 => Some(1),
            Token::P2 => Some(2),
            Token::P3 => Some(3),
            _ => None,
        }
    }

    /// The atom that names a seat; only the seats 0 to 3 have one.
    pub fn from_seat(seat: Seat) -> (r: Option<Self>)
        ensures
            match r {
                Some(t) => t.spec_seat() == Some(seat),
                None => seat > 3,
            },
    {
        match seat {
            0 => Some(Token::P0),
            1 => Some(Token::P1),
            2 => Some(Token::P2),
            3 => Some(Token::P3),
            _ => None,
        }
    }

    #[verifier::when_used_as_spec(spec_card)]
    pub fn card(self) -> (r: Option<Card>)
        ensures
            r == self.spec_card(),
    {
        match self {
            Token::J0 => Some(Card::Joker(0)),
            Token::J1 => Some(Card::Joker(1)),
            Token::AC => Some(Card::Standard { rank: Rank::Ace, suit: Suit::Clubs }),
            Token::AD => Some(Card::Standard { rank: Rank::Ace, suit: Suit::Diamonds }),
            Token::AH => Some(Card::Standard { rank: Rank::Ace, suit: Suit::Hearts }),
            Token::AS => Some(Card::Standard { rank: Rank::Ace, suit: Suit::Spades }),
            Token::P2C => Some(Card::Standard { rank: Rank::Two, suit: Suit::Clubs }),
            Token::P2D => Some(Card::Standard { rank: Rank::Two, suit: Suit::Diamonds }),
            Token::P2H => Some(Card::Standard { rank: Rank::Two, suit: Suit::Hearts }),
            Token::P2S => Some(Card::Standard { rank: Rank::Two, suit: Suit::Spades }),
            Token::P3C => Some(Card::Standard { rank: Rank::Three, suit: Suit::Clubs }),
            Token::P3D => Some(Card::Standard { rank: Rank::Three, suit: Suit::Diamonds }),
            Token::P3H => Some(Card::Standard { rank: Rank::Three, suit: Suit::Hearts }),
            Token::P3S => Some(Card::Standard { rank: Rank::Three, suit: Suit::Spades }),
            Token::P4C => Some(Card::Standard { rank: Rank::Four, suit: Suit::Clubs }),
            Token::P4D => Some(Card::Standard { rank: Rank::Four, suit: Suit::Diamonds }),
            Token::P4H => Some(Card::Standard { rank: Rank::Four, suit: Suit::Hearts }),
            Token::P4S => Some(Card::Standard { rank: Rank::Four, suit: Suit::Spades }),
            Token::P5C => Some(Card::Standard { rank: Rank::Five, suit: Suit::Clubs }),
            Token::P5D => Some(Card::Standard { rank: Rank::Five, suit: Suit::Diamonds }),
            Token::P5H => Some(Card::Standard { rank: Rank::Five, suit: Suit::Hearts }),
            Token::P5S => Some(Card::Standard { rank: Rank::Five, suit: Suit::Spades }),
            Token::P6C => Some(Card::Standard { rank: Rank::Six, suit: Suit::Clubs }),
            Token::P6D => Some(Card::Standard { rank: Rank::Six, suit: Suit::Diamonds }),
            Token::P6H => Some(Card::Standard { rank: Rank::Six, suit: Suit::Hearts }),
            Token::P6S => Some(Card::Standard { rank: Rank::Six, suit: Suit::Spades }),
            Token::P7C => Some(Card::Standard { rank: Rank::Seven, suit: Suit::Clubs }),
            Token::P7D => Some(Card::Standard { rank: Rank::Seven, suit: Suit::Diamonds }),
            Token::P7H => Some(Card::Standard { rank: Rank::Seven, suit: Suit::Hearts }),
            Token::P7S => Some(Card::Standard { rank: Rank::Seven, suit: Suit::Spades }),
            Token::P8C => Some(Card::Standard { rank: Rank::Eight, suit: Suit::Clubs }),
            Token::P8D => Some(Card::Standard { rank: Rank::Eight, suit: Suit::Diamonds }),
            Token::P8H => Some(Card::Standard { rank: Rank::Eight, suit: Suit::Hearts }),
            Token::P8S => Some(Card::Standard { rank: Rank::Eight, suit: Suit::Spades }),
            Token::P9C => Some(Card::Standard { rank: Rank::Nine, suit: Suit::Clubs }),
            Token::P9D => Some(Card::Standard { rank: Rank::Nine, suit: Suit::Diamonds }),
            Token::P9H => Some(Card::Standard { rank: Rank::Nine, suit: Suit::Hearts }),
            Token::P9S => Some(Card::Standard { rank: Rank::Nine, suit: Suit::Spades }),
            Token::TC => Some(Card::Standard { rank: Rank::Ten, suit: Suit::Clubs }),
            Token::TD => Some(Card::Standard { rank: Rank::Ten, suit: Suit::Diamonds }),
            Token::TH => Some(Card::Standard { rank: Rank::Ten, suit: Suit::Hearts }),
            Token::TS => Some(Card::Standard { rank: Rank::Ten, suit: Suit::Spades }),
            Token::JC => Some(Card::Standard { rank: Rank::Jack, suit: Suit::Clubs }),
            Token::JD => Some(Card::Standard { rank: Rank::Jack, suit: Suit::Diamonds }),
            Token::JH => Some(Card::Standard { rank: Rank::Jack, suit: Suit::Hearts }),
            Token::JS => Some(Card::Standard { rank: Rank::Jack, suit: Suit::Spades }),
            Token::QC => Some(Card::Standard { rank: Rank::Queen, suit: Suit::Clubs }),
            Token::QD => Some(Card::Standard { rank: Rank::Queen, suit: Suit::Diamonds }),
            Token::QH => Some(Card::Standard { rank: Rank::Queen, suit: Suit::Hearts }),
            Token::QS => Some(Card::Standard { rank: Rank::Queen, suit: Suit::Spades }),
            Token::KC => Some(Card::Standard { rank: Rank::King, suit: Suit::Clubs }),
            Token::KD => Some(Card::Standard { rank: Rank::King, suit: Suit::Diamonds }),
            Token::KH => Some(Card::Standard { rank: Rank::King, suit: Suit::Hearts }),
            Token::KS => Some(Card::Standard { rank: Rank::King, suit: Suit::Spades }),
            _ => None,
        }
    }

    pub fn from_card(card: Card) -> (t: Token)
        ensures
            t == Token::of_card(card),
    {
        match card {
            Card::Joker(i) => if i == 1 {
                Token::J1
            } else {
                Token::J0
            },
            Card::Standard { rank, suit } => match (rank, suit) {
                (Rank::Ace, Suit::Clubs) => Token::AC,
                (Rank::Ace, Suit::Diamonds) => Token::AD,
                (Rank::Ace, Suit::Hearts) => Token::AH,
                (Rank::Ace, Suit::Spades) => Token::AS,
                (Rank::Two, Suit::Clubs) => Token::P2C,
                (Rank::Two, Suit::Diamonds) => Token::P2D,
                (Rank::Two, Suit::Hearts) => Token::P2H,
                (Rank::Two, Suit::Spades) => Token::P2S,
                (Rank::Three, Suit::Clubs) => Token::P3C,
                (Rank::Three, Suit::Diamonds) => Token::P3D,
                (Rank::Three, Suit::Hearts) => Token::P3H,
                (Rank::Three, Suit::Spades) => Token::P3S,
                (Rank::Four, Suit::Clubs) => Token::P4C,
                (Rank::Four, Suit::Diamonds) => Token::P4D,
                (Rank::Four, Suit::Hearts) => Token::P4H,
                (Rank::Four, Suit::Spades) => Token::P4S,
                (Rank::Five, Suit::Clubs) => Token::P5C,
                (Rank::Five, Suit::Diamonds) => Token::P5D,
                (Rank::Five, Suit::Hearts) => Token::P5H,
                (Rank::Five, Suit::Spades) => Token::P5S,
                (Rank::Six, Suit::Clubs) => Token::P6C,
                (Rank::Six, Suit::Diamonds) => Token::P6D,
                (Rank::Six, Suit::Hearts) => Token::P6H,
                (Rank::Six, Suit::Spades) => Token::P6S,
                (Rank::Seven, Suit::Clubs) => Token::P7C,
                (Rank::Seven, Suit::Diamonds) => Token::P7D,
                (Rank::Seven, Suit::Hearts) => Token::P7H,
                (Rank::Seven, Suit::Spades) => Token::P7S,
                (Rank::Eight, Suit::Clubs) => Token::P8C,
                (Rank::Eight, Suit::Diamonds) => Token::P8D,
                (Rank::Eight, Suit::Hearts) => Token::P8H,
                (Rank::Eight, Suit::Spades) => Token::P8S,
                (Rank::Nine, Suit::Clubs) => Token::P9C,
                (Rank::Nine, Suit::Diamonds) => Token::P9D,
                (Rank::Nine, Suit::Hearts) => Token::P9H,
                (Rank::Nine, Suit::Spades) => Token::P9S,
                (Rank::Ten, Suit::Clubs) => Token::TC,
                (Rank::Ten, Suit::Diamonds) => Token::TD,
                (Rank::Ten, Suit::Hearts) => Token::TH,
                (Rank::Ten, Suit::Spades) => Token::TS,
                (Rank::Jack, Suit::Clubs) => Token::JC,
                (Rank::Jack, Suit::Diamonds) => Token::JD,
                (Rank::Jack, Suit::Hearts) => Token::JH,
                (Rank::Jack, Suit::Spades) => Token::JS,
                (Rank::Queen, Suit::Clubs) => Token::QC,
                (Rank::Queen, Suit::Diamonds) => Token::QD,
                (Rank::Queen, Suit::Hearts) => Token::QH,
                (Rank::Queen, Suit::Spades) => Token::QS,
                (Rank::King, Suit::Clubs) => Token::KC,
                (Rank::King, Suit::Diamonds) => Token::KD,
                (Rank::King, Suit::Hearts) => Token::KH,
                (Rank::King, Suit::Spades) => Token::KS,
            },
        }
    }
}

impl std::str::FromStr for Token {
    type Err = ();

    fn from_str(token: &str) -> (r: Result<Self, ()>)
        ensures
            match r {
                Ok(t) => Token::spelled(token@) == Some(t),
                Err(_) => Token::spelled(token@) is None,
            },
    {
        match Token::parse(token) {
            Some(t) => Ok(t),
            None => Err(()),
        }
    }
}

/// No two atoms are spelled alike.
pub proof fn lemma_spelling_is_injective()
    ensures
        forall|a: Token, b: Token| a.spelling() == b.spelling() ==> a == b,
        forall|t: Token| #[trigger] Token::spelled(t.spelling()) == Some(t),
{
    lemma_spelling_shape();
    assert forall|a: Token, b: Token| a.spelling() == b.spelling() implies a == b by {
        assert(shape(a.spelling()) == shape(b.spelling()));
    }
}

/// Length and first two characters of a spelling: enough to tell any two
/// atoms apart.
spec fn shape(s: Seq<char>) -> (nat, char, char) {
    (s.len(), s[0], s[1])
}

spec fn shape_of(t: Token) -> (nat, char, char) {
    match t {
        Token::V1 => (2, 'V', '1'),
        Token::Cutthroat3P => (11, 'C', 'U'),
        Token::Dealer => (6, 'D', 'E'),
        Token::Deck => (4, 'D', 'E'),
        Token::EndDeck => (7, 'E', 'N'),
        Token::Unknown => (7, 'U', 'N'),
        Token::P0 => (2, 'P', '0'),
        Token::P1 => (2, 'P', '1'),
        Token::P2 => (2, 'P', '2'),
        Token::P3 => (2, 'P', '3'),
        Token::Draw => (4, 'd', 'r'),
        Token::Pass => (4, 'p', 'a'),
        Token::Points => (6, 'p', 'o'),
        Token::Scuttle => (7, 's', 'c'),
        Token::PlayRoyal => (9, 'p', 'l'),
        Token::OneOff => (6, 'o', 'n'),
        Token::Counter => (7, 'c', 'o'),
        Token::Resolve => (7, 'r', 'e'),
        Token::Discard => (7, 'd', 'i'),
        Token::AC => (2, 'A', 'C'),
        Token::AD => (2, 'A', 'D'),
        Token::AH => (2, 'A', 'H'),
        Token::AS => (2, 'A', 'S'),
        Token::P2C => (2, '2', 'C'),
        Token::P2D => (2, '2', 'D'),
        Token::P2H => (2, '2', 'H'),
        Token::P2S => (2, '2', 'S'),
        Token::P3C => (2, '3', 'C'),
        Token::P3D => (2, '3', 'D'),
        Token::P3H => (2, '3', 'H'),
        Token::P3S => (2, '3', 'S'),
        Token::P4C => (2, '4', 'C'),
        Token::P4D => (2, '4', 'D'),
        Token::P4H => (2, '4', 'H'),
        Token::P4S => (2, '4', 'S'),
        Token::P5C => (2, '5', 'C'),
        Token::P5D => (2, '5', 'D'),
        Token::P5H => (2, '5', 'H'),
        Token::P5S => (2, '5', 'S'),
        Token::P6C => (2, '6', 'C'),
        Token::P6D => (2, '6', 'D'),
        Token::P6H => (2, '6', 'H'),
        Token::P6S => (2, '6', 'S'),
        Token::P7C => (2, '7', 'C'),
        Token::P7D => (2, '7', 'D'),
        Token::P7H => (2, '7', 'H'),
        Token::P7S => (2, '7', 'S'),
        Token::P8C => (2, '8', 'C'),
        Token::P8D => (2, '8', 'D'),
        Token::P8H => (2, '8', 'H'),
        Token::P8S => (2, '8', 'S'),
        Token::P9C => (2, '9', 'C'),
        Token::P9D => (2, '9', 'D'),
        Token::P9H => (2, '9', 'H'),
        Token::P9S => (2, '9', 'S'),
        Token::TC => (2, 'T', 'C'),
        Token::TD => (2, 'T', 'D'),
        Token::TH => (2, 'T', 'H'),
        Token::TS => (2, 'T', 'S'),
        Token::JC => (2, 'J', 'C'),
        Token::JD => (2, 'J', 'D'),
        Token::JH => (2, 'J', 'H'),
        Token::JS => (2, 'J', 'S'),
        Token::QC => (2, 'Q', 'C'),
        Token::QD => (2, 'Q', 'D'),
        Token::QH => (2, 'Q', 'H'),
        Token::QS => (2, 'Q', 'S'),
        Token::KC => (2, 'K', 'C'),
        Token::KD => (2, 'K', 'D'),
        Token::KH => (2, 'K', 'H'),
        Token::KS => (2, 'K', 'S'),
        Token::J0 => (2, 'J', '0'),
        Token::J1 => (2, 'J', '1'),
    }
}

proof fn lemma_spelling_shape()
    ensures
        forall|t: Token| #[trigger] shape(t.spelling()) == shape_of(t),
{
    reveal_strlit("V1");
    reveal_strlit("CUTTHROAT3P");
    reveal_strlit("DEALER");
    reveal_strlit("DECK");
    reveal_strlit("ENDDECK");
    reveal_strlit("UNKNOWN");
    reveal_strlit("P0");
    reveal_strlit("P1");
    reveal_strlit("P2");
    reveal_strlit("P3");
    reveal_strlit("draw");
    reveal_strlit("pass");
    reveal_strlit("points");
    reveal_strlit("scuttle");
    reveal_strlit("playRoyal");
    reveal_strlit("oneOff");
    reveal_strlit("counter");
    reveal_strlit("resolve");
    reveal_strlit("discard");
    reveal_strlit("AC");
    reveal_strlit("AD");
    reveal_strlit("AH");
    reveal_strlit("AS");
    reveal_strlit("2C");
    reveal_strlit("2D");
    reveal_strlit("2H");
    reveal_strlit("2S");
    reveal_strlit("3C");
    reveal_strlit("3D");
    reveal_strlit("3H");
    reveal_strlit("3S");
    reveal_strlit("4C");
    reveal_strlit("4D");
    reveal_strlit("4H");
    reveal_strlit("4S");
    reveal_strlit("5C");
    reveal_strlit("5D");
    reveal_strlit("5H");
    reveal_strlit("5S");
    reveal_strlit("6C");
    reveal_strlit("6D");
    reveal_strlit("6H");
    reveal_strlit("6S");
    reveal_strlit("7C");
    reveal_strlit("7D");
    reveal_strlit("7H");
    reveal_strlit("7S");
    reveal_strlit("8C");
    reveal_strlit("8D");
    reveal_strlit("8H");
    reveal_strlit("8S");
    reveal_strlit("9C");
    reveal_strlit("9D");
    reveal_strlit("9H");
    reveal_strlit("9S");
    reveal_strlit("TC");
    reveal_strlit("TD");
    reveal_strlit("TH");
    reveal_strlit("TS");
    reveal_strlit("JC");
    reveal_strlit("JD");
    reveal_strlit("JH");
    reveal_strlit("JS");
    reveal_strlit("QC");
    reveal_strlit("QD");
    reveal_strlit("QH");
    reveal_strlit("QS");
    reveal_strlit("KC");
    reveal_strlit("KD");
    reveal_strlit("KH");
    reveal_strlit("KS");
    reveal_strlit("J0");
    reveal_strlit("J1");
}

/// No atom is spelled with nothing, and none holds a whitespace character.
pub proof fn lemma_spelling_is_a_word(t: Token)
    ensures
        t.spelling().len() > 0,
        forall|i: int| 0 <= i < t.spelling().len() ==> !spec_is_space(#[trigger] t.spelling()[i]),
{
    reveal_strlit("V1");
    reveal_strlit("CUTTHROAT3P");
    reveal_strlit("DEALER");
    reveal_strlit("DECK");
    reveal_strlit("ENDDECK");
    reveal_strlit("UNKNOWN");
    reveal_strlit("P0");
    reveal_strlit("P1");
    reveal_strlit("P2");
    reveal_strlit("P3");
    reveal_strlit("draw");
    reveal_strlit("pass");
    reveal_strlit("points");
    reveal_strlit("scuttle");
    reveal_strlit("playRoyal");
    reveal_strlit("oneOff");
    reveal_strlit("counter");
    reveal_strlit("resolve");
    reveal_strlit("discard");
    reveal_strlit("AC");
    reveal_strlit("AD");
    reveal_strlit("AH");
    reveal_strlit("AS");
    reveal_strlit("2C");
    reveal_strlit("2D");
    reveal_strlit("2H");
    reveal_strlit("2S");
    reveal_strlit("3C");
    reveal_strlit("3D");
    reveal_strlit("3H");
    reveal_strlit("3S");
    reveal_strlit("4C");
    reveal_strlit("4D");
    reveal_strlit("4H");
    reveal_strlit("4S");
    reveal_strlit("5C");
    reveal_strlit("5D");
    reveal_strlit("5H");
    reveal_strlit("5S");
    reveal_strlit("6C");
    reveal_strlit("6D");
    reveal_strlit("6H");
    reveal_strlit("6S");
    reveal_strlit("7C");
    reveal_strlit("7D");
    reveal_strlit("7H");
    reveal_strlit("7S");
    reveal_strlit("8C");
    reveal_strlit("8D");
    reveal_strlit("8H");
    reveal_strlit("8S");
    reveal_strlit("9C");
    reveal_strlit("9D");
    reveal_strlit("9H");
    reveal_strlit("9S");
    reveal_strlit("TC");
    reveal_strlit("TD");
    reveal_strlit("TH");
    reveal_strlit("TS");
    reveal_strlit("JC");
    reveal_strlit("JD");
    reveal_strlit("JH");
    reveal_strlit("JS");
    reveal_strlit("QC");
    reveal_strlit("QD");
    reveal_strlit("QH");
    reveal_strlit("QS");
    reveal_strlit("KC");
    reveal_strlit("KD");
    reveal_strlit("KH");
    reveal_strlit("KS");
    reveal_strlit("J0");
    reveal_strlit("J1");
}

/// Card atoms and cards correspond one to one: the atom of a card of the game
/// names that card, and a card atom is the atom of the card it names.
pub proof fn lemma_card_atoms_are_a_bijection()
    ensures
        forall|c: Card| c.in_deck() ==> #[trigger] Token::of_card(c).spec_card() == Some(c),
        forall|t: Token| t.spec_card().is_some() ==> Token::of_card(#[trigger] t.spec_card().unwrap()) == t,
        forall|t: Token| t.spec_card().is_some() ==> (#[trigger] t.spec_card()).unwrap().in_deck(),
{
}

/// The atom of a standard card is spelled with the letter of its rank and
/// the letter of its suit.
pub proof fn lemma_card_atom_spelling(rank: Rank, suit: Suit)
    ensures
        Token::of_card(Card::Standard { rank, suit }).spelling() == seq![
            rank.spec_to_char(),
            suit.spec_to_char(),
        ],
{
    reveal_strlit("AC");
    reveal_strlit("AD");
    reveal_strlit("AH");
    reveal_strlit("AS");
    reveal_strlit("2C");
    reveal_strlit("2D");
    reveal_strlit("2H");
    reveal_strlit("2S");
    reveal_strlit("3C");
    reveal_strlit("3D");
    reveal_strlit("3H");
    reveal_strlit("3S");
    reveal_strlit("4C");
    reveal_strlit("4D");
    reveal_strlit("4H");
    reveal_strlit("4S");
    reveal_strlit("5C");
    reveal_strlit("5D");
    reveal_strlit("5H");
    reveal_strlit("5S");
    reveal_strlit("6C");
    reveal_strlit("6D");
    reveal_strlit("6H");
    reveal_strlit("6S");
    reveal_strlit("7C");
    reveal_strlit("7D");
    reveal_strlit("7H");
    reveal_strlit("7S");
    reveal_strlit("8C");
    reveal_strlit("8D");
    reveal_strlit("8H");
    reveal_strlit("8S");
    reveal_strlit("9C");
    reveal_strlit("9D");
    reveal_strlit("9H");
    reveal_strlit("9S");
    reveal_strlit("TC");
    reveal_strlit("TD");
    reveal_strlit("TH");
    reveal_strlit("TS");
    reveal_strlit("JC");
    reveal_strlit("JD");
    reveal_strlit("JH");
    reveal_strlit("JS");
    reveal_strlit("QC");
    reveal_strlit("QD");
    reveal_strlit("QH");
    reveal_strlit("QS");
    reveal_strlit("KC");
    reveal_strlit("KD");
    reveal_strlit("KH");
    reveal_strlit("KS");
    assert(Token::of_card(Card::Standard { rank, suit }).spelling() =~= seq![
        rank.spec_to_char(),
        suit.spec_to_char(),
    ]);
}

/// The characters that separate atoms: those with Unicode's White_Space
/// property.
pub open spec fn spec_is_space(c: char) -> bool {
    let n = c as u32;
    (0x09 <= n <= 0x0D) || n == 0x20 || n == 0x85 || n == 0xA0 || n == 0x1680 || (0x2000 <= n
        <= 0x200A) || n == 0x2028 || n == 0x2029 || n == 0x202F || n == 0x205F || n == 0x3000
}

#[verifier::when_used_as_spec(spec_is_space)]
pub(crate) fn is_space(c: char) -> (b: bool)
    ensures
        b == spec_is_space(c),
{
    let n = c as u32;
    (0x09 <= n && n <= 0x0D) || n == 0x20 || n == 0x85 || n == 0xA0 || n == 0x1680 || (0x2000 <= n
        && n <= 0x200A) || n == 0x2028 || n == 0x2029 || n == 0x202F || n == 0x205F || n == 0x3000
}

/// The words that a left-to-right scan still yields when `word` is the word
/// begun so far and `rest` is yet to be read.
pub open spec fn words_from(word: Seq<char>, rest: Seq<char>) -> Seq<Seq<char>>
    decreases rest.len(),
{
    if rest.len() == 0 {
        if word.len() == 0 {
            seq![]
        } else {
            seq![word]
        }
    } else if spec_is_space(rest[0]) {
        if word.len() == 0 {
            words_from(word, rest.drop_first())
        } else {
            seq![word] + words_from(Seq::empty(), rest.drop_first())
        }
    } else {
        words_from(word.push(rest[0]), rest.drop_first())
    }
}

/// The maximal runs of characters other than whitespace, in order.
pub open spec fn words(text: Seq<char>) -> Seq<Seq<char>> {
    words_from(Seq::empty(), text)
}

/// The atoms joined by single spaces.
pub open spec fn joined(tokens: Seq<Token>) -> Seq<char>
    decreases tokens.len(),
{
    if tokens.len() == 0 {
        Seq::empty()
    } else if tokens.len() == 1 {
        tokens[0].spelling()
    } else {
        joined(tokens.drop_last()) + seq![' '] + tokens.last().spelling()
    }
}

/// The spellings of a sequence of atoms.
pub open spec fn spellings(tokens: Seq<Token>) -> Seq<Seq<char>> {
    tokens.map_values(|t: Token| t.spelling())
}

/// What a text reads as: its atoms, if every word of it spells one.
pub open spec fn atoms_of(text: Seq<char>) -> Option<Seq<Token>> {
    let ws = words(text);
    if forall|i: int| 0 <= i < ws.len() ==> (#[trigger] Token::spelled(ws[i])).is_some() {
        Some(ws.map_values(|w: Seq<char>| Token::spelled(w).unwrap()))
    } else {
        None
    }
}

pub(crate) fn chars_of(s: &str) -> (v: Vec<char>)
    ensures
        v@ == s@,
{
    let mut v: Vec<char> = Vec::new();
    for c in it: s.chars()
        invariant
            it.seq() == s@,
            v@ == it.seq().take(it.index()),
    {
        v.push(c);
        assert(v@ =~= it.seq().take(it.index() + 1));
    }
    assert(v@ =~= s@);
    v
}

fn word_is(word: &Vec<char>, text: &str) -> (b: bool)
    ensures
        b == (word@ == text@),
{
    let n = text.unicode_len();
    if word.len() != n {
        return false;
    }
    let mut i: usize = 0;
    while i < n
        invariant
            i <= n,
            n == text@.len(),
            n == word@.len(),
            forall|j: int| 0 <= j < i ==> word@[j] == text@[j],
        decreases n - i,
    {
        if word[i] != text.get_char(i) {
            return false;
        }
        i = i + 1;
    }
    assert(word@ =~= text@);
    true
}

pub fn join_tokens(tokens: &[Token]) -> (out: String)
    ensures
        out@ == joined(tokens@),
{
    let mut out = String::new();
    let mut idx: usize = 0;
    while idx < tokens.len()
        invariant
            idx <= tokens.len(),
            out@ == joined(tokens@.take(idx as int)),
        decreases tokens.len() - idx,
    {
        if idx > 0 {
            out.append(" ");
        }
        out.append(tokens[idx].as_str());
        proof {
            reveal_strlit(" ");
            let next = tokens@.take(idx + 1);
            assert(next.drop_last() =~= tokens@.take(idx as int));
            assert(" "@ =~= seq![' ']);
            if idx == 0 {
                assert(out@ =~= next[0].spelling());
            }
        }
        idx = idx + 1;
    }
    assert(tokens@.take(tokens.len() as int) =~= tokens@);
    out
}

pub fn parse_token_slice(input: &str) -> (r: Option<Vec<Token>>)
    ensures
        match r {
            Some(tokens) => atoms_of(input@) == Some(tokens@),
            None => atoms_of(input@).is_none(),
        },
{
    let mut out: Vec<Token> = Vec::new();
    let mut word: Vec<char> = Vec::new();
    let ghost mut done: Seq<Seq<char>> = Seq::empty();
    proof {
        assert(input@.skip(0) =~= input@);
        assert(done + words_from(word@, input@) =~= words_from(word@, input@));
        assert(word@ =~= Seq::empty());
    }
    for c in it: input.chars()
        invariant
            it.seq() == input@,
            words(input@) == done + words_from(word@, input@.skip(it.index())),
            done.len() == out@.len(),
            forall|i: int| 0 <= i < done.len() ==> Token::spelled(#[trigger] done[i]) == Some(out@[i]),
    {
        let ghost rest = input@.skip(it.index());
        assert(rest.len() > 0 && rest[0] == c);
        assert(rest.drop_first() =~= input@.skip(it.index() + 1));
        if is_space(c) {
            if word.len() > 0 {
                let ghost w = word@;
                match Token::parse_word(&word) {
                    Some(t) => {
                        out.push(t);
                    },
                    None => {
                        proof {
                            let ws = words(input@);
                            assert(ws[done.len() as int] == w);
                        }
                        return None;
                    },
                }
                proof {
                    done = done.push(w);
                    assert(seq![w] + words_from(Seq::empty(), rest.drop_first()) =~= seq![w]
                        + words_from(Seq::empty(), input@.skip(it.index() + 1)));
                    assert(words(input@) =~= done + words_from(
                        Seq::empty(),
                        input@.skip(it.index() + 1),
                    ));
                }
                word = Vec::new();
            }
        } else {
            word.push(c);
        }
    }
    proof {
        assert(input@.skip(input@.len() as int).len() == 0);
    }
    if word.len() > 0 {
        let ghost w = word@;
        match Token::parse_word(&word) {
            Some(t) => {
                out.push(t);
            },
            None => {
                proof {
                    let ws = words(input@);
                    assert(ws[done.len() as int] == w);
                }
                return None;
            },
        }
        proof {
            done = done.push(w);
        }
    }
    proof {
        let ws = words(input@);
        assert(ws =~= done);
        assert(ws.map_values(|w: Seq<char>| Token::spelled(w).unwrap()) =~= out@);
    }
    Some(out)
}

/// A run of characters without whitespace that is not empty.
pub open spec fn is_word(w: Seq<char>) -> bool {
    w.len() > 0 && forall|i: int| 0 <= i < w.len() ==> !spec_is_space(#[trigger] w[i])
}

/// A text without whitespace reads as one word, together with the word
/// begun before it.
pub proof fn lemma_words_from_word(word: Seq<char>, rest: Seq<char>)
    requires
        forall|i: int| 0 <= i < rest.len() ==> !spec_is_space(#[trigger] rest[i]),
    ensures
        words_from(word, rest) == if (word + rest).len() == 0 {
            Seq::<Seq<char>>::empty()
        } else {
            seq![word + rest]
        },
    decreases rest.len(),
{
    if rest.len() == 0 {
        assert(word + rest =~= word);
    } else {
        let tail = rest.drop_first();
        assert forall|i: int| 0 <= i < tail.len() implies !spec_is_space(#[trigger] tail[i]) by {
            assert(tail[i] == rest[i + 1]);
        }
        assert(!spec_is_space(rest[0]));
        lemma_words_from_word(word.push(rest[0]), tail);
        assert(word.push(rest[0]) + tail =~= word + rest);
    }
}

/// A space and a word after a text add that word to the words of the text.
pub proof fn lemma_words_from_more(word: Seq<char>, text: Seq<char>, w: Seq<char>)
    requires
        is_word(w),
    ensures
        words_from(word, text + seq![' '] + w) == words_from(word, text).push(w),
    decreases text.len(),
{
    let all = text + seq![' '] + w;
    if text.len() == 0 {
        assert(all.drop_first() =~= w);
        assert(all[0] == ' ');
        lemma_words_from_word(Seq::empty(), w);
        assert(Seq::<char>::empty() + w =~= w);
        if word.len() == 0 {
            lemma_words_from_word(word, w);
            assert(word + w =~= w);
            assert(words_from(word, text) =~= Seq::<Seq<char>>::empty());
            assert(Seq::<Seq<char>>::empty().push(w) =~= seq![w]);
        } else {
            assert(seq![word] + seq![w] =~= seq![word].push(w));
        }
    } else {
        let tail = text.drop_first();
        assert(all.drop_first() =~= tail + seq![' '] + w);
        assert(all[0] == text[0]);
        if spec_is_space(text[0]) {
            if word.len() == 0 {
                lemma_words_from_more(word, tail, w);
            } else {
                lemma_words_from_more(Seq::empty(), tail, w);
                assert(seq![word] + words_from(Seq::empty(), tail).push(w) =~= (seq![word]
                    + words_from(Seq::empty(), tail)).push(w));
            }
        } else {
            lemma_words_from_more(word.push(text[0]), tail, w);
        }
    }
}

/// The words of atoms joined by spaces are their spellings.
pub proof fn lemma_words_of_joined(tokens: Seq<Token>)
    ensures
        words(joined(tokens)) == spellings(tokens),
    decreases tokens.len(),
{
    if tokens.len() == 0 {
        assert(spellings(tokens) =~= Seq::<Seq<char>>::empty());
    } else if tokens.len() == 1 {
        lemma_spelling_is_a_word(tokens[0]);
        lemma_words_from_word(Seq::empty(), tokens[0].spelling());
        assert(Seq::<char>::empty() + tokens[0].spelling() =~= tokens[0].spelling());
        assert(spellings(tokens) =~= seq![tokens[0].spelling()]);
    } else {
        let init = tokens.drop_last();
        lemma_words_of_joined(init);
        lemma_spelling_is_a_word(tokens.last());
        lemma_words_from_more(Seq::empty(), joined(init), tokens.last().spelling());
        assert(spellings(init).push(tokens.last().spelling()) =~= spellings(tokens));
    }
}

/// Reading what was written. Atoms joined by spaces read back as the same
/// atoms.
pub proof fn lemma_atoms_of_joined(tokens: Seq<Token>)
    ensures
        atoms_of(joined(tokens)) == Some(tokens),
{
    lemma_words_of_joined(tokens);
    lemma_spelling_is_injective();
    let ws = words(joined(tokens));
    assert forall|i: int| 0 <= i < ws.len() implies (#[trigger] Token::spelled(ws[i])) == Some(
        tokens[i],
    ) by {
        assert(ws[i] == tokens[i].spelling());
    }
    assert(ws.map_values(|w: Seq<char>| Token::spelled(w).unwrap()) =~= tokens);
}

} // verus!
