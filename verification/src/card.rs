//! Cards: suits, ranks and the predicates the rules are written in.

use vstd::prelude::*;
use crate::tokens::Token;

verus! {

#[derive(Clone, Copy, Debug, PartialEq, Eq, Hash, Structural)]
pub enum Suit {
    Clubs,
    Diamonds,
    Hearts,
    Spades,
}

#[derive(Clone, Copy, Debug, PartialEq, Eq, Hash, Structural)]
pub enum Rank {
    Ace,
    Two,
    Three,
    Four,
    Five,
    Six,
    Seven,
    Eight,
    Nine,
    Ten,
    Jack,
    Queen,
    King,
}

impl Rank {
    /// The letter a rank is written with.
    pub open spec fn spec_to_char(self) -> char {
        match self {
            Rank::Ace => 'A',
            Rank::Two => '2',
            Rank::Three => '3',
            Rank::Four => '4',
            Rank::Five => '5',
            Rank::Six => '6',
            Rank::Seven => '7',
            Rank::Eight => '8',
            Rank::Nine => '9',
            Rank::Ten => 'T',
            Rank::Jack => 'J',
            Rank::Queen => 'Q',
            Rank::King => 'K',
        }
    }

    /// Ace counts 1, the number cards their number, Jack 11, Queen 12, King 13.
    pub open spec fn spec_value(self) -> u8 {
        match self {
            Rank::Ace => 1,
            Rank::Two => 2,
            Rank::Three => 3,
            Rank::Four => 4,
            Rank::Five => 5,
            Rank::Six => 6,
            Rank::Seven => 7,
            Rank::Eight => 8,
            Rank::Nine => 9,
            Rank::Ten => 10,
            Rank::Jack => 11,
            Rank::Queen => 12,
            Rank::King => 13,
        }
    }

    /// The rank written with `c`, if there is one.
    pub fn from_char(c: char) -> (r: Option<Self>)
        ensures
            match r {
                Some(rank) => rank.spec_to_char() == c,
                None => forall|rank: Rank| rank.spec_to_char() != c,
            },
    {
        match c {
            'A' => Some(Rank::Ace),
            '2' => Some(Rank::Two),
            '3' => Some(Rank::Three),
            '4' => Some(Rank::Four),
            '5' => Some(Rank::Five),
            '6' => Some(Rank::Six),
            '7' => Some(Rank::Seven),
            '8' => Some(Rank::Eight),
            '9' => Some(Rank::Nine),
            'T' => Some(Rank::Ten),
            'J' => Some(Rank::Jack),
            'Q' => Some(Rank::Queen),
            'K' => Some(Rank::King),
            _ => None,
        }
    }

    #[verifier::when_used_as_spec(spec_to_char)]
    pub fn to_char(self) -> (c: char)
        ensures
            c == self.spec_to_char(),
    {
        match self {
            Rank::Ace => 'A',
            Rank::Two => '2',
            Rank::Three => '3',
            Rank::Four => '4',
            Rank::Five => '5',
            Rank::Six => '6',
            Rank::Seven => '7',
            Rank::Eight => '8',
            Rank::Nine => '9',
            Rank::Ten => 'T',
            Rank::Jack => 'J',
            Rank::Queen => 'Q',
            Rank::King => 'K',
        }
    }

    #[verifier::when_used_as_spec(spec_value)]
    pub fn value(self) -> (v: u8)
        ensures
            v == self.spec_value(),
            1 <= v <= 13,
    {
        match self {
            Rank::Ace => 1,
            Rank::Two => 2,
            Rank::Three => 3,
            Rank::Four => 4,
            Rank::Five => 5,
            Rank::Six => 6,
            Rank::Seven => 7,
            Rank::Eight => 8,
            Rank::Nine => 9,
            Rank::Ten => 10,
            Rank::Jack => 11,
            Rank::Queen => 12,
            Rank::King => 13,
        }
    }

    /// The rank with the given value; values outside 1..=13 have none.
    pub open spec fn of_value(v: int) -> Option<Rank> {
        if v == 1 {
            Some(Rank::Ace)
        } else if v == 2 {
            Some(Rank::Two)
        } else if v == 3 {
            Some(Rank::Three)
        } else if v == 4 {
            Some(Rank::Four)
        } else if v == 5 {
            Some(Rank::Five)
        } else if v == 6 {
            Some(Rank::Six)
        } else if v == 7 {
            Some(Rank::Seven)
        } else if v == 8 {
            Some(Rank::Eight)
        } else if v == 9 {
            Some(Rank::Nine)
        } else if v == 10 {
            Some(Rank::Ten)
        } else if v == 11 {
            Some(Rank::Jack)
        } else if v == 12 {
            Some(Rank::Queen)
        } else if v == 13 {
            Some(Rank::King)
        } else {
            None
        }
    }

    fn from_value(v: u8) -> (r: Rank)
        requires
            1 <= v <= 13,
        ensures
            Rank::of_value(v as int) == Some(r),
            r.spec_value() == v,
    {
        match v {
            1 => Rank::Ace,
            2 => Rank::Two,
            3 => Rank::Three,
            4 => Rank::Four,
            5 => Rank::Five,
            6 => Rank::Six,
            7 => Rank::Seven,
            8 => Rank::Eight,
            9 => Rank::Nine,
            10 => Rank::Ten,
            11 => Rank::Jack,
            12 => Rank::Queen,
            _ => Rank::King,
        }
    }
}

impl Suit {
    /// The letter a suit is written with.
    pub open spec fn spec_to_char(self) -> char {
        match self {
            Suit::Clubs => 'C',
            Suit::Diamonds => 'D',
            Suit::Hearts => 'H',
            Suit::Spades => 'S',
        }
    }

    /// Position in the fixed order clubs < diamonds < hearts < spades.
    pub open spec fn spec_order(self) -> u8 {
        match self {
            Suit::Clubs => 0,
            Suit::Diamonds => 1,
            Suit::Hearts => 2,
            Suit::Spades => 3,
        }
    }

    /// The suit written with `c`, if there is one.
    pub fn from_char(c: char) -> (r: Option<Self>)
        ensures
            match r {
                Some(suit) => suit.spec_to_char() == c,
                None => forall|suit: Suit| suit.spec_to_char() != c,
            },
    {
        match c {
            'C' => Some(Suit::Clubs),
            'D' => Some(Suit::Diamonds),
            'H' => Some(Suit::Hearts),
            'S' => Some(Suit::Spades),
            _ => None,
        }
    }

    #[verifier::when_used_as_spec(spec_to_char)]
    pub fn to_char(self) -> (c: char)
        ensures
            c == self.spec_to_char(),
    {
        match self {
            Suit::Clubs => 'C',
            Suit::Diamonds => 'D',
            Suit::Hearts => 'H',
            Suit::Spades => 'S',
        }
    }

    #[verifier::when_used_as_spec(spec_order)]
    pub fn order(self) -> (v: u8)
        ensures
            v == self.spec_order(),
            v <= 3,
    {
        match self {
            Suit::Clubs => 0,
            Suit::Diamonds => 1,
            Suit::Hearts => 2,
            Suit::Spades => 3,
        }
    }

    /// The suit at the given position of the fixed order.
    pub open spec fn of_order(v: int) -> Option<Suit> {
        if v == 0 {
            Some(Suit::Clubs)
        } else if v == 1 {
            Some(Suit::Diamonds)
        } else if v == 2 {
            Some(Suit::Hearts)
        } else if v == 3 {
            Some(Suit::Spades)
        } else {
            None
        }
    }

    fn from_order(v: u8) -> (r: Suit)
        requires
            v <= 3,
        ensures
            Suit::of_order(v as int) == Some(r),
            r.spec_order() == v,
    {
        match v {
            0 => Suit::Clubs,
            1 => Suit::Diamonds,
            2 => Suit::Hearts,
            _ => Suit::Spades,
        }
    }
}

/// A playing card. The two jokers are `Joker(0)` and `Joker(1)`; a joker with
/// any other index is no card of the game.
#[derive(Clone, Copy, Debug, PartialEq, Eq, Hash, Structural)]
pub enum Card {
    Standard { rank: Rank, suit: Suit },
    Joker(u8),
}

impl Card {
    /// Whether this is one of the 54 cards of the game.
    pub open spec fn in_deck(self) -> bool {
        match self {
            Card::Standard { .. } => true,
            Card::Joker(i) => i < 2,
        }
    }

    pub open spec fn spec_rank_value(self) -> Option<u8> {
        match self {
            Card::Standard { rank, .. } => Some(rank.spec_value()),
            Card::Joker(_) => None,
        }
    }

    pub open spec fn spec_suit_order(self) -> Option<u8> {
        match self {
            Card::Standard { suit, .. } => Some(suit.spec_order()),
            Card::Joker(_) => None,
        }
    }

    /// Ace to Ten.
    pub open spec fn spec_is_number(self) -> bool {
        match self.spec_rank_value() {
            Some(v) => v <= 10,
            None => false,
        }
    }

    /// Ace to Seven, and Nine.
    pub open spec fn spec_is_oneoff(self) -> bool {
        match self.spec_rank_value() {
            Some(v) => v <= 7 || v == 9,
            None => false,
        }
    }

    /// Eight, Jack, Queen, King, and every joker.
    pub open spec fn spec_is_royal(self) -> bool {
        match self.spec_rank_value() {
            Some(v) => v == 8 || v >= 11,
            None => true,
        }
    }

    /// What the card is worth as a point card: its number, or nothing.
    pub open spec fn spec_point_value(self) -> u8 {
        match self.spec_rank_value() {
            Some(v) => if v <= 10 { v } else { 0 },
            None => 0,
        }
    }

    /// The attacker beats the defender when both are standard cards and the
    /// attacker has the higher rank, or the same rank and the higher suit.
    pub open spec fn spec_scuttle_beats(self, defender: Card) -> bool {
        match (self, defender) {
            (Card::Standard { rank: ar, suit: asuit }, Card::Standard { rank: dr, suit: dsuit }) => {
                ar.spec_value() > dr.spec_value() || (ar.spec_value() == dr.spec_value()
                    && asuit.spec_order() > dsuit.spec_order())
            },
            _ => false,
        }
    }

    /// The card that a written atom names, if it names one.
    pub fn from_token(token: &str) -> (r: Option<Self>)
        ensures
            r == match Token::spelled(token@) {
                Some(t) => t.spec_card(),
                None => None,
            },
    {
        match Token::parse(token) {
            Some(t) => t.card(),
            None => None,
        }
    }

    /// The written atom of this card.
    pub fn to_token(self) -> (r: String)
        ensures
            r@ == Token::of_card(self).spelling(),
    {
        self.to_token_enum().as_str().to_owned()
    }

    pub fn to_token_enum(self) -> (t: Token)
        ensures
            t == Token::of_card(self),
    {
        Token::from_card(self)
    }

    pub fn from_token_enum(token: Token) -> (r: Option<Self>)
        ensures
            r == token.spec_card(),
    {
        token.card()
    }

    #[verifier::when_used_as_spec(spec_is_number)]
    pub fn is_number(self) -> (b: bool)
        ensures
            b == self.spec_is_number(),
    {
        match self {
            Card::Standard { rank, .. } => rank.value() <= 10,
            Card::Joker(_) => false,
        }
    }

    #[verifier::when_used_as_spec(spec_is_oneoff)]
    pub fn is_oneoff(self) -> (b: bool)
        ensures
            b == self.spec_is_oneoff(),
    {
        match self {
            Card::Standard { rank, .. } => {
                let v = rank.value();
                v <= 7 || v == 9
            },
            Card::Joker(_) => false,
        }
    }

    #[verifier::when_used_as_spec(spec_is_royal)]
    pub fn is_royal(self) -> (b: bool)
        ensures
            b == self.spec_is_royal(),
    {
        match self {
            Card::Joker(_) => true,
            Card::Standard { rank, .. } => {
                let v = rank.value();
                v == 8 || v >= 11
            },
        }
    }

    #[verifier::when_used_as_spec(spec_rank_value)]
    pub fn rank_value(self) -> (r: Option<u8>)
        ensures
            r == self.spec_rank_value(),
    {
        match self {
            Card::Standard { rank, .. } => Some(rank.value()),
            Card::Joker(_) => None,
        }
    }

    #[verifier::when_used_as_spec(spec_suit_order)]
    pub fn suit_order(self) -> (r: Option<u8>)
        ensures
            r == self.spec_suit_order(),
    {
        match self {
            Card::Standard { suit, .. } => Some(suit.order()),
            Card::Joker(_) => None,
        }
    }

    #[verifier::when_used_as_spec(spec_point_value)]
    pub fn point_value(self) -> (v: u8)
        ensures
            v == self.spec_point_value(),
            v <= 10,
    {
        match self {
            Card::Standard { rank, .. } => {
                let v = rank.value();
                if v <= 10 {
                    v
                } else {
                    0
                }
            },
            Card::Joker(_) => 0,
        }
    }

    #[verifier::when_used_as_spec(spec_scuttle_beats)]
    pub fn scuttle_beats(self, defender: Card) -> (b: bool)
        ensures
            b == self.spec_scuttle_beats(defender),
    {
        let atk_rank = match self.rank_value() {
            Some(v) => v,
            None => {
                return false;
            },
        };
        let def_rank = match defender.rank_value() {
            Some(v) => v,
            None => {
                return false;
            },
        };
        if atk_rank > def_rank {
            return true;
        }
        if atk_rank < def_rank {
            return false;
        }
        let atk_suit = match self.suit_order() {
            Some(v) => v,
            None => {
                return false;
            },
        };
        let def_suit = match defender.suit_order() {
            Some(v) => v,
            None => {
                return false;
            },
        };
        atk_suit > def_suit
    }
}

/// The 54 cards in the order of a fresh pack: clubs, diamonds, hearts and
/// spades, each from Ace to King, then the two jokers.
pub open spec fn full_deck() -> Seq<Card> {
    Seq::new(
        54,
        |i: int|
            if i < 52 {
                Card::Standard {
                    rank: Rank::of_value(i % 13 + 1).unwrap(),
                    suit: Suit::of_order(i / 13).unwrap(),
                }
            } else {
                Card::Joker((i - 52) as u8)
            },
    )
}

pub fn full_deck_with_jokers() -> (deck: Vec<Card>)
    ensures
        deck@ == full_deck(),
{
    let mut deck: Vec<Card> = Vec::with_capacity(54);
    let mut s: u8 = 0;
    while s < 4
        invariant
            s <= 4,
            deck@ == full_deck().take(13 * s),
        decreases 4 - s,
    {
        let suit = Suit::from_order(s);
        let mut v: u8 = 1;
        while v <= 13
            invariant
                s < 4,
                1 <= v <= 14,
                Suit::of_order(s as int) == Some(suit),
                deck@ == full_deck().take(13 * s + v - 1),
            decreases 14 - v,
        {
            let rank = Rank::from_value(v);
            deck.push(Card::Standard { rank, suit });
            assert(deck@ =~= full_deck().take(13 * s + v));
            v = v + 1;
        }
        s = s + 1;
    }
    deck.push(Card::Joker(0));
    deck.push(Card::Joker(1));
    assert(deck@ =~= full_deck());
    deck
}

/// No card occurs twice in the full deck, and the cards in it are exactly
/// the cards of the game.
pub proof fn lemma_full_deck_holds_each_card_once()
    ensures
        full_deck().len() == 54,
        full_deck().no_duplicates(),
        forall|c: Card| full_deck().contains(c) <==> c.in_deck(),
{
    let d = full_deck();
    assert forall|i: int, j: int| 0 <= i < d.len() && 0 <= j < d.len() && i != j implies d[i]
        != d[j] by {
        if i < 52 && j < 52 {
            if i / 13 == j / 13 {
                assert(i % 13 != j % 13);
            }
        }
    }
    assert forall|c: Card| c.in_deck() implies d.contains(c) by {
        match c {
            Card::Standard { rank, suit } => {
                let i = 13 * suit.spec_order() + rank.spec_value() - 1;
                assert(i / 13 == suit.spec_order() as int);
                assert(i % 13 == rank.spec_value() - 1);
                assert(d[i] == c);
            },
            Card::Joker(k) => {
                assert(d[52 + k] == c);
            },
        }
    }
    assert forall|c: Card| d.contains(c) implies c.in_deck() by {
        let i = choose|i: int| 0 <= i < d.len() && d[i] == c;
        assert(d[i] == c);
    }
}

} // verus!
