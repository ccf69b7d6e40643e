use cutthroat_engine::{Card, Rank, Suit};

#[test]
fn card_token_roundtrip() {
    let card = Card::Standard {
        rank: Rank::Seven,
        suit: Suit::Hearts,
    };
    let tok = card.to_token();
    assert_eq!(Card::from_token(&tok), Some(card));
    assert_eq!(Card::from_token("J0"), Some(Card::Joker(0)));
    assert_eq!(Card::from_token("J1"), Some(Card::Joker(1)));
}
