use cutthroat_engine::{full_deck_with_jokers, Token};

#[test]
fn token_string_roundtrip_covers_full_vocab() {
    let all = [
        "V1",
        "CUTTHROAT3P",
        "DEALER",
        "DECK",
        "ENDDECK",
        "UNKNOWN",
        "P0",
        "P1",
        "P2",
        "P3",
        "draw",
        "pass",
        "points",
        "scuttle",
        "playRoyal",
        "oneOff",
        "counter",
        "resolve",
        "discard",
        "AC",
        "AD",
        "AH",
        "AS",
        "2C",
        "2D",
        "2H",
        "2S",
        "3C",
        "3D",
        "3H",
        "3S",
        "4C",
        "4D",
        "4H",
        "4S",
        "5C",
        "5D",
        "5H",
        "5S",
        "6C",
        "6D",
        "6H",
        "6S",
        "7C",
        "7D",
        "7H",
        "7S",
        "8C",
        "8D",
        "8H",
        "8S",
        "9C",
        "9D",
        "9H",
        "9S",
        "TC",
        "TD",
        "TH",
        "TS",
        "JC",
        "JD",
        "JH",
        "JS",
        "QC",
        "QD",
        "QH",
        "QS",
        "KC",
        "KD",
        "KH",
        "KS",
        "J0",
        "J1",
    ];
    for raw in all {
        let token = raw.parse::<Token>().expect("token should parse");
        assert_eq!(token.as_str(), raw);
    }
}

#[test]
fn card_token_mapping_is_bijective_for_deck() {
    let mut deck = full_deck_with_jokers();
    deck.sort_by_key(|card| card.to_token());
    for card in deck {
        let token = Token::from_card(card);
        assert_eq!(token.card(), Some(card));
    }
}
