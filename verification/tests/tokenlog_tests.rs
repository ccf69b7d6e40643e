use cutthroat_engine::{
    append_action, encode_header, full_deck_with_jokers, parse_action_tokens_for_state,
    parse_tokenlog as parse, replay_tokenlog as replay, Action, CutthroatState, Phase, TokenError,
    TokenLog,
};

#[test]
fn parse_rejects_out_of_range_seat_token() {
    let tokenlog = "V1 CUTTHROAT3P DEALER P3 DECK ENDDECK";
    let err = parse(tokenlog).expect_err("seat >= player count should be rejected");
    assert!(matches!(err, TokenError::InvalidFormat));
}

#[test]
fn replay_rejects_short_deck_without_panicking() {
    let log = TokenLog {
        dealer: 0,
        deck: Vec::new(),
        actions: vec![(0, Action::Pass)],
    };
    let err = replay(&log).expect_err("short deck should be rejected");
    assert!(matches!(err, TokenError::InvalidFormat));
}

#[test]
fn parse_rejects_bare_card_action_token() {
    let state = CutthroatState::new_with_deck(0, full_deck_with_jokers());
    let err = parse_action_tokens_for_state("P0 AC", &state)
        .expect_err("bare-card action token must be rejected");
    assert!(matches!(err, TokenError::UnknownAction));
}

#[test]
fn parse_resolving_four_requires_resolve_discard_shape() {
    let mut state = CutthroatState::new_with_deck(0, full_deck_with_jokers());
    state.phase = Phase::ResolvingFour {
        seat: 0,
        base_player: 1,
        remaining: 2,
    };

    let parsed = parse_action_tokens_for_state("P0 resolve discard AC", &state)
        .expect("resolve-four token shape should parse");
    assert!(matches!(parsed.1, Action::ResolveFourDiscard { .. }));

    let err = parse_action_tokens_for_state("P0 discard AC", &state)
        .expect_err("discard-only should be rejected in resolving four");
    assert!(matches!(err, TokenError::UnknownAction));
}

#[test]
fn parse_resolving_five_requires_discard_shape() {
    let mut state = CutthroatState::new_with_deck(0, full_deck_with_jokers());
    state.phase = Phase::ResolvingFive {
        seat: 0,
        base_player: 0,
        discarded: false,
    };

    let parsed = parse_action_tokens_for_state("P0 discard AC", &state)
        .expect("resolve-five discard token should parse");
    assert!(matches!(parsed.1, Action::ResolveFiveDiscard { .. }));

    let err = parse_action_tokens_for_state("P0 resolve discard AC", &state)
        .expect_err("resolve-discard should be rejected in resolving five");
    assert!(matches!(err, TokenError::UnknownAction));
}

#[test]
fn append_draw_includes_drawn_card_token() {
    let state = CutthroatState::new_with_deck(0, full_deck_with_jokers());
    let mut tokens = encode_header(state.dealer, &state.deck);
    append_action(&mut tokens, &state, state.turn, &Action::Draw).expect("draw encodes");
    let draw_fragment = format!(
        "P{} draw {}",
        state.turn,
        state.deck.first().expect("deck has top card").to_token()
    );
    assert!(
        tokens.contains(&draw_fragment),
        "expected draw fragment `{draw_fragment}` in `{tokens}`"
    );
}

#[test]
fn parse_rejects_draw_without_card_in_full_tokenlog() {
    let deck = full_deck_with_jokers();
    let tokenlog = format!("{} P0 draw", encode_header(0, &deck));
    let err = parse(&tokenlog).expect_err("full tokenlog draw must include card");
    assert!(matches!(
        err,
        TokenError::UnknownCard | TokenError::InvalidFormat
    ));
}

#[test]
fn parse_action_tokens_allows_draw_without_card() {
    let state = CutthroatState::new_with_deck(0, full_deck_with_jokers());
    let parsed = parse_action_tokens_for_state("P0 draw", &state)
        .expect("action token draw without card should parse");
    assert_eq!(parsed, (0, Action::Draw));
}
