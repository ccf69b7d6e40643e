use cutthroat_engine::events::{build_last_event, format_action, oneoff_target_fields};
use cutthroat_engine::state::{CounterState, PointStack, RoyalStack};
use cutthroat_engine::transcript::{
    action_seat_for_phase, redact_tokenlog_for_client, serialize_tokenlog,
};
use cutthroat_engine::{
    append_action, encode_action_token_vec_for_input, encode_action_tokens_for_input,
    encode_header, full_deck_with_jokers, join_tokens, parse_action_token_stream_for_state,
    parse_action_tokens_for_state, parse_token_slice, parse_tokenlog, replay_tokenlog, Action,
    Card, CutthroatState, OneOffTarget, Phase, RuleError, SevenPlay, Token, TokenError, TokenLog,
    TokenizeError,
};

fn card(token: &str) -> Card {
    Card::from_token(token).expect("card token")
}

fn deck_with_top(top: &[&str]) -> Vec<Card> {
    let mut deck: Vec<Card> = top.iter().map(|t| card(t)).collect();
    for c in full_deck_with_jokers() {
        if !deck.contains(&c) {
            deck.push(c);
        }
    }
    deck
}

fn header(dealer: u8) -> String {
    encode_header(dealer, &full_deck_with_jokers())
}

#[test]
fn header_is_written_with_single_spaces_and_no_newline() {
    let deck = vec![card("AC"), card("TD"), Card::Joker(1)];
    assert_eq!(encode_header(1, &deck), "V1 CUTTHROAT3P DEALER P1 DECK AC TD J1 ENDDECK");
    assert_eq!(encode_header(0, &[]), "V1 CUTTHROAT3P DEALER P0 DECK ENDDECK");
    assert_eq!(encode_header(9, &[]), "V1 CUTTHROAT3P DEALER P0 DECK ENDDECK");
}

#[test]
fn atoms_join_and_split_back() {
    let tokens = vec![Token::P2, Token::OneOff, Token::P4C, Token::P0];
    let text = join_tokens(&tokens);
    assert_eq!(text, "P2 oneOff 4C P0");
    assert_eq!(parse_token_slice(&text), Some(tokens.clone()));
    assert_eq!(parse_token_slice("  P2\t\toneOff\n4C \u{2003} P0\r\n"), Some(tokens));
    assert_eq!(parse_token_slice(""), Some(Vec::new()));
    assert_eq!(parse_token_slice(" \n "), Some(Vec::new()));
    assert_eq!(parse_token_slice("P2 oneoff"), None);
    assert_eq!(parse_token_slice("P2,oneOff"), None);
    assert_eq!(join_tokens(&[]), "");
    assert_eq!(join_tokens(&[Token::Unknown]), "UNKNOWN");
    assert_eq!(Token::parse("points"), Some(Token::Points));
    assert_eq!(Token::parse("Points"), None);
    assert_eq!(Token::parse("point"), None);
    assert_eq!(Token::parse("pointss"), None);
    assert_eq!(Token::parse(""), None);
}

#[test]
fn seat_atoms_name_the_seats() {
    for (seat, token) in [(0u8, Token::P0), (1, Token::P1), (2, Token::P2), (3, Token::P3)] {
        assert_eq!(Token::from_seat(seat), Some(token));
        assert_eq!(token.seat(), Some(seat));
        assert!(token.is_seat());
        assert!(!token.is_verb());
        assert_eq!(token.card(), None);
    }
    assert_eq!(Token::from_seat(4), None);
    assert_eq!(Token::Draw.seat(), None);
    assert!(Token::Draw.is_verb());
    assert!(Token::Discard.is_verb());
    assert!(!Token::Unknown.is_verb());
    assert!(!Token::EndDeck.is_seat());
    assert_eq!(Token::from_card(Card::Joker(0)), Token::J0);
    assert_eq!(Token::from_card(Card::Joker(1)), Token::J1);
    assert_eq!(Token::P2C.card(), Some(card("2C")));
    assert_eq!(Token::P2.card(), None);
}

#[test]
fn a_line_cannot_be_written_for_no_seat_or_for_a_draw_from_nothing() {
    let mut state = CutthroatState::new_with_deck(0, full_deck_with_jokers());
    let mut text = "kept".to_string();
    assert_eq!(
        append_action(&mut text, &state, 3, &Action::Pass),
        Err(TokenizeError::InvalidSeat)
    );
    assert_eq!(text, "kept");
    assert_eq!(
        encode_action_token_vec_for_input(&state, 7, &Action::Pass),
        Err(TokenizeError::InvalidSeat)
    );
    state.deck.clear();
    assert_eq!(
        append_action(&mut text, &state, 1, &Action::Draw),
        Err(TokenizeError::InvalidActionContext)
    );
    assert_eq!(text, "kept");
    assert_eq!(
        encode_action_tokens_for_input(&state, 1, &Action::Draw),
        Err(TokenizeError::InvalidActionContext)
    );
    assert_eq!(append_action(&mut text, &state, 1, &Action::Pass), Ok(()));
    assert_eq!(text, "kept P1 pass");
    let mut empty = String::new();
    assert_eq!(append_action(&mut empty, &state, 2, &Action::CounterPass), Ok(()));
    assert_eq!(empty, "P2 resolve");
}

#[test]
fn every_action_has_its_line() {
    let state = CutthroatState::new_with_deck(2, deck_with_top(&["8C", "AD", "KH"]));
    let lines = [
        (Action::Draw, "P0 draw 2D"),
        (Action::Pass, "P0 pass"),
        (Action::PlayPoints { card: card("9C") }, "P0 points 9C"),
        (
            Action::Scuttle { card: card("9C"), target_point_base: card("5D") },
            "P0 scuttle 9C 5D",
        ),
        (Action::PlayRoyal { card: card("KC") }, "P0 playRoyal KC"),
        (
            Action::PlayJack { jack: card("JC"), target_point_base: card("5D") },
            "P0 playRoyal JC 5D",
        ),
        (
            Action::PlayJoker { joker: Card::Joker(1), target_royal_card: card("QD") },
            "P0 playRoyal J1 QD",
        ),
        (
            Action::PlayOneOff { card: card("AC"), target: OneOffTarget::NoTarget },
            "P0 oneOff AC",
        ),
        (
            Action::PlayOneOff { card: card("4C"), target: OneOffTarget::Player { seat: 2 } },
            "P0 oneOff 4C P2",
        ),
        (
            Action::PlayOneOff { card: card("9C"), target: OneOffTarget::Point { base: card("5D") } },
            "P0 oneOff 9C 5D",
        ),
        (
            Action::PlayOneOff { card: card("2C"), target: OneOffTarget::Royal { card: card("QD") } },
            "P0 oneOff 2C QD",
        ),
        (
            Action::PlayOneOff { card: card("2C"), target: OneOffTarget::Jack { card: card("JD") } },
            "P0 oneOff 2C JD",
        ),
        (
            Action::PlayOneOff {
                card: card("2C"),
                target: OneOffTarget::Joker { card: Card::Joker(0) },
            },
            "P0 oneOff 2C J0",
        ),
        (Action::CounterTwo { two_card: card("2H") }, "P0 counter 2H"),
        (Action::CounterPass, "P0 resolve"),
        (Action::ResolveThreePick { card_from_scrap: card("TS") }, "P0 resolve TS"),
        (Action::ResolveFourDiscard { card: card("TS") }, "P0 resolve discard TS"),
        (Action::ResolveFiveDiscard { card: card("TS") }, "P0 discard TS"),
        (
            Action::ResolveSevenChoose { card: card("TS"), play: SevenPlay::Points },
            "P0 points TS",
        ),
        (
            Action::ResolveSevenChoose {
                card: card("TS"),
                play: SevenPlay::Scuttle { target: card("5D") },
            },
            "P0 scuttle TS 5D",
        ),
        (
            Action::ResolveSevenChoose { card: card("QS"), play: SevenPlay::Royal },
            "P0 playRoyal QS",
        ),
        (
            Action::ResolveSevenChoose {
                card: card("JS"),
                play: SevenPlay::Jack { target: card("5D") },
            },
            "P0 playRoyal JS 5D",
        ),
        (
            Action::ResolveSevenChoose {
                card: Card::Joker(0),
                play: SevenPlay::Joker { target: card("QD") },
            },
            "P0 playRoyal J0 QD",
        ),
        (
            Action::ResolveSevenChoose {
                card: card("4S"),
                play: SevenPlay::OneOff { target: OneOffTarget::Player { seat: 1 } },
            },
            "P0 oneOff 4S P1",
        ),
        (
            Action::ResolveSevenChoose { card: card("JS"), play: SevenPlay::Discard },
            "P0 discard JS",
        ),
    ];
    for (action, line) in lines {
        assert_eq!(encode_action_tokens_for_input(&state, 0, &action), Ok(line.to_string()));
        let mut text = String::new();
        append_action(&mut text, &state, 0, &action).unwrap();
        assert_eq!(text, line);
    }
}

#[test]
fn an_eight_played_as_a_royal_is_followed_by_the_hands_it_shows() {
    let deck = deck_with_top(&["8C", "AD", "KH", "2C", "3D", "4H", "5C", "6D", "7H"]);
    let dealer = 2;
    let state = CutthroatState::new_with_deck(dealer, deck.clone());
    let play = Action::PlayRoyal { card: card("8C") };
    let hands = " P1 AD 3D 6D 3C 7C P2 KH 4H 7H 4C 9C";
    let hand_zero = state.players[0].hand.clone();
    assert_eq!(hand_zero[0], card("8C"));
    let mut log = encode_header(dealer, &deck);
    append_action(&mut log, &state, 0, &play).unwrap();
    let line = format!("P0 playRoyal 8C{}", hands);
    assert!(log.ends_with(&line), "{}", log);
    assert_eq!(
        encode_action_tokens_for_input(&state, 0, &play),
        Ok("P0 playRoyal 8C".to_string())
    );

    let parsed = parse_tokenlog(&log).unwrap();
    assert_eq!(parsed.actions, vec![(0, play)]);
    let mut next = replay_tokenlog(&parsed).unwrap();
    append_action(&mut log, &next, 1, &Action::Draw).unwrap();
    next.apply(1, Action::Draw).unwrap();
    let parsed = parse_tokenlog(&log).unwrap();
    assert_eq!(parsed.actions, vec![(0, play), (1, Action::Draw)]);
    assert_eq!(replay_tokenlog(&parsed).unwrap(), next);

    let tampered = format!(
        "{} P0 playRoyal 8C P1 AD 3D 6D 3C 9C P2 KH 4H 7H 4C 7C",
        encode_header(dealer, &deck)
    );
    assert_eq!(parse_tokenlog(&tampered).unwrap_err(), TokenError::InvalidFormat);
    let without = format!("{} P0 playRoyal 8C", encode_header(dealer, &deck));
    assert_eq!(parse_tokenlog(&without).unwrap_err(), TokenError::InvalidFormat);

    assert_eq!(parse_action_tokens_for_state("P0 playRoyal 8C", &state), Ok((0, play)));
    assert_eq!(parse_action_tokens_for_state(&line, &state), Ok((0, play)));
    let mut tokens = parse_token_slice("P0 playRoyal 8C").unwrap();
    assert_eq!(parse_action_token_stream_for_state(&mut tokens, &state), Ok((0, play)));
    assert_eq!(join_tokens(&tokens), line);
    let mut tokens = parse_token_slice("P1 draw").unwrap();
    assert_eq!(parse_action_token_stream_for_state(&mut tokens, &state), Ok((1, Action::Draw)));
    assert_eq!(join_tokens(&tokens), "P1 draw TC");
}

#[test]
fn parse_says_what_is_wrong() {
    let head = header(2);
    let cases: Vec<(String, TokenError)> = vec![
        ("".to_string(), TokenError::InvalidFormat),
        ("V1".to_string(), TokenError::InvalidFormat),
        ("V2 CUTTHROAT3P DEALER P0 DECK ENDDECK".to_string(), TokenError::InvalidFormat),
        (head.replace("V1 ", ""), TokenError::InvalidFormat),
        (head.replace("DEALER P2", "DEALER"), TokenError::InvalidFormat),
        (head.replace("DEALER P2", "DEALER P3"), TokenError::InvalidFormat),
        (head.replace("DEALER P2", "DEALER AC"), TokenError::InvalidFormat),
        (head.replace(" DECK", ""), TokenError::InvalidFormat),
        (head.replace(" ENDDECK", ""), TokenError::InvalidFormat),
        (head.replace(" 5C", " draw"), TokenError::UnknownCard),
        (head.replace(" 5C", " 5X"), TokenError::InvalidFormat),
        (
            "V1 CUTTHROAT3P DEALER P0 DECK AC AD AH 2C 2D 2H 3C 3D 3H 4C 4D 4H 5C 5D ENDDECK"
                .to_string(),
            TokenError::InvalidFormat,
        ),
        (format!("{} draw 3D", head), TokenError::InvalidFormat),
        (format!("{} P3 draw 3D", head), TokenError::InvalidFormat),
        (format!("{} P0", head), TokenError::InvalidFormat),
        (format!("{} P0 draw", head), TokenError::InvalidFormat),
        (format!("{} P0 draw UNKNOWN", head), TokenError::UnknownCard),
        (format!("{} P0 draw 4D", head), TokenError::InvalidFormat),
        (format!("{} P1 draw 3D", head), TokenError::InvalidFormat),
        (format!("{} P0 pass", head), TokenError::InvalidFormat),
        (format!("{} P0 resolve", head), TokenError::UnknownAction),
        (format!("{} P0 discard AC", head), TokenError::UnknownAction),
        (format!("{} P0 DECK", head), TokenError::UnknownAction),
        (format!("{} P0 P1", head), TokenError::UnknownAction),
        (format!("{} P0 points", head), TokenError::InvalidFormat),
        (format!("{} P0 points P1", head), TokenError::UnknownCard),
        (format!("{} P0 points 2C", head), TokenError::InvalidFormat),
        (format!("{} P0 playRoyal AC", head), TokenError::UnknownAction),
        (format!("{} P0 playRoyal JC", head), TokenError::InvalidFormat),
        (format!("{} P0 scuttle AC", head), TokenError::InvalidFormat),
        (format!("{} P0 oneOff AC 9S", head), TokenError::InvalidFormat),
        (format!("{} P0 counter 2C", head), TokenError::InvalidFormat),
        (format!("{} P0 draw 3D P1 draw 4D extra", head), TokenError::InvalidFormat),
    ];
    for (text, expected) in cases {
        assert_eq!(parse_tokenlog(&text).unwrap_err(), expected, "{}", text);
    }
    let good = format!("{}\n  P0 draw 3D\n\tP1   draw 4D ", head);
    let log = parse_tokenlog(&good).unwrap();
    assert_eq!(log.dealer, 2);
    assert_eq!(log.deck, full_deck_with_jokers());
    assert_eq!(log.actions, vec![(0, Action::Draw), (1, Action::Draw)]);
}

#[test]
fn one_off_targets_are_told_apart_by_the_table() {
    let mut state = CutthroatState::new_with_deck(2, full_deck_with_jokers());
    state.players[0].hand = vec![card("2S"), card("9S"), card("4S"), card("AS")];
    state.players[1].points.push(PointStack {
        base: card("5D"),
        base_owner: 1,
        jacks: vec![cutthroat_engine::state::JackOnStack { card: card("JD"), owner: 1 }],
    });
    state.players[1].royals.push(RoyalStack {
        base: card("KD"),
        base_owner: 1,
        jokers: vec![cutthroat_engine::state::JokerOnStack { card: Card::Joker(0), owner: 1 }],
    });
    let cases = [
        ("P0 oneOff 9S 5D", OneOffTarget::Point { base: card("5D") }, "9S"),
        ("P0 oneOff 2S KD", OneOffTarget::Royal { card: card("KD") }, "2S"),
        ("P0 oneOff 2S JD", OneOffTarget::Jack { card: card("JD") }, "2S"),
        ("P0 oneOff 9S J0", OneOffTarget::Joker { card: Card::Joker(0) }, "9S"),
        ("P0 oneOff 4S P1", OneOffTarget::Player { seat: 1 }, "4S"),
        ("P0 oneOff AS", OneOffTarget::NoTarget, "AS"),
    ];
    for (line, target, played) in cases {
        let action = Action::PlayOneOff { card: card(played), target };
        assert_eq!(parse_action_tokens_for_state(line, &state), Ok((0, action)), "{}", line);
        assert_eq!(encode_action_tokens_for_input(&state, 0, &action), Ok(line.to_string()));
        assert!(state.legal_actions(0).contains(&action));
    }
    assert_eq!(
        parse_action_tokens_for_state("P0 oneOff 9S QS", &state),
        Err(TokenError::InvalidFormat)
    );
    assert_eq!(
        parse_action_tokens_for_state("P0 oneOff AS P1", &state),
        Err(TokenError::InvalidFormat)
    );
    assert_eq!(parse_action_tokens_for_state("", &state), Err(TokenError::InvalidFormat));
    assert_eq!(parse_action_tokens_for_state("P3 pass", &state), Err(TokenError::InvalidFormat));
    assert_eq!(parse_action_tokens_for_state("P0", &state), Err(TokenError::InvalidFormat));
    assert_eq!(parse_action_tokens_for_state("P0 what", &state), Err(TokenError::InvalidFormat));
    assert_eq!(
        parse_action_tokens_for_state("P0 playRoyal", &state),
        Err(TokenError::InvalidFormat)
    );
    assert_eq!(
        parse_action_tokens_for_state("P0 playRoyal pass", &state),
        Err(TokenError::UnknownCard)
    );
}

#[test]
fn a_log_is_written_whole_or_as_one_seat_may_read_it() {
    let deck = deck_with_top(&["4C", "AD", "KH", "6S"]);
    let actions = vec![
        (0u8, Action::Draw),
        (1u8, Action::PlayPoints { card: card("AD") }),
        (2u8, Action::Draw),
        (0u8, Action::Draw),
    ];
    let log = TokenLog { dealer: 2, deck: deck.clone(), actions: actions.clone() };
    let state = CutthroatState::new_with_deck(2, deck.clone());
    let drawn: Vec<String> = state.deck.iter().take(3).map(|c| c.to_token()).collect();
    let full = serialize_tokenlog(&log);
    assert_eq!(
        full,
        format!(
            "{} P0 draw {} P1 points AD P2 draw {} P0 draw {}",
            encode_header(2, &deck),
            drawn[0],
            drawn[1],
            drawn[2]
        )
    );
    assert_eq!(parse_tokenlog(&full).unwrap(), log);
    let head = "V1 CUTTHROAT3P DEALER P2 DECK ENDDECK";
    assert_eq!(
        redact_tokenlog_for_client(&log, Some(0)),
        format!(
            "{} P0 draw {} P1 points AD P2 draw UNKNOWN P0 draw {}",
            head, drawn[0], drawn[2]
        )
    );
    assert_eq!(
        redact_tokenlog_for_client(&log, Some(2)),
        format!(
            "{} P0 draw UNKNOWN P1 points AD P2 draw {} P0 draw UNKNOWN",
            head, drawn[1]
        )
    );
    assert_eq!(
        redact_tokenlog_for_client(&log, None),
        format!("{} P0 draw UNKNOWN P1 points AD P2 draw UNKNOWN P0 draw UNKNOWN", head)
    );
    assert_eq!(
        parse_tokenlog(&redact_tokenlog_for_client(&log, None)).unwrap_err(),
        TokenError::InvalidFormat
    );
    let broken = TokenLog {
        dealer: 2,
        deck: deck.clone(),
        actions: vec![(0, Action::Draw), (2, Action::Draw), (1, Action::Draw)],
    };
    assert_eq!(
        serialize_tokenlog(&broken),
        format!("{} P0 draw {} P2 draw {}", encode_header(2, &deck), drawn[0], drawn[1])
    );
    assert_eq!(
        replay_tokenlog(&broken).unwrap_err(),
        TokenError::Replay(RuleError::IllegalAction)
    );
}

#[test]
fn the_seat_to_act_follows_the_phase() {
    let counter = CounterState {
        base_player: 0,
        oneoff: Action::PlayOneOff { card: card("AC"), target: OneOffTarget::NoTarget },
        twos: Vec::new(),
        next_seat: 2,
        rotation_anchor: 0,
    };
    assert_eq!(action_seat_for_phase(&Phase::Main, 1), 1);
    assert_eq!(action_seat_for_phase(&Phase::GameOver, 1), 1);
    assert_eq!(action_seat_for_phase(&Phase::Countering(counter), 1), 2);
    assert_eq!(action_seat_for_phase(&Phase::ResolvingThree { seat: 0, base_player: 2 }, 1), 0);
    assert_eq!(
        action_seat_for_phase(&Phase::ResolvingFour { seat: 2, base_player: 0, remaining: 2 }, 1),
        2
    );
    assert_eq!(
        action_seat_for_phase(
            &Phase::ResolvingFive { seat: 0, base_player: 0, discarded: false },
            1
        ),
        0
    );
    assert_eq!(
        action_seat_for_phase(
            &Phase::ResolvingSeven { seat: 2, base_player: 2, revealed: vec![card("AC")] },
            1
        ),
        2
    );
}

#[test]
fn events_say_what_happened() {
    let scuttle = Action::Scuttle { card: card("9C"), target_point_base: card("5D") };
    let event = build_last_event(1, &scuttle, &Phase::Main);
    assert_eq!(event.actor, 1);
    assert_eq!(event.action_kind, "scuttle");
    assert_eq!(event.change, "scuttle");
    assert_eq!(event.source_token, Some("9C".to_string()));
    assert_eq!(event.source_zone, Some("hand".to_string()));
    assert_eq!(event.target_token, Some("5D".to_string()));
    assert_eq!(event.target_seat, None);
    assert_eq!(event.target_type, Some("point".to_string()));
    assert_eq!(event.oneoff_rank, None);

    let four = Action::PlayOneOff { card: card("4C"), target: OneOffTarget::Player { seat: 2 } };
    let event = build_last_event(0, &four, &Phase::Main);
    assert_eq!(event.action_kind, "oneoff");
    assert_eq!(event.change, "counter");
    assert_eq!(event.target_seat, Some(2));
    assert_eq!(event.target_type, Some("player".to_string()));
    assert_eq!(event.target_token, None);
    assert_eq!(event.oneoff_rank, Some(4));

    let window = |next_seat: u8, anchor: u8| {
        Phase::Countering(CounterState {
            base_player: 0,
            oneoff: Action::PlayOneOff {
                card: card("9C"),
                target: OneOffTarget::Royal { card: card("KD") },
            },
            twos: Vec::new(),
            next_seat,
            rotation_anchor: anchor,
        })
    };
    let event = build_last_event(1, &Action::CounterPass, &window(1, 0));
    assert_eq!(event.action_kind, "counter_pass");
    assert_eq!(event.change, "counter");
    assert_eq!(event.source_token, Some("pass".to_string()));
    assert_eq!(event.source_zone, Some("counter".to_string()));
    assert_eq!(event.target_token, Some("KD".to_string()));
    assert_eq!(event.target_type, Some("royal".to_string()));
    assert_eq!(event.oneoff_rank, Some(9));
    let event = build_last_event(2, &Action::CounterPass, &window(2, 0));
    assert_eq!(event.change, "resolve");
    let event = build_last_event(1, &Action::CounterTwo { two_card: card("2H") }, &window(1, 0));
    assert_eq!(event.action_kind, "counter_two");
    assert_eq!(event.change, "counter");
    assert_eq!(event.source_token, Some("2H".to_string()));
    assert_eq!(event.oneoff_rank, Some(9));

    let seven_jack = Action::ResolveSevenChoose {
        card: card("JS"),
        play: SevenPlay::Jack { target: card("5D") },
    };
    let phase = Phase::ResolvingSeven { seat: 0, base_player: 0, revealed: vec![card("JS")] };
    let event = build_last_event(0, &seven_jack, &phase);
    assert_eq!(event.action_kind, "resolve_seven");
    assert_eq!(event.change, "sevenJack");
    assert_eq!(event.source_zone, Some("reveal".to_string()));
    assert_eq!(event.target_type, Some("point".to_string()));

    let draw = build_last_event(2, &Action::Draw, &Phase::Main);
    assert_eq!(draw.action_kind, "draw");
    assert_eq!(draw.change, "main");
    assert_eq!(draw.source_token, None);
    assert_eq!(draw.source_zone, Some("deck".to_string()));
    assert_eq!(format_action(&Action::ResolveThreePick { card_from_scrap: card("AC") }), "resolve_three");
    assert_eq!(format_action(&Action::ResolveFourDiscard { card: card("AC") }), "resolve_four");
    assert_eq!(format_action(&Action::ResolveFiveDiscard { card: card("AC") }), "resolve_five");
    assert_eq!(format_action(&Action::PlayRoyal { card: card("KC") }), "royal");
    assert_eq!(format_action(&Action::PlayJack { jack: card("JC"), target_point_base: card("AC") }), "jack");
    assert_eq!(format_action(&Action::PlayJoker { joker: Card::Joker(0), target_royal_card: card("KC") }), "joker");
    assert_eq!(format_action(&Action::PlayPoints { card: card("AC") }), "points");
    assert_eq!(format_action(&Action::Pass), "pass");
    assert_eq!(
        oneoff_target_fields(&OneOffTarget::Joker { card: Card::Joker(1) }),
        (Some("J1".to_string()), None, Some("joker".to_string()))
    );
    assert_eq!(oneoff_target_fields(&OneOffTarget::NoTarget), (None, None, None));
}

#[test]
fn only_sound_states_are_shaped() {
    let state = CutthroatState::new_with_deck(1, full_deck_with_jokers());
    assert!(state.is_shaped());
    let mut bad = state.clone();
    bad.players.pop();
    assert!(!bad.is_shaped());
    let mut bad = state.clone();
    bad.turn = 3;
    assert!(!bad.is_shaped());
    let mut bad = state.clone();
    bad.players[1].points.push(PointStack { base: card("5D"), base_owner: 3, jacks: Vec::new() });
    assert!(!bad.is_shaped());
    let mut bad = state.clone();
    bad.players[2].royals.push(RoyalStack {
        base: card("KD"),
        base_owner: 1,
        jokers: vec![cutthroat_engine::state::JokerOnStack { card: Card::Joker(0), owner: 4 }],
    });
    assert!(!bad.is_shaped());
    let mut bad = state.clone();
    bad.phase = Phase::ResolvingThree { seat: 0, base_player: 5 };
    assert!(!bad.is_shaped());
    let mut bad = state.clone();
    bad.pass_streak_len = 2;
    assert!(!bad.is_shaped());
    let mut bad = state.clone();
    bad.pass_streak_start = Some(0);
    bad.pass_streak_len = 1;
    assert!(!bad.is_shaped());
    let mut good = state.clone();
    good.pass_streak_start = Some(1);
    good.pass_streak_len = 1;
    assert!(good.is_shaped());
    let mut good = state.clone();
    good.phase = Phase::GameOver;
    good.winner = Some(cutthroat_engine::Winner::Draw);
    assert!(good.is_shaped());
}

#[test]
fn errors_say_what_they_are() {
    assert_eq!(RuleError::NotYourTurn.message(), "not your turn");
    assert_eq!(RuleError::IllegalAction.message(), "illegal action");
    assert_eq!(RuleError::InvalidAction.message(), "invalid action");
    assert_eq!(RuleError::GameOver.message(), "game over");
    assert_eq!(TokenError::InvalidFormat.message(), "invalid token stream");
    assert_eq!(TokenError::UnknownCard.message(), "unknown card token");
    assert_eq!(TokenError::UnknownAction.message(), "unknown action token");
    assert_eq!(
        TokenError::Replay(RuleError::GameOver).message(),
        "replay error: game over"
    );
    assert_eq!(TokenizeError::InvalidSeat.message(), "invalid seat");
    assert_eq!(TokenizeError::InvalidActionContext.message(), "invalid action context");
}
