use cutthroat_engine::history::{
    build_history_log_for_viewer, build_history_log_for_viewer_with_limit, card_name_for_history,
    card_token_to_human, format_history_line, is_visible, oneoff_target_text, seat_name,
    seven_play_text, LOG_TAIL_LIMIT,
};
use cutthroat_engine::lobby::SeatEntry;
use cutthroat_engine::{
    full_deck_with_jokers, Action, Card, CutthroatState, OneOffTarget, Rank, SevenPlay, Suit,
    TokenLog,
};

fn card(token: &str) -> Card {
    Card::from_token(token).unwrap()
}

fn seats() -> Vec<SeatEntry> {
    vec![
        SeatEntry { seat: 0, user_id: 10, username: "ann".to_string(), ready: true },
        SeatEntry { seat: 1, user_id: 11, username: "bob".to_string(), ready: true },
    ]
}

fn deck_with_top(top: &[&str]) -> Vec<Card> {
    let mut deck: Vec<Card> = top.iter().map(|t| card(t)).collect();
    for c in full_deck_with_jokers() {
        if !deck.contains(&c) {
            deck.push(c);
        }
    }
    deck
}

#[test]
fn cards_read_as_rank_and_suit_sign() {
    assert_eq!(card_token_to_human(card("AC")), "A\u{2663}");
    assert_eq!(card_token_to_human(card("TD")), "T\u{2666}");
    assert_eq!(card_token_to_human(card("QH")), "Q\u{2665}");
    assert_eq!(card_token_to_human(card("7S")), "7\u{2660}");
    assert_eq!(card_token_to_human(Card::Joker(0)), "Joker 0");
    assert_eq!(card_token_to_human(Card::Joker(1)), "Joker 1");
    for rank in [
        Rank::Ace, Rank::Two, Rank::Three, Rank::Four, Rank::Five, Rank::Six, Rank::Seven,
        Rank::Eight, Rank::Nine, Rank::Ten, Rank::Jack, Rank::Queen, Rank::King,
    ] {
        let text = card_token_to_human(Card::Standard { rank, suit: Suit::Spades });
        assert_eq!(text, format!("{}\u{2660}", rank.to_char()));
    }
}

#[test]
fn a_seat_is_called_by_its_user_or_its_number() {
    let seats = seats();
    assert_eq!(seat_name(0, &seats), "ann");
    assert_eq!(seat_name(1, &seats), "bob");
    assert_eq!(seat_name(2, &seats), "Player 3");
    assert_eq!(seat_name(9, &seats), "Player 10");
    assert_eq!(seat_name(99, &seats), "Player 100");
    assert_eq!(seat_name(255, &seats), "Player 256");
    assert_eq!(seat_name(0, &[]), "Player 1");
}

#[test]
fn the_last_entry_for_a_seat_names_it() {
    let mut seats = seats();
    seats.push(SeatEntry { seat: 0, user_id: 12, username: "cat".to_string(), ready: false });
    assert_eq!(seat_name(0, &seats), "cat");
}

#[test]
fn a_viewer_sees_its_own_hand_and_the_table_only() {
    // Seat 1 is dealt first when seat 0 deals: TC goes to seat 1.
    let deck = deck_with_top(&["TC", "9C", "8C"]);
    let mut state = CutthroatState::new_with_deck(0, deck);
    let own = state.players[1].hand[0];
    let other = state.players[2].hand[0];
    let view = state.public_view(1);
    assert!(is_visible(&view, &own.to_token()));
    assert!(!is_visible(&view, &other.to_token()));
    assert_eq!(card_name_for_history(own, &view), card_token_to_human(own));
    assert_eq!(card_name_for_history(other, &view), "Unknown card");

    state.apply(1, Action::PlayPoints { card: own }).unwrap();
    for viewer in 0..3u8 {
        let view = state.public_view(viewer);
        assert!(is_visible(&view, &own.to_token()));
    }
}

#[test]
fn the_scrap_and_a_waiting_oneoff_are_seen_by_all() {
    let mut state = CutthroatState::new_with_deck(0, full_deck_with_jokers());
    let ace = card("AC");
    state.players[1].hand.push(ace);
    state
        .apply(1, Action::PlayOneOff { card: ace, target: OneOffTarget::NoTarget })
        .unwrap();
    for viewer in 0..3u8 {
        let view = state.public_view(viewer);
        assert!(is_visible(&view, &"AC".to_string()));
    }
    state.apply(2, Action::CounterPass).unwrap();
    state.apply(0, Action::CounterPass).unwrap();
    for viewer in 0..3u8 {
        let view = state.public_view(viewer);
        assert!(is_visible(&view, &"AC".to_string()));
    }
}

#[test]
fn targets_and_seven_plays_read_as_the_end_of_a_sentence() {
    let seats = seats();
    let mut state = CutthroatState::new_with_deck(0, full_deck_with_jokers());
    state.scrap.push(card("KH"));
    let view = state.public_view(0);
    assert_eq!(oneoff_target_text(&OneOffTarget::NoTarget, &seats, &view), "");
    assert_eq!(
        oneoff_target_text(&OneOffTarget::Player { seat: 1 }, &seats, &view),
        ", targeting bob"
    );
    assert_eq!(
        oneoff_target_text(&OneOffTarget::Player { seat: 2 }, &seats, &view),
        ", targeting Player 3"
    );
    assert_eq!(
        oneoff_target_text(&OneOffTarget::Royal { card: card("KH") }, &seats, &view),
        ", targeting the K\u{2665}"
    );
    assert_eq!(
        oneoff_target_text(&OneOffTarget::Point { base: card("KH") }, &seats, &view),
        ", targeting the K\u{2665}"
    );
    assert_eq!(
        oneoff_target_text(&OneOffTarget::Jack { card: card("KH") }, &seats, &view),
        ", targeting the K\u{2665}"
    );
    assert_eq!(
        oneoff_target_text(&OneOffTarget::Joker { card: card("KH") }, &seats, &view),
        ", targeting the K\u{2665}"
    );
    assert_eq!(seven_play_text(&SevenPlay::Points, &seats, &view), " as points");
    assert_eq!(seven_play_text(&SevenPlay::Royal, &seats, &view), " as a royal");
    assert_eq!(seven_play_text(&SevenPlay::Discard, &seats, &view), " as discard");
    assert_eq!(
        seven_play_text(&SevenPlay::Scuttle { target: card("KH") }, &seats, &view),
        " as scuttle targeting K\u{2665}"
    );
    assert_eq!(
        seven_play_text(&SevenPlay::Jack { target: card("KH") }, &seats, &view),
        " as a jack targeting K\u{2665}"
    );
    assert_eq!(
        seven_play_text(&SevenPlay::Joker { target: card("KH") }, &seats, &view),
        " as a joker targeting K\u{2665}"
    );
    assert_eq!(
        seven_play_text(
            &SevenPlay::OneOff { target: OneOffTarget::Player { seat: 0 } },
            &seats,
            &view
        ),
        " as a one-off, targeting ann"
    );
}

#[test]
fn each_action_has_its_sentence() {
    let seats = seats();
    let mut state = CutthroatState::new_with_deck(0, full_deck_with_jokers());
    for token in ["KH", "5D", "JC", "J0", "2S", "9H"] {
        state.scrap.push(card(token));
    }
    let view = state.public_view(0);
    let line = |action: Action| format_history_line(&action, 0, &seats, &view);
    assert_eq!(line(Action::Draw), "ann drew a card.");
    assert_eq!(line(Action::Pass), "ann passed.");
    assert_eq!(line(Action::CounterPass), "ann passed counter.");
    assert_eq!(
        line(Action::PlayPoints { card: card("5D") }),
        "ann played the 5\u{2666} for points."
    );
    assert_eq!(
        line(Action::Scuttle { card: card("9H"), target_point_base: card("5D") }),
        "ann scuttled the 5\u{2666} with the 9\u{2665}."
    );
    assert_eq!(
        line(Action::PlayRoyal { card: card("KH") }),
        "ann played the K\u{2665} as a royal."
    );
    assert_eq!(
        line(Action::PlayJack { jack: card("JC"), target_point_base: card("5D") }),
        "ann stole the 5\u{2666} with the J\u{2663}."
    );
    assert_eq!(
        line(Action::PlayJoker { joker: Card::Joker(0), target_royal_card: card("KH") }),
        "ann played the Joker 0 on the K\u{2665}."
    );
    assert_eq!(
        line(Action::PlayOneOff { card: card("2S"), target: OneOffTarget::Royal { card: card("KH") } }),
        "ann played the 2\u{2660} as a one-off, targeting the K\u{2665}."
    );
    assert_eq!(
        line(Action::PlayOneOff { card: card("9H"), target: OneOffTarget::NoTarget }),
        "ann played the 9\u{2665} as a one-off."
    );
    assert_eq!(
        line(Action::CounterTwo { two_card: card("2S") }),
        "ann played the 2\u{2660} to counter."
    );
    assert_eq!(
        line(Action::ResolveThreePick { card_from_scrap: card("KH") }),
        "ann took the K\u{2665} from scrap."
    );
    assert_eq!(
        line(Action::ResolveFourDiscard { card: card("5D") }),
        "ann discarded the 5\u{2666}."
    );
    assert_eq!(
        line(Action::ResolveFiveDiscard { card: card("5D") }),
        "ann discarded the 5\u{2666}."
    );
    assert_eq!(
        line(Action::ResolveSevenChoose { card: card("5D"), play: SevenPlay::Points }),
        "ann resolved seven with the 5\u{2666} as points."
    );
    assert_eq!(
        format_history_line(&Action::Pass, 2, &seats, &view),
        "Player 3 passed."
    );
}

#[test]
fn a_card_that_the_viewer_cannot_see_is_not_named() {
    let seats = seats();
    let state = CutthroatState::new_with_deck(0, full_deck_with_jokers());
    let hidden = state.players[2].hand[0];
    let view = state.public_view(0);
    assert_eq!(
        format_history_line(&Action::ResolveFourDiscard { card: hidden }, 2, &seats, &view),
        "Player 3 discarded the Unknown card."
    );
    assert_eq!(
        format_history_line(
            &Action::PlayOneOff { card: hidden, target: OneOffTarget::Point { base: hidden } },
            1,
            &seats,
            &view
        ),
        "bob played the Unknown card as a one-off, targeting the Unknown card."
    );
}

#[test]
fn the_story_of_a_game_follows_its_actions() {
    let deck = deck_with_top(&["TC", "9C", "8C"]);
    let log = TokenLog {
        dealer: 0,
        deck,
        actions: vec![
            (1, Action::PlayPoints { card: card("TC") }),
            (2, Action::Draw),
            (0, Action::Draw),
        ],
    };
    let lines = build_history_log_for_viewer(&log, &seats(), 0);
    assert_eq!(
        lines,
        vec![
            "bob played the T\u{2663} for points.".to_string(),
            "Player 3 drew a card.".to_string(),
            "ann drew a card.".to_string(),
        ]
    );
    let first = build_history_log_for_viewer_with_limit(&log, &seats(), 0, Some(1));
    assert_eq!(first, vec!["bob played the T\u{2663} for points.".to_string()]);
    let none = build_history_log_for_viewer_with_limit(&log, &seats(), 0, Some(0));
    assert!(none.is_empty());
    let all = build_history_log_for_viewer_with_limit(&log, &seats(), 0, Some(9));
    assert_eq!(all, lines);
}

#[test]
fn the_story_ends_at_the_first_action_that_is_not_legal() {
    let log = TokenLog {
        dealer: 0,
        deck: full_deck_with_jokers(),
        actions: vec![(1, Action::Draw), (1, Action::Draw), (2, Action::Draw)],
    };
    let lines = build_history_log_for_viewer(&log, &seats(), 2);
    assert_eq!(lines, vec!["bob drew a card.".to_string()]);
}

#[test]
fn nothing_is_told_of_a_game_that_cannot_be_dealt() {
    let short = TokenLog { dealer: 0, deck: vec![card("AC")], actions: vec![(1, Action::Draw)] };
    assert!(build_history_log_for_viewer(&short, &seats(), 0).is_empty());
    let no_dealer = TokenLog {
        dealer: 3,
        deck: full_deck_with_jokers(),
        actions: vec![(1, Action::Draw)],
    };
    assert!(build_history_log_for_viewer(&no_dealer, &seats(), 0).is_empty());
}

#[test]
fn only_the_last_sentences_of_a_long_story_are_kept() {
    // Everybody draws until the deck is empty, then passes.
    let mut state = CutthroatState::new_with_deck(0, full_deck_with_jokers());
    let mut actions = Vec::new();
    let mut seat = 1u8;
    while state.winner.is_none() && actions.len() < 200 {
        let hand = state.players[usize::from(seat)].hand.clone();
        let action = if !state.deck.is_empty() && hand.len() < 7 {
            Action::Draw
        } else if state.deck.is_empty() {
            Action::Pass
        } else {
            match hand.iter().find(|c| c.is_number()) {
                Some(c) => Action::PlayPoints { card: *c },
                None => Action::PlayRoyal { card: hand[0] },
            }
        };
        if state.apply(seat, action).is_err() {
            break;
        }
        actions.push((seat, action));
        seat = (seat + 1) % 3;
    }
    let log = TokenLog { dealer: 0, deck: full_deck_with_jokers(), actions: actions.clone() };
    let whole = build_history_log_for_viewer_with_limit(&log, &seats(), 0, Some(LOG_TAIL_LIMIT));
    let lines = build_history_log_for_viewer(&log, &seats(), 0);
    if actions.len() > LOG_TAIL_LIMIT {
        assert_eq!(lines.len(), LOG_TAIL_LIMIT);
        assert_eq!(whole.len(), LOG_TAIL_LIMIT);
        assert_ne!(whole, lines);
        let (last_seat, _) = actions[actions.len() - 1];
        let name = seat_name(last_seat, &seats());
        assert!(lines[LOG_TAIL_LIMIT - 1].starts_with(&name));
    } else {
        assert_eq!(lines.len(), actions.len());
    }
}
