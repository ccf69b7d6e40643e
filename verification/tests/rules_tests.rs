use cutthroat_engine::state::{
    Event, FrozenCard, JackOnStack, JokerOnStack, PhaseView, PointStack, PublicCard, RoyalStack,
};
use cutthroat_engine::{
    append_action, encode_header, full_deck_with_jokers, parse_tokenlog, replay_tokenlog, Action,
    Card, CutthroatState, OneOffTarget, Phase, Rank, RuleError, SevenPlay, Suit, TokenLog, Winner,
};

fn card(token: &str) -> Card {
    Card::from_token(token).expect("card token")
}

fn bare_state() -> CutthroatState {
    let mut state = CutthroatState::new_with_deck(2, full_deck_with_jokers());
    for player in &mut state.players {
        player.hand.clear();
    }
    state.deck.clear();
    state
}

fn count_everywhere(state: &CutthroatState, wanted: Card) -> usize {
    let mut n = 0;
    n += state.deck.iter().filter(|c| **c == wanted).count();
    n += state.scrap.iter().filter(|c| **c == wanted).count();
    for player in &state.players {
        n += player.hand.iter().filter(|c| **c == wanted).count();
        for stack in &player.points {
            if stack.base == wanted {
                n += 1;
            }
            n += stack.jacks.iter().filter(|j| j.card == wanted).count();
        }
        for stack in &player.royals {
            if stack.base == wanted {
                n += 1;
            }
            n += stack.jokers.iter().filter(|j| j.card == wanted).count();
        }
    }
    match &state.phase {
        Phase::Countering(counter) => {
            n += counter.twos.iter().filter(|t| t.1 == wanted).count();
            if let Action::PlayOneOff { card, .. } = counter.oneoff {
                if card == wanted {
                    n += 1;
                }
            }
        }
        Phase::ResolvingSeven { revealed, .. } => {
            n += revealed.iter().filter(|c| **c == wanted).count();
        }
        _ => {}
    }
    n
}

fn assert_every_card_once(state: &CutthroatState) {
    for wanted in full_deck_with_jokers() {
        assert_eq!(count_everywhere(state, wanted), 1, "card {:?}", wanted);
    }
}

fn assert_stacks_lie_with_their_controllers(state: &CutthroatState) {
    for (seat, player) in state.players.iter().enumerate() {
        for stack in &player.points {
            assert_eq!(stack.controller() as usize, seat);
        }
        for stack in &player.royals {
            assert_eq!(stack.controller() as usize, seat);
        }
    }
}

fn acting_seat(state: &CutthroatState) -> u8 {
    match &state.phase {
        Phase::Main => state.turn,
        Phase::Countering(counter) => counter.next_seat,
        Phase::ResolvingThree { seat, .. }
        | Phase::ResolvingFour { seat, .. }
        | Phase::ResolvingFive { seat, .. }
        | Phase::ResolvingSeven { seat, .. } => *seat,
        Phase::GameOver => state.turn,
    }
}

/// Plays a whole game by always taking the legal action at a position that
/// moves with the step, and checks the invariants after every action.
fn play_out(dealer: u8, rotate: usize, stride: usize) -> (CutthroatState, String, usize) {
    let mut deck = full_deck_with_jokers();
    deck.rotate_left(rotate);
    let mut state = CutthroatState::new_with_deck(dealer, deck.clone());
    let mut log = encode_header(dealer, &deck);
    let mut steps = 0usize;
    while !matches!(state.phase, Phase::GameOver) && steps < 2000 {
        let seat = acting_seat(&state);
        let legal = state.legal_actions(seat);
        assert!(!legal.is_empty(), "a seat to act has a legal action");
        for other in 0..3u8 {
            if other != seat {
                assert!(state.legal_actions(other).is_empty());
            }
        }
        let action = legal[(steps * stride + rotate) % legal.len()];
        append_action(&mut log, &state, seat, &action).expect("a legal action can be written");
        let events = state.apply(seat, action).expect("a legal action applies");
        match state.winner {
            Some(winner) => assert_eq!(events, vec![Event::GameOver(winner)]),
            None => assert!(events.is_empty()),
        }
        assert_every_card_once(&state);
        assert_stacks_lie_with_their_controllers(&state);
        assert_eq!(state.pass_streak_len > 0, state.pass_streak_start.is_some());
        assert_eq!(state.winner.is_some(), matches!(state.phase, Phase::GameOver));
        for player in &state.players {
            assert!(player.frozen.iter().all(|f| f.remaining_turns > 0));
        }
        steps += 1;
    }
    (state, log, steps)
}

#[test]
fn whole_games_keep_every_card_and_every_invariant() {
    for (dealer, rotate, stride) in [(0u8, 0usize, 1usize), (1, 7, 3), (2, 19, 5), (0, 31, 7)] {
        let (state, _, steps) = play_out(dealer, rotate, stride);
        assert!(steps > 0);
        assert_every_card_once(&state);
    }
}

#[test]
fn whole_games_read_back_as_they_were_written() {
    for (dealer, rotate, stride) in [(0u8, 3usize, 2usize), (1, 11, 5), (2, 23, 11)] {
        let (state, log, steps) = play_out(dealer, rotate, stride);
        let parsed = parse_tokenlog(&log).expect("a written game reads back");
        assert_eq!(parsed.dealer, dealer);
        assert_eq!(parsed.actions.len(), steps);
        let mut again = encode_header(parsed.dealer, &parsed.deck);
        let mut replaying = CutthroatState::new_with_deck(parsed.dealer, parsed.deck.clone());
        for (seat, action) in &parsed.actions {
            append_action(&mut again, &replaying, *seat, action).unwrap();
            replaying.apply(*seat, *action).unwrap();
        }
        assert_eq!(again, log);
        assert_eq!(replay_tokenlog(&parsed).unwrap(), state);
    }
}

#[test]
fn apply_accepts_exactly_the_legal_actions_and_rejects_without_a_trace() {
    let mut state = bare_state();
    state.turn = 0;
    state.deck = vec![card("4H"), card("5H")];
    state.players[0].hand = vec![card("9C"), card("JD"), card("2C"), Card::Joker(0), card("8S")];
    state.players[1].hand = vec![card("3D")];
    state.players[1].points.push(PointStack {
        base: card("5C"),
        base_owner: 1,
        jacks: Vec::new(),
    });
    state.players[2].royals.push(RoyalStack {
        base: card("KH"),
        base_owner: 2,
        jokers: Vec::new(),
    });
    let legal = state.legal_actions(0);
    let mut candidates = vec![
        Action::Draw,
        Action::Pass,
        Action::CounterPass,
        Action::PlayPoints { card: card("9C") },
        Action::PlayPoints { card: card("JD") },
        Action::PlayPoints { card: card("3D") },
        Action::PlayRoyal { card: card("8S") },
        Action::PlayRoyal { card: card("9C") },
        Action::Scuttle { card: card("9C"), target_point_base: card("5C") },
        Action::Scuttle { card: card("2C"), target_point_base: card("5C") },
        Action::Scuttle { card: card("9C"), target_point_base: card("KH") },
        Action::PlayJack { jack: card("JD"), target_point_base: card("5C") },
        Action::PlayJack { jack: card("9C"), target_point_base: card("5C") },
        Action::PlayJoker { joker: Card::Joker(0), target_royal_card: card("KH") },
        Action::PlayJoker { joker: Card::Joker(0), target_royal_card: card("5C") },
        Action::PlayOneOff { card: card("2C"), target: OneOffTarget::Royal { card: card("KH") } },
        Action::PlayOneOff { card: card("2C"), target: OneOffTarget::NoTarget },
        Action::PlayOneOff { card: card("9C"), target: OneOffTarget::Point { base: card("5C") } },
        Action::PlayOneOff { card: card("9C"), target: OneOffTarget::Royal { card: card("KH") } },
        Action::PlayOneOff { card: card("9C"), target: OneOffTarget::Player { seat: 1 } },
        Action::CounterTwo { two_card: card("2C") },
        Action::ResolveThreePick { card_from_scrap: card("9C") },
        Action::ResolveFourDiscard { card: card("9C") },
        Action::ResolveFiveDiscard { card: card("9C") },
        Action::ResolveSevenChoose { card: card("9C"), play: SevenPlay::Points },
    ];
    candidates.extend(legal.iter().copied());
    let mut accepted = 0;
    for action in candidates {
        for seat in 0..3u8 {
            let mut trial = state.clone();
            let result = trial.apply(seat, action);
            let is_legal = state.legal_actions(seat).contains(&action);
            assert_eq!(result.is_ok(), is_legal, "seat {} action {:?}", seat, action);
            match result {
                Ok(_) => accepted += 1,
                Err(err) => {
                    assert_eq!(err, RuleError::IllegalAction);
                    assert_eq!(trial, state);
                }
            }
        }
    }
    assert!(accepted >= legal.len());
    assert!(legal.contains(&Action::Draw));
    assert!(!legal.contains(&Action::Pass));
}

#[test]
fn nothing_is_legal_once_the_game_is_over() {
    let mut state = bare_state();
    state.turn = 0;
    state.players[0].points.push(PointStack {
        base: card("TC"),
        base_owner: 0,
        jacks: Vec::new(),
    });
    state.players[0].hand.push(card("4C"));
    let events = state.apply(0, Action::PlayPoints { card: card("4C") }).unwrap();
    assert_eq!(events, vec![Event::GameOver(Winner::Seat(0))]);
    assert_eq!(state.winner, Some(Winner::Seat(0)));
    assert!(matches!(state.phase, Phase::GameOver));
    for seat in 0..3u8 {
        assert!(state.legal_actions(seat).is_empty());
    }
    let before = state.clone();
    assert_eq!(state.apply(1, Action::Pass), Err(RuleError::GameOver));
    assert_eq!(state, before);
}

#[test]
fn thresholds_fall_with_each_king() {
    for (kings, points, wins) in [
        (0usize, vec!["TC", "3C"], false),
        (0, vec!["TC", "4C"], true),
        (1, vec!["8C"], false),
        (1, vec!["9C"], true),
        (2, vec!["4C"], false),
        (2, vec!["5C"], true),
        (3, vec![], true),
    ] {
        let mut state = bare_state();
        state.turn = 0;
        state.deck = vec![card("2H")];
        for (i, name) in ["KC", "KD", "KH"].iter().enumerate() {
            if i < kings {
                state.players[0].royals.push(RoyalStack {
                    base: card(name),
                    base_owner: 0,
                    jokers: Vec::new(),
                });
            }
        }
        for name in points {
            state.players[0].points.push(PointStack {
                base: card(name),
                base_owner: 0,
                jacks: Vec::new(),
            });
        }
        state.apply(0, Action::Draw).unwrap();
        if wins {
            assert_eq!(state.winner, Some(Winner::Seat(0)));
        } else {
            assert_eq!(state.winner, None);
            assert_eq!(state.turn, 1);
        }
    }
}

#[test]
fn stacks_controlled_by_another_seat_count_for_nobody_else() {
    let mut state = bare_state();
    state.turn = 2;
    state.deck = vec![card("2H")];
    state.players[0].points.push(PointStack {
        base: card("TC"),
        base_owner: 1,
        jacks: vec![JackOnStack { card: card("JC"), owner: 0 }],
    });
    state.players[0].points.push(PointStack {
        base: card("4C"),
        base_owner: 0,
        jacks: Vec::new(),
    });
    state.apply(2, Action::Draw).unwrap();
    assert_eq!(state.winner, Some(Winner::Seat(0)));
}

#[test]
fn scuttle_needs_the_higher_card() {
    let nine_clubs = card("9C");
    assert!(card("TC").scuttle_beats(nine_clubs));
    assert!(card("9D").scuttle_beats(nine_clubs));
    assert!(card("9S").scuttle_beats(card("9H")));
    assert!(!nine_clubs.scuttle_beats(nine_clubs));
    assert!(!nine_clubs.scuttle_beats(card("9D")));
    assert!(!card("8S").scuttle_beats(nine_clubs));
    assert!(!Card::Joker(0).scuttle_beats(nine_clubs));
    assert!(!nine_clubs.scuttle_beats(Card::Joker(1)));
    assert!(card("KC").scuttle_beats(card("QS")));
}

#[test]
fn card_classes_follow_the_ranks() {
    let ranks = [
        (Rank::Ace, 'A', 1u8, true, true, false, 1u8),
        (Rank::Two, '2', 2, true, true, false, 2),
        (Rank::Three, '3', 3, true, true, false, 3),
        (Rank::Four, '4', 4, true, true, false, 4),
        (Rank::Five, '5', 5, true, true, false, 5),
        (Rank::Six, '6', 6, true, true, false, 6),
        (Rank::Seven, '7', 7, true, true, false, 7),
        (Rank::Eight, '8', 8, true, false, true, 8),
        (Rank::Nine, '9', 9, true, true, false, 9),
        (Rank::Ten, 'T', 10, true, false, false, 10),
        (Rank::Jack, 'J', 11, false, false, true, 0),
        (Rank::Queen, 'Q', 12, false, false, true, 0),
        (Rank::King, 'K', 13, false, false, true, 0),
    ];
    for (rank, letter, value, number, oneoff, royal, points) in ranks {
        assert_eq!(rank.to_char(), letter);
        assert_eq!(Rank::from_char(letter), Some(rank));
        assert_eq!(rank.value(), value);
        let c = Card::Standard { rank, suit: Suit::Hearts };
        assert_eq!(c.is_number(), number);
        assert_eq!(c.is_oneoff(), oneoff);
        assert_eq!(c.is_royal(), royal);
        assert_eq!(c.point_value(), points);
        assert_eq!(c.rank_value(), Some(value));
        assert_eq!(c.suit_order(), Some(2));
        assert_eq!(Card::from_token_enum(c.to_token_enum()), Some(c));
    }
    assert_eq!(Rank::from_char('1'), None);
    for (suit, letter, order) in [
        (Suit::Clubs, 'C', 0u8),
        (Suit::Diamonds, 'D', 1),
        (Suit::Hearts, 'H', 2),
        (Suit::Spades, 'S', 3),
    ] {
        assert_eq!(suit.to_char(), letter);
        assert_eq!(Suit::from_char(letter), Some(suit));
        assert_eq!(suit.order(), order);
    }
    assert_eq!(Suit::from_char('X'), None);
    let joker = Card::Joker(1);
    assert!(joker.is_royal());
    assert!(!joker.is_number());
    assert!(!joker.is_oneoff());
    assert_eq!(joker.point_value(), 0);
    assert_eq!(joker.rank_value(), None);
    assert_eq!(joker.suit_order(), None);
    assert_eq!(joker.to_token(), "J1");
    assert_eq!(Card::from_token("UNKNOWN"), None);
    assert_eq!(Card::from_token("7h"), None);
}

#[test]
fn the_full_deck_holds_each_card_once_in_pack_order() {
    let deck = full_deck_with_jokers();
    assert_eq!(deck.len(), 54);
    assert_eq!(deck[0], card("AC"));
    assert_eq!(deck[12], card("KC"));
    assert_eq!(deck[13], card("AD"));
    assert_eq!(deck[51], card("KS"));
    assert_eq!(deck[52], Card::Joker(0));
    assert_eq!(deck[53], Card::Joker(1));
    for (i, a) in deck.iter().enumerate() {
        for b in &deck[i + 1..] {
            assert_ne!(a, b);
        }
    }
}

#[test]
fn the_deal_goes_round_from_the_seat_after_the_dealer() {
    let deck = full_deck_with_jokers();
    let state = CutthroatState::new_with_deck(1, deck.clone());
    assert_eq!(state.dealer, 1);
    assert_eq!(state.turn, 2);
    assert!(matches!(state.phase, Phase::Main));
    assert_eq!(state.players[2].hand, vec![deck[0], deck[3], deck[6], deck[9], deck[12]]);
    assert_eq!(state.players[0].hand, vec![deck[1], deck[4], deck[7], deck[10], deck[13]]);
    assert_eq!(state.players[1].hand, vec![deck[2], deck[5], deck[8], deck[11], deck[14]]);
    assert_eq!(state.deck, deck[15..].to_vec());
    assert!(state.scrap.is_empty());
    assert_eq!(state.winner, None);
    assert_eq!(state.pass_streak_len, 0);
    assert_every_card_once(&state);
}

#[test]
fn a_shuffled_game_holds_every_card_once_and_comes_in_another_order() {
    let fresh = CutthroatState::new_with_deck(0, full_deck_with_jokers());
    let mut differs = false;
    for _ in 0..4 {
        let state = CutthroatState::new_shuffled(0);
        assert_eq!(state.turn, 1);
        assert_eq!(state.deck.len(), 39);
        assert_every_card_once(&state);
        if state != fresh {
            differs = true;
        }
    }
    assert!(differs);
}

#[test]
fn frozen_card_thaws_at_the_end_of_its_holders_turn() {
    let mut state = bare_state();
    state.turn = 0;
    state.deck = vec![card("2H"), card("3H"), card("4H"), card("5H")];
    state.players[0].hand = vec![card("9C")];
    state.players[0].frozen.push(FrozenCard { card: card("9C"), remaining_turns: 1 });
    state.players[1].frozen.push(FrozenCard { card: card("3S"), remaining_turns: 2 });
    assert!(!state.legal_actions(0).contains(&Action::PlayPoints { card: card("9C") }));
    state.apply(0, Action::Draw).unwrap();
    assert!(state.players[0].frozen.is_empty());
    assert_eq!(state.players[1].frozen.len(), 1);
    state.apply(1, Action::Draw).unwrap();
    assert_eq!(state.players[1].frozen, vec![FrozenCard { card: card("3S"), remaining_turns: 1 }]);
    state.apply(2, Action::Draw).unwrap();
    assert!(state.legal_actions(0).contains(&Action::PlayPoints { card: card("9C") }));
    state.apply(0, Action::PlayPoints { card: card("9C") }).unwrap();
    assert_eq!(state.players[0].points.len(), 1);
}

#[test]
fn jack_theft_and_bounce() {
    let mut state = bare_state();
    state.turn = 0;
    state.players[0].hand = vec![card("JD")];
    state.players[2].hand = vec![card("9C")];
    state.deck = vec![card("2H"), card("3H")];
    state.players[1].points.push(PointStack {
        base: card("5C"),
        base_owner: 1,
        jacks: Vec::new(),
    });
    let mut log = String::new();
    let steal = Action::PlayJack { jack: card("JD"), target_point_base: card("5C") };
    append_action(&mut log, &state, 0, &steal).unwrap();
    state.apply(0, steal).unwrap();
    assert!(state.players[1].points.is_empty());
    assert_eq!(state.players[0].points.len(), 1);
    assert_eq!(state.players[0].points[0].controller(), 0);
    assert_eq!(state.players[0].points[0].jacks, vec![JackOnStack { card: card("JD"), owner: 0 }]);
    append_action(&mut log, &state, 1, &Action::Draw).unwrap();
    state.apply(1, Action::Draw).unwrap();
    let bounce = Action::PlayOneOff {
        card: card("9C"),
        target: OneOffTarget::Jack { card: card("JD") },
    };
    append_action(&mut log, &state, 2, &bounce).unwrap();
    state.apply(2, bounce).unwrap();
    for seat in [0u8, 1] {
        append_action(&mut log, &state, seat, &Action::CounterPass).unwrap();
        state.apply(seat, Action::CounterPass).unwrap();
    }
    assert_eq!(state.players[0].hand, vec![card("JD")]);
    assert_eq!(state.players[0].frozen, vec![FrozenCard { card: card("JD"), remaining_turns: 1 }]);
    assert!(state.players[0].points.is_empty());
    assert_eq!(state.players[1].points.len(), 1);
    assert_eq!(state.players[1].points[0].base, card("5C"));
    assert!(state.players[1].points[0].jacks.is_empty());
    assert_eq!(state.scrap, vec![card("9C")]);
    assert_eq!(state.turn, 0);
    assert_eq!(
        log,
        "P0 playRoyal JD 5C P1 draw 2H P2 oneOff 9C JD P0 resolve P1 resolve"
    );
}

#[test]
fn counter_parity_decides_and_twos_go_to_the_scrap_first() {
    for (counters, resolves) in [(0usize, true), (1, false), (2, true), (3, false)] {
        let mut state = bare_state();
        state.turn = 0;
        state.players[0].hand = vec![card("AC"), card("2S")];
        state.players[1].hand = vec![card("2D")];
        state.players[2].hand = vec![card("2H")];
        state.players[1].points.push(PointStack {
            base: card("9C"),
            base_owner: 1,
            jacks: Vec::new(),
        });
        state.apply(0, Action::PlayOneOff { card: card("AC"), target: OneOffTarget::NoTarget })
            .unwrap();
        let twos = [(1u8, "2D"), (2, "2H"), (0, "2S")];
        let mut seat = 1u8;
        for (who, two) in twos.iter().take(counters) {
            assert_eq!(*who, seat);
            state.apply(seat, Action::CounterTwo { two_card: card(two) }).unwrap();
            seat = (seat + 1) % 3;
        }
        for _ in 0..2 {
            assert!(matches!(state.phase, Phase::Countering(_)));
            state.apply(seat, Action::CounterPass).unwrap();
            seat = (seat + 1) % 3;
        }
        assert!(matches!(state.phase, Phase::Main));
        assert_eq!(state.turn, 1);
        let mut expected: Vec<Card> = twos.iter().take(counters).map(|t| card(t.1)).collect();
        expected.push(card("AC"));
        if resolves {
            expected.push(card("9C"));
            assert!(state.players[1].points.is_empty());
        } else {
            assert_eq!(state.players[1].points.len(), 1);
        }
        assert_eq!(state.scrap, expected);
    }
}

#[test]
fn seven_oneoff_returns_the_other_card_and_opens_a_window_for_the_resolver() {
    let mut state = bare_state();
    state.turn = 0;
    state.players[0].hand.push(card("7C"));
    state.deck = vec![card("AC"), card("KD"), card("3H")];
    let mut log = String::new();
    let script = [
        (0u8, Action::PlayOneOff { card: card("7C"), target: OneOffTarget::NoTarget }),
        (1, Action::CounterPass),
        (2, Action::CounterPass),
    ];
    for (seat, action) in script {
        append_action(&mut log, &state, seat, &action).unwrap();
        state.apply(seat, action).unwrap();
    }
    match &state.phase {
        Phase::ResolvingSeven { seat, base_player, revealed } => {
            assert_eq!((*seat, *base_player), (0, 0));
            assert_eq!(revealed, &vec![card("AC"), card("KD")]);
        }
        other => panic!("expected a seven to resolve, got {:?}", other),
    }
    assert_eq!(state.deck, vec![card("3H")]);
    let choose = Action::ResolveSevenChoose {
        card: card("AC"),
        play: SevenPlay::OneOff { target: OneOffTarget::NoTarget },
    };
    append_action(&mut log, &state, 0, &choose).unwrap();
    state.apply(0, choose).unwrap();
    assert_eq!(state.deck, vec![card("KD"), card("3H")]);
    match &state.phase {
        Phase::Countering(counter) => {
            assert_eq!(counter.base_player, 0);
            assert_eq!(counter.next_seat, 1);
            assert_eq!(counter.rotation_anchor, 0);
            assert!(counter.twos.is_empty());
            assert_eq!(
                counter.oneoff,
                Action::PlayOneOff { card: card("AC"), target: OneOffTarget::NoTarget }
            );
        }
        other => panic!("expected a counter window, got {:?}", other),
    }
    assert_eq!(log, "P0 oneOff 7C P1 resolve P2 resolve P0 oneOff AC");
}

#[test]
fn six_scraps_royals_and_jacks_and_returns_stacks_to_their_owners() {
    let mut state = bare_state();
    state.turn = 0;
    state.players[0].hand = vec![card("6C")];
    state.players[0].points.push(PointStack {
        base: card("5C"),
        base_owner: 1,
        jacks: vec![
            JackOnStack { card: card("JD"), owner: 2 },
            JackOnStack { card: card("JH"), owner: 0 },
        ],
    });
    state.players[0].points.push(PointStack {
        base: card("3C"),
        base_owner: 0,
        jacks: Vec::new(),
    });
    state.players[2].points.push(PointStack {
        base: card("4C"),
        base_owner: 1,
        jacks: vec![JackOnStack { card: card("JS"), owner: 2 }],
    });
    state.players[1].royals.push(RoyalStack {
        base: card("QH"),
        base_owner: 0,
        jokers: vec![JokerOnStack { card: Card::Joker(0), owner: 1 }],
    });
    state.players[2].royals.push(RoyalStack {
        base: card("8D"),
        base_owner: 2,
        jokers: Vec::new(),
    });
    state.apply(0, Action::PlayOneOff { card: card("6C"), target: OneOffTarget::NoTarget })
        .unwrap();
    state.apply(1, Action::CounterPass).unwrap();
    state.apply(2, Action::CounterPass).unwrap();
    assert!(state.players.iter().all(|p| p.royals.is_empty()));
    assert_eq!(
        state.scrap,
        vec![
            card("6C"),
            card("QH"),
            Card::Joker(0),
            card("8D"),
            card("JD"),
            card("JH"),
            card("JS"),
        ]
    );
    assert_eq!(
        state.players[0].points,
        vec![PointStack { base: card("3C"), base_owner: 0, jacks: Vec::new() }]
    );
    assert_eq!(
        state.players[1].points,
        vec![
            PointStack { base: card("5C"), base_owner: 1, jacks: Vec::new() },
            PointStack { base: card("4C"), base_owner: 1, jacks: Vec::new() },
        ]
    );
    assert!(state.players[2].points.is_empty());
    assert_stacks_lie_with_their_controllers(&state);
}

#[test]
fn three_picks_from_a_scrap_that_holds_more_than_itself() {
    let mut state = bare_state();
    state.turn = 0;
    state.players[0].hand = vec![card("3C")];
    state.scrap = vec![card("KD"), card("5H")];
    state.apply(0, Action::PlayOneOff { card: card("3C"), target: OneOffTarget::NoTarget })
        .unwrap();
    state.apply(1, Action::CounterPass).unwrap();
    state.apply(2, Action::CounterPass).unwrap();
    assert!(matches!(state.phase, Phase::ResolvingThree { seat: 0, base_player: 0 }));
    assert_eq!(state.scrap, vec![card("KD"), card("5H"), card("3C")]);
    let before = state.clone();
    assert_eq!(
        state.apply(0, Action::ResolveThreePick { card_from_scrap: card("AS") }),
        Err(RuleError::IllegalAction)
    );
    assert_eq!(state, before);
    assert_eq!(
        state.apply(1, Action::ResolveThreePick { card_from_scrap: card("KD") }),
        Err(RuleError::IllegalAction)
    );
    state.apply(0, Action::ResolveThreePick { card_from_scrap: card("KD") }).unwrap();
    assert_eq!(state.players[0].hand, vec![card("KD")]);
    assert_eq!(state.scrap, vec![card("5H"), card("3C")]);
    assert!(matches!(state.phase, Phase::Main));
    assert_eq!(state.turn, 1);
}

#[test]
fn four_makes_its_target_discard_two() {
    let mut state = bare_state();
    state.turn = 0;
    state.players[0].hand = vec![card("4C")];
    state.players[2].hand = vec![card("AC"), card("KD"), card("5H")];
    state.players[2].frozen.push(FrozenCard { card: card("KD"), remaining_turns: 1 });
    assert!(!state.legal_actions(0).contains(&Action::PlayOneOff {
        card: card("4C"),
        target: OneOffTarget::Player { seat: 0 },
    }));
    state.apply(0, Action::PlayOneOff { card: card("4C"), target: OneOffTarget::Player { seat: 2 } })
        .unwrap();
    state.apply(1, Action::CounterPass).unwrap();
    state.apply(2, Action::CounterPass).unwrap();
    assert!(matches!(state.phase, Phase::ResolvingFour { seat: 2, base_player: 0, remaining: 2 }));
    state.apply(2, Action::ResolveFourDiscard { card: card("KD") }).unwrap();
    assert!(matches!(state.phase, Phase::ResolvingFour { seat: 2, base_player: 0, remaining: 1 }));
    assert!(state.players[2].frozen.is_empty());
    state.apply(2, Action::ResolveFourDiscard { card: card("AC") }).unwrap();
    assert!(matches!(state.phase, Phase::Main));
    assert_eq!(state.turn, 1);
    assert_eq!(state.players[2].hand, vec![card("5H")]);
    assert_eq!(state.scrap, vec![card("4C"), card("KD"), card("AC")]);
}

#[test]
fn five_discards_one_and_draws_three() {
    let mut state = bare_state();
    state.turn = 1;
    state.players[1].hand = vec![card("5C"), card("KD")];
    state.deck = vec![card("AC"), card("2C"), card("3C"), card("4C")];
    state.apply(1, Action::PlayOneOff { card: card("5C"), target: OneOffTarget::NoTarget })
        .unwrap();
    state.apply(2, Action::CounterPass).unwrap();
    state.apply(0, Action::CounterPass).unwrap();
    assert!(matches!(
        state.phase,
        Phase::ResolvingFive { seat: 1, base_player: 1, discarded: false }
    ));
    state.apply(1, Action::ResolveFiveDiscard { card: card("KD") }).unwrap();
    assert_eq!(state.players[1].hand, vec![card("AC"), card("2C"), card("3C")]);
    assert_eq!(state.deck, vec![card("4C")]);
    assert_eq!(state.scrap, vec![card("5C"), card("KD")]);
    assert_eq!(state.turn, 2);
}

#[test]
fn two_takes_only_the_topmost_jack() {
    let mut state = bare_state();
    state.turn = 0;
    state.players[0].hand = vec![card("2C")];
    state.players[2].points.push(PointStack {
        base: card("5C"),
        base_owner: 1,
        jacks: vec![
            JackOnStack { card: card("JD"), owner: 0 },
            JackOnStack { card: card("JH"), owner: 2 },
        ],
    });
    let legal = state.legal_actions(0);
    assert!(legal.contains(&Action::PlayOneOff {
        card: card("2C"),
        target: OneOffTarget::Jack { card: card("JH") },
    }));
    assert!(!legal.contains(&Action::PlayOneOff {
        card: card("2C"),
        target: OneOffTarget::Jack { card: card("JD") },
    }));
    state.apply(0, Action::PlayOneOff {
        card: card("2C"),
        target: OneOffTarget::Jack { card: card("JH") },
    })
    .unwrap();
    state.apply(1, Action::CounterPass).unwrap();
    state.apply(2, Action::CounterPass).unwrap();
    assert!(state.players[2].points.is_empty());
    assert_eq!(state.players[0].points.len(), 1);
    assert_eq!(state.players[0].points[0].jacks, vec![JackOnStack { card: card("JD"), owner: 0 }]);
    assert_eq!(state.scrap, vec![card("2C"), card("JH")]);
}

#[test]
fn one_queen_guards_everything_but_herself_and_two_guard_her_too() {
    let mut state = bare_state();
    state.turn = 0;
    state.players[0].hand = vec![card("2C"), card("9C"), card("JD"), Card::Joker(0), card("TC")];
    state.players[1].points.push(PointStack {
        base: card("5C"),
        base_owner: 1,
        jacks: Vec::new(),
    });
    state.players[1].royals.push(RoyalStack {
        base: card("QH"),
        base_owner: 1,
        jokers: Vec::new(),
    });
    state.players[1].royals.push(RoyalStack {
        base: card("KH"),
        base_owner: 1,
        jokers: Vec::new(),
    });
    let guarded: Vec<Action> = vec![
        Action::PlayJack { jack: card("JD"), target_point_base: card("5C") },
        Action::PlayJoker { joker: Card::Joker(0), target_royal_card: card("KH") },
        Action::PlayOneOff { card: card("2C"), target: OneOffTarget::Royal { card: card("KH") } },
        Action::PlayOneOff { card: card("9C"), target: OneOffTarget::Point { base: card("5C") } },
        Action::PlayOneOff { card: card("9C"), target: OneOffTarget::Royal { card: card("KH") } },
    ];
    let at_the_queen: Vec<Action> = vec![
        Action::PlayJoker { joker: Card::Joker(0), target_royal_card: card("QH") },
        Action::PlayOneOff { card: card("2C"), target: OneOffTarget::Royal { card: card("QH") } },
        Action::PlayOneOff { card: card("9C"), target: OneOffTarget::Royal { card: card("QH") } },
    ];
    let scuttle = Action::Scuttle { card: card("TC"), target_point_base: card("5C") };
    let legal = state.legal_actions(0);
    for action in &guarded {
        assert!(!legal.contains(action), "{:?}", action);
    }
    for action in &at_the_queen {
        assert!(legal.contains(action), "{:?}", action);
    }
    assert!(legal.contains(&scuttle));
    state.players[1].royals.push(RoyalStack {
        base: card("QS"),
        base_owner: 1,
        jokers: Vec::new(),
    });
    let legal = state.legal_actions(0);
    for action in guarded.iter().chain(at_the_queen.iter()) {
        assert!(!legal.contains(action), "{:?}", action);
    }
    state.players[1].royals.clear();
    let legal = state.legal_actions(0);
    for action in &guarded[..1] {
        assert!(legal.contains(action), "{:?}", action);
    }
    assert!(legal.contains(&Action::PlayOneOff {
        card: card("9C"),
        target: OneOffTarget::Point { base: card("5C") },
    }));
}

#[test]
fn the_hand_limit_stops_a_draw() {
    let mut state = bare_state();
    state.turn = 0;
    state.deck = vec![card("2H")];
    state.players[0].hand =
        vec![card("AC"), card("KC"), card("QC"), card("JC"), card("TC"), card("9C")];
    assert!(state.legal_actions(0).contains(&Action::Draw));
    state.apply(0, Action::Draw).unwrap();
    assert_eq!(state.players[0].hand.len(), 7);
    assert_eq!(state.turn, 1);
}

#[test]
fn public_view_shows_a_seat_its_own_cards_only() {
    let mut state = bare_state();
    state.turn = 1;
    state.deck = vec![card("2H"), card("3H")];
    state.scrap = vec![card("AS")];
    state.players[0].hand = vec![card("9C"), card("KD")];
    state.players[0].frozen.push(FrozenCard { card: card("KD"), remaining_turns: 1 });
    state.players[1].hand = vec![card("AC")];
    state.players[1].frozen.push(FrozenCard { card: card("AC"), remaining_turns: 1 });
    state.players[2].points.push(PointStack {
        base: card("5C"),
        base_owner: 1,
        jacks: vec![JackOnStack { card: card("JD"), owner: 2 }],
    });
    let view = state.public_view(0);
    assert_eq!(view.seat, 0);
    assert_eq!(view.turn, 1);
    assert_eq!(view.deck_count, 2);
    assert_eq!(view.scrap, vec!["AS".to_string()]);
    assert_eq!(view.last_event, None);
    assert!(matches!(view.phase, PhaseView::Main));
    assert_eq!(view.players.len(), 3);
    assert_eq!(
        view.players[0].hand,
        vec![PublicCard::Known("9C".to_string()), PublicCard::Known("KD".to_string())]
    );
    assert_eq!(view.players[0].frozen, vec!["KD".to_string()]);
    assert_eq!(view.players[1].hand, vec![PublicCard::Hidden]);
    assert!(view.players[1].frozen.is_empty());
    assert_eq!(view.players[2].seat, 2);
    assert_eq!(view.players[2].points.len(), 1);
    assert_eq!(view.players[2].points[0].base, "5C");
    assert_eq!(view.players[2].points[0].controller, 2);
    assert_eq!(view.players[2].points[0].jacks, vec!["JD".to_string()]);
}

#[test]
fn one_who_watches_sees_every_hand_but_not_the_deck() {
    let mut state = bare_state();
    state.turn = 1;
    state.deck = vec![card("2H"), card("3H")];
    state.players[0].hand = vec![card("9C")];
    state.players[0].frozen.push(FrozenCard { card: card("9C"), remaining_turns: 1 });
    state.players[2].hand = vec![card("AC"), card("KD")];
    state.phase = Phase::ResolvingSeven { seat: 2, base_player: 2, revealed: vec![card("5S")] };
    let view = cutthroat_engine::state::build_spectator_view(&state, None);
    assert_eq!(view.seat, 2);
    assert_eq!(view.turn, 1);
    assert_eq!(view.deck_count, 0);
    assert_eq!(view.last_event, None);
    assert_eq!(view.players[0].hand, vec![PublicCard::Known("9C".to_string())]);
    assert_eq!(view.players[0].frozen, vec!["9C".to_string()]);
    assert!(view.players[1].hand.is_empty());
    assert_eq!(
        view.players[2].hand,
        vec![PublicCard::Known("AC".to_string()), PublicCard::Known("KD".to_string())]
    );
    match view.phase {
        PhaseView::ResolvingSeven { seat, revealed, revealed_cards } => {
            assert_eq!(seat, 2);
            assert_eq!(revealed, 1);
            assert_eq!(revealed_cards, vec!["5S".to_string()]);
        }
        other => panic!("expected a seven to resolve, got {:?}", other),
    }
    state.phase = Phase::Main;
    assert_eq!(cutthroat_engine::state::build_spectator_view(&state, None).seat, 1);
}

#[test]
fn replay_stops_at_the_first_illegal_action() {
    let deck = full_deck_with_jokers();
    let log = TokenLog { dealer: 2, deck: deck.clone(), actions: vec![(0, Action::Draw), (0, Action::Draw)] };
    assert_eq!(
        replay_tokenlog(&log).unwrap_err(),
        cutthroat_engine::TokenError::Replay(RuleError::IllegalAction)
    );
    let short = TokenLog { dealer: 3, deck, actions: Vec::new() };
    assert_eq!(replay_tokenlog(&short).unwrap_err(), cutthroat_engine::TokenError::InvalidFormat);
}
