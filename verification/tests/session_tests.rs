use cutthroat_engine::lobby::SeatEntry;
use cutthroat_engine::session::{GameSession, GameStatus, RuntimeError};
use cutthroat_engine::{
    full_deck_with_jokers, replay_tokenlog, Action, Card, CutthroatState, Winner,
};

fn seats() -> Vec<SeatEntry> {
    [(0u8, 10i64, "alice"), (1, 11, "bob"), (2, 12, "carol")]
        .iter()
        .map(|(seat, user_id, name)| SeatEntry {
            seat: *seat,
            user_id: *user_id,
            username: name.to_string(),
            ready: true,
        })
        .collect()
}

fn started(dealer: u8, deck: Vec<Card>) -> GameSession {
    let session = GameSession::new(seats(), dealer, deck).expect("a session");
    let (session, result) = session.start();
    assert_eq!(result, Ok(()));
    session
}

fn card(token: &str) -> Card {
    Card::from_token(token).expect("card token")
}

#[test]
fn a_session_needs_a_dealer_and_a_deck() {
    assert!(GameSession::new(seats(), 3, full_deck_with_jokers()).is_none());
    assert!(GameSession::new(seats(), 0, vec![card("AC"); 14]).is_none());
    let session = GameSession::new(seats(), 2, full_deck_with_jokers()).unwrap();
    assert_eq!(session.status(), GameStatus::Lobby);
    assert_eq!(session.version(), 0);
    assert_eq!(session.scrap_straightened(), false);
    assert_eq!(session.last_event(), &None);
    assert_eq!(session.transcript().dealer, 2);
    assert_eq!(session.transcript().deck, full_deck_with_jokers());
    assert!(session.transcript().actions.is_empty());
    assert_eq!(
        session.engine(),
        &CutthroatState::new_with_deck(2, full_deck_with_jokers())
    );
    assert_eq!(session.seats().len(), 3);
}

#[test]
fn nothing_is_played_before_the_game_begins_and_it_begins_once() {
    let session = GameSession::new(seats(), 2, full_deck_with_jokers()).unwrap();
    let (session, result) = session.apply_action(10, 0, "P0 draw");
    assert_eq!(result, Err(RuntimeError::Conflict));
    let (session, result) = session.start();
    assert_eq!(result, Ok(()));
    assert_eq!(session.status(), GameStatus::Started);
    let (session, result) = session.start();
    assert_eq!(result, Err(RuntimeError::Conflict));
    assert_eq!(session.status(), GameStatus::Started);
}

#[test]
fn an_action_is_refused_for_its_reason_and_leaves_no_trace() {
    let session = started(2, full_deck_with_jokers());
    let before = session.engine().clone();
    let cases = [
        (99i64, 0usize, "P0 draw", RuntimeError::Forbidden),
        (10, 1, "P0 draw", RuntimeError::Conflict),
        (10, 0, "P0 drew", RuntimeError::BadRequest),
        (10, 0, "P0 draw 4D", RuntimeError::BadRequest),
        (10, 0, "P0 draw 3D extra", RuntimeError::BadRequest),
        (10, 0, "", RuntimeError::BadRequest),
        (10, 0, "P1 draw", RuntimeError::Forbidden),
        (11, 0, "P1 draw", RuntimeError::BadRequest),
        (10, 0, "P0 pass", RuntimeError::BadRequest),
        (10, 0, "P0 points 2C", RuntimeError::BadRequest),
    ];
    let mut session = session;
    for (user, version, line, expected) in cases {
        let (next, result) = session.apply_action(user, version, line);
        assert_eq!(result, Err(expected), "{}", line);
        assert_eq!(next.engine(), &before);
        assert_eq!(next.version(), 0);
        assert!(next.transcript().actions.is_empty());
        assert_eq!(next.last_event(), &None);
        session = next;
    }
}

#[test]
fn actions_join_the_transcript_which_replays_to_the_state() {
    let mut session = started(2, full_deck_with_jokers());
    let (toggled, result) = session.toggle_scrap_straighten(10, false);
    assert_eq!(result, Ok(()));
    assert!(toggled.scrap_straightened());
    session = toggled;
    let lines = [
        (10i64, "P0 draw", 0u8, Action::Draw),
        (11, "P1 points 2C", 1, Action::PlayPoints { card: card("2C") }),
        (12, "P2 draw 4D", 2, Action::Draw),
        (
            10,
            "P0 scuttle 4C 2C",
            0,
            Action::Scuttle { card: card("4C"), target_point_base: card("2C") },
        ),
    ];
    for (idx, (user, line, seat, action)) in lines.iter().enumerate() {
        let (next, result) = session.apply_action(*user, idx, line);
        let outcome = result.expect("a legal action");
        assert_eq!(outcome.seat, *seat);
        assert_eq!(outcome.action, *action);
        assert!(!outcome.finished);
        assert_eq!(next.version(), idx + 1);
        assert_eq!(next.transcript().actions.len(), idx + 1);
        assert_eq!(next.transcript().actions[idx], (*seat, *action));
        assert_eq!(&replay_tokenlog(next.transcript()).unwrap(), next.engine());
        let event = next.last_event().clone().expect("an event");
        assert_eq!(event.actor, *seat);
        session = next;
    }
    assert_eq!(session.status(), GameStatus::Started);
    assert!(!session.scrap_straightened());
    assert_eq!(session.engine().scrap, vec![card("4C"), card("2C")]);
    assert_eq!(session.last_event().clone().unwrap().change, "scuttle");
}

#[test]
fn a_game_that_is_won_is_finished() {
    let deck: Vec<Card> = [
        "TC", "2D", "2H", "4C", "3D", "3H", "KC", "4D", "4H", "AC", "5D", "5H", "2C", "6D", "6H",
    ]
    .iter()
    .map(|t| card(t))
    .chain(full_deck_with_jokers().into_iter().filter(|c| {
        ![
            "TC", "2D", "2H", "4C", "3D", "3H", "KC", "4D", "4H", "AC", "5D", "5H", "2C", "6D",
            "6H",
        ]
        .contains(&c.to_token().as_str())
    }))
    .collect();
    let mut session = started(2, deck);
    let lines = [
        (10i64, "P0 points TC"),
        (11, "P1 draw"),
        (12, "P2 draw"),
        (10, "P0 points 4C"),
    ];
    let mut finished = false;
    for (idx, (user, line)) in lines.iter().enumerate() {
        let (next, result) = session.apply_action(*user, idx, line);
        finished = result.expect("a legal action").finished;
        session = next;
    }
    assert!(finished);
    assert_eq!(session.status(), GameStatus::Finished);
    assert_eq!(session.engine().winner, Some(Winner::Seat(0)));
    assert_eq!(session.winner_user_id(), Some(10));
    assert_eq!(session.user_ids_by_seat(), Some([10, 11, 12]));
    let (session, result) = session.apply_action(11, 4, "P1 draw");
    assert_eq!(result, Err(RuntimeError::Conflict));
    assert_eq!(session.version(), 4);
}

#[test]
fn who_may_look_depends_on_the_seat_and_the_status() {
    let lobby = GameSession::new(seats(), 0, full_deck_with_jokers()).unwrap();
    assert_eq!(lobby.validate_viewer(10, false), Ok(()));
    assert_eq!(lobby.validate_viewer(99, false), Err(RuntimeError::Conflict));
    assert_eq!(lobby.validate_viewer(99, true), Err(RuntimeError::Conflict));
    assert_eq!(lobby.validate_viewer(10, true), Err(RuntimeError::Conflict));
    assert_eq!(lobby.winner_user_id(), None);
    let (running, _) = lobby.start();
    assert_eq!(running.validate_viewer(10, false), Ok(()));
    assert_eq!(running.validate_viewer(99, false), Ok(()));
    assert_eq!(running.validate_viewer(99, true), Ok(()));
    assert_eq!(running.validate_viewer(10, true), Err(RuntimeError::Conflict));
    let (running, result) = running.toggle_scrap_straighten(99, false);
    assert_eq!(result, Err(RuntimeError::Forbidden));
    assert!(!running.scrap_straightened());
    let (running, result) = running.toggle_scrap_straighten(99, true);
    assert_eq!(result, Ok(()));
    assert!(running.scrap_straightened());
    let two = GameSession::new(seats()[..2].to_vec(), 0, full_deck_with_jokers()).unwrap();
    assert_eq!(two.user_ids_by_seat(), None);
}

#[test]
fn errors_have_their_codes() {
    assert_eq!(RuntimeError::NotFound.code(), 404);
    assert_eq!(RuntimeError::Forbidden.code(), 403);
    assert_eq!(RuntimeError::Conflict.code(), 409);
    assert_eq!(RuntimeError::BadRequest.code(), 400);
    assert_eq!(RuntimeError::NotFound.message(), "not found");
    assert_eq!(RuntimeError::Forbidden.message(), "forbidden");
    assert_eq!(RuntimeError::Conflict.message(), "conflict");
    assert_eq!(RuntimeError::BadRequest.message(), "bad request");
}
