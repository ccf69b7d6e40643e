use cutthroat_engine::lobby::{LeaveOutcome, Lobby};
use cutthroat_engine::session::{GameStatus, RuntimeError};

fn seated(lobby: &Lobby) -> Vec<(u8, i64, bool)> {
    lobby.seats.iter().map(|e| (e.seat, e.user_id, e.ready)).collect()
}

#[test]
fn a_new_lobby_is_open_at_every_seat() {
    let lobby = Lobby::new(false, Vec::new());
    assert_eq!(lobby.name, "Open VS Open VS Open");
    assert_eq!(lobby.status, GameStatus::Lobby);
    assert!(lobby.seats.is_empty());
}

#[test]
fn joining_gives_out_the_lowest_free_seat_and_names_the_lobby() {
    let mut lobby = Lobby::new(false, Vec::new());
    assert_eq!(lobby.join_game(10, "ann".to_string()), Ok(0));
    assert_eq!(lobby.name, "ann VS Open VS Open");
    assert_eq!(lobby.join_game(11, "bob".to_string()), Ok(1));
    assert_eq!(lobby.join_game(12, "cat".to_string()), Ok(2));
    assert_eq!(lobby.name, "ann VS bob VS cat");
    assert_eq!(seated(&lobby), vec![(0, 10, false), (1, 11, false), (2, 12, false)]);
    // Who sits keeps the seat; a fourth finds none.
    assert_eq!(lobby.join_game(11, "bob".to_string()), Ok(1));
    assert_eq!(lobby.join_game(13, "dan".to_string()), Err(RuntimeError::Conflict));
    assert_eq!(lobby.seats.len(), 3);
}

#[test]
fn a_seat_that_was_left_is_given_out_again() {
    let mut lobby = Lobby::new(false, Vec::new());
    lobby.join_game(10, "ann".to_string()).unwrap();
    lobby.join_game(11, "bob".to_string()).unwrap();
    lobby.join_game(12, "cat".to_string()).unwrap();
    assert_eq!(lobby.leave_game(11), Ok(LeaveOutcome::KeepGame));
    assert_eq!(lobby.name, "ann VS Open VS cat");
    assert_eq!(lobby.join_game(13, "dan".to_string()), Ok(1));
    assert_eq!(lobby.name, "ann VS dan VS cat");
    assert_eq!(seated(&lobby), vec![(0, 10, false), (2, 12, false), (1, 13, false)]);
}

#[test]
fn leaving_needs_a_seat_and_the_last_to_leave_ends_the_lobby() {
    let mut lobby = Lobby::new(false, Vec::new());
    lobby.join_game(10, "ann".to_string()).unwrap();
    assert_eq!(lobby.leave_game(99), Err(RuntimeError::Forbidden));
    assert_eq!(lobby.seats.len(), 1);
    assert_eq!(lobby.leave_game(10), Ok(LeaveOutcome::RemoveGame));
    assert!(lobby.seats.is_empty());
    assert_eq!(lobby.name, "ann VS Open VS Open");
}

#[test]
fn a_rematch_keeps_each_seat_for_its_user() {
    let mut lobby = Lobby::new(true, vec![20, 21, 22]);
    let name = lobby.name.clone();
    assert_eq!(lobby.join_game(22, "cat".to_string()), Ok(2));
    assert_eq!(lobby.join_game(20, "ann".to_string()), Ok(0));
    assert_eq!(lobby.join_game(99, "eve".to_string()), Err(RuntimeError::Forbidden));
    assert_eq!(lobby.name, name);
    assert_eq!(seated(&lobby), vec![(2, 22, false), (0, 20, false)]);
    assert_eq!(lobby.leave_game(22), Ok(LeaveOutcome::KeepGame));
    assert_eq!(lobby.name, name);
    assert_eq!(lobby.join_game(22, "cat".to_string()), Ok(2));
}

#[test]
fn a_rematch_seat_that_another_holds_is_refused() {
    let mut lobby = Lobby::new(true, vec![20, 21, 20]);
    assert_eq!(lobby.join_game(20, "ann".to_string()), Ok(0));
    lobby.seats[0].user_id = 30;
    assert_eq!(lobby.join_game(20, "ann".to_string()), Err(RuntimeError::Conflict));
}

#[test]
fn the_game_begins_when_the_third_seat_is_ready() {
    let mut lobby = Lobby::new(false, Vec::new());
    lobby.join_game(10, "ann".to_string()).unwrap();
    lobby.join_game(11, "bob".to_string()).unwrap();
    assert_eq!(lobby.set_ready(10, true), Ok(false));
    assert_eq!(lobby.set_ready(11, true), Ok(false));
    assert_eq!(lobby.set_ready(12, true), Err(RuntimeError::Forbidden));
    lobby.join_game(12, "cat".to_string()).unwrap();
    assert_eq!(lobby.set_ready(11, false), Ok(false));
    assert_eq!(lobby.set_ready(12, true), Ok(false));
    assert_eq!(seated(&lobby), vec![(0, 10, true), (1, 11, false), (2, 12, true)]);
    assert_eq!(lobby.status, GameStatus::Lobby);
    assert_eq!(lobby.set_ready(11, true), Ok(true));
    assert_eq!(lobby.status, GameStatus::Started);
    assert_eq!(lobby.seats[1].username, "bob");
    // Once the game has begun the lobby takes no more changes.
    assert_eq!(lobby.set_ready(11, false), Err(RuntimeError::Conflict));
    assert_eq!(lobby.join_game(13, "dan".to_string()), Err(RuntimeError::Conflict));
    assert_eq!(lobby.leave_game(10), Err(RuntimeError::Conflict));
    assert_eq!(seated(&lobby), vec![(0, 10, true), (1, 11, true), (2, 12, true)]);
}

#[test]
fn only_a_seated_user_can_begin_a_game_and_only_a_ready_one() {
    let mut lobby = Lobby::new(false, Vec::new());
    lobby.join_game(10, "ann".to_string()).unwrap();
    lobby.join_game(11, "bob".to_string()).unwrap();
    assert_eq!(lobby.start_game(99), Err(RuntimeError::Forbidden));
    assert_eq!(lobby.start_game(10), Err(RuntimeError::Conflict));
    lobby.join_game(12, "cat".to_string()).unwrap();
    assert_eq!(lobby.start_game(10), Err(RuntimeError::Conflict));
    for entry in lobby.seats.iter_mut() {
        entry.ready = true;
    }
    assert_eq!(lobby.status, GameStatus::Lobby);
    assert_eq!(lobby.start_game(10), Ok(true));
    assert_eq!(lobby.status, GameStatus::Started);
    assert_eq!(lobby.start_game(10), Err(RuntimeError::Conflict));
    assert_eq!(lobby.start_game(99), Err(RuntimeError::Forbidden));
}
