//! Who sits where.

use vstd::prelude::*;
use vstd::string::*;
use crate::session::{find_seat, find_user, seat_of_user, user_at, GameStatus, RuntimeError};
use crate::state::util::{first_where, lemma_first_where};
use crate::state::Seat;

verus! {

/// A user at a seat.
#[derive(Clone, Debug)]
pub struct SeatEntry {
    pub seat: Seat,
    pub user_id: i64,
    pub username: String,
    pub ready: bool,
}

/// The name of the user at seat `idx`: that of the last entry for the seat.
pub open spec fn name_at(seats: Seq<SeatEntry>, idx: Seat) -> Option<Seq<char>>
    decreases seats.len(),
{
    if seats.len() == 0 {
        None
    } else if seats.last().seat == idx {
        Some(seats.last().username@)
    } else {
        name_at(seats.drop_last(), idx)
    }
}

/// The name to show for seat `idx`: `Open` while nobody sits there.
pub open spec fn shown_name(seats: Seq<SeatEntry>, idx: Seat) -> Seq<char> {
    match name_at(seats, idx) {
        Some(name) => name,
        None => "Open"@,
    }
}

pub open spec fn text_of(name: Option<String>) -> Option<Seq<char>> {
    match name {
        Some(text) => Some(text@),
        None => None,
    }
}

/// The names at the three seats, as far as they are taken.
fn names_by_seat(seats: &[SeatEntry]) -> (names: (Option<String>, Option<String>, Option<String>))
    ensures
        text_of(names.0) == name_at(seats@, 0),
        text_of(names.1) == name_at(seats@, 1),
        text_of(names.2) == name_at(seats@, 2),
{
    let mut zero: Option<String> = None;
    let mut one: Option<String> = None;
    let mut two: Option<String> = None;
    let mut i: usize = 0;
    proof {
        assert(seats@.take(0) =~= Seq::<SeatEntry>::empty());
    }
    while i < seats.len()
        invariant
            i <= seats.len(),
            text_of(zero) == name_at(seats@.take(i as int), 0),
            text_of(one) == name_at(seats@.take(i as int), 1),
            text_of(two) == name_at(seats@.take(i as int), 2),
        decreases seats.len() - i,
    {
        proof {
            assert(seats@.take(i + 1).drop_last() =~= seats@.take(i as int));
            assert(seats@.take(i + 1).last() == seats@[i as int]);
        }
        let entry = &seats[i];
        if entry.seat == 0 {
            zero = Some(entry.username.clone());
        } else if entry.seat == 1 {
            one = Some(entry.username.clone());
        } else if entry.seat == 2 {
            two = Some(entry.username.clone());
        }
        i = i + 1;
    }
    proof {
        assert(seats@.take(i as int) =~= seats@);
    }
    (zero, one, two)
}

/// The names of the users at the three seats, if all three are taken.
pub fn usernames_from_seats(seats: &[SeatEntry]) -> (r: Option<[String; 3]>)
    ensures
        match r {
            Some(names) => forall|idx: Seat|
                idx < 3 ==> name_at(seats@, idx) == Some(#[trigger] names[idx as int]@),
            None => exists|idx: Seat| idx < 3 && name_at(seats@, idx) is None,
        },
{
    let (zero, one, two) = names_by_seat(seats);
    match (zero, one, two) {
        (Some(a), Some(b), Some(c)) => Some([a, b, c]),
        (None, _, _) => {
            assert(name_at(seats@, 0) is None);
            None
        },
        (_, None, _) => {
            assert(name_at(seats@, 1) is None);
            None
        },
        (_, _, None) => {
            assert(name_at(seats@, 2) is None);
            None
        },
    }
}

/// The name of a lobby: who plays whom, with `Open` for each empty seat.
pub fn normal_lobby_name(seats: &[SeatEntry]) -> (name: String)
    ensures
        name@ == shown_name(seats@, 0) + " VS "@ + shown_name(seats@, 1) + " VS "@ + shown_name(
            seats@,
            2,
        ),
{
    let (zero, one, two) = names_by_seat(seats);
    let mut name = String::new();
    match zero {
        Some(text) => name.append(text.as_str()),
        None => name.append("Open"),
    }
    name.append(" VS ");
    match one {
        Some(text) => name.append(text.as_str()),
        None => name.append("Open"),
    }
    name.append(" VS ");
    match two {
        Some(text) => name.append(text.as_str()),
        None => name.append("Open"),
    }
    proof {
        assert(name@ =~= shown_name(seats@, 0) + " VS "@ + shown_name(seats@, 1) + " VS "@
            + shown_name(seats@, 2));
    }
    name
}


// ----------------------------------------------------------------------
// A game before it begins
// ----------------------------------------------------------------------
/// What becomes of a lobby that a user left.
#[derive(Clone, Copy, Debug, PartialEq, Eq)]
pub enum LeaveOutcome {
    /// Nobody is left: the lobby goes.
    RemoveGame,
    /// Somebody is left: the lobby stays.
    KeepGame,
}

/// A game before it begins: who has taken which seat and who is ready. The
/// lobby of a rematch keeps each seat for the user who had it, in the order
/// of the series; any other lobby gives out the lowest free seat and is
/// named after those who sit in it.
pub struct Lobby {
    pub name: String,
    pub status: GameStatus,
    pub is_rematch_lobby: bool,
    pub series_player_order: Vec<i64>,
    pub seats: Vec<SeatEntry>,
}

/// Being the user `user_id`.
pub open spec fn is_user(user_id: i64) -> spec_fn(i64) -> bool {
    |id: i64| id == user_id
}

/// Being an entry of the user `user_id`.
pub open spec fn entry_of(user_id: i64) -> spec_fn(SeatEntry) -> bool {
    |entry: SeatEntry| entry.user_id == user_id
}

/// The lowest seat that nobody has, if there is one.
pub open spec fn first_free(seats: Seq<SeatEntry>) -> Option<Seat> {
    if user_at(seats, 0) is None {
        Some(0)
    } else if user_at(seats, 1) is None {
        Some(1)
    } else if user_at(seats, 2) is None {
        Some(2)
    } else {
        None
    }
}

/// Whether everybody who sits is ready.
pub open spec fn all_ready(seats: Seq<SeatEntry>) -> bool {
    forall|i: int| 0 <= i < seats.len() ==> (#[trigger] seats[i]).ready
}

/// The name of a lobby for those who sit in it.
pub open spec fn lobby_name(seats: Seq<SeatEntry>) -> Seq<char> {
    shown_name(seats, 0) + " VS "@ + shown_name(seats, 1) + " VS "@ + shown_name(seats, 2)
}

fn place_in(order: &Vec<i64>, user_id: i64) -> (r: Option<usize>)
    ensures
        match r {
            Some(k) => k < order@.len() && k == first_where(order@, is_user(user_id)),
            None => first_where(order@, is_user(user_id)) == order@.len(),
        },
{
    proof {
        lemma_first_where(order@, is_user(user_id));
    }
    let mut i: usize = 0;
    while i < order.len()
        invariant
            i <= order.len(),
            i <= first_where(order@, is_user(user_id)) <= order@.len(),
            forall|j: int|
                0 <= j < first_where(order@, is_user(user_id)) ==> !is_user(user_id)(
                    #[trigger] order@[j],
                ),
            first_where(order@, is_user(user_id)) < order@.len() ==> is_user(user_id)(
                order@[first_where(order@, is_user(user_id))],
            ),
        decreases order.len() - i,
    {
        if order[i] == user_id {
            assert(is_user(user_id)(order@[i as int]));
            return Some(i);
        }
        assert(!is_user(user_id)(order@[i as int]));
        i = i + 1;
    }
    None
}

fn entry_index(seats: &Vec<SeatEntry>, user_id: i64) -> (r: Option<usize>)
    ensures
        match r {
            Some(k) => k < seats@.len() && k == first_where(seats@, entry_of(user_id)),
            None => first_where(seats@, entry_of(user_id)) == seats@.len(),
        },
{
    proof {
        lemma_first_where(seats@, entry_of(user_id));
    }
    let mut i: usize = 0;
    while i < seats.len()
        invariant
            i <= seats.len(),
            i <= first_where(seats@, entry_of(user_id)) <= seats@.len(),
            forall|j: int|
                0 <= j < first_where(seats@, entry_of(user_id)) ==> !entry_of(user_id)(
                    #[trigger] seats@[j],
                ),
            first_where(seats@, entry_of(user_id)) < seats@.len() ==> entry_of(user_id)(
                seats@[first_where(seats@, entry_of(user_id))],
            ),
        decreases seats.len() - i,
    {
        if seats[i].user_id == user_id {
            assert(entry_of(user_id)(seats@[i as int]));
            return Some(i);
        }
        assert(!entry_of(user_id)(seats@[i as int]));
        i = i + 1;
    }
    None
}

fn everybody_ready(seats: &Vec<SeatEntry>) -> (b: bool)
    ensures
        b == all_ready(seats@),
{
    let mut i: usize = 0;
    while i < seats.len()
        invariant
            i <= seats.len(),
            forall|j: int| 0 <= j < i ==> (#[trigger] seats@[j]).ready,
        decreases seats.len() - i,
    {
        if !seats[i].ready {
            return false;
        }
        i = i + 1;
    }
    true
}

fn lowest_free(seats: &Vec<SeatEntry>) -> (r: Option<Seat>)
    ensures
        r == first_free(seats@),
{
    if find_user(seats, 0).is_none() {
        Some(0)
    } else if find_user(seats, 1).is_none() {
        Some(1)
    } else if find_user(seats, 2).is_none() {
        Some(2)
    } else {
        None
    }
}

impl Lobby {
    /// The answer to a user who asks for a seat. A game that has begun takes
    /// nobody. Who sits already keeps the seat. In the lobby of a rematch
    /// the user gets the seat of its place in the series, if it has a place
    /// and the seat is free; in any other lobby the lowest free seat, while
    /// fewer than three sit.
    pub open spec fn join_answer(self, user_id: i64) -> Result<Seat, RuntimeError> {
        if !(self.status is Lobby) {
            Err(RuntimeError::Conflict)
        } else if seat_of_user(self.seats@, user_id) is Some {
            Ok(seat_of_user(self.seats@, user_id).unwrap())
        } else if self.is_rematch_lobby {
            let place = first_where(self.series_player_order@, is_user(user_id));
            if place >= self.series_player_order@.len() {
                Err(RuntimeError::Forbidden)
            } else if user_at(self.seats@, (place % 256) as Seat) is Some {
                Err(RuntimeError::Conflict)
            } else {
                Ok((place % 256) as Seat)
            }
        } else if self.seats@.len() >= 3 {
            Err(RuntimeError::Conflict)
        } else {
            match first_free(self.seats@) {
                Some(seat) => Ok(seat),
                None => Err(RuntimeError::Conflict),
            }
        }
    }

    /// Whether the user takes a seat that it did not have.
    pub open spec fn seats_anew(self, user_id: i64) -> bool {
        self.join_answer(user_id) is Ok && seat_of_user(self.seats@, user_id) is None
    }

    /// A lobby that nobody has entered yet.
    pub fn new(is_rematch_lobby: bool, series_player_order: Vec<i64>) -> (lobby: Lobby)
        ensures
            lobby.status is Lobby,
            lobby.is_rematch_lobby == is_rematch_lobby,
            lobby.series_player_order == series_player_order,
            lobby.seats@.len() == 0,
            lobby.name@ == lobby_name(Seq::empty()),
    {
        let seats: Vec<SeatEntry> = Vec::new();
        let name = normal_lobby_name(seats.as_slice());
        Lobby { name, status: GameStatus::Lobby, is_rematch_lobby, series_player_order, seats }
    }

    /// A user asks for a seat. Who gets one that it did not have sits there
    /// unready, as the last entry; a lobby that is not of a rematch is then
    /// named anew.
    pub fn join_game(&mut self, user_id: i64, username: String) -> (r: Result<Seat, RuntimeError>)
        ensures
            r == old(self).join_answer(user_id),
            final(self).status == old(self).status,
            final(self).is_rematch_lobby == old(self).is_rematch_lobby,
            final(self).series_player_order == old(self).series_player_order,
            final(self).seats@ == if old(self).seats_anew(user_id) {
                old(self).seats@.push(
                    SeatEntry { seat: r.unwrap(), user_id, username, ready: false },
                )
            } else {
                old(self).seats@
            },
            final(self).name@ == if old(self).seats_anew(user_id) && !old(self).is_rematch_lobby {
                lobby_name(final(self).seats@)
            } else {
                old(self).name@
            },
    {
        match self.status {
            GameStatus::Lobby => {},
            _ => {
                return Err(RuntimeError::Conflict);
            },
        }
        if let Some(seat) = find_seat(&self.seats, user_id) {
            return Ok(seat);
        }
        if self.is_rematch_lobby {
            let place = match place_in(&self.series_player_order, user_id) {
                Some(place) => place,
                None => {
                    return Err(RuntimeError::Forbidden);
                },
            };
            let seat = (place % 256) as Seat;
            if find_user(&self.seats, seat).is_some() {
                return Err(RuntimeError::Conflict);
            }
            self.seats.push(SeatEntry { seat, user_id, username, ready: false });
            return Ok(seat);
        }
        if self.seats.len() >= 3 {
            return Err(RuntimeError::Conflict);
        }
        let seat = match lowest_free(&self.seats) {
            Some(seat) => seat,
            None => {
                return Err(RuntimeError::Conflict);
            },
        };
        self.seats.push(SeatEntry { seat, user_id, username, ready: false });
        self.name = normal_lobby_name(self.seats.as_slice());
        Ok(seat)
    }

    /// The answer to a user who leaves: only who sits can leave, and only
    /// before the game begins.
    pub open spec fn leave_answer(self, user_id: i64) -> Result<LeaveOutcome, RuntimeError> {
        if !(self.status is Lobby) {
            Err(RuntimeError::Conflict)
        } else if first_where(self.seats@, entry_of(user_id)) >= self.seats@.len() {
            Err(RuntimeError::Forbidden)
        } else if self.seats@.len() == 1 {
            Ok(LeaveOutcome::RemoveGame)
        } else {
            Ok(LeaveOutcome::KeepGame)
        }
    }

    /// A user leaves: its first entry goes. A lobby that is not of a
    /// rematch, and in which somebody is left, is named anew.
    pub fn leave_game(&mut self, user_id: i64) -> (r: Result<LeaveOutcome, RuntimeError>)
        ensures
            r == old(self).leave_answer(user_id),
            final(self).status == old(self).status,
            final(self).is_rematch_lobby == old(self).is_rematch_lobby,
            final(self).series_player_order == old(self).series_player_order,
            final(self).seats@ == if r is Ok {
                old(self).seats@.remove(first_where(old(self).seats@, entry_of(user_id)))
            } else {
                old(self).seats@
            },
            final(self).name@ == if r == Ok::<LeaveOutcome, RuntimeError>(LeaveOutcome::KeepGame)
                && !old(self).is_rematch_lobby {
                lobby_name(final(self).seats@)
            } else {
                old(self).name@
            },
    {
        match self.status {
            GameStatus::Lobby => {},
            _ => {
                return Err(RuntimeError::Conflict);
            },
        }
        let idx = match entry_index(&self.seats, user_id) {
            Some(idx) => idx,
            None => {
                return Err(RuntimeError::Forbidden);
            },
        };
        self.seats.remove(idx);
        if self.seats.len() == 0 {
            return Ok(LeaveOutcome::RemoveGame);
        }
        if !self.is_rematch_lobby {
            self.name = normal_lobby_name(self.seats.as_slice());
        }
        Ok(LeaveOutcome::KeepGame)
    }

    /// The seats once the first entry of the user says whether it is ready.
    pub open spec fn with_ready(self, user_id: i64, ready: bool) -> Seq<SeatEntry> {
        let idx = first_where(self.seats@, entry_of(user_id));
        self.seats@.update(idx, SeatEntry { ready, ..self.seats@[idx] })
    }

    /// The answer to a user who says whether it is ready: whether the game
    /// begins with that, which it does once three sit and all are ready.
    pub open spec fn ready_answer(self, user_id: i64, ready: bool) -> Result<bool, RuntimeError> {
        if !(self.status is Lobby) {
            Err(RuntimeError::Conflict)
        } else if first_where(self.seats@, entry_of(user_id)) >= self.seats@.len() {
            Err(RuntimeError::Forbidden)
        } else {
            Ok(self.seats@.len() == 3 && all_ready(self.with_ready(user_id, ready)))
        }
    }

    /// A user who sits says whether it is ready. With the third seat ready
    /// the game begins.
    pub fn set_ready(&mut self, user_id: i64, ready: bool) -> (r: Result<bool, RuntimeError>)
        ensures
            r == old(self).ready_answer(user_id, ready),
            final(self).name == old(self).name,
            final(self).is_rematch_lobby == old(self).is_rematch_lobby,
            final(self).series_player_order == old(self).series_player_order,
            final(self).seats@ == if r is Ok {
                old(self).with_ready(user_id, ready)
            } else {
                old(self).seats@
            },
            final(self).status == if r == Ok::<bool, RuntimeError>(true) {
                GameStatus::Started
            } else {
                old(self).status
            },
    {
        match self.status {
            GameStatus::Lobby => {},
            _ => {
                return Err(RuntimeError::Conflict);
            },
        }
        let idx = match entry_index(&self.seats, user_id) {
            Some(idx) => idx,
            None => {
                return Err(RuntimeError::Forbidden);
            },
        };
        let ghost before = self.seats@;
        let entry = self.seats.remove(idx);
        self.seats.insert(idx, SeatEntry { ready, ..entry });
        assert(self.seats@ =~= before.update(idx as int, SeatEntry { ready, ..before[idx as int] }));
        if self.seats.len() == 3 && everybody_ready(&self.seats) {
            self.status = GameStatus::Started;
            return Ok(true);
        }
        Ok(false)
    }

    /// The answer to a user who asks for the game to begin: only who sits
    /// may ask, and the game begins only from its lobby, with three seated
    /// and all of them ready.
    pub open spec fn start_answer(self, user_id: i64) -> Result<bool, RuntimeError> {
        if seat_of_user(self.seats@, user_id) is None {
            Err(RuntimeError::Forbidden)
        } else if !(self.status is Lobby) || self.seats@.len() != 3 || !all_ready(self.seats@) {
            Err(RuntimeError::Conflict)
        } else {
            Ok(true)
        }
    }

    /// A user asks for the game to begin.
    pub fn start_game(&mut self, user_id: i64) -> (r: Result<bool, RuntimeError>)
        ensures
            r == old(self).start_answer(user_id),
            final(self).name == old(self).name,
            final(self).is_rematch_lobby == old(self).is_rematch_lobby,
            final(self).series_player_order == old(self).series_player_order,
            final(self).seats == old(self).seats,
            final(self).status == if r is Ok {
                GameStatus::Started
            } else {
                old(self).status
            },
    {
        if find_seat(&self.seats, user_id).is_none() {
            return Err(RuntimeError::Forbidden);
        }
        match self.status {
            GameStatus::Lobby => {},
            _ => {
                return Err(RuntimeError::Conflict);
            },
        }
        if self.seats.len() != 3 || !everybody_ready(&self.seats) {
            return Err(RuntimeError::Conflict);
        }
        self.status = GameStatus::Started;
        Ok(true)
    }
}

} // verus!
