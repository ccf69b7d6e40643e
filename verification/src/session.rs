//! One game as a server holds it: the state, the transcript that led to it,
//! and who sits where. Every change goes through here, so that the
//! transcript always replays to the state.

use vstd::prelude::*;
use vstd::string::*;
use crate::action::Action;
use crate::card::Card;
use crate::events::{build_last_event, tells};
use crate::lobby::SeatEntry;
use crate::state::laws::lemma_run_push;
use crate::state::shape::lemma_initial_shaped;
use crate::state::{CutthroatState, GameModel, LastEventView, Seat, Winner};
use crate::tokenlog::grammar::parsed_line;
use crate::tokenlog::{parse_action_tokens_for_state, TokenError, TokenLog};

verus! {

/// How far a game has come.
#[derive(Clone, Copy, Debug, PartialEq, Eq, Structural)]
pub enum GameStatus {
    Lobby,
    Started,
    Finished,
}

/// Why a command is refused.
#[derive(Clone, Copy, Debug, PartialEq, Eq, Structural)]
pub enum RuntimeError {
    NotFound,
    Forbidden,
    Conflict,
    BadRequest,
}

impl RuntimeError {
    pub open spec fn spec_code(self) -> u16 {
        match self {
            RuntimeError::NotFound => 404,
            RuntimeError::Forbidden => 403,
            RuntimeError::Conflict => 409,
            RuntimeError::BadRequest => 400,
        }
    }

    pub open spec fn spec_message(self) -> Seq<char> {
        match self {
            RuntimeError::NotFound => "not found"@,
            RuntimeError::Forbidden => "forbidden"@,
            RuntimeError::Conflict => "conflict"@,
            RuntimeError::BadRequest => "bad request"@,
        }
    }

    /// The status code that the error is answered with.
    pub fn code(&self) -> (code: u16)
        ensures
            code == self.spec_code(),
    {
        match self {
            RuntimeError::NotFound => 404,
            RuntimeError::Forbidden => 403,
            RuntimeError::Conflict => 409,
            RuntimeError::BadRequest => 400,
        }
    }

    /// The error in words.
    pub fn message(&self) -> (text: String)
        ensures
            text@ == self.spec_message(),
    {
        match self {
            RuntimeError::NotFound => "not found".to_owned(),
            RuntimeError::Forbidden => "forbidden".to_owned(),
            RuntimeError::Conflict => "conflict".to_owned(),
            RuntimeError::BadRequest => "bad request".to_owned(),
        }
    }
}

/// What an action that was taken means for those who serve the game.
#[derive(Clone, Copy, Debug, PartialEq, Eq, Structural)]
pub struct ApplyOutcome {
    /// The seat that acted.
    pub seat: Seat,
    /// The action that it took.
    pub action: Action,
    /// Whether the action ended the game.
    pub finished: bool,
}

/// A game as a server holds it.
pub struct GameSession {
    seats: Vec<SeatEntry>,
    status: GameStatus,
    last_event: Option<LastEventView>,
    scrap_straightened: bool,
    version: usize,
    transcript: TokenLog,
    engine: CutthroatState,
}

/// A session as a value.
pub struct SessionModel {
    pub seats: Seq<SeatEntry>,
    pub status: GameStatus,
    pub last_event: Option<LastEventView>,
    pub scrap_straightened: bool,
    pub version: nat,
    pub dealer: Seat,
    pub deck: Seq<Card>,
    pub actions: Seq<(Seat, Action)>,
    pub engine: GameModel,
}

/// The seat of a user: that of the first entry for the user.
pub open spec fn seat_of_user(seats: Seq<SeatEntry>, user_id: i64) -> Option<Seat>
    decreases seats.len(),
{
    if seats.len() == 0 {
        None
    } else if seats[0].user_id == user_id {
        Some(seats[0].seat)
    } else {
        seat_of_user(seats.drop_first(), user_id)
    }
}

/// The user at a seat: that of the first entry for the seat.
pub open spec fn user_at(seats: Seq<SeatEntry>, seat: Seat) -> Option<i64>
    decreases seats.len(),
{
    if seats.len() == 0 {
        None
    } else if seats[0].seat == seat {
        Some(seats[0].user_id)
    } else {
        user_at(seats.drop_first(), seat)
    }
}

/// The user at a seat as the last entry for the seat has it.
pub open spec fn last_user_at(seats: Seq<SeatEntry>, seat: Seat) -> Option<i64>
    decreases seats.len(),
{
    if seats.len() == 0 {
        None
    } else if seats.last().seat == seat {
        Some(seats.last().user_id)
    } else {
        last_user_at(seats.drop_last(), seat)
    }
}

impl SessionModel {
    /// What holds of every session: the transcript is that of a legal game
    /// and replays to the state, the version counts its actions, and the
    /// game is finished exactly when it has a winner.
    pub open spec fn sound(self) -> bool {
        &&& self.dealer < 3
        &&& self.deck.len() >= 15
        &&& self.engine.shaped()
        &&& GameModel::initial(self.dealer, self.deck).run(self.actions) == Some(self.engine)
        &&& self.version == self.actions.len()
        &&& (self.status is Finished <==> self.engine.winner is Some)
        &&& (self.status is Lobby ==> self.actions.len() == 0)
    }

    /// Why an action is refused, if it is: in this order, because the game
    /// is not running, because the user has no seat, because the user has
    /// not seen the latest state, because the line cannot be read, because
    /// it names another seat, or because the action is not legal.
    pub open spec fn refusal(self, user_id: i64, expected_version: usize, text: Seq<char>)
        -> Option<RuntimeError> {
        if !(self.status is Started) {
            Some(RuntimeError::Conflict)
        } else {
            match seat_of_user(self.seats, user_id) {
                None => Some(RuntimeError::Forbidden),
                Some(seat) => if self.version != expected_version {
                    Some(RuntimeError::Conflict)
                } else {
                    match parsed_line(text, self.engine) {
                        Err(_) => Some(RuntimeError::BadRequest),
                        Ok((declared, a)) => if declared != seat {
                            Some(RuntimeError::Forbidden)
                        } else if !self.engine.legal(seat, a) {
                            Some(RuntimeError::BadRequest)
                        } else {
                            None
                        },
                    }
                },
            }
        }
    }

    /// Whether `after` is this session after `seat` took the action `a`.
    pub open spec fn moved_to(self, after: SessionModel, seat: Seat, a: Action) -> bool {
        &&& after.seats == self.seats
        &&& after.dealer == self.dealer
        &&& after.deck == self.deck
        &&& after.actions == self.actions.push((seat, a))
        &&& after.engine == self.engine.step(seat, a)
        &&& after.version == self.version + 1
        &&& after.status == if after.engine.winner is Some {
            GameStatus::Finished
        } else {
            GameStatus::Started
        }
        &&& after.scrap_straightened == (self.scrap_straightened && after.engine.scrap.len()
            <= self.engine.scrap.len())
        &&& match after.last_event {
            Some(event) => tells(event, seat, a, self.engine.phase),
            None => false,
        }
    }
}

pub(crate) fn find_seat(seats: &Vec<SeatEntry>, user_id: i64) -> (r: Option<Seat>)
    ensures
        r == seat_of_user(seats@, user_id),
{
    let mut i: usize = 0;
    proof {
        assert(seats@.skip(0) =~= seats@);
    }
    while i < seats.len()
        invariant
            i <= seats.len(),
            seat_of_user(seats@, user_id) == seat_of_user(seats@.skip(i as int), user_id),
        decreases seats.len() - i,
    {
        proof {
            assert(seats@.skip(i as int).drop_first() =~= seats@.skip(i + 1));
            assert(seats@.skip(i as int)[0] == seats@[i as int]);
        }
        if seats[i].user_id == user_id {
            return Some(seats[i].seat);
        }
        i = i + 1;
    }
    None
}

pub(crate) fn find_user(seats: &Vec<SeatEntry>, seat: Seat) -> (r: Option<i64>)
    ensures
        r == user_at(seats@, seat),
{
    let mut i: usize = 0;
    proof {
        assert(seats@.skip(0) =~= seats@);
    }
    while i < seats.len()
        invariant
            i <= seats.len(),
            user_at(seats@, seat) == user_at(seats@.skip(i as int), seat),
        decreases seats.len() - i,
    {
        proof {
            assert(seats@.skip(i as int).drop_first() =~= seats@.skip(i + 1));
            assert(seats@.skip(i as int)[0] == seats@[i as int]);
        }
        if seats[i].seat == seat {
            return Some(seats[i].user_id);
        }
        i = i + 1;
    }
    None
}

impl View for GameSession {
    type V = SessionModel;

    closed spec fn view(&self) -> SessionModel {
        SessionModel {
            seats: self.seats@,
            status: self.status,
            last_event: self.last_event,
            scrap_straightened: self.scrap_straightened,
            version: self.version as nat,
            dealer: self.transcript.dealer,
            deck: self.transcript.deck@,
            actions: self.transcript.actions@,
            engine: self.engine@,
        }
    }
}

impl GameSession {
    #[verifier::type_invariant]
    spec fn sound(&self) -> bool {
        self@.sound()
    }

    /// A game in its lobby, dealt from the given deck. There is none for a
    /// dealer that is no seat or for a deck of fewer than fifteen cards.
    pub fn new(seats: Vec<SeatEntry>, dealer: Seat, deck: Vec<Card>) -> (r: Option<Self>)
        ensures
            match r {
                Some(session) => {
                    &&& dealer < 3
                    &&& deck@.len() >= 15
                    &&& session@.sound()
                    &&& session@ == (SessionModel {
                        seats: seats@,
                        status: GameStatus::Lobby,
                        last_event: None,
                        scrap_straightened: false,
                        version: 0,
                        dealer,
                        deck: deck@,
                        actions: Seq::empty(),
                        engine: GameModel::initial(dealer, deck@),
                    })
                },
                None => dealer >= 3 || deck@.len() < 15,
            },
    {
        if dealer >= 3 || deck.len() < 15 {
            return None;
        }
        let dealt_from = vstd::slice::slice_to_vec(deck.as_slice());
        let engine = CutthroatState::new_with_deck(dealer, deck);
        proof {
            lemma_initial_shaped(dealer, dealt_from@);
        }
        let transcript = TokenLog { dealer, deck: dealt_from, actions: Vec::new() };
        let session = GameSession {
            seats,
            status: GameStatus::Lobby,
            last_event: None,
            scrap_straightened: false,
            version: 0,
            transcript,
            engine,
        };
        assert(session@.actions =~= Seq::empty());
        Some(session)
    }

    /// The game begins. It can begin only from its lobby.
    pub fn start(self) -> (r: (Self, Result<(), RuntimeError>))
        ensures
            r.0@.sound(),
            match r.1 {
                Ok(_) => self@.status is Lobby && r.0@ == (SessionModel {
                    status: GameStatus::Started,
                    ..self@
                }),
                Err(e) => !(self@.status is Lobby) && e == RuntimeError::Conflict && r.0@
                    == self@,
            },
    {
        proof {
            use_type_invariant(&self);
        }
        let GameSession {
            seats,
            status,
            last_event,
            scrap_straightened,
            version,
            transcript,
            engine,
        } = self;
        match status {
            GameStatus::Lobby => {
                (
                    GameSession {
                        seats,
                        status: GameStatus::Started,
                        last_event,
                        scrap_straightened,
                        version,
                        transcript,
                        engine,
                    },
                    Ok(()),
                )
            },
            _ => (
                GameSession {
                    seats,
                    status,
                    last_event,
                    scrap_straightened,
                    version,
                    transcript,
                    engine,
                },
                Err(RuntimeError::Conflict),
            ),
        }
    }

    /// A user takes an action, sent as a line of the token log. It is taken
    /// only in a running game, by the user at the seat that the line names,
    /// who has seen the latest state, and only if it is legal. An action
    /// that is refused leaves the session as it is; one that is taken joins
    /// the transcript, and the game is finished if it has a winner then.
    pub fn apply_action(self, user_id: i64, expected_version: usize, action_tokens: &str) -> (r: (
        Self,
        Result<ApplyOutcome, RuntimeError>,
    ))
        ensures
            r.0@.sound(),
            match r.1 {
                Ok(outcome) => {
                    &&& self@.refusal(user_id, expected_version, action_tokens@) is None
                    &&& parsed_line(action_tokens@, self@.engine) == Ok::<
                        (Seat, Action),
                        TokenError,
                    >((outcome.seat, outcome.action))
                    &&& self@.moved_to(r.0@, outcome.seat, outcome.action)
                    &&& outcome.finished == (r.0@.engine.winner is Some)
                },
                Err(e) => self@.refusal(user_id, expected_version, action_tokens@) == Some(e)
                    && r.0@ == self@,
            },
    {
        proof {
            use_type_invariant(&self);
        }
        let GameSession {
            seats,
            status,
            last_event,
            scrap_straightened,
            version,
            transcript,
            engine,
        } = self;
        let mut transcript = transcript;
        let mut engine = engine;
        let running = match status {
            GameStatus::Started => true,
            _ => false,
        };
        let seat = if running {
            find_seat(&seats, user_id)
        } else {
            None
        };
        let mut refused: Option<RuntimeError> = None;
        if !running {
            refused = Some(RuntimeError::Conflict);
        } else {
            match seat {
                None => {
                    refused = Some(RuntimeError::Forbidden);
                },
                Some(seat) => {
                    if version != expected_version {
                        refused = Some(RuntimeError::Conflict);
                    } else {
                        match parse_action_tokens_for_state(action_tokens, &engine) {
                            Err(_) => {
                                refused = Some(RuntimeError::BadRequest);
                            },
                            Ok((declared, action)) => {
                                if declared != seat {
                                    refused = Some(RuntimeError::Forbidden);
                                } else {
                                    let event = build_last_event(seat, &action, &engine.phase);
                                    let scrap_before = engine.scrap.len();
                                    match engine.apply(seat, action) {
                                        Err(_) => {
                                            refused = Some(RuntimeError::BadRequest);
                                        },
                                        Ok(_) => {
                                            proof {
                                                lemma_run_push(
                                                    GameModel::initial(
                                                        transcript.dealer,
                                                        transcript.deck@,
                                                    ),
                                                    transcript.actions@,
                                                    seat,
                                                    action,
                                                );
                                            }
                                            transcript.actions.push((seat, action));
                                            let finished = engine.winner.is_some();
                                            let straightened = scrap_straightened
                                                && engine.scrap.len() <= scrap_before;
                                            let outcome = ApplyOutcome { seat, action, finished };
                                            let next = GameSession {
                                                seats,
                                                status: if finished {
                                                    GameStatus::Finished
                                                } else {
                                                    GameStatus::Started
                                                },
                                                last_event: Some(event),
                                                scrap_straightened: straightened,
                                                version: transcript.actions.len(),
                                                transcript,
                                                engine,
                                            };
                                            return (next, Ok(outcome));
                                        },
                                    }
                                }
                            },
                        }
                    }
                },
            }
        }
        let same = GameSession {
            seats,
            status,
            last_event,
            scrap_straightened,
            version,
            transcript,
            engine,
        };
        (same, Err(refused.unwrap()))
    }

    /// Whether a user may look at the game: as one who plays in it, or as
    /// one who only watches. To watch, the game must have begun and the user
    /// must not be playing in it while it runs; to look at a game in its
    /// lobby, the user must have a seat.
    pub fn validate_viewer(&self, user_id: i64, spectate_intent: bool) -> (r: Result<
        (),
        RuntimeError,
    >)
        ensures
            self@.sound(),
            r is Ok <==> ({
                let seated = seat_of_user(self@.seats, user_id) is Some;
                if spectate_intent {
                    !(seated && !(self@.status is Finished)) && !(self@.status is Lobby)
                } else {
                    seated || !(self@.status is Lobby)
                }
            }),
            r matches Err(e) ==> e == RuntimeError::Conflict,
    {
        proof {
            use_type_invariant(self);
        }
        let viewer_is_seated = find_seat(&self.seats, user_id).is_some();
        let finished = match self.status {
            GameStatus::Finished => true,
            _ => false,
        };
        let lobby = match self.status {
            GameStatus::Lobby => true,
            _ => false,
        };
        if spectate_intent {
            if viewer_is_seated && !finished {
                return Err(RuntimeError::Conflict);
            }
            if lobby {
                return Err(RuntimeError::Conflict);
            }
            return Ok(());
        }
        if viewer_is_seated {
            return Ok(());
        }
        if lobby {
            return Err(RuntimeError::Conflict);
        }
        Ok(())
    }

    /// The scrap is laid out straight, or left as it fell: whoever plays or
    /// watches may change it.
    pub fn toggle_scrap_straighten(self, user_id: i64, watches: bool) -> (r: (
        Self,
        Result<(), RuntimeError>,
    ))
        ensures
            r.0@.sound(),
            match r.1 {
                Ok(_) => (watches || seat_of_user(self@.seats, user_id) is Some) && r.0@ == (
                SessionModel { scrap_straightened: !self@.scrap_straightened, ..self@ }),
                Err(e) => !watches && seat_of_user(self@.seats, user_id) is None && e
                    == RuntimeError::Forbidden && r.0@ == self@,
            },
    {
        proof {
            use_type_invariant(&self);
        }
        let allowed = watches || find_seat(&self.seats, user_id).is_some();
        let GameSession {
            seats,
            status,
            last_event,
            scrap_straightened,
            version,
            transcript,
            engine,
        } = self;
        if allowed {
            (
                GameSession {
                    seats,
                    status,
                    last_event,
                    scrap_straightened: !scrap_straightened,
                    version,
                    transcript,
                    engine,
                },
                Ok(()),
            )
        } else {
            (
                GameSession {
                    seats,
                    status,
                    last_event,
                    scrap_straightened,
                    version,
                    transcript,
                    engine,
                },
                Err(RuntimeError::Forbidden),
            )
        }
    }

    /// The user who won, if a seat won and a user sits there.
    pub fn winner_user_id(&self) -> (r: Option<i64>)
        ensures
            r == match self@.engine.winner {
                Some(Winner::Seat(seat)) => user_at(self@.seats, seat),
                _ => None,
            },
    {
        match self.engine.winner {
            Some(Winner::Seat(seat)) => find_user(&self.seats, seat),
            _ => None,
        }
    }

    /// The users at the three seats, if all three are taken.
    pub fn user_ids_by_seat(&self) -> (r: Option<[i64; 3]>)
        ensures
            match r {
                Some(ids) => forall|idx: Seat|
                    idx < 3 ==> last_user_at(self@.seats, idx) == Some(#[trigger] ids[idx as int]),
                None => exists|idx: Seat| idx < 3 && last_user_at(self@.seats, idx) is None,
            },
    {
        let mut zero: Option<i64> = None;
        let mut one: Option<i64> = None;
        let mut two: Option<i64> = None;
        let mut i: usize = 0;
        proof {
            assert(self.seats@.take(0) =~= Seq::<SeatEntry>::empty());
        }
        while i < self.seats.len()
            invariant
                i <= self.seats.len(),
                zero == last_user_at(self.seats@.take(i as int), 0),
                one == last_user_at(self.seats@.take(i as int), 1),
                two == last_user_at(self.seats@.take(i as int), 2),
            decreases self.seats.len() - i,
        {
            proof {
                assert(self.seats@.take(i + 1).drop_last() =~= self.seats@.take(i as int));
                assert(self.seats@.take(i + 1).last() == self.seats@[i as int]);
            }
            let entry = &self.seats[i];
            if entry.seat == 0 {
                zero = Some(entry.user_id);
            } else if entry.seat == 1 {
                one = Some(entry.user_id);
            } else if entry.seat == 2 {
                two = Some(entry.user_id);
            }
            i = i + 1;
        }
        proof {
            assert(self.seats@.take(i as int) =~= self.seats@);
        }
        match (zero, one, two) {
            (Some(a), Some(b), Some(c)) => Some([a, b, c]),
            (None, _, _) => {
                assert(last_user_at(self@.seats, 0) is None);
                None
            },
            (_, None, _) => {
                assert(last_user_at(self@.seats, 1) is None);
                None
            },
            (_, _, None) => {
                assert(last_user_at(self@.seats, 2) is None);
                None
            },
        }
    }

    /// The state of the game.
    pub fn engine(&self) -> (engine: &CutthroatState)
        ensures
            engine@ == self@.engine,
            engine.shaped(),
            self@.sound(),
    {
        proof {
            use_type_invariant(self);
        }
        &self.engine
    }

    /// The game so far: who dealt, the deck it was dealt from, and every
    /// action.
    pub fn transcript(&self) -> (log: &TokenLog)
        ensures
            log@.dealer == self@.dealer,
            log@.deck == self@.deck,
            log@.actions == self@.actions,
            log.dealer < 3,
            log.deck@.len() >= 15,
    {
        proof {
            use_type_invariant(self);
        }
        &self.transcript
    }

    pub fn seats(&self) -> (seats: &Vec<SeatEntry>)
        ensures
            seats@ == self@.seats,
    {
        &self.seats
    }

    pub fn status(&self) -> (status: GameStatus)
        ensures
            status == self@.status,
    {
        self.status
    }

    /// The number of actions taken so far.
    pub fn version(&self) -> (version: usize)
        ensures
            version == self@.version,
            version == self@.actions.len(),
    {
        proof {
            use_type_invariant(self);
        }
        self.version
    }

    pub fn scrap_straightened(&self) -> (b: bool)
        ensures
            b == self@.scrap_straightened,
    {
        self.scrap_straightened
    }

    /// What the last action was, for display.
    pub fn last_event(&self) -> (event: &Option<LastEventView>)
        ensures
            *event == self@.last_event,
    {
        &self.last_event
    }
}

} // verus!
