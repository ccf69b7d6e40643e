//! What to show of the last action.

use vstd::prelude::*;
use vstd::string::*;
use crate::action::{Action, OneOffTarget, SevenPlay};
use crate::card::Card;
use crate::lobby::text_of;
use crate::state::{name_of, LastEventView, Phase, PhaseModel, Seat};

verus! {

/// The kind of an action, as it is named in messages.
pub open spec fn kind_name(a: Action) -> Seq<char> {
    match a {
        Action::Draw => "draw"@,
        Action::Pass => "pass"@,
        Action::PlayPoints { .. } => "points"@,
        Action::Scuttle { .. } => "scuttle"@,
        Action::PlayRoyal { .. } => "royal"@,
        Action::PlayJack { .. } => "jack"@,
        Action::PlayJoker { .. } => "joker"@,
        Action::PlayOneOff { .. } => "oneoff"@,
        Action::CounterTwo { .. } => "counter_two"@,
        Action::CounterPass => "counter_pass"@,
        Action::ResolveThreePick { .. } => "resolve_three"@,
        Action::ResolveFourDiscard { .. } => "resolve_four"@,
        Action::ResolveFiveDiscard { .. } => "resolve_five"@,
        Action::ResolveSevenChoose { .. } => "resolve_seven"@,
    }
}

pub fn format_action(action: &Action) -> (text: String)
    ensures
        text@ == kind_name(*action),
{
    match action {
        Action::Draw => "draw".to_owned(),
        Action::Pass => "pass".to_owned(),
        Action::PlayPoints { .. } => "points".to_owned(),
        Action::Scuttle { .. } => "scuttle".to_owned(),
        Action::PlayRoyal { .. } => "royal".to_owned(),
        Action::PlayJack { .. } => "jack".to_owned(),
        Action::PlayJoker { .. } => "joker".to_owned(),
        Action::PlayOneOff { .. } => "oneoff".to_owned(),
        Action::CounterTwo { .. } => "counter_two".to_owned(),
        Action::CounterPass => "counter_pass".to_owned(),
        Action::ResolveThreePick { .. } => "resolve_three".to_owned(),
        Action::ResolveFourDiscard { .. } => "resolve_four".to_owned(),
        Action::ResolveFiveDiscard { .. } => "resolve_five".to_owned(),
        Action::ResolveSevenChoose { .. } => "resolve_seven".to_owned(),
    }
}

/// What a one-off is aimed at, for display: a card, a seat, and the kind of
/// what is aimed at.
pub struct Aim {
    pub token: Option<Seq<char>>,
    pub seat: Option<Seat>,
    pub kind: Option<Seq<char>>,
}

pub open spec fn aim_of(target: OneOffTarget) -> Aim {
    match target {
        OneOffTarget::NoTarget => Aim { token: None, seat: None, kind: None },
        OneOffTarget::Player { seat } => Aim {
            token: None,
            seat: Some(seat),
            kind: Some("player"@),
        },
        OneOffTarget::Point { base } => Aim {
            token: Some(name_of(base)),
            seat: None,
            kind: Some("point"@),
        },
        OneOffTarget::Royal { card } => Aim {
            token: Some(name_of(card)),
            seat: None,
            kind: Some("royal"@),
        },
        OneOffTarget::Jack { card } => Aim {
            token: Some(name_of(card)),
            seat: None,
            kind: Some("jack"@),
        },
        OneOffTarget::Joker { card } => Aim {
            token: Some(name_of(card)),
            seat: None,
            kind: Some("joker"@),
        },
    }
}

/// The stack that a play is aimed at.
pub open spec fn stack_aim(target: Card, kind: Seq<char>) -> Aim {
    Aim { token: Some(name_of(target)), seat: None, kind: Some(kind) }
}

/// What the action itself is aimed at.
pub open spec fn own_aim(a: Action) -> Aim {
    match a {
        Action::Scuttle { target_point_base, .. } => stack_aim(target_point_base, "point"@),
        Action::PlayJack { target_point_base, .. } => stack_aim(target_point_base, "point"@),
        Action::PlayJoker { target_royal_card, .. } => stack_aim(target_royal_card, "royal"@),
        Action::PlayOneOff { target, .. } => aim_of(target),
        Action::ResolveSevenChoose { play, .. } => match play {
            SevenPlay::Scuttle { target } => stack_aim(target, "point"@),
            SevenPlay::Jack { target } => stack_aim(target, "point"@),
            SevenPlay::Joker { target } => stack_aim(target, "royal"@),
            SevenPlay::OneOff { target } => aim_of(target),
            _ => Aim { token: None, seat: None, kind: None },
        },
        _ => Aim { token: None, seat: None, kind: None },
    }
}

/// The one-off that an answer in a counter window is about.
pub open spec fn countered(a: Action, phase: PhaseModel) -> Option<(Card, OneOffTarget)> {
    match phase {
        PhaseModel::Countering(c) => if a is CounterPass || a is CounterTwo {
            match c.oneoff {
                Action::PlayOneOff { card, target } => Some((card, target)),
                _ => None,
            }
        } else {
            None
        },
        _ => None,
    }
}

/// What an event is aimed at: what the action is aimed at, or for an answer
/// in a counter window what the one-off is aimed at.
pub open spec fn event_aim(a: Action, phase: PhaseModel) -> Aim {
    let own = own_aim(a);
    match countered(a, phase) {
        Some((_, target)) => if own.kind is None {
            let other = aim_of(target);
            Aim {
                token: if own.token is Some {
                    own.token
                } else {
                    other.token
                },
                seat: if own.seat is Some {
                    own.seat
                } else {
                    other.seat
                },
                kind: other.kind,
            }
        } else {
            own
        },
        None => own,
    }
}

/// The rank of the one-off that an event is about.
pub open spec fn event_rank(a: Action, phase: PhaseModel) -> Option<u8> {
    let own = match a {
        Action::PlayOneOff { card, .. } => card.spec_rank_value(),
        _ => None,
    };
    match countered(a, phase) {
        Some((card, _)) => if own is Some {
            own
        } else {
            card.spec_rank_value()
        },
        None => own,
    }
}

/// Whether the action is the pass that closes a counter window.
pub open spec fn closes_window(a: Action, phase: PhaseModel) -> bool {
    match phase {
        PhaseModel::Countering(c) => a is CounterPass && (c.next_seat + 1) % 3
            == c.rotation_anchor,
        _ => false,
    }
}

/// How the table changes with the action, as it is named in messages.
pub open spec fn change_name(a: Action, phase: PhaseModel) -> Seq<char> {
    if closes_window(a, phase) {
        "resolve"@
    } else {
        match a {
            Action::Draw => "main"@,
            Action::Pass => "main"@,
            Action::PlayPoints { .. } => "main"@,
            Action::Scuttle { .. } => "scuttle"@,
            Action::PlayRoyal { .. } => "main"@,
            Action::PlayJack { .. } => "jack"@,
            Action::PlayJoker { .. } => "joker"@,
            Action::PlayOneOff { .. } => "counter"@,
            Action::CounterTwo { .. } => "counter"@,
            Action::CounterPass => "counter"@,
            Action::ResolveThreePick { .. } => "resolve"@,
            Action::ResolveFourDiscard { .. } => "resolve"@,
            Action::ResolveFiveDiscard { .. } => "resolve"@,
            Action::ResolveSevenChoose { play, .. } => match play {
                SevenPlay::Points => "main"@,
                SevenPlay::Scuttle { .. } => "scuttle"@,
                SevenPlay::Royal => "main"@,
                SevenPlay::Jack { .. } => "sevenJack"@,
                SevenPlay::Joker { .. } => "joker"@,
                SevenPlay::OneOff { .. } => "resolve"@,
                SevenPlay::Discard => "resolve"@,
            },
        }
    }
}

/// Where the card of the action comes from.
pub open spec fn source_zone(a: Action) -> Seq<char> {
    match a {
        Action::Draw => "deck"@,
        Action::Pass => "deck"@,
        Action::CounterPass => "counter"@,
        Action::ResolveThreePick { .. } => "scrap"@,
        Action::ResolveSevenChoose { .. } => "reveal"@,
        _ => "hand"@,
    }
}

/// The card of the action, or what stands for it.
pub open spec fn source_token(a: Action) -> Option<Seq<char>> {
    match a {
        Action::Draw => None,
        Action::Pass => None,
        Action::CounterPass => Some("pass"@),
        Action::ResolveThreePick { card_from_scrap } => Some(name_of(card_from_scrap)),
        Action::ResolveFourDiscard { card } => Some(name_of(card)),
        Action::ResolveFiveDiscard { card } => Some(name_of(card)),
        _ => match a.lead() {
            Some(card) => Some(name_of(card)),
            None => None,
        },
    }
}

pub fn oneoff_target_fields(target: &OneOffTarget) -> (r: (
    Option<String>,
    Option<Seat>,
    Option<String>,
))
    ensures
        text_of(r.0) == aim_of(*target).token,
        r.1 == aim_of(*target).seat,
        text_of(r.2) == aim_of(*target).kind,
{
    match target {
        OneOffTarget::NoTarget => (None, None, None),
        OneOffTarget::Player { seat } => (None, Some(*seat), Some("player".to_owned())),
        OneOffTarget::Point { base } => (Some(base.to_token()), None, Some("point".to_owned())),
        OneOffTarget::Royal { card } => (Some(card.to_token()), None, Some("royal".to_owned())),
        OneOffTarget::Jack { card } => (Some(card.to_token()), None, Some("jack".to_owned())),
        OneOffTarget::Joker { card } => (Some(card.to_token()), None, Some("joker".to_owned())),
    }
}

/// What the action itself is aimed at.
fn own_target_fields(action: &Action) -> (r: (Option<String>, Option<Seat>, Option<String>))
    ensures
        text_of(r.0) == own_aim(*action).token,
        r.1 == own_aim(*action).seat,
        text_of(r.2) == own_aim(*action).kind,
{
    match action {
        Action::Scuttle { target_point_base, .. } => (
            Some(target_point_base.to_token()),
            None,
            Some("point".to_owned()),
        ),
        Action::PlayJack { target_point_base, .. } => (
            Some(target_point_base.to_token()),
            None,
            Some("point".to_owned()),
        ),
        Action::PlayJoker { target_royal_card, .. } => (
            Some(target_royal_card.to_token()),
            None,
            Some("royal".to_owned()),
        ),
        Action::PlayOneOff { target, .. } => oneoff_target_fields(target),
        Action::ResolveSevenChoose { play, .. } => match play {
            SevenPlay::Scuttle { target } => (
                Some(target.to_token()),
                None,
                Some("point".to_owned()),
            ),
            SevenPlay::Jack { target } => (Some(target.to_token()), None, Some("point".to_owned())),
            SevenPlay::Joker { target } => (
                Some(target.to_token()),
                None,
                Some("royal".to_owned()),
            ),
            SevenPlay::OneOff { target } => oneoff_target_fields(target),
            _ => (None, None, None),
        },
        _ => (None, None, None),
    }
}

/// How the table changes with the action, the closing of a counter window
/// aside.
fn plain_change(action: &Action) -> (text: String)
    ensures
        !(*action is CounterPass) ==> text@ == change_name(*action, PhaseModel::Main),
        *action is CounterPass ==> text@ == "counter"@,
{
    match action {
        Action::Draw => "main".to_owned(),
        Action::Pass => "main".to_owned(),
        Action::PlayPoints { .. } => "main".to_owned(),
        Action::Scuttle { .. } => "scuttle".to_owned(),
        Action::PlayRoyal { .. } => "main".to_owned(),
        Action::PlayJack { .. } => "jack".to_owned(),
        Action::PlayJoker { .. } => "joker".to_owned(),
        Action::PlayOneOff { .. } => "counter".to_owned(),
        Action::CounterTwo { .. } => "counter".to_owned(),
        Action::CounterPass => "counter".to_owned(),
        Action::ResolveThreePick { .. } => "resolve".to_owned(),
        Action::ResolveFourDiscard { .. } => "resolve".to_owned(),
        Action::ResolveFiveDiscard { .. } => "resolve".to_owned(),
        Action::ResolveSevenChoose { play, .. } => match play {
            SevenPlay::Points => "main".to_owned(),
            SevenPlay::Scuttle { .. } => "scuttle".to_owned(),
            SevenPlay::Royal => "main".to_owned(),
            SevenPlay::Jack { .. } => "sevenJack".to_owned(),
            SevenPlay::Joker { .. } => "joker".to_owned(),
            SevenPlay::OneOff { .. } => "resolve".to_owned(),
            SevenPlay::Discard => "resolve".to_owned(),
        },
    }
}

fn source_of(action: &Action) -> (r: (Option<String>, String))
    ensures
        text_of(r.0) == source_token(*action),
        r.1@ == source_zone(*action),
{
    match action {
        Action::Draw => (None, "deck".to_owned()),
        Action::Pass => (None, "deck".to_owned()),
        Action::PlayPoints { card } => (Some(card.to_token()), "hand".to_owned()),
        Action::Scuttle { card, .. } => (Some(card.to_token()), "hand".to_owned()),
        Action::PlayRoyal { card } => (Some(card.to_token()), "hand".to_owned()),
        Action::PlayJack { jack, .. } => (Some(jack.to_token()), "hand".to_owned()),
        Action::PlayJoker { joker, .. } => (Some(joker.to_token()), "hand".to_owned()),
        Action::PlayOneOff { card, .. } => (Some(card.to_token()), "hand".to_owned()),
        Action::CounterTwo { two_card } => (Some(two_card.to_token()), "hand".to_owned()),
        Action::CounterPass => (Some("pass".to_owned()), "counter".to_owned()),
        Action::ResolveThreePick { card_from_scrap } => (
            Some(card_from_scrap.to_token()),
            "scrap".to_owned(),
        ),
        Action::ResolveFourDiscard { card } => (Some(card.to_token()), "hand".to_owned()),
        Action::ResolveFiveDiscard { card } => (Some(card.to_token()), "hand".to_owned()),
        Action::ResolveSevenChoose { card, .. } => (Some(card.to_token()), "reveal".to_owned()),
    }
}

/// The seat after `seat` in the round, whatever `seat` is.
fn next_after(seat: Seat) -> (next: Seat)
    ensures
        next == (seat + 1) % 3,
{
    if seat == 255 {
        1
    } else {
        (seat + 1) % 3
    }
}

/// Whether the event tells of the action that `actor` took in the phase.
pub open spec fn tells(event: LastEventView, actor: Seat, a: Action, phase: PhaseModel) -> bool {
    &&& event.actor == actor
    &&& event.action_kind@ == kind_name(a)
    &&& event.change@ == change_name(a, phase)
    &&& text_of(event.source_token) == source_token(a)
    &&& text_of(event.source_zone) == Some(source_zone(a))
    &&& text_of(event.target_token) == event_aim(a, phase).token
    &&& event.target_seat == event_aim(a, phase).seat
    &&& text_of(event.target_type) == event_aim(a, phase).kind
    &&& event.oneoff_rank == event_rank(a, phase)
}

/// What to show of an action that `actor` took in the phase before it.
pub fn build_last_event(actor: Seat, action: &Action, phase_before: &Phase) -> (event:
    LastEventView)
    ensures
        tells(event, actor, *action, phase_before@),
{
    let action_kind = format_action(action);
    let mut change = plain_change(action);
    let (source_token, source_zone) = source_of(action);
    let (mut target_token, mut target_seat, mut target_type) = own_target_fields(action);
    let mut oneoff_rank: Option<u8> = match action {
        Action::PlayOneOff { card, .. } => card.rank_value(),
        _ => None,
    };
    match phase_before {
        Phase::Countering(counter) => {
            let answers = match action {
                Action::CounterPass => true,
                Action::CounterTwo { .. } => true,
                _ => false,
            };
            if answers {
                match counter.oneoff {
                    Action::PlayOneOff { card, target } => {
                        if oneoff_rank.is_none() {
                            oneoff_rank = card.rank_value();
                        }
                        if target_type.is_none() {
                            let (token, seat, kind) = oneoff_target_fields(&target);
                            if target_token.is_none() {
                                target_token = token;
                            }
                            if target_seat.is_none() {
                                target_seat = seat;
                            }
                            target_type = kind;
                        }
                    },
                    _ => {},
                }
            }
            let passes = match action {
                Action::CounterPass => true,
                _ => false,
            };
            if passes && next_after(counter.next_seat) == counter.rotation_anchor {
                change = "resolve".to_owned();
            }
        },
        _ => {},
    }
    LastEventView {
        actor,
        action_kind,
        change,
        source_token,
        source_zone: Some(source_zone),
        target_token,
        target_seat,
        target_type,
        oneoff_rank,
    }
}

} // verus!
