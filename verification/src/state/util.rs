//! Small definitions that the rules share.

use vstd::prelude::*;
use super::types::{Seat, PLAYER_COUNT};
use crate::card::Card;

verus! {

/// Play goes clockwise: after seat `s` comes seat `(s + 1) mod 3`.
pub open spec fn spec_next_seat(seat: Seat) -> Seat {
    ((seat + 1) % 3) as u8
}

#[verifier::when_used_as_spec(spec_next_seat)]
pub(crate) fn next_seat(seat: Seat) -> (r: Seat)
    requires
        seat < 3,
    ensures
        r == spec_next_seat(seat),
        r < 3,
{
    (seat + 1) % PLAYER_COUNT
}

/// The cards that can be played for points: Ace to Ten.
pub(crate) fn is_point_card(card: Card) -> (b: bool)
    ensures
        b == card.spec_is_number(),
{
    card.is_number()
}

/// Eight, Queen or King: the cards that are played as a royal by themselves.
pub open spec fn spec_is_plain_royal(card: Card) -> bool {
    match card.spec_rank_value() {
        Some(v) => v == 8 || v == 12 || v == 13,
        None => false,
    }
}

#[verifier::when_used_as_spec(spec_is_plain_royal)]
pub(crate) fn is_plain_royal(card: Card) -> (b: bool)
    ensures
        b == spec_is_plain_royal(card),
{
    match card.rank_value() {
        Some(v) => v == 8 || v == 12 || v == 13,
        None => false,
    }
}

pub open spec fn spec_is_jack(card: Card) -> bool {
    card.spec_rank_value() == Some(11u8)
}

#[verifier::when_used_as_spec(spec_is_jack)]
pub(crate) fn is_jack(card: Card) -> (b: bool)
    ensures
        b == spec_is_jack(card),
{
    match card.rank_value() {
        Some(v) => v == 11,
        None => false,
    }
}

pub open spec fn spec_is_queen(card: Card) -> bool {
    card.spec_rank_value() == Some(12u8)
}

#[verifier::when_used_as_spec(spec_is_queen)]
pub(crate) fn is_queen(card: Card) -> (b: bool)
    ensures
        b == spec_is_queen(card),
{
    match card.rank_value() {
        Some(v) => v == 12,
        None => false,
    }
}

pub open spec fn spec_is_king(card: Card) -> bool {
    card.spec_rank_value() == Some(13u8)
}

pub open spec fn spec_is_two(card: Card) -> bool {
    card.spec_rank_value() == Some(2u8)
}

#[verifier::when_used_as_spec(spec_is_two)]
pub(crate) fn is_two(card: Card) -> (b: bool)
    ensures
        b == spec_is_two(card),
{
    match card.rank_value() {
        Some(v) => v == 2,
        None => false,
    }
}

pub open spec fn spec_is_joker(card: Card) -> bool {
    card is Joker
}

#[verifier::when_used_as_spec(spec_is_joker)]
pub(crate) fn is_joker(card: Card) -> (b: bool)
    ensures
        b == spec_is_joker(card),
{
    match card {
        Card::Joker(_) => true,
        Card::Standard { .. } => false,
    }
}

/// Index of the first element of `s` that satisfies `f`, or the length of
/// `s` where none does.
pub open spec fn first_where<T>(s: Seq<T>, f: spec_fn(T) -> bool) -> int
    decreases s.len(),
{
    if s.len() == 0 {
        0
    } else if f(s[0]) {
        0
    } else {
        1 + first_where(s.drop_first(), f)
    }
}

pub proof fn lemma_first_where<T>(s: Seq<T>, f: spec_fn(T) -> bool)
    ensures
        0 <= first_where(s, f) <= s.len(),
        first_where(s, f) < s.len() ==> f(s[first_where(s, f)]),
        forall|j: int| 0 <= j < first_where(s, f) ==> !f(#[trigger] s[j]),
    decreases s.len(),
{
    if s.len() > 0 && !f(s[0]) {
        let t = s.drop_first();
        lemma_first_where(t, f);
        assert forall|j: int| 0 <= j < first_where(s, f) implies !f(#[trigger] s[j]) by {
            if j > 0 {
                assert(s[j] == t[j - 1]);
            }
        }
    }
}

/// The first index is the only one that satisfies `f` with none before it
/// that does.
pub proof fn lemma_first_where_is<T>(s: Seq<T>, f: spec_fn(T) -> bool, i: int)
    requires
        0 <= i <= s.len(),
        i < s.len() ==> f(s[i]),
        forall|j: int| 0 <= j < i ==> !f(#[trigger] s[j]),
    ensures
        first_where(s, f) == i,
{
    lemma_first_where(s, f);
    let k = first_where(s, f);
    if k < i {
        assert(!f(s[k]));
    }
}

/// How often `c` occurs in `s`.
pub open spec fn occurrences(s: Seq<Card>, c: Card) -> nat
    decreases s.len(),
{
    if s.len() == 0 {
        0
    } else {
        occurrences(s.drop_last(), c) + if s.last() == c {
            1nat
        } else {
            0nat
        }
    }
}

pub proof fn lemma_occurrences_contains(s: Seq<Card>, c: Card)
    ensures
        occurrences(s, c) > 0 <==> s.contains(c),
    decreases s.len(),
{
    if s.len() > 0 {
        let t = s.drop_last();
        lemma_occurrences_contains(t, c);
        if s.last() == c {
            assert(s[s.len() - 1] == c);
        } else if t.contains(c) {
            let i = choose|i: int| 0 <= i < t.len() && t[i] == c;
            assert(s[i] == c);
        } else if s.contains(c) {
            let i = choose|i: int| 0 <= i < s.len() && s[i] == c;
            assert(t[i] == c);
        }
    }
}

} // verus!
