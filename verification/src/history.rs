//! The game told in sentences, as far as a viewer may know the cards.

use vstd::prelude::*;
use vstd::string::*;
use crate::action::{Action, OneOffTarget, SevenPlay};
use crate::card::{Card, Rank, Suit};
use crate::lobby::{name_at, SeatEntry};
use crate::state::rules::frozen_cards;
use crate::state::shape::lemma_initial_shaped;
use crate::state::{
    name_of, names, shows_hand, CounterTwoView, CutthroatState, GameModel, PhaseModel, PhaseView,
    PlayerModel, PlayerView, PointStackView, PublicCard, PublicView, RoyalStackView, Seat,
    StackModel,
};
use crate::tokenlog::TokenLog;
use vstd::slice::slice_to_vec;

verus! {

/// The digit for a number below ten.
pub open spec fn digit(d: nat) -> char {
    if d == 0 {
        '0'
    } else if d == 1 {
        '1'
    } else if d == 2 {
        '2'
    } else if d == 3 {
        '3'
    } else if d == 4 {
        '4'
    } else if d == 5 {
        '5'
    } else if d == 6 {
        '6'
    } else if d == 7 {
        '7'
    } else if d == 8 {
        '8'
    } else {
        '9'
    }
}

/// A number in decimal digits.
pub open spec fn decimal(n: nat) -> Seq<char>
    decreases n,
{
    if n < 10 {
        seq![digit(n)]
    } else {
        decimal(n / 10).push(digit(n % 10))
    }
}

fn digit_text(d: u16) -> (text: &'static str)
    requires
        d < 10,
    ensures
        text@ == seq![digit(d as nat)],
{
    proof {
        reveal_strlit("0");
        reveal_strlit("1");
        reveal_strlit("2");
        reveal_strlit("3");
        reveal_strlit("4");
        reveal_strlit("5");
        reveal_strlit("6");
        reveal_strlit("7");
        reveal_strlit("8");
        reveal_strlit("9");
    }
    let text = if d == 0 {
        "0"
    } else if d == 1 {
        "1"
    } else if d == 2 {
        "2"
    } else if d == 3 {
        "3"
    } else if d == 4 {
        "4"
    } else if d == 5 {
        "5"
    } else if d == 6 {
        "6"
    } else if d == 7 {
        "7"
    } else if d == 8 {
        "8"
    } else {
        "9"
    };
    assert(text@ =~= seq![digit(d as nat)]);
    text
}

/// The digits of `n` join the text.
fn push_number(text: &mut String, n: u16)
    requires
        n < 1000,
    ensures
        final(text)@ == old(text)@ + decimal(n as nat),
{
    let ghost before = text@;
    if n >= 100 {
        text.append(digit_text(n / 100));
    }
    if n >= 10 {
        text.append(digit_text((n / 10) % 10));
    }
    text.append(digit_text(n % 10));
    proof {
        let m = n as nat;
        if m >= 100 {
            assert(decimal(m / 100) =~= seq![digit(m / 100)]);
            assert((m / 10) / 10 == m / 100);
            assert(decimal(m / 10) =~= seq![digit(m / 100), digit((m / 10) % 10)]);
            assert(decimal(m) =~= seq![digit(m / 100), digit((m / 10) % 10), digit(m % 10)]);
        } else if m >= 10 {
            assert(decimal(m / 10) =~= seq![digit(m / 10)]);
            assert(decimal(m) =~= seq![digit(m / 10), digit(m % 10)]);
        }
        assert(text@ =~= before + decimal(m));
    }
}

/// How a seat is called: by the name of who sits there, or by its number,
/// counted from one.
pub open spec fn seat_label(seats: Seq<SeatEntry>, seat: Seat) -> Seq<char> {
    match name_at(seats, seat) {
        Some(name) => name,
        None => "Player "@ + decimal((seat + 1) as nat),
    }
}

/// The name of the user at `seat`, as the last entry for the seat has it.
fn find_name(seats: &[SeatEntry], seat: Seat) -> (r: Option<String>)
    ensures
        crate::lobby::text_of(r) == name_at(seats@, seat),
{
    let mut found: Option<String> = None;
    let mut i: usize = 0;
    proof {
        assert(seats@.take(0) =~= Seq::<SeatEntry>::empty());
    }
    while i < seats.len()
        invariant
            i <= seats.len(),
            crate::lobby::text_of(found) == name_at(seats@.take(i as int), seat),
        decreases seats.len() - i,
    {
        proof {
            assert(seats@.take(i + 1).drop_last() =~= seats@.take(i as int));
            assert(seats@.take(i + 1).last() == seats@[i as int]);
        }
        if seats[i].seat == seat {
            found = Some(seats[i].username.clone());
        }
        i = i + 1;
    }
    proof {
        assert(seats@.take(i as int) =~= seats@);
    }
    found
}

/// How the seat is called in the story.
pub fn seat_name(seat: Seat, seats: &[SeatEntry]) -> (text: String)
    ensures
        text@ == seat_label(seats@, seat),
{
    match find_name(seats, seat) {
        Some(name) => name,
        None => {
            let mut text = "Player ".to_owned();
            push_number(&mut text, seat as u16 + 1);
            text
        },
    }
}

/// The sign of a suit.
pub open spec fn suit_sign(suit: Suit) -> char {
    match suit {
        Suit::Clubs => '\u{2663}',
        Suit::Diamonds => '\u{2666}',
        Suit::Hearts => '\u{2665}',
        Suit::Spades => '\u{2660}',
    }
}

/// A card as a reader knows it: the letter of its rank and the sign of its
/// suit, or the joker by its number.
pub open spec fn human_name(card: Card) -> Seq<char> {
    match card {
        Card::Joker(i) => if i == 1 {
            "Joker 1"@
        } else {
            "Joker 0"@
        },
        Card::Standard { rank, suit } => seq![rank.spec_to_char(), suit_sign(suit)],
    }
}

fn rank_text(rank: Rank) -> (text: &'static str)
    ensures
        text@ == seq![rank.spec_to_char()],
{
    proof {
        reveal_strlit("A");
        reveal_strlit("2");
        reveal_strlit("3");
        reveal_strlit("4");
        reveal_strlit("5");
        reveal_strlit("6");
        reveal_strlit("7");
        reveal_strlit("8");
        reveal_strlit("9");
        reveal_strlit("T");
        reveal_strlit("J");
        reveal_strlit("Q");
        reveal_strlit("K");
    }
    let text = match rank {
        Rank::Ace => "A",
        Rank::Two => "2",
        Rank::Three => "3",
        Rank::Four => "4",
        Rank::Five => "5",
        Rank::Six => "6",
        Rank::Seven => "7",
        Rank::Eight => "8",
        Rank::Nine => "9",
        Rank::Ten => "T",
        Rank::Jack => "J",
        Rank::Queen => "Q",
        Rank::King => "K",
    };
    assert(text@ =~= seq![rank.spec_to_char()]);
    text
}

fn suit_text(suit: Suit) -> (text: &'static str)
    ensures
        text@ == seq![suit_sign(suit)],
{
    proof {
        reveal_strlit("\u{2663}");
        reveal_strlit("\u{2666}");
        reveal_strlit("\u{2665}");
        reveal_strlit("\u{2660}");
    }
    let text = match suit {
        Suit::Clubs => "\u{2663}",
        Suit::Diamonds => "\u{2666}",
        Suit::Hearts => "\u{2665}",
        Suit::Spades => "\u{2660}",
    };
    assert(text@ =~= seq![suit_sign(suit)]);
    text
}

/// The card as a reader knows it.
pub fn card_token_to_human(card: Card) -> (text: String)
    ensures
        text@ == human_name(card),
{
    match card {
        Card::Joker(i) => if i == 1 {
            "Joker 1".to_owned()
        } else {
            "Joker 0".to_owned()
        },
        Card::Standard { rank, suit } => {
            let mut text = String::new();
            text.append(rank_text(rank));
            text.append(suit_text(suit));
            assert(text@ =~= human_name(card));
            text
        },
    }
}

/// Whether one of the texts is `name`.
pub open spec fn has_text(texts: Seq<String>, name: Seq<char>) -> bool {
    exists|i: int| 0 <= i < texts.len() && (#[trigger] texts[i])@ == name
}

fn any_is(texts: &Vec<String>, name: &String) -> (b: bool)
    ensures
        b == has_text(texts@, name@),
{
    let mut i: usize = 0;
    while i < texts.len()
        invariant
            i <= texts.len(),
            forall|k: int| 0 <= k < i ==> (#[trigger] texts@[k])@ != name@,
        decreases texts.len() - i,
    {
        if texts[i] == *name {
            return true;
        }
        i = i + 1;
    }
    false
}

/// Whether the hand shows a card of the given name.
pub open spec fn hand_shows(hand: Seq<PublicCard>, name: Seq<char>) -> bool {
    exists|i: int|
        0 <= i < hand.len() && match #[trigger] hand[i] {
            PublicCard::Known(text) => text@ == name,
            PublicCard::Hidden => false,
        }
}

fn hand_has(hand: &Vec<PublicCard>, name: &String) -> (b: bool)
    ensures
        b == hand_shows(hand@, name@),
{
    let mut i: usize = 0;
    while i < hand.len()
        invariant
            i <= hand.len(),
            forall|k: int|
                0 <= k < i ==> !(match #[trigger] hand@[k] {
                    PublicCard::Known(text) => text@ == name@,
                    PublicCard::Hidden => false,
                }),
        decreases hand.len() - i,
    {
        let same = match &hand[i] {
            PublicCard::Known(text) => *text == *name,
            PublicCard::Hidden => false,
        };
        if same {
            return true;
        }
        i = i + 1;
    }
    false
}

/// The cards that an action names.
pub open spec fn target_cards(target: OneOffTarget) -> Seq<Card> {
    match target {
        OneOffTarget::Point { base } => seq![base],
        OneOffTarget::Royal { card } => seq![card],
        OneOffTarget::Jack { card } => seq![card],
        OneOffTarget::Joker { card } => seq![card],
        _ => Seq::empty(),
    }
}

pub open spec fn play_cards(play: SevenPlay) -> Seq<Card> {
    match play {
        SevenPlay::Scuttle { target } => seq![target],
        SevenPlay::Jack { target } => seq![target],
        SevenPlay::Joker { target } => seq![target],
        SevenPlay::OneOff { target } => target_cards(target),
        _ => Seq::empty(),
    }
}

pub open spec fn action_cards(a: Action) -> Seq<Card> {
    match a {
        Action::PlayPoints { card } => seq![card],
        Action::Scuttle { card, target_point_base } => seq![card, target_point_base],
        Action::PlayRoyal { card } => seq![card],
        Action::PlayJack { jack, target_point_base } => seq![jack, target_point_base],
        Action::PlayJoker { joker, target_royal_card } => seq![joker, target_royal_card],
        Action::PlayOneOff { card, target } => seq![card] + target_cards(target),
        Action::CounterTwo { two_card } => seq![two_card],
        Action::ResolveThreePick { card_from_scrap } => seq![card_from_scrap],
        Action::ResolveFourDiscard { card } => seq![card],
        Action::ResolveFiveDiscard { card } => seq![card],
        Action::ResolveSevenChoose { card, play } => seq![card] + play_cards(play),
        _ => Seq::empty(),
    }
}

/// Whether one of the cards has the given name.
pub open spec fn names_one_of(cards: Seq<Card>, name: Seq<char>) -> bool {
    exists|i: int| 0 <= i < cards.len() && name_of(#[trigger] cards[i]) == name
}

fn card_is(card: Card, name: &String) -> (b: bool)
    ensures
        b == (name_of(card) == name@),
{
    card.to_token() == *name
}

fn target_names(target: &OneOffTarget, name: &String) -> (b: bool)
    ensures
        b == names_one_of(target_cards(*target), name@),
{
    let ghost cards = target_cards(*target);
    match target {
        OneOffTarget::Point { base } => {
            let b = card_is(*base, name);
            assert(b ==> name_of(cards[0]) == name@);
            b
        },
        OneOffTarget::Royal { card } => {
            let b = card_is(*card, name);
            assert(b ==> name_of(cards[0]) == name@);
            b
        },
        OneOffTarget::Jack { card } => {
            let b = card_is(*card, name);
            assert(b ==> name_of(cards[0]) == name@);
            b
        },
        OneOffTarget::Joker { card } => {
            let b = card_is(*card, name);
            assert(b ==> name_of(cards[0]) == name@);
            b
        },
        _ => false,
    }
}

fn play_names(play: &SevenPlay, name: &String) -> (b: bool)
    ensures
        b == names_one_of(play_cards(*play), name@),
{
    let ghost cards = play_cards(*play);
    match play {
        SevenPlay::Scuttle { target } => {
            let b = card_is(*target, name);
            assert(b ==> name_of(cards[0]) == name@);
            b
        },
        SevenPlay::Jack { target } => {
            let b = card_is(*target, name);
            assert(b ==> name_of(cards[0]) == name@);
            b
        },
        SevenPlay::Joker { target } => {
            let b = card_is(*target, name);
            assert(b ==> name_of(cards[0]) == name@);
            b
        },
        SevenPlay::OneOff { target } => target_names(target, name),
        _ => false,
    }
}

/// Whether the action names a card of the given name.
fn action_names(action: &Action, name: &String) -> (b: bool)
    ensures
        b == names_one_of(action_cards(*action), name@),
{
    let ghost cards = action_cards(*action);
    match action {
        Action::PlayPoints { card } => {
            let b = card_is(*card, name);
            assert(b ==> name_of(cards[0]) == name@);
            b
        },
        Action::Scuttle { card, target_point_base } => {
            let a = card_is(*card, name);
            let b = card_is(*target_point_base, name);
            assert(a ==> name_of(cards[0]) == name@);
            assert(b ==> name_of(cards[1]) == name@);
            a || b
        },
        Action::PlayRoyal { card } => {
            let b = card_is(*card, name);
            assert(b ==> name_of(cards[0]) == name@);
            b
        },
        Action::PlayJack { jack, target_point_base } => {
            let a = card_is(*jack, name);
            let b = card_is(*target_point_base, name);
            assert(a ==> name_of(cards[0]) == name@);
            assert(b ==> name_of(cards[1]) == name@);
            a || b
        },
        Action::PlayJoker { joker, target_royal_card } => {
            let a = card_is(*joker, name);
            let b = card_is(*target_royal_card, name);
            assert(a ==> name_of(cards[0]) == name@);
            assert(b ==> name_of(cards[1]) == name@);
            a || b
        },
        Action::PlayOneOff { card, target } => {
            let a = card_is(*card, name);
            let b = target_names(target, name);
            proof {
                let rest = target_cards(*target);
                assert(a ==> name_of(cards[0]) == name@);
                if b {
                    let i = choose|i: int| 0 <= i < rest.len() && name_of(#[trigger] rest[i]) == name@;
                    assert(cards[1 + i] == rest[i]);
                }
                if names_one_of(cards, name@) {
                    let i = choose|i: int| 0 <= i < cards.len() && name_of(#[trigger] cards[i]) == name@;
                    if i > 0 {
                        assert(rest[i - 1] == cards[i]);
                    }
                }
            }
            a || b
        },
        Action::CounterTwo { two_card } => {
            let b = card_is(*two_card, name);
            assert(b ==> name_of(cards[0]) == name@);
            b
        },
        Action::ResolveThreePick { card_from_scrap } => {
            let b = card_is(*card_from_scrap, name);
            assert(b ==> name_of(cards[0]) == name@);
            b
        },
        Action::ResolveFourDiscard { card } => {
            let b = card_is(*card, name);
            assert(b ==> name_of(cards[0]) == name@);
            b
        },
        Action::ResolveFiveDiscard { card } => {
            let b = card_is(*card, name);
            assert(b ==> name_of(cards[0]) == name@);
            b
        },
        Action::ResolveSevenChoose { card, play } => {
            let a = card_is(*card, name);
            let b = play_names(play, name);
            proof {
                let rest = play_cards(*play);
                assert(a ==> name_of(cards[0]) == name@);
                if b {
                    let i = choose|i: int| 0 <= i < rest.len() && name_of(#[trigger] rest[i]) == name@;
                    assert(cards[1 + i] == rest[i]);
                }
                if names_one_of(cards, name@) {
                    let i = choose|i: int| 0 <= i < cards.len() && name_of(#[trigger] cards[i]) == name@;
                    if i > 0 {
                        assert(rest[i - 1] == cards[i]);
                    }
                }
            }
            a || b
        },
        _ => false,
    }
}


pub open spec fn point_stack_shows(stack: PointStackView, name: Seq<char>) -> bool {
    stack.base@ == name || has_text(stack.jacks@, name)
}

pub open spec fn royal_stack_shows(stack: RoyalStackView, name: Seq<char>) -> bool {
    stack.base@ == name || has_text(stack.jokers@, name)
}

pub open spec fn points_show(stacks: Seq<PointStackView>, name: Seq<char>) -> bool {
    exists|i: int| 0 <= i < stacks.len() && point_stack_shows(#[trigger] stacks[i], name)
}

pub open spec fn royals_show(stacks: Seq<RoyalStackView>, name: Seq<char>) -> bool {
    exists|i: int| 0 <= i < stacks.len() && royal_stack_shows(#[trigger] stacks[i], name)
}

pub open spec fn twos_show(twos: Seq<CounterTwoView>, name: Seq<char>) -> bool {
    exists|i: int| 0 <= i < twos.len() && (#[trigger] twos[i]).card@ == name
}

/// Whether a card of the given name lies open before the player, or in the
/// part of the hand that the view shows.
pub open spec fn player_shows(player: PlayerView, name: Seq<char>) -> bool {
    ||| hand_shows(player.hand@, name)
    ||| points_show(player.points@, name)
    ||| royals_show(player.royals@, name)
    ||| has_text(player.frozen@, name)
}

pub open spec fn players_show(players: Seq<PlayerView>, name: Seq<char>) -> bool {
    exists|i: int| 0 <= i < players.len() && player_shows(#[trigger] players[i], name)
}

pub open spec fn phase_shows(phase: PhaseView, name: Seq<char>) -> bool {
    match phase {
        PhaseView::Countering { oneoff, twos, .. } => names_one_of(action_cards(oneoff), name)
            || twos_show(twos@, name),
        PhaseView::ResolvingSeven { revealed_cards, .. } => has_text(revealed_cards@, name),
        _ => false,
    }
}

/// Whether the view shows a card of the given name anywhere: in the scrap,
/// with a player, or in what the phase holds.
pub open spec fn view_shows(view: PublicView, name: Seq<char>) -> bool {
    ||| has_text(view.scrap@, name)
    ||| players_show(view.players@, name)
    ||| phase_shows(view.phase, name)
}

fn points_have(stacks: &Vec<PointStackView>, name: &String) -> (b: bool)
    ensures
        b == points_show(stacks@, name@),
{
    let mut i: usize = 0;
    while i < stacks.len()
        invariant
            i <= stacks.len(),
            forall|k: int| 0 <= k < i ==> !point_stack_shows(#[trigger] stacks@[k], name@),
        decreases stacks.len() - i,
    {
        if stacks[i].base == *name || any_is(&stacks[i].jacks, name) {
            return true;
        }
        i = i + 1;
    }
    false
}

fn royals_have(stacks: &Vec<RoyalStackView>, name: &String) -> (b: bool)
    ensures
        b == royals_show(stacks@, name@),
{
    let mut i: usize = 0;
    while i < stacks.len()
        invariant
            i <= stacks.len(),
            forall|k: int| 0 <= k < i ==> !royal_stack_shows(#[trigger] stacks@[k], name@),
        decreases stacks.len() - i,
    {
        if stacks[i].base == *name || any_is(&stacks[i].jokers, name) {
            return true;
        }
        i = i + 1;
    }
    false
}

fn twos_have(twos: &Vec<CounterTwoView>, name: &String) -> (b: bool)
    ensures
        b == twos_show(twos@, name@),
{
    let mut i: usize = 0;
    while i < twos.len()
        invariant
            i <= twos.len(),
            forall|k: int| 0 <= k < i ==> (#[trigger] twos@[k]).card@ != name@,
        decreases twos.len() - i,
    {
        if twos[i].card == *name {
            return true;
        }
        i = i + 1;
    }
    false
}

fn player_has(player: &PlayerView, name: &String) -> (b: bool)
    ensures
        b == player_shows(*player, name@),
{
    hand_has(&player.hand, name) || points_have(&player.points, name) || royals_have(
        &player.royals,
        name,
    ) || any_is(&player.frozen, name)
}

fn players_have(players: &Vec<PlayerView>, name: &String) -> (b: bool)
    ensures
        b == players_show(players@, name@),
{
    let mut i: usize = 0;
    while i < players.len()
        invariant
            i <= players.len(),
            forall|k: int| 0 <= k < i ==> !player_shows(#[trigger] players@[k], name@),
        decreases players.len() - i,
    {
        if player_has(&players[i], name) {
            return true;
        }
        i = i + 1;
    }
    false
}

fn phase_has(phase: &PhaseView, name: &String) -> (b: bool)
    ensures
        b == phase_shows(*phase, name@),
{
    match phase {
        PhaseView::Countering { oneoff, twos, .. } => action_names(oneoff, name) || twos_have(
            twos,
            name,
        ),
        PhaseView::ResolvingSeven { revealed_cards, .. } => any_is(revealed_cards, name),
        _ => false,
    }
}

/// Whether the viewer can see a card of this name.
pub fn is_visible(view: &PublicView, name: &String) -> (b: bool)
    ensures
        b == view_shows(*view, name@),
{
    any_is(&view.scrap, name) || players_have(&view.players, name) || phase_has(&view.phase, name)
}

/// The names of the cards that the view shows.
pub open spec fn shown_in(view: PublicView) -> Set<Seq<char>> {
    Set::new(|name: Seq<char>| view_shows(view, name))
}

/// A card as the story tells it: by its name where that is among the names
/// shown, and as an unknown card where it is not.
pub open spec fn told(card: Card, shown: Set<Seq<char>>) -> Seq<char> {
    if shown.contains(name_of(card)) {
        human_name(card)
    } else {
        "Unknown card"@
    }
}

/// The card as the story tells it to one who has this view.
pub fn card_name_for_history(card: Card, view: &PublicView) -> (text: String)
    ensures
        text@ == told(card, shown_in(*view)),
{
    let name = card.to_token();
    if !is_visible(view, &name) {
        return "Unknown card".to_owned();
    }
    card_token_to_human(card)
}

/// What a one-off is aimed at, as the end of a sentence.
pub open spec fn target_told(target: OneOffTarget, seats: Seq<SeatEntry>, shown: Set<Seq<char>>) -> Seq<
    char,
> {
    match target {
        OneOffTarget::NoTarget => Seq::empty(),
        OneOffTarget::Player { seat } => ", targeting "@ + seat_label(seats, seat),
        OneOffTarget::Point { base } => ", targeting the "@ + told(base, shown),
        OneOffTarget::Royal { card } => ", targeting the "@ + told(card, shown),
        OneOffTarget::Jack { card } => ", targeting the "@ + told(card, shown),
        OneOffTarget::Joker { card } => ", targeting the "@ + told(card, shown),
    }
}

/// What a one-off is aimed at, as the end of a sentence.
pub fn oneoff_target_text(target: &OneOffTarget, seats: &[SeatEntry], view: &PublicView) -> (text:
    String)
    ensures
        text@ == target_told(*target, seats@, shown_in(*view)),
{
    match target {
        OneOffTarget::NoTarget => String::new(),
        OneOffTarget::Player { seat } => {
            let mut text = ", targeting ".to_owned();
            text.append(seat_name(*seat, seats).as_str());
            text
        },
        OneOffTarget::Point { base } => {
            let mut text = ", targeting the ".to_owned();
            text.append(card_name_for_history(*base, view).as_str());
            text
        },
        OneOffTarget::Royal { card } => {
            let mut text = ", targeting the ".to_owned();
            text.append(card_name_for_history(*card, view).as_str());
            text
        },
        OneOffTarget::Jack { card } => {
            let mut text = ", targeting the ".to_owned();
            text.append(card_name_for_history(*card, view).as_str());
            text
        },
        OneOffTarget::Joker { card } => {
            let mut text = ", targeting the ".to_owned();
            text.append(card_name_for_history(*card, view).as_str());
            text
        },
    }
}

/// How a card revealed by a seven was played, as the end of a sentence.
pub open spec fn play_told(play: SevenPlay, seats: Seq<SeatEntry>, shown: Set<Seq<char>>) -> Seq<char> {
    match play {
        SevenPlay::Points => " as points"@,
        SevenPlay::Scuttle { target } => " as scuttle targeting "@ + told(target, shown),
        SevenPlay::Royal => " as a royal"@,
        SevenPlay::Jack { target } => " as a jack targeting "@ + told(target, shown),
        SevenPlay::Joker { target } => " as a joker targeting "@ + told(target, shown),
        SevenPlay::OneOff { target } => " as a one-off"@ + target_told(target, seats, shown),
        SevenPlay::Discard => " as discard"@,
    }
}

/// How a card revealed by a seven was played, as the end of a sentence.
pub fn seven_play_text(play: &SevenPlay, seats: &[SeatEntry], view: &PublicView) -> (text: String)
    ensures
        text@ == play_told(*play, seats@, shown_in(*view)),
{
    match play {
        SevenPlay::Points => " as points".to_owned(),
        SevenPlay::Scuttle { target } => {
            let mut text = " as scuttle targeting ".to_owned();
            text.append(card_name_for_history(*target, view).as_str());
            text
        },
        SevenPlay::Royal => " as a royal".to_owned(),
        SevenPlay::Jack { target } => {
            let mut text = " as a jack targeting ".to_owned();
            text.append(card_name_for_history(*target, view).as_str());
            text
        },
        SevenPlay::Joker { target } => {
            let mut text = " as a joker targeting ".to_owned();
            text.append(card_name_for_history(*target, view).as_str());
            text
        },
        SevenPlay::OneOff { target } => {
            let mut text = " as a one-off".to_owned();
            text.append(oneoff_target_text(target, seats, view).as_str());
            text
        },
        SevenPlay::Discard => " as discard".to_owned(),
    }
}

/// What the actor did, without the actor's name at its head.
pub open spec fn deed(action: Action, seats: Seq<SeatEntry>, shown: Set<Seq<char>>) -> Seq<char> {
    match action {
        Action::Draw => " drew a card."@,
        Action::Pass => " passed."@,
        Action::PlayPoints { card } => " played the "@ + told(card, shown) + " for points."@,
        Action::Scuttle { card, target_point_base } => " scuttled the "@ + told(
            target_point_base,
            shown,
        ) + " with the "@ + told(card, shown) + "."@,
        Action::PlayRoyal { card } => " played the "@ + told(card, shown) + " as a royal."@,
        Action::PlayJack { jack, target_point_base } => " stole the "@ + told(
            target_point_base,
            shown,
        ) + " with the "@ + told(jack, shown) + "."@,
        Action::PlayJoker { joker, target_royal_card } => " played the "@ + told(joker, shown)
            + " on the "@ + told(target_royal_card, shown) + "."@,
        Action::PlayOneOff { card, target } => " played the "@ + told(card, shown)
            + " as a one-off"@ + target_told(target, seats, shown) + "."@,
        Action::CounterTwo { two_card } => " played the "@ + told(two_card, shown)
            + " to counter."@,
        Action::CounterPass => " passed counter."@,
        Action::ResolveThreePick { card_from_scrap } => " took the "@ + told(card_from_scrap, shown)
            + " from scrap."@,
        Action::ResolveFourDiscard { card } => " discarded the "@ + told(card, shown) + "."@,
        Action::ResolveFiveDiscard { card } => " discarded the "@ + told(card, shown) + "."@,
        Action::ResolveSevenChoose { card, play } => " resolved seven with the "@ + told(card, shown)
            + play_told(play, seats, shown) + "."@,
    }
}

/// One sentence of the story: who acted, and what they did, with each card
/// named only where its name is among those shown.
pub open spec fn history_line(
    action: Action,
    actor: Seat,
    seats: Seq<SeatEntry>,
    shown: Set<Seq<char>>,
) -> Seq<char> {
    seat_label(seats, actor) + deed(action, seats, shown)
}

/// The sentence grows by a phrase, a card and a closing phrase.
fn tell(text: &mut String, before: &str, card: Card, view: &PublicView, after: &str)
    ensures
        final(text)@ == old(text)@ + before@ + told(card, shown_in(*view)) + after@,
{
    text.append(before);
    text.append(card_name_for_history(card, view).as_str());
    text.append(after);
}

/// The sentence for one action, told to one who has this view.
pub fn format_history_line(
    action: &Action,
    actor_seat: Seat,
    seats: &[SeatEntry],
    view: &PublicView,
) -> (text: String)
    ensures
        text@ == history_line(*action, actor_seat, seats@, shown_in(*view)),
{
    let mut text = seat_name(actor_seat, seats);
    let ghost head = text@;
    let ghost rest = deed(*action, seats@, shown_in(*view));
    match action {
        Action::Draw => {
            text.append(" drew a card.");
        },
        Action::Pass => {
            text.append(" passed.");
        },
        Action::PlayPoints { card } => {
            tell(&mut text, " played the ", *card, view, " for points.");
        },
        Action::Scuttle { card, target_point_base } => {
            tell(&mut text, " scuttled the ", *target_point_base, view, " with the ");
            tell(&mut text, "", *card, view, ".");
            proof {
                reveal_strlit("");
            }
        },
        Action::PlayRoyal { card } => {
            tell(&mut text, " played the ", *card, view, " as a royal.");
        },
        Action::PlayJack { jack, target_point_base } => {
            tell(&mut text, " stole the ", *target_point_base, view, " with the ");
            tell(&mut text, "", *jack, view, ".");
            proof {
                reveal_strlit("");
            }
        },
        Action::PlayJoker { joker, target_royal_card } => {
            tell(&mut text, " played the ", *joker, view, " on the ");
            tell(&mut text, "", *target_royal_card, view, ".");
            proof {
                reveal_strlit("");
            }
        },
        Action::PlayOneOff { card, target } => {
            tell(&mut text, " played the ", *card, view, " as a one-off");
            text.append(oneoff_target_text(target, seats, view).as_str());
            text.append(".");
        },
        Action::CounterTwo { two_card } => {
            tell(&mut text, " played the ", *two_card, view, " to counter.");
        },
        Action::CounterPass => {
            text.append(" passed counter.");
        },
        Action::ResolveThreePick { card_from_scrap } => {
            tell(&mut text, " took the ", *card_from_scrap, view, " from scrap.");
        },
        Action::ResolveFourDiscard { card } => {
            tell(&mut text, " discarded the ", *card, view, ".");
        },
        Action::ResolveFiveDiscard { card } => {
            tell(&mut text, " discarded the ", *card, view, ".");
        },
        Action::ResolveSevenChoose { card, play } => {
            tell(&mut text, " resolved seven with the ", *card, view, "");
            text.append(seven_play_text(play, seats, view).as_str());
            text.append(".");
            proof {
                reveal_strlit("");
            }
        },
    }
    assert(text@ =~= head + rest);
    text
}


// ----------------------------------------------------------------------
// What a seat sees of a game
// ----------------------------------------------------------------------
pub open spec fn stack_names(stack: StackModel, name: Seq<char>) -> bool {
    name_of(stack.base) == name || names_one_of(stack.rider_cards(), name)
}

pub open spec fn stacks_name(stacks: Seq<StackModel>, name: Seq<char>) -> bool {
    exists|i: int| 0 <= i < stacks.len() && stack_names(#[trigger] stacks[i], name)
}

/// Whether a card of the name is with the player where a viewer sees it:
/// on the table, in the hand if that is `open` to the viewer, among the
/// frozen cards if the player is the viewer's `own` seat.
pub open spec fn seat_names(p: PlayerModel, own: bool, open: bool, name: Seq<char>) -> bool {
    ||| open && names_one_of(p.hand, name)
    ||| stacks_name(p.points, name)
    ||| stacks_name(p.royals, name)
    ||| own && names_one_of(frozen_cards(p.frozen), name)
}

pub open spec fn counters_name(twos: Seq<(Seat, Card)>, name: Seq<char>) -> bool {
    exists|i: int| 0 <= i < twos.len() && name_of((#[trigger] twos[i]).1) == name
}

pub open spec fn phase_names(phase: PhaseModel, viewer: Seat, name: Seq<char>) -> bool {
    match phase {
        PhaseModel::Countering(c) => names_one_of(action_cards(c.oneoff), name) || counters_name(
            c.twos,
            name,
        ),
        PhaseModel::ResolvingSeven { seat, revealed, .. } => seat == viewer && names_one_of(
            revealed,
            name,
        ),
        _ => false,
    }
}

/// Whether `viewer` sees a card of the name in the game: in the scrap, on
/// the table, in a hand that is open to it, among its own frozen cards, in a
/// one-off that waits or the twos against it, or among the cards that its
/// own seven revealed.
pub open spec fn sees_name(s: GameModel, viewer: Seat, name: Seq<char>) -> bool {
    ||| names_one_of(s.scrap, name)
    ||| exists|p: int|
        0 <= p < 3 && seat_names(
            #[trigger] s.players[p],
            p == viewer,
            p == viewer || s.has_glasses(viewer),
            name,
        )
    ||| phase_names(s.phase, viewer, name)
}

/// The names of the cards that `viewer` sees in the game.
pub open spec fn names_seen(s: GameModel, viewer: Seat) -> Set<Seq<char>> {
    Set::new(|name: Seq<char>| sees_name(s, viewer, name))
}

/// Whether the view is what `viewer` is shown of the game.
pub open spec fn pictures(view: PublicView, s: GameModel, viewer: Seat) -> bool {
    &&& names(view.scrap@, s.scrap)
    &&& view.phase.shows(s.phase, viewer)
    &&& view.players@.len() == 3
    &&& forall|p: int|
        0 <= p < 3 ==> (#[trigger] view.players@[p]).shows(
            s.players[p],
            p as Seat,
            viewer,
            p == viewer || s.has_glasses(viewer),
        )
}

proof fn lemma_names_have(texts: Seq<String>, cards: Seq<Card>, name: Seq<char>)
    requires
        names(texts, cards),
    ensures
        has_text(texts, name) == names_one_of(cards, name),
{
    if has_text(texts, name) {
        let i = choose|i: int| 0 <= i < texts.len() && (#[trigger] texts[i])@ == name;
        assert(name_of(cards[i]) == name);
    }
    if names_one_of(cards, name) {
        let i = choose|i: int| 0 <= i < cards.len() && name_of(#[trigger] cards[i]) == name;
        assert(texts[i]@ == name);
    }
}

proof fn lemma_hand_has(view: Seq<PublicCard>, hand: Seq<Card>, open: bool, name: Seq<char>)
    requires
        shows_hand(view, hand, open),
    ensures
        hand_shows(view, name) == (open && names_one_of(hand, name)),
{
    if hand_shows(view, name) {
        let i = choose|i: int|
            0 <= i < view.len() && match #[trigger] view[i] {
                PublicCard::Known(text) => text@ == name,
                PublicCard::Hidden => false,
            };
        assert(name_of(hand[i]) == name);
    }
    if open && names_one_of(hand, name) {
        let i = choose|i: int| 0 <= i < hand.len() && name_of(#[trigger] hand[i]) == name;
        assert(view[i] is Known);
    }
}

proof fn lemma_points_have(views: Seq<PointStackView>, stacks: Seq<StackModel>, name: Seq<char>)
    requires
        views.len() == stacks.len(),
        forall|i: int| 0 <= i < stacks.len() ==> (#[trigger] views[i]).shows(stacks[i]),
    ensures
        points_show(views, name) == stacks_name(stacks, name),
{
    assert forall|i: int| 0 <= i < stacks.len() implies point_stack_shows(views[i], name)
        == stack_names(stacks[i], name) by {
        assert(views[i].shows(stacks[i]));
        lemma_names_have(views[i].jacks@, stacks[i].rider_cards(), name);
    }
    if points_show(views, name) {
        let i = choose|i: int| 0 <= i < views.len() && point_stack_shows(#[trigger] views[i], name);
        assert(stack_names(stacks[i], name));
    }
    if stacks_name(stacks, name) {
        let i = choose|i: int| 0 <= i < stacks.len() && stack_names(#[trigger] stacks[i], name);
        assert(point_stack_shows(views[i], name));
    }
}

proof fn lemma_royals_have(views: Seq<RoyalStackView>, stacks: Seq<StackModel>, name: Seq<char>)
    requires
        views.len() == stacks.len(),
        forall|i: int| 0 <= i < stacks.len() ==> (#[trigger] views[i]).shows(stacks[i]),
    ensures
        royals_show(views, name) == stacks_name(stacks, name),
{
    assert forall|i: int| 0 <= i < stacks.len() implies royal_stack_shows(views[i], name)
        == stack_names(stacks[i], name) by {
        assert(views[i].shows(stacks[i]));
        lemma_names_have(views[i].jokers@, stacks[i].rider_cards(), name);
    }
    if royals_show(views, name) {
        let i = choose|i: int| 0 <= i < views.len() && royal_stack_shows(#[trigger] views[i], name);
        assert(stack_names(stacks[i], name));
    }
    if stacks_name(stacks, name) {
        let i = choose|i: int| 0 <= i < stacks.len() && stack_names(#[trigger] stacks[i], name);
        assert(royal_stack_shows(views[i], name));
    }
}

proof fn lemma_player_has(
    view: PlayerView,
    p: PlayerModel,
    seat: Seat,
    viewer: Seat,
    open: bool,
    name: Seq<char>,
)
    requires
        view.shows(p, seat, viewer, open),
    ensures
        player_shows(view, name) == seat_names(p, seat == viewer, open, name),
{
    lemma_hand_has(view.hand@, p.hand, open, name);
    lemma_points_have(view.points@, p.points, name);
    lemma_royals_have(view.royals@, p.royals, name);
    if seat == viewer {
        lemma_names_have(view.frozen@, frozen_cards(p.frozen), name);
    } else {
        assert(!has_text(view.frozen@, name));
    }
}

proof fn lemma_phase_has(view: PhaseView, phase: PhaseModel, viewer: Seat, name: Seq<char>)
    requires
        view.shows(phase, viewer),
    ensures
        phase_shows(view, name) == phase_names(phase, viewer, name),
{
    match phase {
        PhaseModel::Countering(c) => {
            match view {
                PhaseView::Countering { twos, .. } => {
                    if twos_show(twos@, name) {
                        let i = choose|i: int|
                            0 <= i < twos@.len() && (#[trigger] twos@[i]).card@ == name;
                        assert(name_of(c.twos[i].1) == name);
                    }
                    if counters_name(c.twos, name) {
                        let i = choose|i: int|
                            0 <= i < c.twos.len() && name_of((#[trigger] c.twos[i]).1) == name;
                        assert(twos@[i].card@ == name);
                    }
                },
                _ => {},
            }
        },
        PhaseModel::ResolvingSeven { seat, revealed, .. } => {
            match view {
                PhaseView::ResolvingSeven { revealed_cards, .. } => {
                    if seat == viewer {
                        lemma_names_have(revealed_cards@, revealed, name);
                    } else {
                        assert(!has_text(revealed_cards@, name));
                    }
                },
                _ => {},
            }
        },
        _ => {},
    }
}

/// A view shows the names that its viewer sees in the game, and no others.
pub proof fn lemma_view_shows_what_is_seen(view: PublicView, s: GameModel, viewer: Seat)
    requires
        pictures(view, s, viewer),
    ensures
        shown_in(view) == names_seen(s, viewer),
{
    assert forall|name: Seq<char>| view_shows(view, name) == sees_name(s, viewer, name) by {
        lemma_names_have(view.scrap@, s.scrap, name);
        lemma_phase_has(view.phase, s.phase, viewer, name);
        let open = |p: int| p == viewer || s.has_glasses(viewer);
        assert forall|p: int| 0 <= p < 3 implies player_shows(view.players@[p], name)
            == seat_names(s.players[p], p == viewer, open(p), name) by {
            assert(view.players@[p].shows(s.players[p], p as Seat, viewer, open(p)));
            lemma_player_has(view.players@[p], s.players[p], p as Seat, viewer, open(p), name);
        }
        if players_show(view.players@, name) {
            let p = choose|p: int|
                0 <= p < view.players@.len() && player_shows(#[trigger] view.players@[p], name);
            assert(seat_names(s.players[p], p == viewer, open(p), name));
        }
        if exists|p: int|
            0 <= p < 3 && seat_names(#[trigger] s.players[p], p == viewer, open(p), name) {
            let p = choose|p: int|
                0 <= p < 3 && seat_names(#[trigger] s.players[p], p == viewer, open(p), name);
            assert(player_shows(view.players@[p], name));
        }
    }
    assert(shown_in(view) =~= names_seen(s, viewer));
}

// ----------------------------------------------------------------------
// The story of a game
// ----------------------------------------------------------------------
/// How many sentences of a story are kept: the last ones.
pub const LOG_TAIL_LIMIT: usize = 60;

/// The texts as sequences of characters.
pub open spec fn texts(lines: Seq<String>) -> Seq<Seq<char>> {
    lines.map_values(|line: String| line@)
}

/// The story of the actions from the state `s`, as `viewer` may know it: one
/// sentence for each action, told by what the viewer sees once the action is
/// taken. The first action that is not legal ends the story.
pub open spec fn story(
    s: GameModel,
    actions: Seq<(Seat, Action)>,
    seats: Seq<SeatEntry>,
    viewer: Seat,
) -> Seq<Seq<char>>
    decreases actions.len(),
{
    if actions.len() == 0 || !s.legal(actions[0].0, actions[0].1) {
        Seq::empty()
    } else {
        let next = s.step(actions[0].0, actions[0].1);
        seq![history_line(actions[0].1, actions[0].0, seats, names_seen(next, viewer))] + story(
            next,
            actions.drop_first(),
            seats,
            viewer,
        )
    }
}

/// The first actions, as many as the limit allows.
pub open spec fn counted(actions: Seq<(Seat, Action)>, limit: Option<usize>) -> Seq<
    (Seat, Action),
> {
    match limit {
        Some(n) => if n < actions.len() {
            actions.take(n as int)
        } else {
            actions
        },
        None => actions,
    }
}

/// The last sentences of a story, as many as are kept.
pub open spec fn last_lines(lines: Seq<Seq<char>>) -> Seq<Seq<char>> {
    if lines.len() > LOG_TAIL_LIMIT {
        lines.skip(lines.len() - LOG_TAIL_LIMIT)
    } else {
        lines
    }
}

/// The story of a written game for `viewer`, from its deal: of its first
/// `max_actions` actions if a number is given, else of all. Of a game whose
/// dealer is no seat, or whose deck is too small to deal from, nothing is
/// told.
pub fn build_history_log_for_viewer_with_limit(
    transcript: &TokenLog,
    seats: &[SeatEntry],
    viewer: Seat,
    max_actions: Option<usize>,
) -> (lines: Vec<String>)
    requires
        viewer < 3,
    ensures
        texts(lines@) == if transcript.dealer >= 3 || transcript.deck@.len() < 15 {
            Seq::<Seq<char>>::empty()
        } else {
            last_lines(
                story(
                    GameModel::initial(transcript.dealer, transcript.deck@),
                    counted(transcript.actions@, max_actions),
                    seats@,
                    viewer,
                ),
            )
        },
{
    let mut lines: Vec<String> = Vec::new();
    if transcript.dealer >= 3 || transcript.deck.len() < 15 {
        assert(texts(lines@) =~= Seq::<Seq<char>>::empty());
        return lines;
    }
    let mut state = CutthroatState::new_with_deck(
        transcript.dealer,
        slice_to_vec(transcript.deck.as_slice()),
    );
    let limit = match max_actions {
        Some(n) => if n < transcript.actions.len() {
            n
        } else {
            transcript.actions.len()
        },
        None => transcript.actions.len(),
    };
    let ghost start = state@;
    let ghost actions = counted(transcript.actions@, max_actions);
    proof {
        lemma_initial_shaped(transcript.dealer, transcript.deck@);
        assert(actions =~= transcript.actions@.take(limit as int));
        assert(actions.skip(0) =~= actions);
        assert(texts(lines@) =~= Seq::<Seq<char>>::empty());
    }
    let mut going = true;
    let mut i: usize = 0;
    while going && i < limit
        invariant
            i <= limit <= transcript.actions@.len(),
            viewer < 3,
            state.shaped(),
            actions == transcript.actions@.take(limit as int),
            story(start, actions, seats@, viewer) == texts(lines@) + story(
                state@,
                actions.skip(i as int),
                seats@,
                viewer,
            ),
            !going ==> story(state@, actions.skip(i as int), seats@, viewer).len() == 0,
        decreases (if going { 1int } else { 0int }), limit - i,
    {
        let (seat, action) = transcript.actions[i];
        let ghost before = state@;
        let ghost rest = actions.skip(i as int);
        let ghost told_so_far = texts(lines@);
        proof {
            assert(rest[0] == (seat, action));
            assert(rest.drop_first() =~= actions.skip(i + 1));
        }
        match state.apply(seat, action) {
            Ok(_) => {
                let view = state.public_view(viewer);
                proof {
                    lemma_view_shows_what_is_seen(view, state@, viewer);
                }
                let line = format_history_line(&action, seat, seats, &view);
                lines.push(line);
                i = i + 1;
                proof {
                    assert(texts(lines@) =~= told_so_far.push(line@));
                    assert(story(before, rest, seats@, viewer) =~= seq![line@] + story(
                        state@,
                        actions.skip(i as int),
                        seats@,
                        viewer,
                    ));
                    assert(story(start, actions, seats@, viewer) =~= texts(lines@) + story(
                        state@,
                        actions.skip(i as int),
                        seats@,
                        viewer,
                    ));
                }
            },
            Err(_) => {
                going = false;
            },
        }
    }
    proof {
        assert(story(start, actions, seats@, viewer) =~= texts(lines@));
    }
    if lines.len() > LOG_TAIL_LIMIT {
        let ghost all = lines@;
        let at = lines.len() - LOG_TAIL_LIMIT;
        let kept = lines.split_off(at);
        proof {
            assert(texts(kept@) =~= texts(all).skip(at as int));
        }
        return kept;
    }
    lines
}

/// The story of the whole written game for `viewer`.
pub fn build_history_log_for_viewer(transcript: &TokenLog, seats: &[SeatEntry], viewer: Seat) -> (lines:
    Vec<String>)
    requires
        viewer < 3,
    ensures
        texts(lines@) == if transcript.dealer >= 3 || transcript.deck@.len() < 15 {
            Seq::<Seq<char>>::empty()
        } else {
            last_lines(
                story(
                    GameModel::initial(transcript.dealer, transcript.deck@),
                    transcript.actions@,
                    seats@,
                    viewer,
                ),
            )
        },
{
    build_history_log_for_viewer_with_limit(transcript, seats, viewer, None)
}

} // verus!
