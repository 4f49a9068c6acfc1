//! Cards, decks, and the decimal labels that cards carry.

use vstd::prelude::*;
use vstd::string::StringExecFns;

verus! {

/// A card's identifier: its index in the deck.
pub type CardId = usize;

/// A card. Two cards match when they carry the same `card_type`.
#[derive(Debug)]
pub struct Card {
    pub id: CardId,
    pub card_type: usize,
    pub title: String,
}

/// A deck: cards in identifier order.
pub type Deck = Vec<Card>;

/// What a card is, with its title as a sequence of characters.
pub struct CardView {
    pub id: nat,
    pub card_type: nat,
    pub title: Seq<char>,
}

impl View for Card {
    type V = CardView;

    open spec fn view(&self) -> CardView {
        CardView { id: self.id as nat, card_type: self.card_type as nat, title: self.title@ }
    }
}

/// The views of a deck's cards, in order.
pub open spec fn deck_view(deck: Seq<Card>) -> Seq<CardView> {
    deck.map_values(|c: Card| c@)
}

/// The character that writes the digit `d`.
pub open spec fn digit_char(d: nat) -> char {
    if d == 0 {
        '0'
    } else if d == 1 {
        '1'
    } else if d == 2 {
        '2'
    } else if d == 3 {
        '3'
    } else if d == 4 {
        '4'
    } else if d == 5 {
        '5'
    } else if d == 6 {
        '6'
    } else if d == 7 {
        '7'
    } else if d == 8 {
        '8'
    } else {
        '9'
    }
}

/// The decimal notation of `n`: no sign, no leading zero, `"0"` for zero.
pub open spec fn decimal_digits(n: nat) -> Seq<char>
    decreases n,
{
    if n < 10 {
        seq![digit_char(n)]
    } else {
        decimal_digits(n / 10).push(digit_char(n % 10))
    }
}

/// The card that a sorted deck holds at index `i`: identifier `i`, pair type
/// `i / 2`, and the pair type in decimal as its title.
pub open spec fn sorted_card(i: nat) -> CardView {
    CardView { id: i, card_type: i / 2, title: decimal_digits(i / 2) }
}

/// The sorted deck of `num_pairs` pairs.
pub open spec fn sorted_deck(num_pairs: nat) -> Seq<CardView> {
    Seq::new(2 * num_pairs, |i: int| sorted_card(i as nat))
}

/// Where the two cards of pair type `t` lie in a sorted deck.
pub open spec fn pair_indices(t: nat) -> Set<int> {
    set![2 * (t as int), 2 * (t as int) + 1]
}

/// The indices of the cards of `deck` that carry the pair type `t`.
pub open spec fn holders(deck: Seq<CardView>, t: nat) -> Set<int> {
    Set::new(|i: int| 0 <= i < deck.len() && deck[i].card_type == t)
}

/// The validity of a deck: each card's identifier is its place in the deck,
/// and each pair type is carried by exactly two cards, or by none.
pub open spec fn is_deck(deck: Seq<CardView>) -> bool {
    &&& forall|i: int| 0 <= i < deck.len() ==> (#[trigger] deck[i]).id == i
    &&& forall|t: nat|
        (#[trigger] holders(deck, t)).finite() && (holders(deck, t).len() == 2 || holders(
            deck,
            t,
        ).len() == 0)
}

fn digit_str(d: usize) -> (s: &'static str)
    requires
        d < 10,
    ensures
        s@ == seq![digit_char(d as nat)],
{
    proof {
        reveal_strlit("0");
        reveal_strlit("1");
        reveal_strlit("2");
        reveal_strlit("3");
        reveal_strlit("4");
        reveal_strlit("5");
        reveal_strlit("6");
        reveal_strlit("7");
        reveal_strlit("8");
        reveal_strlit("9");
    }
    if d == 0 {
        "0"
    } else if d == 1 {
        "1"
    } else if d == 2 {
        "2"
    } else if d == 3 {
        "3"
    } else if d == 4 {
        "4"
    } else if d == 5 {
        "5"
    } else if d == 6 {
        "6"
    } else if d == 7 {
        "7"
    } else if d == 8 {
        "8"
    } else {
        "9"
    }
}

/// Writes `n` in decimal.
pub fn decimal_string(n: usize) -> (s: String)
    ensures
        s@ == decimal_digits(n as nat),
{
    let mut rest: usize = n / 10;
    let mut s = String::from_str(digit_str(n % 10));
    while rest > 0
        invariant
            rest == 0 ==> s@ == decimal_digits(n as nat),
            rest > 0 ==> decimal_digits(n as nat) == decimal_digits(rest as nat) + s@,
        decreases rest,
    {
        let ghost before = s@;
        let head = String::from_str(digit_str(rest % 10));
        s = head.concat(s.as_str());
        proof {
            let d = seq![digit_char((rest % 10) as nat)];
            assert(s@ == d + before);
            if rest >= 10 {
                assert(decimal_digits(rest as nat) == decimal_digits((rest / 10) as nat) + d);
                assert(decimal_digits(n as nat) == decimal_digits((rest / 10) as nat) + s@);
            }
        }
        rest = rest / 10;
    }
    s
}

/// Builds the sorted deck of `num_pairs` pairs: cards `2 * t` and `2 * t + 1`
/// carry the pair type `t`.
pub fn create_deck(num_pairs: usize) -> (deck: Deck)
    requires
        2 * num_pairs <= usize::MAX,
    ensures
        deck_view(deck@) == sorted_deck(num_pairs as nat),
        is_deck(deck_view(deck@)),
        forall|t: nat| t < num_pairs ==> #[trigger] holders(deck_view(deck@), t) == pair_indices(t),
{
    let mut deck: Vec<Card> = Vec::with_capacity(num_pairs * 2);
    let mut i: usize = 0;
    while i < num_pairs
        invariant
            i <= num_pairs,
            2 * num_pairs <= usize::MAX,
            deck@.len() == 2 * i,
            deck_view(deck@) == sorted_deck(i as nat),
        decreases num_pairs - i,
    {
        let ghost before = deck@;
        deck.push(Card { id: 2 * i, card_type: i, title: decimal_string(i) });
        deck.push(Card { id: 2 * i + 1, card_type: i, title: decimal_string(i) });
        proof {
            assert forall|j: int| 0 <= j < deck@.len() implies deck_view(deck@)[j] == sorted_card(
                j as nat,
            ) by {
                if j < 2 * i {
                    assert(deck@[j] == before[j]);
                    assert(deck_view(before)[j] == sorted_card(j as nat));
                }
            }
            assert(deck_view(deck@) =~= sorted_deck((i + 1) as nat));
        }
        i += 1;
    }
    proof {
        lemma_sorted_deck_pairs(num_pairs as nat);
    }
    deck
}

/// The sorted deck of `num_pairs` pairs is a valid deck of `2 * num_pairs`
/// cards. Each pair type below `num_pairs` is carried by exactly two cards,
/// those at `2 * t` and `2 * t + 1`, and the pair types from `num_pairs` on
/// by no card at all.
pub proof fn lemma_sorted_deck_pairs(num_pairs: nat)
    ensures
        sorted_deck(num_pairs).len() == 2 * num_pairs,
        is_deck(sorted_deck(num_pairs)),
        forall|t: nat|
            t < num_pairs ==> #[trigger] holders(sorted_deck(num_pairs), t) == pair_indices(t),
        forall|t: nat| t < num_pairs ==> (#[trigger] holders(sorted_deck(num_pairs), t)).len() == 2,
        forall|t: nat| t >= num_pairs ==> (#[trigger] holders(sorted_deck(num_pairs), t)).len() == 0,
{
    let deck = sorted_deck(num_pairs);
    assert forall|t: nat| t < num_pairs implies #[trigger] holders(deck, t) == pair_indices(t)
        && holders(deck, t).finite() && holders(deck, t).len() == 2 by {
        let lo = 2 * (t as int);
        assert(holders(deck, t) =~= pair_indices(t));
        assert(pair_indices(t) =~= Set::<int>::empty().insert(lo).insert(lo + 1));
    }
    assert forall|t: nat| t >= num_pairs implies (#[trigger] holders(deck, t)).finite()
        && holders(deck, t).len() == 0 by {
        assert(holders(deck, t) =~= Set::<int>::empty());
    }
    assert forall|t: nat|
        (#[trigger] holders(deck, t)).finite() && (holders(deck, t).len() == 2 || holders(
            deck,
            t,
        ).len() == 0) by {
        if t < num_pairs {
            assert(holders(deck, t) == pair_indices(t));
        }
    }
}

} // verus!
