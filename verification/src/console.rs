//! The game as text for a console: the board row by row, and a player's
//! hand card by card.

use vstd::prelude::*;
use vstd::string::StringExecFns;

use crate::model::deck::{decimal_digits, decimal_string, CardId, CardView};
use crate::model::game::{Game, GameView};

verus! {

/// `n` in decimal, with a zero before it where it has one digit only.
pub open spec fn two_digits(n: nat) -> Seq<char> {
    if n < 10 {
        "0"@ + decimal_digits(n)
    } else {
        decimal_digits(n)
    }
}

/// The text of the slot of row `y` and column `x`: the pair type of its
/// card in two digits, or `xx` where it is empty, between two blanks.
pub open spec fn slot_text(g: GameView, y: int, x: int) -> Seq<char> {
    match g.field.at(y, x) {
        None => " xx "@,
        Some(id) => " "@ + two_digits(g.deck[id as int].card_type) + " "@,
    }
}

/// The texts of the first `upto` slots of row `y`.
pub open spec fn row_text(g: GameView, y: int, upto: nat) -> Seq<char>
    decreases upto,
{
    if upto == 0 {
        Seq::empty()
    } else {
        row_text(g, y, (upto - 1) as nat) + slot_text(g, y, upto - 1)
    }
}

/// The texts of the first `upto` rows, each with a line break after it.
pub open spec fn rows_text(g: GameView, upto: nat) -> Seq<char>
    decreases upto,
{
    if upto == 0 {
        Seq::empty()
    } else {
        rows_text(g, (upto - 1) as nat) + row_text(g, upto - 1, g.field.width) + "\n"@
    }
}

/// The board as text, a row to a line.
pub open spec fn field_text_of(g: GameView) -> Seq<char> {
    rows_text(g, g.field.height)
}

/// The text of one card of a hand.
pub open spec fn card_text(card: CardView) -> Seq<char> {
    "(id: "@ + decimal_digits(card.id) + " type: "@ + decimal_digits(card.card_type) + " str: "@
        + card.title + "), "@
}

/// The texts of the cards that `hand` names, in order.
pub open spec fn cards_text(deck: Seq<CardView>, hand: Seq<CardId>) -> Seq<char>
    decreases hand.len(),
{
    if hand.len() == 0 {
        Seq::empty()
    } else {
        cards_text(deck, hand.drop_last()) + card_text(deck[hand.last() as int])
    }
}

/// The hand of the player with index `player` as text: a line with the
/// round, the player's name and the number of cards, then the cards.
pub open spec fn hand_text_of(g: GameView, player: int) -> Seq<char> {
    let hand = g.players[player].collected_cards;
    "Round "@ + decimal_digits(g.rounds_counter) + " Player "@ + g.players[player].name + " has "@
        + decimal_digits(hand.len()) + " cards:\n"@ + cards_text(g.deck, hand)
}

/// The board as text, a row to a line: the pair type of each card in two
/// digits, `xx` for an empty slot.
pub fn field_text(game: &Game) -> (text: String)
    requires
        game.wf(),
    ensures
        text@ == field_text_of(game@),
{
    let mut text = String::new();
    let mut row: usize = 0;
    while row < game.field.height
        invariant
            game.wf(),
            row <= game.field.height,
            text@ == rows_text(game@, row as nat),
        decreases game.field.height - row,
    {
        let ghost before = text@;
        let mut col: usize = 0;
        while col < game.field.width
            invariant
                game.wf(),
                row < game.field.height,
                col <= game.field.width,
                text@ == before + row_text(game@, row as int, col as nat),
            decreases game.field.width - col,
        {
            let ghost so_far = text@;
            match game.card_at(row, col) {
                None => {
                    text.append(" xx ");
                },
                Some(card) => {
                    text.append(" ");
                    if card.card_type < 10 {
                        text.append("0");
                    }
                    let number = decimal_string(card.card_type);
                    text.append(number.as_str());
                    text.append(" ");
                },
            }
            assert(text@ =~= so_far + slot_text(game@, row as int, col as int));
            col += 1;
        }
        text.append("\n");
        row += 1;
    }
    text
}

/// The hand of the player with that index as text.
pub fn cards_of_player_text(game: &Game, player_id: usize) -> (text: String)
    requires
        game.wf(),
        player_id < game@.players.len(),
    ensures
        text@ == hand_text_of(game@, player_id as int),
{
    let player = &game.players[player_id];
    let hand = &player.collected_cards;
    let round = decimal_string(game.rounds_counter as usize);
    let count = decimal_string(hand.len());
    let mut text = String::from_str("Round ").concat(round.as_str()).concat(" Player ").concat(
        player.name.as_str(),
    ).concat(" has ").concat(count.as_str()).concat(" cards:\n");
    let ghost header = text@;
    assert(cards_text(game@.deck, hand@.take(0)) =~= Seq::<char>::empty());
    let mut i: usize = 0;
    while i < hand.len()
        invariant
            game.wf(),
            player_id < game@.players.len(),
            hand@ == game@.players[player_id as int].collected_cards,
            i <= hand@.len(),
            text@ == header + cards_text(game@.deck, hand@.take(i as int)),
        decreases hand@.len() - i,
    {
        let ghost so_far = text@;
        assert(hand@[i as int] < game@.deck.len());
        let card = &game.deck[hand[i]];
        let id = decimal_string(card.id);
        let kind = decimal_string(card.card_type);
        text.append("(id: ");
        text.append(id.as_str());
        text.append(" type: ");
        text.append(kind.as_str());
        text.append(" str: ");
        text.append(card.title.as_str());
        text.append("), ");
        proof {
            let longer = hand@.take(i + 1);
            assert(longer.drop_last() =~= hand@.take(i as int));
            assert(longer.last() == hand@[i as int]);
            assert(card@ == game@.deck[hand@[i as int] as int]);
            assert(text@ =~= so_far + card_text(card@));
        }
        i += 1;
    }
    assert(hand@.take(hand@.len() as int) =~= hand@);
    text
}

/// The hand of the player whose turn it is as text.
pub fn cards_of_current_player_text(game: &Game) -> (text: String)
    requires
        game.wf(),
        game@.current_player_id < game@.players.len(),
    ensures
        text@ == hand_text_of(game@, game@.current_player_id as int),
{
    let p = game.current_player_id;
    cards_of_player_text(game, p)
}

} // verus!
