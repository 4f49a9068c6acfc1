//! What the board looks like: the texts of the status bar, where each card
//! is drawn, and how much of it is shown. The drawing itself is the
//! driver's.

use vstd::prelude::*;
use vstd::string::StringExecFns;

use crate::model::deck::{decimal_digits, decimal_string};
use crate::model::game::{Coord, Game, GameState, GameView};

verus! {

/// The free space around each card.
pub const PADDING: u32 = 5;

/// The text that stands for a state in the status bar.
pub open spec fn status_text(state: GameState) -> Seq<char> {
    match state {
        GameState::GameSetup => "Enter player name"@,
        GameState::StartGame => "select first card"@,
        GameState::StartSelectCards => "select first card"@,
        GameState::FirstCard => "select second card"@,
        GameState::SecondCard => "SecondCard"@,
        GameState::NextUser => "NextUser"@,
        GameState::GameOver => "Game Over!"@,
    }
}

/// The text that stands for a state in the status bar.
pub fn format_status(state: &GameState) -> (text: &'static str)
    ensures
        text@ == status_text(*state),
{
    match state {
        GameState::GameSetup => "Enter player name",
        GameState::StartGame => "select first card",
        GameState::StartSelectCards => "select first card",
        GameState::FirstCard => "select second card",
        GameState::SecondCard => "SecondCard",
        GameState::NextUser => "NextUser",
        GameState::GameOver => "Game Over!",
    }
}

/// The line of the status bar: the round, the current player with the
/// number of cards in hand, and the state.
pub open spec fn status_line_text(round: nat, name: Seq<char>, cards: nat, state: GameState) -> Seq<
    char,
> {
    "Round: "@ + decimal_digits(round) + " - Current Player: "@ + name + " has "@ + decimal_digits(
        cards,
    ) + " cards - "@ + status_text(state)
}

/// The line of the status bar: the round, the current player with the
/// number of cards in hand, and the state.
pub fn status_line(round: u32, name: &str, cards: usize, state: &GameState) -> (line: String)
    ensures
        line@ == status_line_text(round as nat, name@, cards as nat, *state),
{
    let round_text = decimal_string(round as usize);
    let cards_text = decimal_string(cards);
    String::from_str("Round: ").concat(round_text.as_str()).concat(" - Current Player: ").concat(
        name,
    ).concat(" has ").concat(cards_text.as_str()).concat(" cards - ").concat(format_status(state))
}

/// The text that tells whether the last two cards were a pair.
pub fn check_result_text(success: bool) -> (text: &'static str)
    ensures
        text@ == if success {
            "You found a pair!"@
        } else {
            "Not a pair, bad luck."@
        },
{
    if success {
        "You found a pair!"
    } else {
        "Not a pair, bad luck."
    }
}

/// The result of the last comparison is shown while the turn is resolved
/// and not yet passed on.
pub fn shows_check_result(state: &GameState) -> (shown: bool)
    ensures
        shown == (*state == GameState::NextUser),
{
    *state == GameState::NextUser
}

/// How much of a slot is shown.
#[derive(Clone, Copy, PartialEq, Eq, Debug, Structural)]
pub enum SlotLook {
    /// The slot is empty: nothing is drawn.
    Empty,
    /// The card lies face down: its outline is drawn.
    Hidden,
    /// The card is revealed: its outline and its title are drawn.
    Revealed,
}

/// How much of the slot at `coord` is shown.
pub open spec fn slot_look_of(g: GameView, coord: Coord) -> SlotLook {
    if g.slot(coord) is None {
        SlotLook::Empty
    } else if g.is_revealed(coord) {
        SlotLook::Revealed
    } else {
        SlotLook::Hidden
    }
}

/// How much of the slot at `coord` is shown.
pub fn slot_look(game: &Game, coord: &Coord) -> (look: SlotLook)
    requires
        game.wf(),
        game@.on_board(*coord),
    ensures
        look == slot_look_of(game@, *coord),
{
    if !game.coord_has_card(coord) {
        SlotLook::Empty
    } else if game.is_clicked(coord) {
        SlotLook::Revealed
    } else {
        SlotLook::Hidden
    }
}

/// A rectangle on the screen: its upper left corner and its size.
#[derive(Clone, Copy, PartialEq, Eq, Debug, Structural)]
pub struct CardBox {
    pub x: i32,
    pub y: i32,
    pub width: u32,
    pub height: u32,
}

/// The size of a card along one side of a screen that is `extent` long:
/// an eighth of the side, less the padding's share of it.
pub open spec fn card_extent(extent: int) -> int {
    extent / 8 - 6
}

/// Where the card with that index starts along one side of a screen that
/// starts at `origin` and is `extent` long.
pub open spec fn card_origin(origin: int, extent: int, index: int) -> int {
    origin + 5 + index * (card_extent(extent) + 5)
}

/// The screen can hold the card of that row and column: the screen does not
/// start left of or above the window, a card has a size, and the card's
/// corner can be written in 32 bits.
pub open spec fn card_fits(
    row: u32,
    col: u32,
    screen_left: i32,
    screen_top: i32,
    screen_height: u32,
    screen_width: u32,
) -> bool {
    &&& screen_left >= 0
    &&& screen_top >= 0
    &&& card_extent(screen_width as int) >= 0
    &&& card_extent(screen_height as int) >= 0
    &&& card_origin(screen_left as int, screen_width as int, col as int) <= i32::MAX
    &&& card_origin(screen_top as int, screen_height as int, row as int) <= i32::MAX
}

/// The rectangle of the card of that row and column on a screen of eight
/// rows and eight columns.
pub fn card_box(
    row: u32,
    col: u32,
    screen_left: i32,
    screen_top: i32,
    screen_height: u32,
    screen_width: u32,
) -> (rect: CardBox)
    requires
        card_fits(row, col, screen_left, screen_top, screen_height, screen_width),
    ensures
        rect.width == card_extent(screen_width as int),
        rect.height == card_extent(screen_height as int),
        rect.x == card_origin(screen_left as int, screen_width as int, col as int),
        rect.y == card_origin(screen_top as int, screen_height as int, row as int),
{
    let card_width: u32 = (screen_width / 8) - (PADDING * 8 / 6);
    let card_height: u32 = (screen_height / 8) - (PADDING * 8 / 6);
    let x_offset: u32 = screen_left as u32;
    let y_offset: u32 = screen_top as u32;
    assert(0 <= col * (card_width + PADDING) <= i32::MAX) by (nonlinear_arith)
        requires
            x_offset + 5 + col * (card_width + PADDING) <= i32::MAX,
            card_width + PADDING >= 0,
    ;
    assert(0 <= row * (card_height + PADDING) <= i32::MAX) by (nonlinear_arith)
        requires
            y_offset + 5 + row * (card_height + PADDING) <= i32::MAX,
            card_height + PADDING >= 0,
    ;
    let x: i32 = (x_offset + PADDING + col * (card_width + PADDING)) as i32;
    let y: i32 = (y_offset + PADDING + row * (card_height + PADDING)) as i32;
    CardBox { x, y, width: card_width, height: card_height }
}

/// The rectangle in which the result of the last comparison is written,
/// for a status bar of that size.
pub fn check_result_box(statusbar_width: u32, statusbar_height: u32) -> (rect: CardBox)
    requires
        statusbar_width * 3 <= u32::MAX,
        statusbar_height >= 10,
    ensures
        rect == (CardBox {
            x: 0,
            y: 400,
            width: (statusbar_width * 3 / 5) as u32,
            height: (statusbar_height - 10) as u32,
        }),
{
    CardBox { x: 0, y: 400, width: (statusbar_width * 3) / 5, height: statusbar_height - 10 }
}

} // verus!
