//! The driver's decisions: which place on the board a click names, and what
//! a click does to the game in each state.

use vstd::prelude::*;

use crate::model::game::{Coord, Game, GameState, GameView};
use crate::model::laws::{law_advanced, law_game_over_checked, law_opened, law_resolved};
use crate::model::shuffle::is_permutation;

verus! {

/// The game together with the rules by which clicks drive it.
pub struct Control {
    pub game: Game,
}

/// The click at `(y, x)` counts for the board: it lies below or right of the
/// padded screen's upper left corner, or above or left of its lower right one.
pub open spec fn click_counts(
    y: int,
    x: int,
    screen_left: int,
    screen_top: int,
    screen_height: int,
    screen_width: int,
) -> bool {
    ||| y > 5 + screen_top
    ||| y < screen_height - 5 + screen_top
    ||| x > 5 + screen_left
    ||| x < screen_width - 5 + screen_left
}

/// The click's place can be computed within 32-bit arithmetic: so can the
/// padded screen's corners, and where the click counts, a cell has a width
/// and a height and the click lies neither left of nor above the padded
/// screen, nor further from its corner than an `i32` holds.
pub open spec fn click_computable(
    y: i32,
    x: i32,
    screen_left: i32,
    screen_top: i32,
    screen_height: u32,
    screen_width: u32,
) -> bool {
    &&& 5 + screen_left <= i32::MAX
    &&& 5 + screen_top <= i32::MAX
    &&& screen_height <= i32::MAX
    &&& screen_width <= i32::MAX
    &&& i32::MIN <= screen_height - 5 + screen_top <= i32::MAX
    &&& i32::MIN <= screen_width - 5 + screen_left <= i32::MAX
    &&& click_counts(
        y as int,
        x as int,
        screen_left as int,
        screen_top as int,
        screen_height as int,
        screen_width as int,
    ) ==> {
        &&& screen_width >= 8
        &&& screen_height >= 8
        &&& 0 <= x - (5 + screen_left) <= i32::MAX
        &&& 0 <= y - (5 + screen_top) <= i32::MAX
    }
}

/// The place that the click names: the screen is eight cells wide and eight
/// high behind a padding of five, and the click's distance from the padded
/// corner is divided by the size of a cell.
pub open spec fn click_coord(
    y: int,
    x: int,
    screen_left: int,
    screen_top: int,
    screen_height: int,
    screen_width: int,
) -> Option<Coord> {
    if click_counts(y, x, screen_left, screen_top, screen_height, screen_width) {
        Some(
            Coord(
                ((y - (5 + screen_top)) / (screen_height / 8)) as usize,
                ((x - (5 + screen_left)) / (screen_width / 8)) as usize,
            ),
        )
    } else {
        None
    }
}

/// The place that a click names, for a click whose place can be computed.
pub fn calculate_card_coord_from_mouse_click(
    y: i32,
    x: i32,
    screen_left: i32,
    screen_top: i32,
    screen_height: u32,
    screen_width: u32,
) -> (coord: Option<Coord>)
    requires
        click_computable(y, x, screen_left, screen_top, screen_height, screen_width),
    ensures
        coord == click_coord(
            y as int,
            x as int,
            screen_left as int,
            screen_top as int,
            screen_height as int,
            screen_width as int,
        ),
{
    let padding_left: i32 = 5 + screen_left;
    let padding_top: i32 = 5 + screen_top;
    let screen_height_i32: i32 = screen_height as i32;
    let screen_width_i32: i32 = screen_width as i32;
    let y_max: i32 = screen_height_i32 - 5 + screen_top;
    let x_max: i32 = screen_width_i32 - 5 + screen_left;

    if y > padding_top || y < y_max || x > padding_left || x < x_max {
        let card_width_plus_padding: u32 = screen_width / 8;
        let card_height_plus_padding: u32 = screen_height / 8;
        let x_minus_padding: u32 = (x - padding_left) as u32;
        let y_minus_padding: u32 = (y - padding_top) as u32;
        let col: u32 = x_minus_padding / card_width_plus_padding;
        let row: u32 = y_minus_padding / card_height_plus_padding;
        return Some(Coord(row as usize, col as usize));
    }
    None
}

/// Tests whether the click's place can be computed within 32-bit arithmetic.
pub fn click_is_computable(
    y: i32,
    x: i32,
    screen_left: i32,
    screen_top: i32,
    screen_height: u32,
    screen_width: u32,
) -> (possible: bool)
    ensures
        possible == click_computable(y, x, screen_left, screen_top, screen_height, screen_width),
{
    let y: i64 = y as i64;
    let x: i64 = x as i64;
    let left: i64 = screen_left as i64;
    let top: i64 = screen_top as i64;
    let height: i64 = screen_height as i64;
    let width: i64 = screen_width as i64;
    let max: i64 = 0x7fff_ffff;
    let min: i64 = -0x8000_0000;
    if 5 + left > max || 5 + top > max || height > max || width > max {
        return false;
    }
    let y_max: i64 = height - 5 + top;
    let x_max: i64 = width - 5 + left;
    if y_max < min || y_max > max || x_max < min || x_max > max {
        return false;
    }
    if y > 5 + top || y < y_max || x > 5 + left || x < x_max {
        width >= 8 && height >= 8 && 0 <= x - (5 + left) && x - (5 + left) <= max && 0 <= y - (5
            + top) && y - (5 + top) <= max
    } else {
        true
    }
}

/// The place that a click names, or nothing where it cannot be computed.
pub open spec fn click_target(
    y: i32,
    x: i32,
    screen_left: i32,
    screen_top: i32,
    screen_height: u32,
    screen_width: u32,
) -> Option<Coord> {
    if click_computable(y, x, screen_left, screen_top, screen_height, screen_width) {
        click_coord(
            y as int,
            x as int,
            screen_left as int,
            screen_top as int,
            screen_height as int,
            screen_width as int,
        )
    } else {
        None
    }
}

/// The place that a click names, or nothing where it cannot be computed.
pub fn locate_click(
    y: i32,
    x: i32,
    screen_left: i32,
    screen_top: i32,
    screen_height: u32,
    screen_width: u32,
) -> (coord: Option<Coord>)
    ensures
        coord == click_target(y, x, screen_left, screen_top, screen_height, screen_width),
{
    if click_is_computable(y, x, screen_left, screen_top, screen_height, screen_width) {
        calculate_card_coord_from_mouse_click(
            y,
            x,
            screen_left,
            screen_top,
            screen_height,
            screen_width,
        )
    } else {
        None
    }
}

/// What a click did, for the driver to tell the players.
#[derive(Clone, Copy, PartialEq, Eq, Debug, Structural)]
pub enum ClickOutcome {
    /// The game was over and has been started anew.
    Restarted,
    /// A card was awaited, and the click named no place.
    Missed,
    /// A card was awaited, and the click named a place whose card cannot be
    /// revealed now, or a place off the board.
    Refused,
    /// The card at this place was revealed.
    Opened(Coord),
    /// The two revealed cards were compared and are a pair.
    PairFound,
    /// The two revealed cards were compared and are no pair.
    NoPair,
    /// The board is empty: the game is over.
    GameFinished,
    /// The turn went to the next player.
    TurnPassed,
    /// The state takes no clicks.
    Ignored,
}

/// What a click that names `target` does in the state of `g`.
pub open spec fn click_outcome(g: GameView, target: Option<Coord>) -> ClickOutcome {
    match g.state {
        GameState::GameOver => ClickOutcome::Restarted,
        GameState::StartGame | GameState::StartSelectCards | GameState::FirstCard => match target {
            None => ClickOutcome::Missed,
            Some(coord) => if g.can_open(coord) {
                ClickOutcome::Opened(coord)
            } else {
                ClickOutcome::Refused
            },
        },
        GameState::SecondCard => if g.guess_succeeds() {
            ClickOutcome::PairFound
        } else {
            ClickOutcome::NoPair
        },
        GameState::NextUser => if g.is_over() {
            ClickOutcome::GameFinished
        } else {
            ClickOutcome::TurnPassed
        },
        GameState::GameSetup => ClickOutcome::Ignored,
    }
}

/// The game after a click that names `target`, in every state but
/// `GameOver`: a click reveals a card while one is awaited, then resolves
/// the turn, then tests for the end of the game and passes the turn on.
pub open spec fn after_click(g: GameView, target: Option<Coord>) -> GameView {
    match g.state {
        GameState::StartGame | GameState::StartSelectCards | GameState::FirstCard => match target {
            None => g,
            Some(coord) => g.opened(coord),
        },
        GameState::SecondCard => g.resolved(),
        GameState::NextUser => if g.is_over() {
            g.game_over_checked()
        } else {
            g.game_over_checked().selection_closed().advanced()
        },
        GameState::GameSetup | GameState::GameOver => g,
    }
}

impl Control {
    /// The control of a new game for a board of that size.
    pub fn new(height: usize, width: usize) -> (control: Control)
        requires
            height * width <= usize::MAX,
        ensures
            control.game.wf(),
            control.game@ == GameView::fresh(height as nat, width as nat),
    {
        Control { game: Game::new(height, width) }
    }

    /// Starts a new game with the cards laid out in a random order.
    pub fn reset(&mut self)
        requires
            old(self).game.wf(),
            old(self).game.field.width * old(self).game.field.height == old(self).game.deck@.len(),
        ensures
            final(self).game.wf(),
            is_permutation(final(self).game@.field.card_ids(), old(self).game@.deck.len()),
            final(self).game@ == old(self).game@.reset_to(final(self).game@.field.card_ids()),
            final(self).game@.balanced(),
    {
        self.game.reset();
    }

    /// Lets a click at `(y, x)` drive the game one step, and says what it
    /// did. A click on a game that is over starts a new one.
    pub fn handle_mouse_click(
        &mut self,
        y: i32,
        x: i32,
        screen_left: i32,
        screen_top: i32,
        screen_height: u32,
        screen_width: u32,
    ) -> (outcome: ClickOutcome)
        requires
            old(self).game.wf(),
            old(self).game@.rounds_counter < u32::MAX,
            old(self).game@.state == GameState::SecondCard ==> old(self).game@.players.len() > 0,
            old(self).game@.state == GameState::GameOver ==> old(self).game.field.width * old(
                self,
            ).game.field.height == old(self).game.deck@.len(),
        ensures
            final(self).game.wf(),
            outcome == click_outcome(
                old(self).game@,
                click_target(y, x, screen_left, screen_top, screen_height, screen_width),
            ),
            old(self).game@.state != GameState::GameOver ==> final(self).game@ == after_click(
                old(self).game@,
                click_target(y, x, screen_left, screen_top, screen_height, screen_width),
            ),
            old(self).game@.state == GameState::GameOver ==> {
                &&& is_permutation(final(self).game@.field.card_ids(), old(self).game@.deck.len())
                &&& final(self).game@ == old(self).game@.reset_to(
                    final(self).game@.field.card_ids(),
                )
                &&& final(self).game@.balanced()
            },
            old(self).game@.balanced() ==> final(self).game@.balanced(),
    {
        proof {
            law_click(
                self.game@,
                click_target(y, x, screen_left, screen_top, screen_height, screen_width),
            );
        }
        match self.game.game_state() {
            GameState::GameOver => {
                self.game.reset();
                ClickOutcome::Restarted
            },
            GameState::StartSelectCards | GameState::StartGame | GameState::FirstCard => {
                let target = locate_click(
                    y,
                    x,
                    screen_left,
                    screen_top,
                    screen_height,
                    screen_width,
                );
                match target {
                    None => ClickOutcome::Missed,
                    Some(coord) => {
                        if coord.0 < self.game.field.height && coord.1 < self.game.field.width
                            && self.game.open_card(&coord) {
                            ClickOutcome::Opened(coord)
                        } else {
                            ClickOutcome::Refused
                        }
                    },
                }
            },
            GameState::SecondCard => {
                if self.game.check_guess_current_player() {
                    ClickOutcome::PairFound
                } else {
                    ClickOutcome::NoPair
                }
            },
            GameState::NextUser => {
                if self.game.check_game_over() {
                    ClickOutcome::GameFinished
                } else {
                    self.game.close_selected_cards();
                    self.game.next_player();
                    ClickOutcome::TurnPassed
                }
            },
            GameState::GameSetup => ClickOutcome::Ignored,
        }
    }
}

/// A click keeps a game that is not over valid, and loses or doubles no card.
pub proof fn law_click(g: GameView, target: Option<Coord>)
    requires
        g.wf(),
        g.state == GameState::SecondCard ==> g.players.len() > 0,
    ensures
        after_click(g, target).wf(),
        g.balanced() ==> after_click(g, target).balanced(),
{
    match target {
        Some(coord) => {
            law_opened(g, coord);
        },
        None => {},
    }
    law_resolved(g);
    law_game_over_checked(g);
    law_advanced(g.game_over_checked().selection_closed());
}

} // verus!
