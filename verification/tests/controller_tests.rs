use memory_game::controller::{
    calculate_card_coord_from_mouse_click, click_is_computable, locate_click, ClickOutcome,
    Control,
};
use memory_game::model::game::{Coord, GameState};

#[test]
fn click_is_divided_by_the_size_of_a_cell() {
    // The padded corner is at (105, 205); a cell is 100 high and 75 wide.
    assert_eq!(
        calculate_card_coord_from_mouse_click(300, 400, 200, 100, 800, 600),
        Some(Coord(1, 2))
    );
    assert_eq!(
        calculate_card_coord_from_mouse_click(105, 205, 200, 100, 800, 600),
        Some(Coord(0, 0))
    );
    assert_eq!(
        calculate_card_coord_from_mouse_click(204, 279, 200, 100, 800, 600),
        Some(Coord(0, 0))
    );
    assert_eq!(
        calculate_card_coord_from_mouse_click(205, 280, 200, 100, 800, 600),
        Some(Coord(1, 1))
    );
    assert_eq!(
        calculate_card_coord_from_mouse_click(904, 804, 200, 100, 800, 600),
        Some(Coord(7, 7))
    );
    assert_eq!(
        calculate_card_coord_from_mouse_click(2000, 3000, 200, 100, 800, 600),
        Some(Coord(18, 37))
    );
}

#[test]
fn click_on_a_screen_smaller_than_its_padding_counts_for_nothing() {
    // No place is below or right of the upper corner, or above or left of
    // the lower one, when the click is at the upper corner of a screen of
    // size zero.
    assert!(click_is_computable(5, 5, 0, 0, 0, 0));
    assert_eq!(calculate_card_coord_from_mouse_click(5, 5, 0, 0, 0, 0), None);
    assert_eq!(locate_click(5, 5, 0, 0, 0, 0), None);
}

#[test]
fn click_that_cannot_be_computed_names_no_place() {
    assert!(click_is_computable(300, 400, 200, 100, 800, 600));
    assert!(!click_is_computable(300, 100, 200, 100, 800, 600));
    assert!(!click_is_computable(50, 400, 200, 100, 800, 600));
    assert!(!click_is_computable(300, 400, 200, 100, 800, 7));
    assert!(!click_is_computable(300, 400, 200, 100, 7, 600));
    assert!(!click_is_computable(300, 400, i32::MAX, 100, 800, 600));
    assert!(!click_is_computable(300, 400, 200, i32::MAX - 4, 800, 600));
    assert!(!click_is_computable(300, 400, 200, 100, u32::MAX, 600));
    assert!(!click_is_computable(i32::MAX, 400, 200, i32::MIN, 800, 600));
    assert_eq!(locate_click(300, 100, 200, 100, 800, 600), None);
    assert_eq!(locate_click(300, 400, 200, 100, 800, 600), Some(Coord(1, 2)));
}

fn control_two_by_two(order: Vec<usize>) -> Control {
    let mut control = Control::new(2, 2);
    control.game.add_player("Ann".to_string());
    control.game.add_player("Bob".to_string());
    control.game.reset_with_shuffle(&order);
    control
}

// On a screen at the origin, 80 high and 80 wide, a cell is 10 by 10 behind
// a padding of 5.
fn click(control: &mut Control, row: i32, col: i32) -> ClickOutcome {
    control.handle_mouse_click(5 + 10 * row + 3, 5 + 10 * col + 3, 0, 0, 80, 80)
}

#[test]
fn new_control_holds_a_new_game() {
    let control = Control::new(8, 8);
    assert_eq!(control.game.game_state(), GameState::GameOver);
    assert_eq!(control.game.deck.len(), 64);
    assert_eq!(control.game.field.height, 8);
    assert_eq!(control.game.field.width, 8);
}

#[test]
fn control_reset_starts_the_game() {
    let mut control = Control::new(8, 8);
    control.reset();
    assert_eq!(control.game.game_state(), GameState::StartGame);
    assert_eq!(control.game.round(), 1);
    for y in 0..8 {
        for x in 0..8 {
            assert!(control.game.coord_has_card(&Coord(y, x)));
        }
    }
}

#[test]
fn clicks_play_a_whole_game() {
    let mut control = control_two_by_two(vec![0, 1, 2, 3]);
    assert_eq!(click(&mut control, 0, 0), ClickOutcome::Opened(Coord(0, 0)));
    assert_eq!(control.game.game_state(), GameState::FirstCard);
    assert_eq!(click(&mut control, 0, 0), ClickOutcome::Refused);
    assert_eq!(control.game.game_state(), GameState::FirstCard);
    assert_eq!(click(&mut control, 0, 1), ClickOutcome::Opened(Coord(0, 1)));
    assert_eq!(control.game.game_state(), GameState::SecondCard);
    assert_eq!(click(&mut control, 1, 1), ClickOutcome::PairFound);
    assert_eq!(control.game.game_state(), GameState::NextUser);
    assert_eq!(control.game.players[0].collected_cards, vec![0, 1]);
    assert_eq!(click(&mut control, 1, 1), ClickOutcome::TurnPassed);
    assert_eq!(control.game.game_state(), GameState::StartSelectCards);
    assert_eq!(control.game.current_player().name, "Bob");
    assert!(!control.game.is_clicked(&Coord(0, 0)));
    assert_eq!(click(&mut control, 0, 0), ClickOutcome::Refused);
    assert_eq!(click(&mut control, 1, 0), ClickOutcome::Opened(Coord(1, 0)));
    assert_eq!(click(&mut control, 1, 1), ClickOutcome::Opened(Coord(1, 1)));
    assert_eq!(click(&mut control, 0, 0), ClickOutcome::PairFound);
    assert_eq!(click(&mut control, 0, 0), ClickOutcome::GameFinished);
    assert_eq!(control.game.game_state(), GameState::GameOver);
    assert_eq!(control.game.players[1].collected_cards, vec![2, 3]);
    assert_eq!(click(&mut control, 0, 0), ClickOutcome::Restarted);
    assert_eq!(control.game.game_state(), GameState::StartGame);
    assert_eq!(control.game.round(), 1);
    assert_eq!(control.game.current_player().name, "Ann");
    assert!(control.game.players.iter().all(|p| p.collected_cards.is_empty()));
    assert!(control.game.coord_has_card(&Coord(0, 0)));
}

#[test]
fn click_on_a_mismatch_passes_the_turn_with_the_board_unchanged() {
    let mut control = control_two_by_two(vec![0, 2, 1, 3]);
    assert_eq!(click(&mut control, 0, 0), ClickOutcome::Opened(Coord(0, 0)));
    assert_eq!(click(&mut control, 0, 1), ClickOutcome::Opened(Coord(0, 1)));
    assert_eq!(click(&mut control, 0, 0), ClickOutcome::NoPair);
    assert!(!control.game.last_guess_success());
    assert_eq!(click(&mut control, 0, 0), ClickOutcome::TurnPassed);
    assert_eq!(control.game.current_player_id, 1);
    assert_eq!(control.game.round(), 1);
    assert!(control.game.coord_has_card(&Coord(0, 0)));
    assert!(control.game.coord_has_card(&Coord(0, 1)));
    assert_eq!(click(&mut control, 0, 0), ClickOutcome::Opened(Coord(0, 0)));
    assert_eq!(click(&mut control, 1, 0), ClickOutcome::Opened(Coord(1, 0)));
    assert_eq!(click(&mut control, 0, 0), ClickOutcome::PairFound);
    assert_eq!(click(&mut control, 0, 0), ClickOutcome::TurnPassed);
    assert_eq!(control.game.current_player_id, 0);
    assert_eq!(control.game.round(), 2);
}

#[test]
fn click_off_the_board_or_off_the_screen_opens_nothing() {
    let mut control = control_two_by_two(vec![0, 1, 2, 3]);
    assert_eq!(click(&mut control, 2, 0), ClickOutcome::Refused);
    assert_eq!(click(&mut control, 0, 7), ClickOutcome::Refused);
    assert_eq!(control.handle_mouse_click(2, 30, 0, 0, 80, 80), ClickOutcome::Missed);
    assert_eq!(control.handle_mouse_click(30, 30, 0, 0, 80, 7), ClickOutcome::Missed);
    assert_eq!(control.game.game_state(), GameState::StartGame);
    assert_eq!(control.game.num_clicked, 0);
}

#[test]
fn click_in_the_setup_state_is_ignored() {
    let mut control = control_two_by_two(vec![0, 1, 2, 3]);
    control.game.state = GameState::GameSetup;
    assert_eq!(click(&mut control, 0, 0), ClickOutcome::Ignored);
    assert_eq!(control.game.game_state(), GameState::GameSetup);
    assert!(control.game.coord_has_card(&Coord(0, 0)));
}
