use memory_game::model::game::{Coord, Game, GameState, Player};

fn two_by_two(order: Vec<usize>) -> Game {
    let mut game = Game::new(2, 2);
    game.add_player("Ann".to_string());
    game.add_player("Bob".to_string());
    game.reset_with_shuffle(&order);
    game
}

fn occupied(game: &Game) -> usize {
    let mut count = 0;
    for y in 0..game.field.height {
        for x in 0..game.field.width {
            if game.coord_has_card(&Coord(y, x)) {
                count += 1;
            }
        }
    }
    count
}

fn collected(game: &Game) -> usize {
    game.players.iter().map(|p| p.collected_cards.len()).sum()
}

#[test]
fn new_game_is_over_and_has_a_sorted_deck() {
    let game = Game::new(8, 8);
    assert_eq!(game.game_state(), GameState::GameOver);
    assert!(!game.last_guess_success());
    assert_eq!(game.round(), 0);
    assert_eq!(game.deck.len(), 64);
    assert_eq!(game.deck[63].id, 63);
    assert_eq!(game.deck[63].card_type, 31);
    assert_eq!(game.deck[63].title, "31");
    assert!(game.players.is_empty());
    assert_eq!(occupied(&game), 0);
}

#[test]
fn new_player_has_collected_nothing() {
    let player = Player::new("Hugo".to_string());
    assert_eq!(player.name, "Hugo");
    assert!(player.collected_cards.is_empty());
    let copy = player.clone();
    assert_eq!(copy.name, "Hugo");
    assert!(copy.collected_cards.is_empty());
}

#[test]
fn add_player_appends_at_any_time() {
    let mut game = two_by_two(vec![0, 1, 2, 3]);
    assert!(game.open_card(&Coord(0, 0)));
    game.add_player("Cid".to_string());
    assert_eq!(game.players.len(), 3);
    assert_eq!(game.players[2].name, "Cid");
    assert!(game.players[2].collected_cards.is_empty());
    assert_eq!(game.game_state(), GameState::FirstCard);
    assert_eq!(game.current_player().name, "Ann");
}

#[test]
fn reset_starts_the_first_round() {
    let mut game = Game::new(2, 2);
    game.add_player("Ann".to_string());
    game.reset();
    assert_eq!(game.game_state(), GameState::StartGame);
    assert_eq!(game.round(), 1);
    assert_eq!(game.current_player().name, "Ann");
    assert!(!game.last_guess_success());
    assert_eq!(occupied(&game), 4);
    assert!(!game.is_clicked(&Coord(0, 0)));
}

#[test]
fn reset_twice_gives_a_full_board_and_empty_hands_both_times() {
    let mut game = two_by_two(vec![0, 1, 2, 3]);
    assert!(game.open_card(&Coord(0, 0)));
    assert!(game.open_card(&Coord(0, 1)));
    assert!(game.check_guess_current_player());
    assert_eq!(collected(&game), 2);
    for _ in 0..2 {
        game.reset();
        assert_eq!(game.game_state(), GameState::StartGame);
        assert_eq!(game.round(), 1);
        assert_eq!(occupied(&game), 4);
        assert_eq!(collected(&game), 0);
        assert_eq!(game.players.len(), 2);
        assert_eq!(game.players[0].name, "Ann");
        assert_eq!(game.players[1].name, "Bob");
        assert_eq!(game.current_player().name, "Ann");
        assert!(!game.last_guess_success());
        let mut ids: Vec<usize> = Vec::new();
        for y in 0..2 {
            for x in 0..2 {
                ids.push(game.card_at(y, x).unwrap().id);
            }
        }
        ids.sort();
        assert_eq!(ids, vec![0, 1, 2, 3]);
    }
}

#[test]
fn reset_with_shuffle_lays_the_given_order() {
    let game = two_by_two(vec![2, 0, 3, 1]);
    assert_eq!(game.card_at(0, 0).unwrap().id, 2);
    assert_eq!(game.card_at(0, 1).unwrap().id, 0);
    assert_eq!(game.card_at(1, 0).unwrap().id, 3);
    assert_eq!(game.card_at(1, 1).unwrap().id, 1);
    assert_eq!(game.card_at(0, 0).unwrap().card_type, 1);
    assert_eq!(game.card_at(0, 0).unwrap().title, "1");
}

#[test]
fn matching_pairs_clear_the_board() {
    let mut game = two_by_two(vec![0, 1, 2, 3]);
    assert!(game.open_card(&Coord(0, 0)));
    assert_eq!(game.game_state(), GameState::FirstCard);
    assert!(game.is_clicked(&Coord(0, 0)));
    assert!(!game.is_clicked(&Coord(0, 1)));
    assert!(game.open_card(&Coord(0, 1)));
    assert_eq!(game.game_state(), GameState::SecondCard);
    assert!(game.is_clicked(&Coord(0, 1)));
    assert!(game.check_guess_current_player());
    assert_eq!(game.game_state(), GameState::NextUser);
    assert!(game.last_guess_success());
    assert!(!game.coord_has_card(&Coord(0, 0)));
    assert!(!game.coord_has_card(&Coord(0, 1)));
    assert!(game.card_at(0, 0).is_none());
    assert_eq!(game.current_player().collected_cards, vec![0, 1]);
    assert_eq!(occupied(&game) + collected(&game), 4);
    assert!(!game.check_game_over());
    assert_eq!(game.game_state(), GameState::NextUser);
    game.next_player();
    assert_eq!(game.game_state(), GameState::StartSelectCards);
    assert_eq!(game.current_player().name, "Bob");
    assert!(!game.is_clicked(&Coord(0, 0)));

    assert!(game.open_card(&Coord(1, 1)));
    assert!(game.open_card(&Coord(1, 0)));
    assert!(game.check_guess_current_player());
    assert_eq!(game.current_player().collected_cards, vec![3, 2]);
    assert_eq!(occupied(&game), 0);
    assert_eq!(collected(&game), 4);
    assert!(game.check_game_over());
    assert_eq!(game.game_state(), GameState::GameOver);
    assert!(game.check_game_over());
}

#[test]
fn mismatched_pair_leaves_board_and_hands() {
    let mut game = two_by_two(vec![0, 2, 1, 3]);
    assert!(game.open_card(&Coord(0, 0)));
    assert!(game.open_card(&Coord(0, 1)));
    assert!(!game.check_guess_current_player());
    assert_eq!(game.game_state(), GameState::NextUser);
    assert!(!game.last_guess_success());
    assert!(game.coord_has_card(&Coord(0, 0)));
    assert!(game.coord_has_card(&Coord(0, 1)));
    assert_eq!(occupied(&game), 4);
    assert!(game.current_player().collected_cards.is_empty());
    assert_eq!(collected(&game), 0);
    assert!(!game.check_game_over());
}

#[test]
fn mismatch_after_a_match_clears_the_flag() {
    let mut game = Game::new(2, 3);
    game.add_player("Ann".to_string());
    game.reset_with_shuffle(&vec![0, 1, 2, 4, 3, 5]);
    assert!(game.open_card(&Coord(0, 0)));
    assert!(game.open_card(&Coord(0, 1)));
    assert!(game.check_guess_current_player());
    assert!(game.last_guess_success());
    assert!(!game.check_game_over());
    game.next_player();
    assert!(game.open_card(&Coord(0, 2)));
    assert!(game.open_card(&Coord(1, 0)));
    assert!(!game.check_guess_current_player());
    assert!(!game.last_guess_success());
    assert_eq!(game.current_player().collected_cards, vec![0, 1]);
}

#[test]
fn same_card_twice_is_refused_and_changes_nothing() {
    let mut game = two_by_two(vec![0, 1, 2, 3]);
    assert!(game.open_card(&Coord(1, 0)));
    for _ in 0..2 {
        assert!(!game.open_card(&Coord(1, 0)));
        assert_eq!(game.game_state(), GameState::FirstCard);
        assert_eq!(game.num_clicked, 1);
        assert_eq!(game.clicked_card1, Coord(1, 0));
        assert!(game.is_clicked(&Coord(1, 0)));
        assert_eq!(occupied(&game), 4);
    }
    assert!(game.open_card(&Coord(1, 1)));
    assert_eq!(game.clicked_card2, Coord(1, 1));
}

#[test]
fn third_card_is_refused() {
    let mut game = two_by_two(vec![0, 1, 2, 3]);
    assert!(game.open_card(&Coord(0, 0)));
    assert!(game.open_card(&Coord(1, 0)));
    assert!(!game.open_card(&Coord(1, 1)));
    assert!(!game.open_card(&Coord(0, 0)));
    assert_eq!(game.game_state(), GameState::SecondCard);
    assert_eq!(game.clicked_card1, Coord(0, 0));
    assert_eq!(game.clicked_card2, Coord(1, 0));
}

#[test]
fn empty_slot_cannot_be_opened() {
    let mut game = two_by_two(vec![0, 1, 2, 3]);
    assert!(game.open_card(&Coord(0, 0)));
    assert!(game.open_card(&Coord(0, 1)));
    assert!(game.check_guess_current_player());
    assert!(!game.check_game_over());
    game.next_player();
    assert!(!game.open_card(&Coord(0, 0)));
    assert_eq!(game.game_state(), GameState::StartSelectCards);
    assert!(game.open_card(&Coord(1, 0)));
    assert!(!game.open_card(&Coord(0, 1)));
    assert_eq!(game.game_state(), GameState::FirstCard);
}

#[test]
fn no_card_opens_before_the_first_reset_or_after_the_turn() {
    let mut game = Game::new(2, 2);
    assert!(!game.open_card(&Coord(0, 0)));
    assert_eq!(game.game_state(), GameState::GameOver);
    let mut game = two_by_two(vec![0, 2, 1, 3]);
    assert!(game.open_card(&Coord(0, 0)));
    assert!(game.open_card(&Coord(0, 1)));
    assert!(!game.check_guess_current_player());
    assert!(!game.open_card(&Coord(1, 0)));
    assert_eq!(game.game_state(), GameState::NextUser);
}

#[test]
fn resolving_without_two_cards_changes_nothing() {
    let mut game = two_by_two(vec![0, 1, 2, 3]);
    assert!(!game.check_guess_current_player());
    assert_eq!(game.game_state(), GameState::StartGame);
    assert!(game.open_card(&Coord(0, 0)));
    assert!(!game.check_guess_current_player());
    assert_eq!(game.game_state(), GameState::FirstCard);
    assert!(game.open_card(&Coord(0, 1)));
    assert!(game.check_guess_current_player());
    assert!(!game.check_guess_current_player());
    assert_eq!(game.game_state(), GameState::NextUser);
    assert!(game.last_guess_success());
    assert_eq!(game.current_player().collected_cards, vec![0, 1]);
    assert_eq!(occupied(&game), 2);
}

#[test]
fn check_guess_at_given_places() {
    let mut game = two_by_two(vec![0, 2, 1, 3]);
    assert!(!game.check_guess(1, &Coord(0, 0), &Coord(0, 1)));
    assert_eq!(game.game_state(), GameState::NextUser);
    assert!(!game.last_guess_success());
    assert!(game.check_guess(1, &Coord(1, 0), &Coord(0, 0)));
    assert!(game.last_guess_success());
    assert_eq!(game.players[1].collected_cards, vec![1, 0]);
    assert!(game.players[0].collected_cards.is_empty());
    assert!(!game.coord_has_card(&Coord(1, 0)));
    assert!(!game.coord_has_card(&Coord(0, 0)));
    assert!(game.coord_has_card(&Coord(0, 1)));
    assert!(game.coord_has_card(&Coord(1, 1)));
}

#[test]
fn check_guess_on_an_empty_slot_changes_nothing() {
    let mut game = two_by_two(vec![0, 1, 2, 3]);
    assert!(game.check_guess(0, &Coord(0, 0), &Coord(0, 1)));
    game.next_player();
    assert_eq!(game.game_state(), GameState::StartSelectCards);
    assert!(!game.check_guess(1, &Coord(0, 0), &Coord(1, 0)));
    assert!(!game.check_guess(1, &Coord(1, 0), &Coord(0, 1)));
    assert_eq!(game.game_state(), GameState::StartSelectCards);
    assert!(game.last_guess_success());
    assert!(game.players[1].collected_cards.is_empty());
    assert_eq!(occupied(&game), 2);
}

#[test]
fn next_player_wraps_and_counts_rounds() {
    let mut game = Game::new(2, 2);
    game.add_player("Ann".to_string());
    game.add_player("Bob".to_string());
    game.add_player("Cid".to_string());
    game.reset_with_shuffle(&vec![0, 1, 2, 3]);
    let expected = [(1, 1), (2, 1), (0, 2), (1, 2), (2, 2), (0, 3), (1, 3)];
    for (player, round) in expected {
        game.next_player();
        assert_eq!(game.current_player_id, player);
        assert_eq!(game.round(), round);
        assert_eq!(game.game_state(), GameState::StartSelectCards);
    }
}

#[test]
fn next_player_with_one_player_starts_a_round_each_time() {
    let mut game = Game::new(2, 2);
    game.add_player("Ann".to_string());
    game.reset_with_shuffle(&vec![0, 1, 2, 3]);
    game.next_player();
    assert_eq!(game.current_player_id, 0);
    assert_eq!(game.round(), 2);
    game.next_player();
    assert_eq!(game.current_player_id, 0);
    assert_eq!(game.round(), 3);
}

#[test]
fn next_player_hides_the_revealed_cards() {
    let mut game = two_by_two(vec![0, 2, 1, 3]);
    assert!(game.open_card(&Coord(0, 0)));
    assert!(game.open_card(&Coord(0, 1)));
    assert!(!game.check_guess_current_player());
    assert!(game.is_clicked(&Coord(0, 0)));
    assert!(game.is_clicked(&Coord(0, 1)));
    assert!(!game.check_game_over());
    game.next_player();
    assert!(!game.is_clicked(&Coord(0, 0)));
    assert!(!game.is_clicked(&Coord(0, 1)));
    assert_eq!(game.num_clicked, 0);
    assert!(game.open_card(&Coord(0, 0)));
}

#[test]
fn close_selected_cards_hides_them_and_keeps_the_state() {
    let mut game = two_by_two(vec![0, 1, 2, 3]);
    assert!(game.open_card(&Coord(0, 0)));
    game.close_selected_cards();
    assert!(!game.is_clicked(&Coord(0, 0)));
    assert_eq!(game.game_state(), GameState::FirstCard);
    assert_eq!(occupied(&game), 4);
}

#[test]
fn game_without_players_can_be_reset_and_advanced() {
    let mut game = Game::new(2, 2);
    game.reset();
    assert_eq!(game.game_state(), GameState::StartGame);
    assert!(!game.check_game_over());
    game.next_player();
    assert_eq!(game.current_player_id, 0);
    assert_eq!(game.round(), 2);
}

#[test]
fn game_on_an_empty_board_is_over_at_once() {
    let mut game = Game::new(0, 0);
    assert!(game.deck.is_empty());
    game.reset();
    assert_eq!(game.game_state(), GameState::StartGame);
    assert!(game.check_game_over());
    assert_eq!(game.game_state(), GameState::GameOver);
}

#[test]
fn board_of_odd_size_gets_a_deck_one_short() {
    let game = Game::new(3, 3);
    assert_eq!(game.deck.len(), 8);
}

#[test]
fn cards_on_board_and_in_hands_are_the_deck_through_a_whole_game() {
    let mut game = Game::new(4, 4);
    game.add_player("Ann".to_string());
    game.add_player("Bob".to_string());
    game.reset();
    let mut turns = 0;
    loop {
        let mut places: Vec<Coord> = Vec::new();
        for y in 0..4 {
            for x in 0..4 {
                if game.coord_has_card(&Coord(y, x)) {
                    places.push(Coord(y, x));
                }
            }
        }
        let first = places[0];
        let kind = game.card_at(first.0, first.1).unwrap().card_type;
        let second = if turns % 2 == 0 {
            places[1]
        } else {
            *places[1..].iter().find(|c| game.card_at(c.0, c.1).unwrap().card_type == kind).unwrap()
        };
        assert!(game.open_card(&first));
        assert!(game.open_card(&second));
        let same = game.card_at(second.0, second.1).unwrap().card_type == kind;
        assert_eq!(game.check_guess_current_player(), same);
        assert_eq!(game.last_guess_success(), same);
        assert_eq!(occupied(&game) + collected(&game), 16);
        turns += 1;
        assert!(turns < 100);
        if game.check_game_over() {
            break;
        }
        game.next_player();
    }
    assert_eq!(occupied(&game), 0);
    assert_eq!(collected(&game), 16);
    assert_eq!(game.game_state(), GameState::GameOver);
}

#[test]
fn coord_is_written_in_brackets() {
    assert_eq!(Coord(3, 5).to_string(), "(3, 5)");
    assert_eq!(Coord(0, 120).to_string(), "(0, 120)");
}
