//! The game: board, deck, players and the state machine of a turn.
//!
//! A turn runs in four steps: `open_card` twice, `check_guess_current_player`,
//! then `check_game_over` and, unless the game is over, `next_player`.

use vstd::prelude::*;
use vstd::string::StringExecFns;

use crate::model::deck::{
    create_deck, decimal_digits, decimal_string, deck_view, is_deck, lemma_sorted_deck_pairs,
    sorted_deck, Card, CardId, CardView, Deck,
};
use crate::model::field::{lemma_slot_to_cell, Field, FieldView};
use crate::model::laws::{law_guess_checked, law_reset, law_resolved};
use crate::model::shuffle::{is_permutation, shuffle_deck, Shuffle};

verus! {

/// A player: a name, and the cards collected so far in the order of taking.
pub struct Player {
    pub name: String,
    pub collected_cards: Vec<CardId>,
}

/// A player as a value.
pub struct PlayerView {
    pub name: Seq<char>,
    pub collected_cards: Seq<CardId>,
}

impl View for Player {
    type V = PlayerView;

    open spec fn view(&self) -> PlayerView {
        PlayerView { name: self.name@, collected_cards: self.collected_cards@ }
    }
}

impl Clone for Player {
    fn clone(&self) -> (copy: Player)
        ensures
            copy@ == self@,
    {
        Player { name: self.name.clone(), collected_cards: self.collected_cards.clone() }
    }
}

impl Player {
    /// A player of that name who has collected nothing yet.
    pub fn new(name: String) -> (player: Player)
        ensures
            player@ == (PlayerView { name: name@, collected_cards: Seq::empty() }),
    {
        Player { name, collected_cards: Vec::new() }
    }
}

/// A place on the board: row, then column, both counted from zero.
#[derive(Clone, Copy, PartialEq, Eq, Debug, Structural)]
pub struct Coord(pub usize, pub usize);

impl Coord {
    /// The coordinate as text: row and column in decimal, in brackets.
    pub open spec fn text(self) -> Seq<char> {
        seq!['('] + decimal_digits(self.0 as nat) + seq![',', ' '] + decimal_digits(self.1 as nat)
            + seq![')']
    }

    /// Writes the coordinate as `(row, column)`.
    pub fn to_string(&self) -> (s: String)
        ensures
            s@ == self.text(),
    {
        proof {
            reveal_strlit("(");
            reveal_strlit(", ");
            reveal_strlit(")");
        }
        let row = decimal_string(self.0);
        let col = decimal_string(self.1);
        String::from_str("(").concat(row.as_str()).concat(", ").concat(col.as_str()).concat(")")
    }
}

/// Where the game stands.
///
/// `StartGame` and `StartSelectCards` both await the first card of a turn,
/// `FirstCard` awaits the second, `SecondCard` awaits the comparison, and
/// `NextUser` is the turn after its comparison. `GameOver` holds before the
/// first reset and after the board was emptied. `GameSetup` is for a driver
/// that lets players sign up first; the game itself never enters it.
#[derive(Clone, Copy, PartialEq, Eq, Debug, Structural)]
pub enum GameState {
    GameSetup,
    StartGame,
    StartSelectCards,
    FirstCard,
    SecondCard,
    NextUser,
    GameOver,
}

/// The game.
pub struct Game {
    pub state: GameState,
    pub last_guess_success: bool,
    pub rounds_counter: u32,
    pub field: Field,
    pub players: Vec<Player>,
    pub deck: Deck,
    pub current_player_id: usize,
    pub num_clicked: usize,
    pub clicked_card1: Coord,
    pub clicked_card2: Coord,
}

/// The game as a value.
#[verifier::ext_equal]
pub struct GameView {
    pub state: GameState,
    pub last_guess_success: bool,
    pub rounds_counter: nat,
    pub field: FieldView,
    pub players: Seq<PlayerView>,
    pub deck: Seq<CardView>,
    pub current_player_id: nat,
    pub num_clicked: nat,
    pub clicked_card1: Coord,
    pub clicked_card2: Coord,
}

/// The views of the players, in order.
pub open spec fn players_view(players: Seq<Player>) -> Seq<PlayerView> {
    players.map_values(|p: Player| p@)
}

/// How many cards the players have collected, all together.
pub open spec fn collected_total(players: Seq<PlayerView>) -> nat
    decreases players.len(),
{
    if players.len() == 0 {
        0
    } else {
        collected_total(players.drop_last()) + players.last().collected_cards.len()
    }
}

/// Every card in a hand is a card of a deck of `n` cards.
pub open spec fn hands_below(players: Seq<PlayerView>, n: nat) -> bool {
    forall|p: int, i: int|
        0 <= p < players.len() && 0 <= i < players[p].collected_cards.len() ==> (
        #[trigger] players[p].collected_cards[i]) < n
}

/// The players with nothing collected, names kept.
pub open spec fn emptied_hands(players: Seq<PlayerView>) -> Seq<PlayerView> {
    players.map_values(|p: PlayerView| PlayerView { collected_cards: Seq::empty(), ..p })
}

impl GameView {
    /// The game right after its construction for a board of that size.
    pub open spec fn fresh(height: nat, width: nat) -> GameView {
        GameView {
            state: GameState::GameOver,
            last_guess_success: false,
            rounds_counter: 0,
            field: FieldView::empty(height, width),
            players: Seq::empty(),
            deck: sorted_deck(height * width / 2),
            current_player_id: 0,
            num_clicked: 0,
            clicked_card1: Coord(0, 0),
            clicked_card2: Coord(0, 0),
        }
    }

    /// The validity of a game: the board has its slots, the deck is a valid
    /// deck, board and hands name only cards of the deck, the current player
    /// exists if any does, and the cards that the state speaks of as revealed
    /// lie on the board.
    pub open spec fn wf(self) -> bool {
        &&& self.field.wf()
        &&& is_deck(self.deck)
        &&& self.field.ids_below(self.deck.len())
        &&& hands_below(self.players, self.deck.len())
        &&& self.current_player_id < self.players.len() || (self.players.len() == 0
            && self.current_player_id == 0)
        &&& self.state == GameState::FirstCard ==> self.has_card(self.clicked_card1)
        &&& self.state == GameState::SecondCard ==> {
            &&& self.has_card(self.clicked_card1)
            &&& self.has_card(self.clicked_card2)
            &&& self.clicked_card1 != self.clicked_card2
        }
    }

    /// Every card of the deck is on the board or in a player's hand: the
    /// occupied slots and the collected cards together are as many as the
    /// deck's cards.
    pub open spec fn balanced(self) -> bool {
        self.field.occupied() + collected_total(self.players) == self.deck.len()
    }

    /// `coord` lies on the board.
    pub open spec fn on_board(self, coord: Coord) -> bool {
        self.field.in_bounds(coord.0 as int, coord.1 as int)
    }

    /// What the slot at `coord` holds.
    pub open spec fn slot(self, coord: Coord) -> Option<CardId> {
        self.field.at(coord.0 as int, coord.1 as int)
    }

    /// `coord` lies on the board and its slot holds a card.
    pub open spec fn has_card(self, coord: Coord) -> bool {
        self.on_board(coord) && self.slot(coord) is Some
    }

    /// The card on the slot at `coord`, if it holds one.
    pub open spec fn card_on(self, coord: Coord) -> Option<CardView> {
        match self.slot(coord) {
            Some(id) => Some(self.deck[id as int]),
            None => None,
        }
    }

    /// The state awaits the first card of a turn.
    pub open spec fn awaits_first(self) -> bool {
        self.state == GameState::StartGame || self.state == GameState::StartSelectCards
    }

    /// `coord` is one of the cards revealed in this turn.
    pub open spec fn is_revealed(self, coord: Coord) -> bool {
        self.num_clicked != 0 && (coord == self.clicked_card1 || (self.num_clicked > 1
            && self.clicked_card2 == coord))
    }

    /// This game with one more player, who has collected nothing.
    pub open spec fn with_player(self, name: Seq<char>) -> GameView {
        GameView {
            players: self.players.push(PlayerView { name, collected_cards: Seq::empty() }),
            ..self
        }
    }

    /// This game reset, with the identifiers of `order` laid onto the board:
    /// first round, first player, nothing revealed, nothing collected.
    pub open spec fn reset_to(self, order: Seq<CardId>) -> GameView {
        GameView {
            state: GameState::StartGame,
            last_guess_success: false,
            rounds_counter: 1,
            field: self.field.laid_out(order),
            players: emptied_hands(self.players),
            current_player_id: 0,
            num_clicked: 0,
            ..self
        }
    }

    /// Revealing `coord` is accepted: a card lies there, and the state awaits
    /// the first card, or the second and `coord` is not the first.
    pub open spec fn can_open(self, coord: Coord) -> bool {
        self.has_card(coord) && (self.awaits_first() || (self.state == GameState::FirstCard
            && coord != self.clicked_card1))
    }

    /// This game after the attempt to reveal `coord`: unchanged if it is not
    /// accepted.
    pub open spec fn opened(self, coord: Coord) -> GameView {
        if !self.can_open(coord) {
            self
        } else if self.awaits_first() {
            GameView { state: GameState::FirstCard, num_clicked: 1, clicked_card1: coord, ..self }
        } else {
            GameView { state: GameState::SecondCard, num_clicked: 2, clicked_card2: coord, ..self }
        }
    }

    /// Both slots hold a card, and the two cards carry the same pair type.
    pub open spec fn is_pair(self, coord1: Coord, coord2: Coord) -> bool {
        &&& self.slot(coord1) matches Some(id1)
        &&& self.slot(coord2) matches Some(id2)
        &&& self.deck[id1 as int].card_type == self.deck[id2 as int].card_type
    }

    /// This game after the cards at the two places were compared for
    /// `player`. If one of the slots is empty, nothing changes. Else the turn
    /// is resolved, and if the cards match they leave the board for the
    /// player's hand, the first before the second.
    pub open spec fn guess_checked(self, player: int, coord1: Coord, coord2: Coord) -> GameView {
        if self.slot(coord1) is None || self.slot(coord2) is None {
            self
        } else if self.is_pair(coord1, coord2) {
            let hand = self.players[player].collected_cards;
            GameView {
                state: GameState::NextUser,
                last_guess_success: true,
                field: self.field.without(coord1.0 as int, coord1.1 as int).without(
                    coord2.0 as int,
                    coord2.1 as int,
                ),
                players: self.players.update(
                    player,
                    PlayerView {
                        collected_cards: hand.push(self.slot(coord1).unwrap()).push(
                            self.slot(coord2).unwrap(),
                        ),
                        ..self.players[player]
                    },
                ),
                ..self
            }
        } else {
            GameView { state: GameState::NextUser, last_guess_success: false, ..self }
        }
    }

    /// The two revealed cards are due for comparison, and they match.
    pub open spec fn guess_succeeds(self) -> bool {
        self.state == GameState::SecondCard && self.is_pair(self.clicked_card1, self.clicked_card2)
    }

    /// This game after the turn was resolved: unchanged unless two cards are
    /// revealed and not yet compared.
    pub open spec fn resolved(self) -> GameView {
        if self.state == GameState::SecondCard {
            self.guess_checked(
                self.current_player_id as int,
                self.clicked_card1,
                self.clicked_card2,
            )
        } else {
            self
        }
    }

    /// The game is over: it was already, or no card is left on the board.
    pub open spec fn is_over(self) -> bool {
        self.state == GameState::GameOver || self.field.is_empty()
    }

    /// This game after the test for its end.
    pub open spec fn game_over_checked(self) -> GameView {
        if self.is_over() {
            GameView { state: GameState::GameOver, ..self }
        } else {
            GameView { state: GameState::NextUser, ..self }
        }
    }

    /// The next player's turn would start a new round.
    pub open spec fn wraps(self) -> bool {
        self.current_player_id + 1 >= self.players.len()
    }

    /// This game with nothing revealed.
    pub open spec fn selection_closed(self) -> GameView {
        GameView { num_clicked: 0, ..self }
    }

    /// This game at the start of the next player's turn.
    pub open spec fn advanced(self) -> GameView {
        GameView {
            state: GameState::StartSelectCards,
            num_clicked: 0,
            current_player_id: if self.wraps() {
                0
            } else {
                self.current_player_id + 1
            },
            rounds_counter: if self.wraps() {
                self.rounds_counter + 1
            } else {
                self.rounds_counter
            },
            ..self
        }
    }
}

impl View for Game {
    type V = GameView;

    open spec fn view(&self) -> GameView {
        GameView {
            state: self.state,
            last_guess_success: self.last_guess_success,
            rounds_counter: self.rounds_counter as nat,
            field: self.field@,
            players: players_view(self.players@),
            deck: deck_view(self.deck@),
            current_player_id: self.current_player_id as nat,
            num_clicked: self.num_clicked as nat,
            clicked_card1: self.clicked_card1,
            clicked_card2: self.clicked_card2,
        }
    }
}

impl Game {
    /// The rows of the board fit its size, and the game's value is valid.
    pub open spec fn wf(&self) -> bool {
        self.field.wf() && self@.wf()
    }

    /// A game for a board of that size, with the sorted deck of half as many
    /// pairs as the board has slots, no players, and the state `GameOver`.
    pub fn new(height: usize, width: usize) -> (game: Game)
        requires
            height * width <= usize::MAX,
        ensures
            game.wf(),
            game@ == GameView::fresh(height as nat, width as nat),
    {
        proof {
            lemma_sorted_deck_pairs((height * width / 2) as nat);
        }
        Game {
            state: GameState::GameOver,
            last_guess_success: false,
            rounds_counter: 0,
            field: Field::new(height, width),
            players: Vec::new(),
            deck: create_deck((height * width) / 2),
            current_player_id: 0,
            num_clicked: 0,
            clicked_card1: Coord(0, 0),
            clicked_card2: Coord(0, 0),
        }
    }

    /// The state.
    pub fn game_state(&self) -> (state: GameState)
        ensures
            state == self@.state,
    {
        self.state
    }

    /// Whether the last comparison found a pair.
    pub fn last_guess_success(&self) -> (success: bool)
        ensures
            success == self@.last_guess_success,
    {
        self.last_guess_success
    }

    /// The number of the round.
    pub fn round(&self) -> (round: u32)
        ensures
            round == self@.rounds_counter,
    {
        self.rounds_counter
    }

    /// Adds a player of that name at the end of the list. Players may join at
    /// any time; the running turn is not touched.
    pub fn add_player(&mut self, name: String)
        ensures
            final(self)@ == old(self)@.with_player(name@),
            final(self).field == old(self).field,
            old(self).wf() ==> final(self).wf(),
    {
        let p = Player::new(name);
        self.players.push(p);
        assert(self@.players =~= old(self)@.with_player(name@).players);
    }

    /// A copy of the player whose turn it is.
    pub fn current_player(&self) -> (player: Player)
        requires
            self@.current_player_id < self@.players.len(),
        ensures
            player@ == self@.players[self@.current_player_id as int],
    {
        self.players[self.current_player_id].clone()
    }
}

impl Game {
    /// Starts a new game with the cards laid out in the given order: the
    /// board is emptied and laid anew, every hand is emptied, and the first
    /// player begins the first round with nothing revealed.
    pub fn reset_with_shuffle(&mut self, order: &Shuffle)
        requires
            old(self).wf(),
            old(self).field.width * old(self).field.height == old(self).deck@.len(),
            is_permutation(order@, old(self).deck@.len()),
        ensures
            final(self).wf(),
            final(self)@ == old(self)@.reset_to(order@),
            final(self)@.balanced(),
    {
        proof {
            assert(self.field.width * self.field.height == self.field.height * self.field.width)
                by (nonlinear_arith);
            law_reset(self@, order@);
        }
        self.rounds_counter = 1;
        self.state = GameState::StartGame;
        self.last_guess_success = false;
        self.num_clicked = 0;
        self.field.clear_field();
        self.field.place_shuffle(order);
        self.current_player_id = 0;
        let ghost laid = *self;
        let mut i: usize = 0;
        while i < self.players.len()
            invariant
                self.state == laid.state,
                self.last_guess_success == laid.last_guess_success,
                self.rounds_counter == laid.rounds_counter,
                self.field == laid.field,
                self.deck == laid.deck,
                self.current_player_id == laid.current_player_id,
                self.num_clicked == laid.num_clicked,
                self.clicked_card1 == laid.clicked_card1,
                self.clicked_card2 == laid.clicked_card2,
                i <= self.players@.len(),
                self.players@.len() == old(self).players@.len(),
                forall|j: int|
                    0 <= j < i ==> (#[trigger] self.players@[j])@ == emptied_hands(
                        old(self)@.players,
                    )[j],
                forall|j: int|
                    i <= j < self.players@.len() ==> (#[trigger] self.players@[j])
                        == old(self).players@[j],
            decreases self.players@.len() - i,
        {
            self.players[i].collected_cards.clear();
            i += 1;
        }
        assert(self@.players =~= emptied_hands(old(self)@.players));
    }

    /// Starts a new game with the cards laid out in a random order.
    pub fn reset(&mut self)
        requires
            old(self).wf(),
            old(self).field.width * old(self).field.height == old(self).deck@.len(),
        ensures
            final(self).wf(),
            is_permutation(final(self)@.field.card_ids(), old(self)@.deck.len()),
            final(self)@ == old(self)@.reset_to(final(self)@.field.card_ids()),
            final(self)@.balanced(),
    {
        let order = shuffle_deck(&self.deck);
        self.reset_with_shuffle(&order);
        assert(self@.field.card_ids() =~= order@);
    }

    /// The card on the slot of row `y` and column `x`, if it holds one.
    pub fn card_at(&self, y: usize, x: usize) -> (card: Option<&Card>)
        requires
            self.wf(),
            y < self.field.height,
            x < self.field.width,
        ensures
            match card {
                Some(c) => self@.card_on(Coord(y, x)) == Some(c@),
                None => self@.card_on(Coord(y, x)) is None,
            },
            card matches Some(c) ==> self@.slot(Coord(y, x)) == Some(c.id),
    {
        match self.field.card_idx(y, x) {
            Some(card_idx) => {
                proof {
                    self.field.lemma_view_at(y as int, x as int);
                }
                Some(&self.deck[card_idx])
            },
            None => None,
        }
    }

    /// Whether `coord` is one of the cards revealed in this turn.
    pub fn is_clicked(&self, coord: &Coord) -> (revealed: bool)
        ensures
            revealed == self@.is_revealed(*coord),
    {
        if self.num_clicked == 0 {
            return false;
        }
        if *coord == self.clicked_card1 {
            return true;
        }
        if self.num_clicked > 1 && self.clicked_card2 == *coord {
            return true;
        }
        false
    }

    /// Whether the slot at `coord` holds a card.
    pub fn coord_has_card(&self, coord: &Coord) -> (present: bool)
        requires
            self.wf(),
            self@.on_board(*coord),
        ensures
            present == self@.has_card(*coord),
    {
        match self.card_at(coord.0, coord.1) {
            Some(_) => true,
            None => false,
        }
    }

    /// Hides the revealed cards. The state stays as it is.
    pub fn close_selected_cards(&mut self)
        ensures
            final(self)@ == old(self)@.selection_closed(),
            final(self).field == old(self).field,
            old(self).wf() ==> final(self).wf(),
    {
        self.num_clicked = 0;
    }

    /// Reveals the card at `coord` as the first or second card of the turn.
    /// Returns whether it was revealed: not where the slot is empty, where
    /// `coord` is the first card again, or where the state awaits no card.
    /// Then nothing changes.
    pub fn open_card(&mut self, coord: &Coord) -> (opened: bool)
        requires
            old(self).wf(),
            old(self)@.on_board(*coord),
        ensures
            final(self).wf(),
            opened == old(self)@.can_open(*coord),
            final(self)@ == old(self)@.opened(*coord),
            !opened ==> *final(self) == *old(self),
    {
        if !self.coord_has_card(coord) {
            return false;
        }
        match self.state {
            GameState::StartGame | GameState::StartSelectCards => {
                self.clicked_card1 = *coord;
                self.num_clicked = 1;
                self.state = GameState::FirstCard;
                true
            },
            GameState::FirstCard => {
                if *coord != self.clicked_card1 {
                    self.clicked_card2 = *coord;
                    self.num_clicked = 2;
                    self.state = GameState::SecondCard;
                    true
                } else {
                    false
                }
            },
            _ => false,
        }
    }
}

impl Game {
    /// Compares the two revealed cards for the player whose turn it is.
    /// Returns whether they are a pair. Without two revealed cards awaiting
    /// comparison it returns `false` and changes nothing.
    pub fn check_guess_current_player(&mut self) -> (found: bool)
        requires
            old(self).wf(),
            old(self)@.state == GameState::SecondCard ==> old(self)@.players.len() > 0,
        ensures
            final(self).wf(),
            found == old(self)@.guess_succeeds(),
            final(self)@ == old(self)@.resolved(),
            old(self)@.balanced() ==> final(self)@.balanced(),
    {
        proof {
            law_resolved(self@);
        }
        if self.state != GameState::SecondCard {
            return false;
        }
        let p = self.current_player_id;
        let c1 = self.clicked_card1;
        let c2 = self.clicked_card2;
        self.check_guess(p, &c1, &c2)
    }

    /// Compares the cards at two places for `player`. Returns whether both
    /// slots hold a card and the two cards are a pair. If a slot is empty,
    /// nothing changes. Else the turn counts as resolved, and a pair leaves
    /// the board for the player's hand, the first card before the second.
    pub fn check_guess(&mut self, player: usize, coord1: &Coord, coord2: &Coord) -> (found: bool)
        requires
            old(self).wf(),
            player < old(self)@.players.len(),
            old(self)@.on_board(*coord1),
            old(self)@.on_board(*coord2),
        ensures
            final(self).wf(),
            found == old(self)@.is_pair(*coord1, *coord2),
            final(self)@ == old(self)@.guess_checked(player as int, *coord1, *coord2),
            old(self)@.balanced() && *coord1 != *coord2 ==> final(self)@.balanced(),
    {
        proof {
            law_guess_checked(self@, player as int, *coord1, *coord2);
        }
        let slot1 = self.field.card_idx(coord1.0, coord1.1);
        let slot2 = self.field.card_idx(coord2.0, coord2.1);
        let (card_id1, card_id2) = match (slot1, slot2) {
            (Some(id1), Some(id2)) => (id1, id2),
            _ => {
                return false;
            },
        };
        proof {
            self.field.lemma_view_at(coord1.0 as int, coord1.1 as int);
            self.field.lemma_view_at(coord2.0 as int, coord2.1 as int);
        }
        self.state = GameState::NextUser;
        if self.deck[card_id1].card_type == self.deck[card_id2].card_type {
            self.players[player].collected_cards.push(card_id1);
            self.players[player].collected_cards.push(card_id2);
            self.field.remove_at(coord1.0, coord1.1);
            self.field.remove_at(coord2.0, coord2.1);
            self.last_guess_success = true;
            assert(self@.players =~= old(self)@.guess_checked(
                player as int,
                *coord1,
                *coord2,
            ).players);
            return true;
        }
        self.last_guess_success = false;
        false
    }

    /// Tests whether the game is over: it was already, or the board is
    /// empty. If so the state becomes `GameOver`; else the turn awaits the
    /// next player.
    pub fn check_game_over(&mut self) -> (over: bool)
        requires
            old(self).wf(),
        ensures
            final(self).wf(),
            over == old(self)@.is_over(),
            final(self)@ == old(self)@.game_over_checked(),
            final(self).field == old(self).field,
    {
        if self.state == GameState::GameOver {
            return true;
        }
        let mut row: usize = 0;
        while row < self.field.height
            invariant
                *self == *old(self),
                self.wf(),
                self.state != GameState::GameOver,
                row <= self.field.height,
                forall|y: int, x: int|
                    0 <= y < row && 0 <= x < self.field.width ==> (#[trigger] self.field.cell(y, x))
                        is None,
            decreases self.field.height - row,
        {
            let mut col: usize = 0;
            while col < self.field.width
                invariant
                    *self == *old(self),
                    self.wf(),
                    self.state != GameState::GameOver,
                    row < self.field.height,
                    col <= self.field.width,
                    forall|y: int, x: int|
                        0 <= y < row && 0 <= x < self.field.width ==> (#[trigger] self.field.cell(
                            y,
                            x,
                        )) is None,
                    forall|x: int| 0 <= x < col ==> (#[trigger] self.field.cell(row as int, x)) is None,
                decreases self.field.width - col,
            {
                if self.field.card_idx(row, col).is_some() {
                    proof {
                        self.field.lemma_view_at(row as int, col as int);
                    }
                    self.state = GameState::NextUser;
                    return false;
                }
                proof {
                    self.field.lemma_view_at(row as int, col as int);
                }
                col += 1;
            }
            row += 1;
        }
        proof {
            assert forall|k: int| 0 <= k < self@.field.slots.len() implies self@.field.slots[k] is None by {
                lemma_slot_to_cell(k, self.field.height as int, self.field.width as int);
            }
        }
        self.state = GameState::GameOver;
        true
    }

    /// Passes the turn to the next player: the revealed cards are hidden,
    /// and after the last player the first is next and a new round begins.
    pub fn next_player(&mut self)
        requires
            old(self).wf(),
            old(self)@.wraps() ==> old(self)@.rounds_counter < u32::MAX,
        ensures
            final(self).wf(),
            final(self)@ == old(self)@.advanced(),
            final(self).field == old(self).field,
    {
        let count = self.players.len();
        assert(self@.players.len() == count);
        self.state = GameState::StartSelectCards;
        self.num_clicked = 0;
        self.current_player_id += 1;
        if self.current_player_id >= count {
            self.current_player_id = 0;
            self.rounds_counter += 1;
        }
    }
}

} // verus!
