//! What holds of the game's transitions: validity is kept, no card is lost
//! or doubled, and the turn protocol behaves as the rules say.

use vstd::prelude::*;

use crate::model::deck::{lemma_sorted_deck_pairs, CardId};
use crate::model::field::{
    lemma_cell_to_slot, lemma_count_after_emptying, lemma_count_bounds, lemma_laid_out,
};
use crate::model::game::{collected_total, emptied_hands, Coord, GameState, GameView, PlayerView};
use crate::model::shuffle::is_permutation;

verus! {

/// Replacing one player's hand changes the total by the difference of the
/// two hands' sizes.
pub proof fn lemma_total_after_update(players: Seq<PlayerView>, p: int, player: PlayerView)
    requires
        0 <= p < players.len(),
    ensures
        collected_total(players.update(p, player)) + players[p].collected_cards.len()
            == collected_total(players) + player.collected_cards.len(),
    decreases players.len(),
{
    let after = players.update(p, player);
    if p == players.len() - 1 {
        assert(after.drop_last() =~= players.drop_last());
    } else {
        lemma_total_after_update(players.drop_last(), p, player);
        assert(after.drop_last() =~= players.drop_last().update(p, player));
    }
}

/// Players whose hands were emptied have collected nothing.
pub proof fn lemma_total_of_emptied(players: Seq<PlayerView>)
    ensures
        collected_total(emptied_hands(players)) == 0,
    decreases players.len(),
{
    if players.len() > 0 {
        lemma_total_of_emptied(players.drop_last());
        assert(emptied_hands(players).drop_last() =~= emptied_hands(players.drop_last()));
    }
}

/// A player who joins with an empty hand leaves the total as it was.
pub proof fn lemma_total_with_newcomer(players: Seq<PlayerView>, name: Seq<char>)
    ensures
        collected_total(players.push(PlayerView { name, collected_cards: Seq::empty() }))
            == collected_total(players),
{
    let newcomer = PlayerView { name, collected_cards: Seq::empty() };
    assert(players.push(newcomer).drop_last() =~= players);
}

/// A game right after its construction is valid, and its board is empty.
pub proof fn law_fresh(height: nat, width: nat)
    ensures
        GameView::fresh(height, width).wf(),
        GameView::fresh(height, width).field.is_empty(),
        GameView::fresh(height, width).state == GameState::GameOver,
{
    let g = GameView::fresh(height, width);
    lemma_sorted_deck_pairs(height * width / 2);
}

/// A player may join at any time: the game stays valid, and no card is lost
/// or doubled.
pub proof fn law_with_player(g: GameView, name: Seq<char>)
    requires
        g.wf(),
    ensures
        g.with_player(name).wf(),
        g.balanced() ==> g.with_player(name).balanced(),
{
    lemma_total_with_newcomer(g.players, name);
}

/// A reset from any valid game whose deck fills the board gives a valid game
/// in the first round, at the first player, with the board full, every hand
/// empty and nothing revealed, and with every card of the deck accounted for.
pub proof fn law_reset(g: GameView, order: Seq<CardId>)
    requires
        g.wf(),
        g.field.height * g.field.width == g.deck.len(),
        is_permutation(order, g.deck.len()),
    ensures
        g.reset_to(order).wf(),
        g.reset_to(order).balanced(),
        g.reset_to(order).field.is_full(),
        g.reset_to(order).field.card_ids() == order,
        g.reset_to(order).players.len() == g.players.len(),
        forall|i: int|
            0 <= i < g.players.len() ==> {
                &&& (#[trigger] g.reset_to(order).players[i]).name == g.players[i].name
                &&& g.reset_to(order).players[i].collected_cards.len() == 0
            },
        g.reset_to(order).awaits_first(),
        g.reset_to(order).rounds_counter == 1,
        g.reset_to(order).current_player_id == 0,
        g.reset_to(order).num_clicked == 0,
{
    let r = g.reset_to(order);
    lemma_laid_out(g.field, order);
    lemma_total_of_emptied(g.players);
    assert(r.field.ids_below(r.deck.len())) by {
        assert forall|k: int| 0 <= k < r.field.slots.len() implies (
        #[trigger] r.field.slots[k] matches Some(id) ==> id < r.deck.len()) by {
            assert(r.field.slots[k] == Some(order[k]));
        }
    }
}

/// Resetting twice in a row is allowed, and the second reset gives what it
/// would have given without the first.
pub proof fn law_reset_twice(g: GameView, first: Seq<CardId>, second: Seq<CardId>)
    requires
        g.wf(),
        g.field.height * g.field.width == g.deck.len(),
        is_permutation(first, g.deck.len()),
        is_permutation(second, g.deck.len()),
    ensures
        g.reset_to(first).wf(),
        g.reset_to(first).field.height * g.reset_to(first).field.width == g.reset_to(
            first,
        ).deck.len(),
        g.reset_to(first).reset_to(second) == g.reset_to(second),
{
    law_reset(g, first);
    let once = g.reset_to(first);
    assert(emptied_hands(once.players) =~= emptied_hands(g.players));
    assert(once.reset_to(second) =~= g.reset_to(second));
}

/// Revealing a card keeps the game valid and moves no card. Where the
/// attempt is not accepted, the game is as it was.
pub proof fn law_opened(g: GameView, coord: Coord)
    requires
        g.wf(),
    ensures
        g.opened(coord).wf(),
        g.opened(coord).field == g.field,
        g.opened(coord).players == g.players,
        g.balanced() ==> g.opened(coord).balanced(),
        !g.can_open(coord) ==> g.opened(coord) == g,
        g.can_open(coord) && g.awaits_first() ==> g.opened(coord).state == GameState::FirstCard,
        g.can_open(coord) && !g.awaits_first() ==> g.opened(coord).state == GameState::SecondCard,
        g.can_open(coord) ==> g.opened(coord).is_revealed(coord),
{
}

/// Once a card is revealed as the first of a turn, revealing the same place
/// again is refused and leaves the game as it is, however often it is tried.
pub proof fn law_same_card_twice(g: GameView, coord: Coord)
    requires
        g.wf(),
        g.awaits_first(),
        g.has_card(coord),
    ensures
        g.can_open(coord),
        !g.opened(coord).can_open(coord),
        g.opened(coord).opened(coord) == g.opened(coord),
        g.opened(coord).opened(coord).opened(coord) == g.opened(coord),
{
}

/// While two cards are revealed and not yet compared, no further card can
/// be revealed.
pub proof fn law_third_card_refused(g: GameView, coord: Coord)
    requires
        g.state == GameState::SecondCard,
    ensures
        !g.can_open(coord),
        g.opened(coord) == g,
{
}

/// Comparing the cards at two places keeps the game valid. Where the two
/// places differ, no card is lost or doubled.
pub proof fn law_guess_checked(g: GameView, player: int, coord1: Coord, coord2: Coord)
    requires
        g.wf(),
        0 <= player < g.players.len(),
        g.on_board(coord1),
        g.on_board(coord2),
    ensures
        g.guess_checked(player, coord1, coord2).wf(),
        g.balanced() && coord1 != coord2 ==> g.guess_checked(player, coord1, coord2).balanced(),
{
    let after = g.guess_checked(player, coord1, coord2);
    let h = g.field.height as int;
    let w = g.field.width as int;
    let k1 = g.field.index_of(coord1.0 as int, coord1.1 as int);
    let k2 = g.field.index_of(coord2.0 as int, coord2.1 as int);
    lemma_cell_to_slot(coord1.0 as int, coord1.1 as int, h, w);
    lemma_cell_to_slot(coord2.0 as int, coord2.1 as int, h, w);
    if g.slot(coord1) is Some && g.slot(coord2) is Some && g.is_pair(coord1, coord2) {
        let once = g.field.slots.update(k1, None);
        assert(after.field.slots == once.update(k2, None));
        assert(after.field.ids_below(after.deck.len())) by {
            assert forall|k: int| 0 <= k < after.field.slots.len() implies (
            #[trigger] after.field.slots[k] matches Some(id) ==> id < after.deck.len()) by {
                if after.field.slots[k] is Some {
                    assert(after.field.slots[k] == g.field.slots[k]);
                }
            }
        }
        if g.balanced() && coord1 != coord2 {
            assert(k1 != k2);
            lemma_count_after_emptying(g.field.slots, k1);
            lemma_count_after_emptying(once, k2);
            lemma_total_after_update(g.players, player, after.players[player]);
        }
    }
}

/// Resolving a turn keeps the game valid and loses or doubles no card.
/// Without two revealed cards awaiting comparison it changes nothing.
/// With them, the turn counts as resolved; a pair leaves the board for the
/// hand of the player whose turn it is, first card first, and anything else
/// leaves board and hands as they were.
pub proof fn law_resolved(g: GameView)
    requires
        g.wf(),
        g.state == GameState::SecondCard ==> g.players.len() > 0,
    ensures
        g.resolved().wf(),
        g.balanced() ==> g.resolved().balanced(),
        g.state != GameState::SecondCard ==> g.resolved() == g,
        g.state == GameState::SecondCard ==> {
            &&& g.resolved().state == GameState::NextUser
            &&& g.resolved().last_guess_success == g.guess_succeeds()
        },
        g.guess_succeeds() ==> {
            &&& !g.resolved().has_card(g.clicked_card1)
            &&& !g.resolved().has_card(g.clicked_card2)
            &&& g.resolved().field.occupied() + 2 == g.field.occupied()
            &&& g.resolved().players[g.current_player_id as int].collected_cards
                == g.players[g.current_player_id as int].collected_cards.push(
                g.slot(g.clicked_card1).unwrap(),
            ).push(g.slot(g.clicked_card2).unwrap())
        },
        !g.guess_succeeds() ==> {
            &&& g.resolved().field == g.field
            &&& g.resolved().players == g.players
        },
{
    if g.state == GameState::SecondCard {
        let c1 = g.clicked_card1;
        let c2 = g.clicked_card2;
        law_guess_checked(g, g.current_player_id as int, c1, c2);
        if g.guess_succeeds() {
            let h = g.field.height as int;
            let w = g.field.width as int;
            let k1 = g.field.index_of(c1.0 as int, c1.1 as int);
            let k2 = g.field.index_of(c2.0 as int, c2.1 as int);
            lemma_cell_to_slot(c1.0 as int, c1.1 as int, h, w);
            lemma_cell_to_slot(c2.0 as int, c2.1 as int, h, w);
            assert(k1 != k2);
            let once = g.field.slots.update(k1, None);
            assert(g.resolved().field.slots == once.update(k2, None));
            lemma_count_after_emptying(g.field.slots, k1);
            lemma_count_after_emptying(once, k2);
        }
    }
}

/// The test for the end of the game keeps the game valid and moves no card.
/// It finds the game over exactly when it was over already or the board is
/// empty; else the turn awaits the next player.
pub proof fn law_game_over_checked(g: GameView)
    requires
        g.wf(),
    ensures
        g.game_over_checked().wf(),
        g.game_over_checked().field == g.field,
        g.game_over_checked().players == g.players,
        g.balanced() ==> g.game_over_checked().balanced(),
        g.is_over() ==> g.game_over_checked().state == GameState::GameOver,
        !g.is_over() ==> g.game_over_checked().state == GameState::NextUser,
        g.game_over_checked().game_over_checked() == g.game_over_checked(),
{
}

/// While every card is accounted for, the board is empty exactly when the
/// players hold the whole deck.
pub proof fn law_empty_board(g: GameView)
    requires
        g.balanced(),
    ensures
        g.field.is_empty() <==> collected_total(g.players) == g.deck.len(),
        g.field.is_empty() <==> g.field.occupied() == 0,
{
    lemma_count_bounds(g.field.slots);
}

/// Passing the turn on keeps the game valid, moves no card, hides the
/// revealed cards and awaits the next player's first card. The player index
/// advances by one modulo the number of players, and the round counter goes
/// up by one exactly when the index returns to zero.
pub proof fn law_advanced(g: GameView)
    requires
        g.wf(),
    ensures
        g.advanced().wf(),
        g.advanced().field == g.field,
        g.advanced().players == g.players,
        g.balanced() ==> g.advanced().balanced(),
        g.advanced().awaits_first(),
        g.advanced().num_clicked == 0,
        g.players.len() > 0 ==> g.advanced().current_player_id == (g.current_player_id + 1)
            % g.players.len(),
        g.players.len() == 0 ==> g.advanced().current_player_id == 0,
        g.advanced().current_player_id == 0 ==> g.advanced().rounds_counter == g.rounds_counter + 1,
        g.advanced().current_player_id != 0 ==> g.advanced().rounds_counter == g.rounds_counter,
{
    let n = g.players.len() as int;
    if n > 0 {
        let c = g.current_player_id as int;
        if c + 1 >= n {
            assert(c + 1 == n);
            vstd::arithmetic::div_mod::lemma_mod_self_0(n);
        } else {
            vstd::arithmetic::div_mod::lemma_small_mod((c + 1) as nat, n as nat);
        }
    }
}

/// Hiding the revealed cards keeps the game valid and moves no card.
pub proof fn law_selection_closed(g: GameView, coord: Coord)
    requires
        g.wf(),
    ensures
        g.selection_closed().wf(),
        g.balanced() ==> g.selection_closed().balanced(),
        !g.selection_closed().is_revealed(coord),
{
}

} // verus!
