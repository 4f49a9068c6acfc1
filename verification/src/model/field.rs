//! The board: a rectangle of slots, each empty or holding a card identifier.

use vstd::prelude::*;

use crate::model::deck::{CardId, Deck};
use crate::model::shuffle::{
    identity_order, is_permutation, lemma_permutation_is_rearranged_identity, shuffle_deck, Shuffle,
};

verus! {

/// What a slot of the board holds: a card's identifier, or nothing.
pub type FieldSlot = Option<CardId>;

/// One row of the board.
pub type FieldRow = Vec<FieldSlot>;

/// The board. A slot holds the identifier of a card of the deck rather than
/// the card itself, so that board and deck stay independent values.
pub struct Field {
    pub height: usize,
    pub width: usize,
    pub field: Vec<FieldRow>,
}

/// A board as a value: its size, and its slots row by row in one sequence.
pub struct FieldView {
    pub height: nat,
    pub width: nat,
    pub slots: Seq<FieldSlot>,
}

/// How many of `slots` hold a card.
pub open spec fn count_occupied(slots: Seq<FieldSlot>) -> nat
    decreases slots.len(),
{
    if slots.len() == 0 {
        0
    } else {
        count_occupied(slots.drop_last()) + if slots.last() is Some {
            1nat
        } else {
            0nat
        }
    }
}

impl FieldView {
    /// There is one slot for each pair of a row and a column.
    pub open spec fn wf(self) -> bool {
        self.slots.len() == self.height * self.width
    }

    /// Row `y` and column `x` lie on the board.
    pub open spec fn in_bounds(self, y: int, x: int) -> bool {
        0 <= y < self.height && 0 <= x < self.width
    }

    /// Where the slot of row `y` and column `x` stands in `slots`.
    pub open spec fn index_of(self, y: int, x: int) -> int {
        y * self.width + x
    }

    /// What the slot of row `y` and column `x` holds.
    pub open spec fn at(self, y: int, x: int) -> FieldSlot {
        self.slots[self.index_of(y, x)]
    }

    /// The board of the given size with every slot empty.
    pub open spec fn empty(height: nat, width: nat) -> FieldView {
        FieldView { height, width, slots: Seq::new(height * width, |k: int| None::<CardId>) }
    }

    /// This board with every slot emptied.
    pub open spec fn cleared(self) -> FieldView {
        FieldView::empty(self.height, self.width)
    }

    /// This board with the identifiers of `order` laid onto it row by row.
    pub open spec fn laid_out(self, order: Seq<CardId>) -> FieldView {
        FieldView { slots: order.map_values(|id: CardId| Some(id)), ..self }
    }

    /// This board with the slot of row `y` and column `x` emptied.
    pub open spec fn without(self, y: int, x: int) -> FieldView {
        FieldView { slots: self.slots.update(self.index_of(y, x), None), ..self }
    }

    /// No slot holds a card.
    pub open spec fn is_empty(self) -> bool {
        forall|k: int| 0 <= k < self.slots.len() ==> self.slots[k] is None
    }

    /// Every slot holds a card.
    pub open spec fn is_full(self) -> bool {
        forall|k: int| 0 <= k < self.slots.len() ==> self.slots[k] is Some
    }

    /// How many slots hold a card.
    pub open spec fn occupied(self) -> nat {
        count_occupied(self.slots)
    }

    /// The identifiers on a full board, row by row.
    pub open spec fn card_ids(self) -> Seq<CardId> {
        Seq::new(self.slots.len(), |k: int| self.slots[k].unwrap())
    }

    /// Every identifier on the board is below `n`.
    pub open spec fn ids_below(self, n: nat) -> bool {
        forall|k: int|
            0 <= k < self.slots.len() ==> (#[trigger] self.slots[k] matches Some(id) ==> id < n)
    }
}

/// A slot index below `h * w` names a row below `h` and a column below `w`.
pub proof fn lemma_slot_to_cell(k: int, h: int, w: int)
    requires
        0 <= h,
        0 <= w,
        0 <= k < h * w,
    ensures
        0 <= k / w < h,
        0 <= k % w < w,
        k == (k / w) * w + k % w,
{
    assert(w > 0) by (nonlinear_arith)
        requires
            0 <= w,
            0 <= k < h * w,
    ;
    vstd::arithmetic::div_mod::lemma_fundamental_div_mod(k, w);
    vstd::arithmetic::div_mod::lemma_mod_bound(k, w);
    vstd::arithmetic::div_mod::lemma_div_pos_is_pos(k, w);
    let q = k / w;
    let r = k % w;
    assert(w * q == q * w) by (nonlinear_arith);
    assert(q < h) by (nonlinear_arith)
        requires
            k == q * w + r,
            0 <= r,
            k < h * w,
            w > 0,
    ;
}

/// A row below `h` and a column below `w` name one slot index below
/// `h * w`, from which row and column can be read back.
pub proof fn lemma_cell_to_slot(y: int, x: int, h: int, w: int)
    requires
        0 <= y < h,
        0 <= x < w,
    ensures
        0 <= y * w + x < h * w,
        (y * w + x) / w == y,
        (y * w + x) % w == x,
{
    assert(0 <= y * w + x < h * w) by (nonlinear_arith)
        requires
            0 <= y < h,
            0 <= x < w,
    ;
    vstd::arithmetic::div_mod::lemma_fundamental_div_mod_converse(y * w + x, w, y, x);
}

/// Emptying a slot that holds a card lowers the count by one; emptying an
/// empty slot changes nothing.
pub proof fn lemma_count_after_emptying(slots: Seq<FieldSlot>, k: int)
    requires
        0 <= k < slots.len(),
    ensures
        count_occupied(slots.update(k, None)) + (if slots[k] is Some {
            1nat
        } else {
            0nat
        }) == count_occupied(slots),
    decreases slots.len(),
{
    let after = slots.update(k, None);
    if k == slots.len() - 1 {
        assert(after.drop_last() =~= slots.drop_last());
    } else {
        lemma_count_after_emptying(slots.drop_last(), k);
        assert(after.drop_last() =~= slots.drop_last().update(k, None));
    }
}

/// The count of occupied slots lies between zero and the number of slots,
/// is zero exactly when all are empty, and is the number of slots exactly
/// when all are occupied.
pub proof fn lemma_count_bounds(slots: Seq<FieldSlot>)
    ensures
        count_occupied(slots) <= slots.len(),
        count_occupied(slots) == 0 <==> (forall|k: int| 0 <= k < slots.len() ==> slots[k] is None),
        count_occupied(slots) == slots.len() <==> (forall|k: int|
            0 <= k < slots.len() ==> slots[k] is Some),
    decreases slots.len(),
{
    if slots.len() > 0 {
        let front = slots.drop_last();
        lemma_count_bounds(front);
        assert(forall|k: int| 0 <= k < front.len() ==> front[k] == slots[k]);
        if forall|k: int| 0 <= k < slots.len() ==> slots[k] is None {
            assert(forall|k: int| 0 <= k < front.len() ==> front[k] is None);
        }
        if forall|k: int| 0 <= k < slots.len() ==> slots[k] is Some {
            assert(forall|k: int| 0 <= k < front.len() ==> front[k] is Some);
        }
        if count_occupied(slots) == 0 {
            assert(forall|k: int| 0 <= k < front.len() ==> front[k] is None);
            assert forall|k: int| 0 <= k < slots.len() implies slots[k] is None by {
                if k < front.len() {
                    assert(front[k] is None);
                }
            }
        }
        if count_occupied(slots) == slots.len() {
            assert(forall|k: int| 0 <= k < front.len() ==> front[k] is Some);
            assert forall|k: int| 0 <= k < slots.len() implies slots[k] is Some by {
                if k < front.len() {
                    assert(front[k] is Some);
                }
            }
        }
    }
}

impl View for Field {
    type V = FieldView;

    open spec fn view(&self) -> FieldView {
        FieldView {
            height: self.height as nat,
            width: self.width as nat,
            slots: Seq::new(
                (self.height * self.width) as nat,
                |k: int| self.cell(k / (self.width as int), k % (self.width as int)),
            ),
        }
    }
}

impl Field {
    /// The rows are as many as `height` says, each as long as `width` says.
    pub open spec fn wf(&self) -> bool {
        &&& self.field@.len() == self.height
        &&& forall|y: int| 0 <= y < self.height ==> (#[trigger] self.field@[y])@.len() == self.width
    }

    /// What the vector of rows holds at row `y` and column `x`.
    pub open spec fn cell(&self, y: int, x: int) -> FieldSlot {
        self.field@[y]@[x]
    }

    /// The view reads the rows one after the other.
    pub proof fn lemma_view_at(&self, y: int, x: int)
        requires
            self@.in_bounds(y, x),
        ensures
            0 <= self@.index_of(y, x) < self@.slots.len(),
            self@.at(y, x) == self.cell(y, x),
    {
        lemma_cell_to_slot(y, x, self.height as int, self.width as int);
    }

    /// A board of the given size with every slot empty.
    pub fn new(height: usize, width: usize) -> (board: Field)
        ensures
            board.wf(),
            board@ == FieldView::empty(height as nat, width as nat),
    {
        let mut field: Vec<FieldRow> = Vec::with_capacity(height);
        let mut row: usize = 0;
        while row < height
            invariant
                row <= height,
                field@.len() == row,
                forall|y: int| 0 <= y < row ==> (#[trigger] field@[y])@.len() == width,
                forall|y: int, x: int|
                    0 <= y < row && 0 <= x < width ==> (#[trigger] field@[y]@[x]) is None,
            decreases height - row,
        {
            field.push(vec![None; width]);
            row += 1;
        }
        let board = Field { height, width, field };
        proof {
            assert forall|k: int| 0 <= k < board@.slots.len() implies board@.slots[k] is None by {
                lemma_slot_to_cell(k, height as int, width as int);
            }
            assert(board@.slots =~= FieldView::empty(height as nat, width as nat).slots);
        }
        board
    }

    /// What the slot of row `y` and column `x` holds.
    pub fn card_idx(&self, y: usize, x: usize) -> (slot: Option<usize>)
        requires
            self.wf(),
            y < self.height,
            x < self.width,
        ensures
            slot == self@.at(y as int, x as int),
    {
        proof {
            self.lemma_view_at(y as int, x as int);
        }
        self.field[y][x]
    }

    /// Empties every slot.
    pub fn clear_field(&mut self)
        requires
            old(self).wf(),
        ensures
            final(self).wf(),
            final(self)@ == old(self)@.cleared(),
    {
        let mut row: usize = 0;
        while row < self.height
            invariant
                self.wf(),
                self.height == old(self).height,
                self.width == old(self).width,
                row <= self.height,
                forall|y: int, x: int|
                    0 <= y < row && 0 <= x < self.width ==> (#[trigger] self.cell(y, x)) is None,
            decreases self.height - row,
        {
            let mut col: usize = 0;
            while col < self.width
                invariant
                    self.wf(),
                    self.height == old(self).height,
                    self.width == old(self).width,
                    row < self.height,
                    col <= self.width,
                    forall|y: int, x: int|
                        0 <= y < row && 0 <= x < self.width ==> (#[trigger] self.cell(y, x)) is None,
                    forall|x: int| 0 <= x < col ==> (#[trigger] self.cell(row as int, x)) is None,
                decreases self.width - col,
            {
                let ghost before = *self;
                self.field[row][col] = None;
                proof {
                    assert forall|y: int, x: int|
                        0 <= y < row && 0 <= x < self.width implies (#[trigger] self.cell(
                        y,
                        x,
                    )) is None by {
                        assert(before.cell(y, x) is None);
                    }
                    assert forall|x: int| 0 <= x < col + 1 implies (#[trigger] self.cell(
                        row as int,
                        x,
                    )) is None by {
                        if x < col {
                            assert(before.cell(row as int, x) is None);
                        }
                    }
                }
                col += 1;
            }
            row += 1;
        }
        proof {
            assert forall|k: int| 0 <= k < self@.slots.len() implies self@.slots[k] is None by {
                lemma_slot_to_cell(k, self.height as int, self.width as int);
            }
            assert(self@.slots =~= old(self)@.cleared().slots);
        }
    }

    /// Empties the slot of row `y` and column `x`.
    pub fn remove_at(&mut self, y: usize, x: usize)
        requires
            old(self).wf(),
            y < old(self).height,
            x < old(self).width,
        ensures
            final(self).wf(),
            final(self)@ == old(self)@.without(y as int, x as int),
    {
        self.field[y][x] = None;
        proof {
            let h = self.height as int;
            let w = self.width as int;
            lemma_cell_to_slot(y as int, x as int, h, w);
            assert forall|k: int| 0 <= k < self@.slots.len() implies self@.slots[k] == old(
                self,
            )@.without(y as int, x as int).slots[k] by {
                lemma_slot_to_cell(k, h, w);
            }
            assert(self@.slots =~= old(self)@.without(y as int, x as int).slots);
        }
    }

    /// Lays the identifiers of `order` onto the board row by row, whatever
    /// they are.
    pub fn place_shuffle(&mut self, order: &Shuffle)
        requires
            old(self).wf(),
            old(self).height * old(self).width == order@.len(),
        ensures
            final(self).wf(),
            final(self)@ == old(self)@.laid_out(order@),
    {
        let total = order.len();
        let mut row: usize = 0;
        let mut col: usize = 0;
        let mut k: usize = 0;
        while k < total
            invariant
                self.wf(),
                self.height == old(self).height,
                self.width == old(self).width,
                self.height * self.width == total,
                total == order@.len(),
                k <= total,
                k == row * self.width + col,
                self.width > 0 ==> col < self.width,
                forall|y: int, x: int|
                    0 <= y < self.height && 0 <= x < self.width && y * self.width + x < k ==> (
                    #[trigger] self.cell(y, x)) == Some(order@[y * self.width + x]),
            decreases total - k,
        {
            let ghost h = self.height as int;
            let ghost w = self.width as int;
            proof {
                lemma_slot_to_cell(k as int, h, w);
                vstd::arithmetic::div_mod::lemma_fundamental_div_mod_converse(
                    k as int,
                    w,
                    row as int,
                    col as int,
                );
            }
            let ghost before = *self;
            self.field[row][col] = Some(order[k]);
            proof {
                assert forall|y: int, x: int|
                    0 <= y < h && 0 <= x < w && y * w + x < k + 1 implies (#[trigger] self.cell(
                    y,
                    x,
                )) == Some(order@[y * w + x]) by {
                    lemma_cell_to_slot(y, x, h, w);
                    if y * w + x < k {
                        assert(before.cell(y, x) == Some(order@[y * w + x]));
                    }
                }
            }
            col += 1;
            if col >= self.width {
                col = 0;
                row += 1;
            }
            k += 1;
            assert(k == row * self.width + col) by (nonlinear_arith)
                requires
                    (col == 0 && k == (row - 1) * self.width + self.width) || (col > 0 && k == row
                        * self.width + col),
            ;
        }
        proof {
            let h = self.height as int;
            let w = self.width as int;
            assert forall|i: int| 0 <= i < self@.slots.len() implies self@.slots[i] == Some(
                order@[i],
            ) by {
                lemma_slot_to_cell(i, h, w);
                assert(self.cell(i / w, i % w) == Some(order@[(i / w) * w + i % w]));
            }
            assert(self@.slots =~= old(self)@.laid_out(order@).slots);
        }
    }

    /// Lays the identifiers of `deck`'s cards onto the board in a random
    /// order, one to each slot.
    pub fn place_deck(&mut self, deck: &Deck)
        requires
            old(self).wf(),
            old(self).width * old(self).height == deck@.len(),
        ensures
            final(self).wf(),
            final(self)@.height == old(self)@.height,
            final(self)@.width == old(self)@.width,
            final(self)@.is_full(),
            is_permutation(final(self)@.card_ids(), deck@.len()),
            final(self)@.card_ids().to_multiset() == identity_order(deck@.len()).to_multiset(),
            final(self)@ == old(self)@.laid_out(final(self)@.card_ids()),
    {
        assert(self.width * self.height == self.height * self.width) by (nonlinear_arith);
        let order = shuffle_deck(deck);
        self.place_shuffle(&order);
        assert(self@.card_ids() =~= order@);
        proof {
            lemma_permutation_is_rearranged_identity(order@, deck@.len());
        }
    }
}

/// A board onto which an order of identifiers was laid has its size
/// unchanged, holds a card in every slot, and holds the identifiers in that
/// order.
pub proof fn lemma_laid_out(board: FieldView, order: Seq<CardId>)
    ensures
        board.laid_out(order).height == board.height,
        board.laid_out(order).width == board.width,
        board.laid_out(order).is_full(),
        board.laid_out(order).card_ids() == order,
        board.laid_out(order).occupied() == order.len(),
{
    let after = board.laid_out(order);
    assert(after.card_ids() =~= order);
    lemma_count_bounds(after.slots);
}

} // verus!
