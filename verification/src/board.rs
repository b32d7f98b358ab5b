//! The 10x40 playing field.
use vstd::prelude::*;

use crate::active::ActivePiece;
use crate::piece::{Tetromino, lemma_shape_in_box};

verus! {

broadcast use vstd::array::group_array_axioms;

/// Field width (columns).
pub const FIELD_WIDTH: usize = 10;

/// Field height (rows): the lower 20 rows are visible, the upper 20 are buffer.
pub const FIELD_HEIGHT: usize = 40;

/// Height of the visible area (rows).
pub const VISIBLE_HEIGHT: usize = 20;

/// Whether `(x, y)` lies inside the 10x40 field.
pub open spec fn in_field(x: int, y: int) -> bool {
    0 <= x < 10 && 0 <= y < 40
}

/// A row in which all ten cells are filled.
pub open spec fn row_full(row: Seq<Option<Tetromino>>) -> bool {
    forall|i: int| 0 <= i < row.len() ==> (#[trigger] row[i]) is Some
}

/// A row that is not full survives a line clear.
pub open spec fn row_kept(row: Seq<Option<Tetromino>>) -> bool {
    !row_full(row)
}

/// A row of ten empty cells.
pub open spec fn empty_row() -> Seq<Option<Tetromino>> {
    Seq::new(10, |i: int| None)
}

/// The rows left by a line clear: the non-full rows in order, then empty
/// rows on top so that there are again 40 rows.
pub open spec fn cleared_rows(rows: Seq<Seq<Option<Tetromino>>>) -> Seq<Seq<Option<Tetromino>>> {
    let kept = rows.filter(|r: Seq<Option<Tetromino>>| row_kept(r));
    kept + Seq::new((rows.len() - kept.len()) as nat, |i: int| empty_row())
}

/// Number of full rows among `rows`.
pub open spec fn full_row_count(rows: Seq<Seq<Option<Tetromino>>>) -> int {
    rows.len() - rows.filter(|r: Seq<Option<Tetromino>>| row_kept(r)).len()
}

/// The 40 rows (10 cells each) of a field.
pub open spec fn well_shaped(rows: Seq<Seq<Option<Tetromino>>>) -> bool {
    &&& rows.len() == 40
    &&& forall|y: int| 0 <= y < 40 ==> (#[trigger] rows[y]).len() == 10
}

/// Content of cell `(x, y)` of `rows`; `None` outside the field.
pub open spec fn cell_in(rows: Seq<Seq<Option<Tetromino>>>, x: int, y: int) -> Option<Tetromino> {
    if in_field(x, y) {
        rows[y][x]
    } else {
        None
    }
}

/// Whether `(x, y)` blocks a piece: outside the field (walls, floor,
/// ceiling) counts as occupied.
pub open spec fn occupied_in(rows: Seq<Seq<Option<Tetromino>>>, x: int, y: int) -> bool {
    !in_field(x, y) || cell_in(rows, x, y) is Some
}

/// All four cells of `piece` are free.
pub open spec fn fits_in(rows: Seq<Seq<Option<Tetromino>>>, piece: ActivePiece) -> bool {
    forall|i: int| 0 <= i < 4 ==> !#[trigger] occupied_in(rows, piece.cell_x(i), piece.cell_y(i))
}

/// `rows` with cell `(x, y)` set to `c`; unchanged when `(x, y)` is outside.
pub open spec fn with_cell(rows: Seq<Seq<Option<Tetromino>>>, x: int, y: int, c: Option<Tetromino>) -> Seq<
    Seq<Option<Tetromino>>,
> {
    if in_field(x, y) {
        rows.update(y, rows[y].update(x, c))
    } else {
        rows
    }
}

/// `rows` with the cells of `piece` inside the field set to its kind.
pub open spec fn with_piece(rows: Seq<Seq<Option<Tetromino>>>, piece: ActivePiece) -> Seq<Seq<Option<Tetromino>>> {
    Seq::new(
        40,
        |y: int|
            Seq::new(
                10,
                |x: int|
                    if piece.covers(x, y) {
                        Some(piece.kind)
                    } else {
                        rows[y][x]
                    },
            ),
    )
}

/// No cell holds a block.
pub open spec fn no_blocks(rows: Seq<Seq<Option<Tetromino>>>) -> bool {
    forall|x: int, y: int| in_field(x, y) ==> (#[trigger] rows[y][x]) is None
}

/// The empty field.
pub open spec fn empty_rows() -> Seq<Seq<Option<Tetromino>>> {
    Seq::new(40, |y: int| empty_row())
}

/// The number of full rows lies between zero and the number of rows.
pub proof fn lemma_full_row_count_bounds(rows: Seq<Seq<Option<Tetromino>>>)
    ensures
        0 <= full_row_count(rows) <= rows.len(),
{
    rows.lemma_filter_len(|r: Seq<Option<Tetromino>>| row_kept(r));
}

/// Reading a cell gives back what was last written to it; writing one cell
/// leaves every other cell as it was; writing outside the field changes
/// nothing.
pub proof fn lemma_set_then_get(rows: Seq<Seq<Option<Tetromino>>>, x: int, y: int, c: Option<Tetromino>, x2: int, y2: int)
    requires
        well_shaped(rows),
    ensures
        in_field(x, y) ==> cell_in(with_cell(rows, x, y, c), x, y) == c,
        (x2, y2) != (x, y) ==> cell_in(with_cell(rows, x, y, c), x2, y2) == cell_in(rows, x2, y2),
        !in_field(x, y) ==> with_cell(rows, x, y, c) == rows,
{
}

/// A row of empty cells is never full.
proof fn lemma_empty_row_kept()
    ensures
        row_kept(empty_row()),
{
    assert(empty_row()[0] is None);
}

/// Filtering rows that all survive a clear keeps them all.
proof fn lemma_filter_all_kept(rows: Seq<Seq<Option<Tetromino>>>)
    requires
        forall|i: int| 0 <= i < rows.len() ==> row_kept(#[trigger] rows[i]),
    ensures
        rows.filter(|r: Seq<Option<Tetromino>>| row_kept(r)) == rows,
    decreases rows.len(),
{
    reveal_with_fuel(Seq::<_>::filter, 1);
    if rows.len() > 0 {
        let init = rows.drop_last();
        assert forall|i: int| 0 <= i < init.len() implies row_kept(#[trigger] init[i]) by {
            assert(init[i] == rows[i]);
        }
        lemma_filter_all_kept(init);
        assert(row_kept(rows.last()));
        assert(init.push(rows.last()) =~= rows);
    }
}

/// After a line clear no full row is left, so clearing again removes
/// nothing and changes nothing.
pub proof fn lemma_clear_leaves_no_full_rows(rows: Seq<Seq<Option<Tetromino>>>)
    ensures
        full_row_count(cleared_rows(rows)) == 0,
        cleared_rows(cleared_rows(rows)) == cleared_rows(rows),
{
    let kept = |r: Seq<Option<Tetromino>>| row_kept(r);
    let kept_rows = rows.filter(kept);
    let fill = Seq::new((rows.len() - kept_rows.len()) as nat, |i: int| empty_row());
    let cleared = cleared_rows(rows);
    assert(cleared == kept_rows + fill);
    assert forall|i: int| 0 <= i < kept_rows.len() implies row_kept(#[trigger] kept_rows[i]) by {
        rows.lemma_filter_pred(kept, i);
    }
    lemma_empty_row_kept();
    assert forall|i: int| 0 <= i < fill.len() implies row_kept(#[trigger] fill[i]) by {}
    lemma_filter_all_kept(kept_rows);
    lemma_filter_all_kept(fill);
    Seq::filter_distributes_over_add(kept_rows, fill, kept);
    assert(cleared.filter(kept) == cleared);
    assert(cleared_rows(cleared) =~= cleared);
}

/// Locking writes the piece's kind into each of its cells inside the field
/// and leaves every other cell alone; a piece inside the field no longer
/// fits where it was locked.
pub proof fn lemma_placed_cells_hold_kind(rows: Seq<Seq<Option<Tetromino>>>, piece: ActivePiece, x: int, y: int)
    requires
        well_shaped(rows),
    ensures
        in_field(x, y) && piece.covers(x, y) ==> cell_in(with_piece(rows, piece), x, y) == Some(piece.kind),
        !piece.covers(x, y) ==> cell_in(with_piece(rows, piece), x, y) == cell_in(rows, x, y),
        !fits_in(with_piece(rows, piece), piece),
{
    let placed = with_piece(rows, piece);
    if in_field(piece.cell_x(0), piece.cell_y(0)) {
        assert(piece.covers(piece.cell_x(0), piece.cell_y(0)));
        assert(occupied_in(placed, piece.cell_x(0), piece.cell_y(0)));
    } else {
        assert(occupied_in(placed, piece.cell_x(0), piece.cell_y(0)));
    }
}

/// The 10x40 field. Each cell is empty (`None`) or holds the kind of a
/// locked piece (`Some`).
#[derive(Debug, Clone, Copy, PartialEq, Eq)]
pub struct Board {
    cells: [[Option<Tetromino>; 10]; 40],
}

impl View for Board {
    type V = Seq<Seq<Option<Tetromino>>>;

    /// The field as 40 rows (bottom row first) of 10 cells (left first).
    open spec fn view(&self) -> Seq<Seq<Option<Tetromino>>> {
        Seq::new(40, |y: int| Seq::new(10, |x: int| self.cell(x, y)))
    }
}

impl Board {
    /// Content of the cell `(x, y)`; `None` outside the field.
    pub closed spec fn cell(self, x: int, y: int) -> Option<Tetromino> {
        if in_field(x, y) {
            self.cells@[y]@[x]
        } else {
            None
        }
    }

    /// Whether `(x, y)` blocks a piece (outside the field counts as occupied).
    pub open spec fn occupied(self, x: int, y: int) -> bool {
        occupied_in(self@, x, y)
    }

    /// All four cells of `piece` are free.
    pub open spec fn piece_fits(self, piece: ActivePiece) -> bool {
        fits_in(self@, piece)
    }

    /// The view has 40 rows of 10 cells, and its cells are the board's.
    pub proof fn lemma_view(self)
        ensures
            well_shaped(self@),
            forall|x: int, y: int| in_field(x, y) ==> #[trigger] self@[y][x] == self.cell(x, y),
            forall|x: int, y: int| #[trigger] cell_in(self@, x, y) == self.cell(x, y),
    {
        assert forall|x: int, y: int| #[trigger] cell_in(self@, x, y) == self.cell(x, y) by {
            if in_field(x, y) {
                assert(self@[y][x] == self.cell(x, y));
            }
        }
    }

    /// A board whose cells match `rows` has `rows` as its view.
    proof fn lemma_view_is(self, rows: Seq<Seq<Option<Tetromino>>>)
        requires
            well_shaped(rows),
            forall|x: int, y: int| in_field(x, y) ==> #[trigger] self.cell(x, y) == rows[y][x],
        ensures
            self@ == rows,
    {
        assert forall|y: int| 0 <= y < 40 implies #[trigger] self@[y] == rows[y] by {
            assert forall|x: int| 0 <= x < 10 implies #[trigger] self@[y][x] == rows[y][x] by {
                assert(self.cell(x, y) == rows[y][x]);
            }
            assert(self@[y] =~= rows[y]);
        }
        assert(self@ =~= rows);
    }

    /// Creates an empty field.
    pub fn new() -> (r: Board)
        ensures
            r@ == empty_rows(),
    {
        let blank: [Option<Tetromino>; 10] = [None; 10];
        let r = Board { cells: [blank; 40] };
        proof {
            assert forall|i: int| 0 <= i < 10 implies blank@[i] is None by {}
            assert forall|j: int| 0 <= j < 40 implies r.cells@[j] == blank by {}
            assert forall|x: int, y: int| in_field(x, y) implies #[trigger] r.cell(x, y) is None by {
                assert(r.cells@[y] == blank);
            }
            r.lemma_view_is(empty_rows());
        }
        r
    }

    /// Array indices `(row, col)` of `(x, y)` if it lies inside the field.
    fn index(x: i8, y: i8) -> (r: Option<(usize, usize)>)
        ensures
            r == (if in_field(x as int, y as int) {
                Some((y as usize, x as usize))
            } else {
                None
            }),
    {
        if 0 <= x && x < 10 && 0 <= y && y < 40 {
            Some((y as usize, x as usize))
        } else {
            None
        }
    }

    /// Content of a cell. Outside the field this is `None` (use
    /// [`Self::is_occupied`] for collision checks).
    pub fn get(&self, x: i8, y: i8) -> (r: Option<Tetromino>)
        ensures
            r == cell_in(self@, x as int, y as int),
    {
        proof {
            self.lemma_view();
        }
        match Self::index(x, y) {
            Some((row, col)) => self.cells[row][col],
            None => None,
        }
    }

    /// Overwrites a cell. Writes outside the field do nothing.
    pub fn set(&mut self, x: i8, y: i8, cell: Option<Tetromino>)
        ensures
            final(self)@ == with_cell(old(self)@, x as int, y as int, cell),
            forall|cx: int, cy: int|
                #[trigger] final(self).cell(cx, cy) == if cx == x && cy == y && in_field(cx, cy) {
                    cell
                } else {
                    old(self).cell(cx, cy)
                },
    {
        if let Some((row, col)) = Self::index(x, y) {
            let mut r = self.cells[row];
            r[col] = cell;
            self.cells[row] = r;
        }
        proof {
            old(self).lemma_view();
            let target = with_cell(old(self)@, x as int, y as int, cell);
            assert forall|cx: int, cy: int| in_field(cx, cy) implies #[trigger] self.cell(cx, cy) == target[cy][cx] by {
                assert(old(self)@[cy][cx] == old(self).cell(cx, cy));
            }
            self.lemma_view_is(target);
        }
    }

    /// Whether a cell is occupied. Outside the field (walls, floor,
    /// ceiling) counts as occupied.
    pub fn is_occupied(&self, x: i8, y: i8) -> (r: bool)
        ensures
            r == self.occupied(x as int, y as int),
    {
        proof {
            self.lemma_view();
        }
        match Self::index(x, y) {
            Some((row, col)) => self.cells[row][col].is_some(),
            None => true,
        }
    }

    /// `true` when all four cells of `piece` are free.
    pub fn fits(&self, piece: &ActivePiece) -> (r: bool)
        requires
            piece.cells_in_range(),
        ensures
            r == self.piece_fits(*piece),
    {
        let c = piece.cells();
        let mut i: usize = 0;
        while i < 4
            invariant
                0 <= i <= 4,
                c@.len() == 4,
                forall|k: int| 0 <= k < 4 ==> c@[k].0 == piece.cell_x(k) && c@[k].1 == piece.cell_y(k),
                forall|k: int| 0 <= k < i ==> !#[trigger] occupied_in(self@, piece.cell_x(k), piece.cell_y(k)),
            decreases 4 - i,
        {
            let (x, y) = c[i];
            if self.is_occupied(x, y) {
                assert(self.occupied(piece.cell_x(i as int), piece.cell_y(i as int)));
                return false;
            }
            i = i + 1;
        }
        true
    }

    /// Writes the piece's kind into its four cells (locks it).
    pub fn place(&mut self, piece: &ActivePiece)
        requires
            piece.cells_in_range(),
        ensures
            final(self)@ == with_piece(old(self)@, *piece),
            forall|cx: int, cy: int|
                #[trigger] final(self).cell(cx, cy) == if in_field(cx, cy) && piece.covers(cx, cy) {
                    Some(piece.kind)
                } else {
                    old(self).cell(cx, cy)
                },
    {
        let c = piece.cells();
        let mut i: usize = 0;
        while i < 4
            invariant
                0 <= i <= 4,
                c@.len() == 4,
                forall|k: int| 0 <= k < 4 ==> c@[k].0 == piece.cell_x(k) && c@[k].1 == piece.cell_y(k),
                forall|cx: int, cy: int|
                    #[trigger] self.cell(cx, cy) == if in_field(cx, cy) && exists|k: int|
                        0 <= k < i && piece.cell_x(k) == cx && piece.cell_y(k) == cy {
                        Some(piece.kind)
                    } else {
                        old(self).cell(cx, cy)
                    },
            decreases 4 - i,
        {
            let (x, y) = c[i];
            let ghost before = *self;
            self.set(x, y, Some(piece.kind));
            proof {
                assert forall|cx: int, cy: int|
                    #[trigger] self.cell(cx, cy) == if in_field(cx, cy) && exists|k: int|
                        0 <= k < i + 1 && piece.cell_x(k) == cx && piece.cell_y(k) == cy {
                        Some(piece.kind)
                    } else {
                        old(self).cell(cx, cy)
                    } by {
                    if cx == x && cy == y && in_field(cx, cy) {
                        assert(piece.cell_x(i as int) == cx && piece.cell_y(i as int) == cy);
                    } else {
                        assert(self.cell(cx, cy) == before.cell(cx, cy));
                        if exists|k: int| 0 <= k < i + 1 && piece.cell_x(k) == cx && piece.cell_y(k) == cy {
                            let k = choose|k: int| 0 <= k < i + 1 && piece.cell_x(k) == cx && piece.cell_y(k) == cy;
                            if k == i {
                                assert(!in_field(cx, cy));
                            }
                        }
                    }
                }
            }
            i = i + 1;
        }
        proof {
            old(self).lemma_view();
            let target = with_piece(old(self)@, *piece);
            assert forall|cx: int, cy: int| in_field(cx, cy) implies #[trigger] self.cell(cx, cy) == target[cy][cx] by {
                assert(old(self)@[cy][cx] == old(self).cell(cx, cy));
            }
            self.lemma_view_is(target);
        }
    }

    /// Row `y` of the view is row `y` of the cell array.
    proof fn lemma_row_is_array_row(self, y: int)
        requires
            0 <= y < 40,
        ensures
            self@[y] == self.cells@[y]@,
            self@[y].len() == 10,
    {
        assert(self@[y] =~= self.cells@[y]@);
    }

    /// Whether all ten cells of a row are filled.
    fn row_is_full(row: &[Option<Tetromino>; 10]) -> (r: bool)
        ensures
            r == row_full(row@),
    {
        let mut i: usize = 0;
        while i < 10
            invariant
                0 <= i <= 10,
                forall|k: int| 0 <= k < i ==> (#[trigger] row@[k]) is Some,
            decreases 10 - i,
        {
            if row[i].is_none() {
                assert(row@[i as int] is None);
                return false;
            }
            i = i + 1;
        }
        true
    }

    /// Line clear: every full row is removed and the rows above drop down
    /// (naive gravity, no cascades); empty rows refill the top. Returns the
    /// number of rows removed.
    pub fn clear_full_lines(&mut self) -> (r: u8)
        ensures
            final(self)@ == cleared_rows(old(self)@),
            r == full_row_count(old(self)@),
    {
        let ghost rows = old(self)@;
        let ghost kept = |row: Seq<Option<Tetromino>>| row_kept(row);
        let mut write: usize = 0;
        let mut read: usize = 0;
        proof {
            reveal_with_fuel(Seq::<_>::filter, 1);
            assert(rows.take(0) =~= Seq::<Seq<Option<Tetromino>>>::empty());
        }
        while read < 40
            invariant
                0 <= write <= read <= 40,
                rows == old(self)@,
                rows.len() == 40,
                kept == (|row: Seq<Option<Tetromino>>| row_kept(row)),
                write == rows.take(read as int).filter(kept).len(),
                forall|y: int| 0 <= y < write ==> #[trigger] self.cells@[y]@ == rows.take(read as int).filter(kept)[y],
                forall|y: int| read <= y < 40 ==> #[trigger] self.cells@[y]@ == rows[y],
            decreases 40 - read,
        {
            proof {
                old(self).lemma_row_is_array_row(read as int);
                assert(self.cells@[read as int]@ == rows[read as int]);
                reveal_with_fuel(Seq::<_>::filter, 1);
                assert(rows.take(read + 1).drop_last() =~= rows.take(read as int));
                assert(rows.take(read + 1).last() == rows[read as int]);
            }
            let row = self.cells[read];
            let full = Self::row_is_full(&row);
            proof {
                reveal_with_fuel(Seq::<_>::filter, 1);
                assert(row@ == rows[read as int]);
                assert(row_full(rows[read as int]) == full);
                assert(kept(rows[read as int]) == row_kept(rows[read as int]));
                assert(rows.take(read + 1).filter(kept) == (if kept(rows[read as int]) {
                    rows.take(read as int).filter(kept).push(rows[read as int])
                } else {
                    rows.take(read as int).filter(kept)
                }));
            }
            if !full {
                self.cells[write] = row;
                write = write + 1;
            }
            read = read + 1;
        }
        proof {
            assert(rows.take(40) =~= rows);
        }
        let ghost kept_rows = rows.filter(kept);
        let blank: [Option<Tetromino>; 10] = [None; 10];
        assert forall|i: int| 0 <= i < 10 implies blank@[i] is None by {}
        assert(blank@ =~= empty_row());
        let kept_len = write;
        while write < 40
            invariant
                kept_len <= write <= 40,
                kept_len == kept_rows.len(),
                kept_rows == rows.filter(kept),
                blank@ == empty_row(),
                forall|y: int| 0 <= y < kept_len ==> #[trigger] self.cells@[y]@ == kept_rows[y],
                forall|y: int| kept_len <= y < write ==> #[trigger] self.cells@[y]@ == empty_row(),
            decreases 40 - write,
        {
            self.cells[write] = blank;
            write = write + 1;
        }
        proof {
            let target = cleared_rows(rows);
            assert(target.len() == 40);
            assert forall|y: int| 0 <= y < 40 implies self@[y] == target[y] by {
                self.lemma_row_is_array_row(y);
            }
            assert(self@ =~= target);
        }
        (40 - kept_len) as u8
    }

    /// `true` when the field holds no block (perfect-clear check).
    pub fn is_empty(&self) -> (r: bool)
        ensures
            r == no_blocks(self@),
    {
        proof {
            self.lemma_view();
        }
        let mut y: usize = 0;
        while y < 40
            invariant
                0 <= y <= 40,
                forall|cx: int, cy: int| in_field(cx, cy) && cy < y ==> #[trigger] self.cell(cx, cy) is None,
            decreases 40 - y,
        {
            let mut x: usize = 0;
            while x < 10
                invariant
                    0 <= y < 40,
                    0 <= x <= 10,
                    forall|cx: int, cy: int| in_field(cx, cy) && cy < y ==> #[trigger] self.cell(cx, cy) is None,
                    forall|cx: int| 0 <= cx < x ==> #[trigger] self.cell(cx, y as int) is None,
                decreases 10 - x,
            {
                if self.cells[y][x].is_some() {
                    assert(self.cell(x as int, y as int) is Some);
                    assert(self@[y as int][x as int] == self.cell(x as int, y as int));
                    return false;
                }
                x = x + 1;
            }
            y = y + 1;
        }
        true
    }
}

impl Default for Board {
    fn default() -> (r: Board)
        ensures
            r@ == empty_rows(),
    {
        Board::new()
    }
}

} // verus!
