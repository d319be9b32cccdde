//! A fixed-size rectangular grid of cells with bounded access and
//! Moore-neighborhood counting.
//!
//! Positions outside `[0, w) x [0, h)` are "absent": reading them yields
//! nothing and they contribute nothing to neighbor counts, which gives the
//! grid an implicit dead border with no wraparound.
use crate::cell::Cell;
use vstd::prelude::*;

verus! {

/// A rectangular field of cells is well formed when it has `h` rows of `w`
/// cells each, with at least one of each.
pub open spec fn field_wf(s: Seq<Seq<Cell>>, w: int, h: int) -> bool {
    &&& s.len() == h
    &&& forall|y: int| 0 <= y < h ==> (#[trigger] s[y]).len() == w
    &&& w >= 1
    &&& h >= 1
}

/// Whether position `(x, y)` lies inside the field and holds an Alive cell.
/// Any position outside the field, on any side, is not alive.
pub open spec fn alive_at(s: Seq<Seq<Cell>>, x: int, y: int) -> bool {
    &&& 0 <= y < s.len()
    &&& 0 <= x < s[y].len()
    &&& s[y][x] is Alive
}

/// 1 if `(x, y)` holds an Alive cell, else 0.
pub open spec fn alive_indicator(s: Seq<Seq<Cell>>, x: int, y: int) -> int {
    if alive_at(s, x, y) {
        1
    } else {
        0
    }
}

/// How many of the 8 Moore-neighborhood positions around `(x, y)` hold an
/// Alive cell; positions beyond any edge count as Dead.
pub open spec fn neighbor_count(s: Seq<Seq<Cell>>, x: int, y: int) -> int {
    alive_indicator(s, x - 1, y - 1) + alive_indicator(s, x, y - 1) + alive_indicator(
        s,
        x + 1,
        y - 1,
    ) + alive_indicator(s, x - 1, y) + alive_indicator(s, x + 1, y) + alive_indicator(
        s,
        x - 1,
        y + 1,
    ) + alive_indicator(s, x, y + 1) + alive_indicator(s, x + 1, y + 1)
}

/// A `w x h` array of cells, indexed by `(x, y)` with `0 <= x < w` and
/// `0 <= y < h`; row `y` of the view holds the cells of one horizontal line.
pub struct Grid {
    grid: Vec<Vec<Cell>>,
    w: usize,
    h: usize,
}

impl View for Grid {
    type V = Seq<Seq<Cell>>;

    closed spec fn view(&self) -> Seq<Seq<Cell>> {
        Seq::new(self.grid@.len(), |y: int| self.grid@[y]@)
    }
}

impl Grid {
    /// Number of columns.
    pub closed spec fn width(self) -> int {
        self.w as int
    }

    /// Number of rows.
    pub closed spec fn height(self) -> int {
        self.h as int
    }

    /// Dimensions never change after construction and every position holds a
    /// defined cell state.
    pub open spec fn wf(self) -> bool {
        field_wf(self@, self.width(), self.height())
    }

    /// Allocate a `w x h` grid with every cell Dead. A zero dimension is a
    /// degenerate grid and is ruled out by precondition.
    pub fn new(w: usize, h: usize) -> (r: Grid)
        requires
            w >= 1,
            h >= 1,
        ensures
            r.wf(),
            r.width() == w,
            r.height() == h,
            forall|x: int, y: int|
                0 <= x < w && 0 <= y < h ==> #[trigger] r@[y][x] == Cell::Dead,
    {
        let mut rows: Vec<Vec<Cell>> = Vec::new();
        while rows.len() < h
            invariant
                rows@.len() <= h,
                forall|y: int|
                    0 <= y < rows@.len() ==> (#[trigger] rows@[y])@.len() == w,
                forall|x: int, y: int|
                    0 <= y < rows@.len() && 0 <= x < w ==> #[trigger] rows@[y]@[x] == Cell::Dead,
            decreases h - rows@.len(),
        {
            let mut row: Vec<Cell> = Vec::new();
            while row.len() < w
                invariant
                    row@.len() <= w,
                    forall|x: int| 0 <= x < row@.len() ==> #[trigger] row@[x] == Cell::Dead,
                decreases w - row@.len(),
            {
                row.push(Cell::Dead);
            }
            rows.push(row);
        }
        Grid { grid: rows, w, h }
    }

    /// Borrow the rows of cells, outer index `y`, inner index `x`.
    pub fn grid(&self) -> (r: &Vec<Vec<Cell>>)
        ensures
            r@.len() == self@.len(),
            forall|y: int| 0 <= y < self@.len() ==> (#[trigger] r@[y])@ == self@[y],
    {
        &self.grid
    }

    /// The cell state at `(x, y)`, or nothing for any position outside the
    /// grid. Never panics, whatever the position: an index that wrapped past
    /// zero is simply out of range.
    pub fn get(&self, x: usize, y: usize) -> (r: Option<Cell>)
        requires
            self.wf(),
        ensures
            x < self.width() && y < self.height() ==> r == Some(self@[y as int][x as int]),
            !(x < self.width() && y < self.height()) ==> r is None,
    {
        if x < self.w && y < self.h {
            proof {
                assert(self@[y as int] == self.grid@[y as int]@);
            }
            Some(self.grid[y][x])
        } else {
            None
        }
    }

    /// The dimensions `(w, h)`.
    pub fn size(&self) -> (r: (usize, usize))
        ensures
            r.0 == self.width(),
            r.1 == self.height(),
    {
        (self.w, self.h)
    }

    /// Write `cell` at `(x, y)`. All mutating call sites iterate within
    /// bounds, so an out-of-bounds write is a precondition violation.
    pub fn set(&mut self, x: usize, y: usize, cell: Cell)
        requires
            old(self).wf(),
            x < old(self).width(),
            y < old(self).height(),
        ensures
            final(self).wf(),
            final(self).width() == old(self).width(),
            final(self).height() == old(self).height(),
            final(self)@[y as int][x as int] == cell,
            forall|x2: int, y2: int|
                0 <= x2 < old(self).width() && 0 <= y2 < old(self).height() && !(x2 == x && y2
                    == y) ==> #[trigger] final(self)@[y2][x2] == old(self)@[y2][x2],
    {
        proof {
            assert(self@[y as int] == self.grid@[y as int]@);
        }
        self.grid[y][x] = cell;
        proof {
            assert forall|y2: int| 0 <= y2 < self.grid@.len() implies #[trigger] self@[y2]
                == self.grid@[y2]@ && old(self)@[y2] == old(self).grid@[y2]@ by {}
        }
    }

    /// Toggle the cell at `(x, y)` in place.
    pub fn flip(&mut self, x: usize, y: usize)
        requires
            old(self).wf(),
            x < old(self).width(),
            y < old(self).height(),
        ensures
            final(self).wf(),
            final(self).width() == old(self).width(),
            final(self).height() == old(self).height(),
            final(self)@[y as int][x as int] == old(self)@[y as int][x as int].toggled(),
            forall|x2: int, y2: int|
                0 <= x2 < old(self).width() && 0 <= y2 < old(self).height() && !(x2 == x && y2
                    == y) ==> #[trigger] final(self)@[y2][x2] == old(self)@[y2][x2],
    {
        proof {
            assert(self@[y as int] == self.grid@[y as int]@);
        }
        let cur = self.grid[y][x];
        self.grid[y][x] = cur.not();
        proof {
            assert forall|y2: int| 0 <= y2 < self.grid@.len() implies #[trigger] self@[y2]
                == self.grid@[y2]@ && old(self)@[y2] == old(self).grid@[y2]@ by {}
        }
    }

    /// Whether `(x, y)` holds an Alive cell; positions outside the grid are
    /// not alive. Never panics.
    pub fn is_alive(&self, x: usize, y: usize) -> (r: bool)
        requires
            self.wf(),
        ensures
            r == alive_at(self@, x as int, y as int),
    {
        if x < self.w && y < self.h {
            proof {
                assert(self@[y as int] == self.grid@[y as int]@);
            }
            match self.grid[y][x] {
                Cell::Alive => true,
                Cell::Dead => false,
            }
        } else {
            false
        }
    }

    /// Count the Alive cells among the 8 Moore-neighborhood positions around
    /// `(x, y)`; any neighbor position outside the grid counts as Dead. The
    /// count never exceeds 8. Never panics, whatever the position.
    pub fn alive_neighbors(&self, x: usize, y: usize) -> (count: usize)
        requires
            self.wf(),
        ensures
            count == neighbor_count(self@, x as int, y as int),
            count <= 8,
    {
        let mut count: usize = 0;
        if x >= 1 && y >= 1 && self.is_alive(x - 1, y - 1) {
            count += 1;
        }
        if y >= 1 && self.is_alive(x, y - 1) {
            count += 1;
        }
        if x < usize::MAX && y >= 1 && self.is_alive(x + 1, y - 1) {
            count += 1;
        }
        if x >= 1 && self.is_alive(x - 1, y) {
            count += 1;
        }
        if x < usize::MAX && self.is_alive(x + 1, y) {
            count += 1;
        }
        if x >= 1 && y < usize::MAX && self.is_alive(x - 1, y + 1) {
            count += 1;
        }
        if y < usize::MAX && self.is_alive(x, y + 1) {
            count += 1;
        }
        if x < usize::MAX && y < usize::MAX && self.is_alive(x + 1, y + 1) {
            count += 1;
        }
        count
    }

    /// Set every cell to Dead; the dimensions stay as they are.
    pub fn clear(&mut self)
        requires
            old(self).wf(),
        ensures
            final(self).wf(),
            final(self).width() == old(self).width(),
            final(self).height() == old(self).height(),
            forall|x: int, y: int|
                0 <= x < old(self).width() && 0 <= y < old(self).height()
                    ==> #[trigger] final(self)@[y][x] == Cell::Dead,
    {
        let (w, h) = self.size();
        let mut i: usize = 0;
        while i < w
            invariant
                self.wf(),
                w == self.width(),
                h == self.height(),
                i <= w,
                forall|x: int, y: int|
                    0 <= x < i && 0 <= y < h ==> #[trigger] self@[y][x] == Cell::Dead,
            decreases w - i,
        {
            let mut j: usize = 0;
            while j < h
                invariant
                    self.wf(),
                    w == self.width(),
                    h == self.height(),
                    i < w,
                    j <= h,
                    forall|x: int, y: int|
                        0 <= x < i && 0 <= y < h ==> #[trigger] self@[y][x] == Cell::Dead,
                    forall|y: int| 0 <= y < j ==> #[trigger] self@[y][i as int] == Cell::Dead,
                decreases h - j,
            {
                self.set(i, j, Cell::Dead);
                j += 1;
            }
            i += 1;
        }
    }
}

/// Every neighbor count lies between 0 and 8, and only positions inside
/// `[0, w) x [0, h)` ever contribute to it: each of the 8 contributions is 0
/// or 1 and is 0 whenever its position lies outside the field.
pub proof fn lemma_neighbor_count_bounds(s: Seq<Seq<Cell>>, x: int, y: int)
    ensures
        0 <= neighbor_count(s, x, y) <= 8,
        forall|x2: int, y2: int|
            !(0 <= y2 < s.len() && 0 <= x2 < s[y2].len()) ==> alive_indicator(s, x2, y2) == 0,
{
}

/// A position one step outside any edge of a well-formed field - one column
/// left of 0 or right of `w - 1`, or one row above 0 or below `h - 1` - is
/// absent: it is not alive and contributes 0 to every neighbor count.
pub proof fn lemma_outside_edge_is_absent(s: Seq<Seq<Cell>>, w: int, h: int, x: int, y: int)
    requires
        field_wf(s, w, h),
        x == -1 || x == w || y == -1 || y == h,
    ensures
        !alive_at(s, x, y),
        alive_indicator(s, x, y) == 0,
{
}

} // verus!
