//! Advancing the grid by one generation of Conway's rule.
//!
//! Every cell of the next generation is evaluated against the same snapshot
//! of the current one: the step reads only the prior state and writes only a
//! separate target, so the outcome does not depend on traversal order.
use crate::cell::Cell;
use crate::grid::{field_wf, neighbor_count, Grid};
use vstd::prelude::*;

verus! {

/// Conway's rule for one cell with `n` alive neighbors: an Alive cell with
/// fewer than 2 or more than 3 alive neighbors dies, a Dead cell with exactly
/// 3 alive neighbors is born, and every other cell keeps its state.
pub open spec fn next_cell(c: Cell, n: int) -> Cell {
    match c {
        Cell::Alive => if n < 2 || n > 3 {
            Cell::Dead
        } else {
            Cell::Alive
        },
        Cell::Dead => if n == 3 {
            Cell::Alive
        } else {
            Cell::Dead
        },
    }
}

/// The next generation of a whole field: each position is Conway's rule
/// applied to its current state and its neighbor count in the current field.
pub open spec fn step_field(s: Seq<Seq<Cell>>) -> Seq<Seq<Cell>> {
    Seq::new(
        s.len(),
        |y: int| Seq::new(s[y].len(), |x: int| next_cell(s[y][x], neighbor_count(s, x, y))),
    )
}

/// Apply Conway's rule to one cell state and neighbor count.
pub fn apply_rule(c: Cell, neighbors: usize) -> (r: Cell)
    ensures
        r == next_cell(c, neighbors as int),
{
    match c {
        Cell::Alive => if neighbors < 2 || neighbors > 3 {
            Cell::Dead
        } else {
            Cell::Alive
        },
        Cell::Dead => if neighbors == 3 {
            Cell::Alive
        } else {
            Cell::Dead
        },
    }
}

/// Compute the next generation of `g` without touching `g` itself: neighbor
/// counts are read from `g` alone, never from partially written results, so
/// identical current state always yields the identical next state.
pub fn step(g: &Grid) -> (r: Grid)
    requires
        g.wf(),
    ensures
        r.wf(),
        r.width() == g.width(),
        r.height() == g.height(),
        r@ == step_field(g@),
{
    let (w, h) = g.size();
    let mut out = Grid::new(w, h);
    let mut i: usize = 0;
    while i < w
        invariant
            g.wf(),
            out.wf(),
            w == g.width(),
            h == g.height(),
            out.width() == w,
            out.height() == h,
            i <= w,
            forall|x: int, y: int|
                0 <= x < i && 0 <= y < h ==> #[trigger] out@[y][x] == step_field(g@)[y][x],
        decreases w - i,
    {
        let mut j: usize = 0;
        while j < h
            invariant
                g.wf(),
                out.wf(),
                w == g.width(),
                h == g.height(),
                out.width() == w,
                out.height() == h,
                i < w,
                j <= h,
                forall|x: int, y: int|
                    0 <= x < i && 0 <= y < h ==> #[trigger] out@[y][x] == step_field(g@)[y][x],
                forall|y: int|
                    0 <= y < j ==> #[trigger] out@[y][i as int] == step_field(g@)[y][i as int],
            decreases h - j,
        {
            let neighbors = g.alive_neighbors(i, j);
            let cell = if g.is_alive(i, j) {
                Cell::Alive
            } else {
                Cell::Dead
            };
            proof {
                assert(cell == g@[j as int][i as int]);
            }
            out.set(i, j, apply_rule(cell, neighbors));
            proof {
                assert(step_field(g@)[j as int][i as int] == next_cell(
                    g@[j as int][i as int],
                    neighbor_count(g@, i as int, j as int),
                ));
            }
            j += 1;
        }
        i += 1;
    }
    proof {
        assert(out@ =~~= step_field(g@));
    }
    out
}

/// Advance `grid` in place by one generation, reading the prior generation
/// as one consistent snapshot.
pub fn tick(grid: &mut Grid)
    requires
        old(grid).wf(),
    ensures
        final(grid).wf(),
        final(grid).width() == old(grid).width(),
        final(grid).height() == old(grid).height(),
        final(grid)@ == step_field(old(grid)@),
{
    let next = step(grid);
    *grid = next;
}

/// Determinism of the step: the next generation is a function of the current
/// field alone, so identical current state gives identical next state,
/// independent of how an implementation traverses the cells.
pub proof fn lemma_step_deterministic(a: Seq<Seq<Cell>>, b: Seq<Seq<Cell>>)
    requires
        a == b,
    ensures
        step_field(a) == step_field(b),
{
}

/// Stability of the empty grid: in an all-Dead field of any size no cell has
/// an alive neighbor, so no cell is born and the field maps to itself.
pub proof fn lemma_empty_field_stable(s: Seq<Seq<Cell>>, w: int, h: int)
    requires
        field_wf(s, w, h),
        forall|x: int, y: int| 0 <= x < w && 0 <= y < h ==> #[trigger] s[y][x] == Cell::Dead,
    ensures
        step_field(s) == s,
{
    assert forall|y: int| 0 <= y < h implies #[trigger] step_field(s)[y] =~= s[y] by {
        assert forall|x: int| 0 <= x < w implies #[trigger] step_field(s)[y][x] == s[y][x] by {
            assert(neighbor_count(s, x, y) == 0);
        }
    }
    assert(step_field(s) =~~= s);
}

/// One step keeps the field's dimensions.
pub proof fn lemma_step_field_wf(s: Seq<Seq<Cell>>, w: int, h: int)
    requires
        field_wf(s, w, h),
    ensures
        field_wf(step_field(s), w, h),
{
    assert forall|y: int| 0 <= y < h implies (#[trigger] step_field(s)[y]).len() == w by {
        assert(step_field(s)[y].len() == s[y].len());
    }
}

/// Exactly the four cells of the 2x2 block whose lowest corner is `(x0, y0)`
/// are Alive; every other cell of the field is Dead.
pub open spec fn block_only(s: Seq<Seq<Cell>>, w: int, h: int, x0: int, y0: int) -> bool {
    forall|x: int, y: int|
        0 <= x < w && 0 <= y < h ==> ((#[trigger] s[y][x]) is Alive <==> (x0 <= x <= x0 + 1 && y0
            <= y <= y0 + 1))
}

/// Still life: on a field of at least 4 x 4, a 2x2 block of Alive cells with
/// every other cell Dead is unchanged by one step. Each live cell of the
/// block has exactly 3 alive neighbors and so survives, and no dead cell
/// sees the 3 alive neighbors a birth would need.
pub proof fn lemma_block_still_life(s: Seq<Seq<Cell>>, w: int, h: int, x0: int, y0: int)
    requires
        field_wf(s, w, h),
        4 <= w,
        4 <= h,
        0 <= x0,
        x0 + 1 < w,
        0 <= y0,
        y0 + 1 < h,
        block_only(s, w, h, x0, y0),
    ensures
        step_field(s) == s,
{
    assert forall|y: int| 0 <= y < h implies #[trigger] step_field(s)[y] =~= s[y] by {
        assert forall|x: int| 0 <= x < w implies #[trigger] step_field(s)[y][x] == s[y][x] by {
            if x0 <= x <= x0 + 1 && y0 <= y <= y0 + 1 {
                assert(neighbor_count(s, x, y) == 3);
            } else {
                assert(!(s[y][x] is Alive));
                assert(neighbor_count(s, x, y) != 3);
            }
        }
    }
    assert(step_field(s) =~~= s);
}

/// Exactly the three cells `(cx - 1, cy)`, `(cx, cy)`, `(cx + 1, cy)` are
/// Alive: a horizontal blinker on an otherwise Dead field.
pub open spec fn horizontal_trio_only(s: Seq<Seq<Cell>>, w: int, h: int, cx: int, cy: int) -> bool {
    forall|x: int, y: int|
        0 <= x < w && 0 <= y < h ==> ((#[trigger] s[y][x]) is Alive <==> (y == cy && cx - 1 <= x
            <= cx + 1))
}

/// Exactly the three cells `(cx, cy - 1)`, `(cx, cy)`, `(cx, cy + 1)` are
/// Alive: a vertical blinker on an otherwise Dead field.
pub open spec fn vertical_trio_only(s: Seq<Seq<Cell>>, w: int, h: int, cx: int, cy: int) -> bool {
    forall|x: int, y: int|
        0 <= x < w && 0 <= y < h ==> ((#[trigger] s[y][x]) is Alive <==> (x == cx && cy - 1 <= y
            <= cy + 1))
}

/// A horizontal blinker far enough from every edge becomes a vertical one
/// after one step: the ends die with a single neighbor, the center survives
/// with two, and the cells straight above and below the center are born with
/// exactly three.
pub proof fn lemma_blinker_horizontal_to_vertical(
    s: Seq<Seq<Cell>>,
    w: int,
    h: int,
    cx: int,
    cy: int,
)
    requires
        field_wf(s, w, h),
        1 <= cx,
        cx + 1 < w,
        1 <= cy,
        cy + 1 < h,
        horizontal_trio_only(s, w, h, cx, cy),
    ensures
        field_wf(step_field(s), w, h),
        vertical_trio_only(step_field(s), w, h, cx, cy),
{
    lemma_step_field_wf(s, w, h);
    assert forall|x: int, y: int| 0 <= x < w && 0 <= y < h implies ((#[trigger] step_field(
        s,
    )[y][x]) is Alive <==> (x == cx && cy - 1 <= y <= cy + 1)) by {
        assert(step_field(s)[y][x] == next_cell(s[y][x], neighbor_count(s, x, y)));
        if x == cx && cy - 1 <= y <= cy + 1 {
            assert(neighbor_count(s, x, y) >= 2 && neighbor_count(s, x, y) <= 3);
        } else {
            if s[y][x] is Alive {
                assert(neighbor_count(s, x, y) == 1);
            } else {
                assert(neighbor_count(s, x, y) != 3);
            }
        }
    }
}

/// A vertical blinker far enough from every edge becomes a horizontal one
/// after one step; the mirror image of the horizontal case.
pub proof fn lemma_blinker_vertical_to_horizontal(
    s: Seq<Seq<Cell>>,
    w: int,
    h: int,
    cx: int,
    cy: int,
)
    requires
        field_wf(s, w, h),
        1 <= cx,
        cx + 1 < w,
        1 <= cy,
        cy + 1 < h,
        vertical_trio_only(s, w, h, cx, cy),
    ensures
        field_wf(step_field(s), w, h),
        horizontal_trio_only(step_field(s), w, h, cx, cy),
{
    lemma_step_field_wf(s, w, h);
    assert forall|x: int, y: int| 0 <= x < w && 0 <= y < h implies ((#[trigger] step_field(
        s,
    )[y][x]) is Alive <==> (y == cy && cx - 1 <= x <= cx + 1)) by {
        assert(step_field(s)[y][x] == next_cell(s[y][x], neighbor_count(s, x, y)));
        if y == cy && cx - 1 <= x <= cx + 1 {
            assert(neighbor_count(s, x, y) >= 2 && neighbor_count(s, x, y) <= 3);
        } else {
            if s[y][x] is Alive {
                assert(neighbor_count(s, x, y) == 1);
            } else {
                assert(neighbor_count(s, x, y) != 3);
            }
        }
    }
}

/// The blinker oscillates with period two: one step turns the horizontal
/// trio vertical, and a second step turns it back into the same horizontal
/// trio.
pub proof fn lemma_blinker_period_two(s: Seq<Seq<Cell>>, w: int, h: int, cx: int, cy: int)
    requires
        field_wf(s, w, h),
        1 <= cx,
        cx + 1 < w,
        1 <= cy,
        cy + 1 < h,
        horizontal_trio_only(s, w, h, cx, cy),
    ensures
        vertical_trio_only(step_field(s), w, h, cx, cy),
        horizontal_trio_only(step_field(step_field(s)), w, h, cx, cy),
{
    lemma_blinker_horizontal_to_vertical(s, w, h, cx, cy);
    lemma_blinker_vertical_to_horizontal(step_field(s), w, h, cx, cy);
}

} // verus!
