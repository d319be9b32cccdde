//! Bidirectional affine mapping between grid indices and a centered visual
//! surface, used to place cells and to resolve pointer clicks.
//!
//! On an axis with surface extent `e`, cell size `s` and `n = e / s` cells,
//! cell `i` is placed by linear interpolation from the index range
//! `[0, n - 1]` to the visual range `[-e/2 + s, e/2 - s]`, which centers the
//! cells with a one-cell inset on each edge. That interpolation has the
//! denominator `n - 1`, so all coordinates here are held exactly as integers
//! in units of `1 / (2 * (n - 1))` of a pixel; the center of cell `i` in
//! those units is `(e - 2*s) * (2*i - (n - 1))`, and a cell's bounding box
//! extends half a cell size, `s * (n - 1)` units, on each side of its
//! center, half-open on the upper side so that no pixel is claimed twice.
//!
//! Pointer input arrives in surface pixels with the origin at the top left
//! and y growing downward; placement uses a centered surface with y growing
//! upward, so the pointer's y axis is inverted exactly once, here.
use crate::cell::Cell;
use crate::grid::Grid;
use vstd::arithmetic::div_mod::lemma_fundamental_div_mod;
use vstd::prelude::*;

verus! {

/// Largest accepted surface extent on either axis; keeps every scaled
/// coordinate comfortably inside `i64`.
pub const MAX_SURFACE: u32 = 1073741824;

/// Why a mapper configuration is rejected at startup.
#[derive(Clone, Copy, Debug, PartialEq, Eq, Structural)]
pub enum ConfigError {
    /// The cell size is zero.
    CellSizeZero,
    /// The surface width is not an exact multiple of the cell size.
    WidthNotMultiple,
    /// The surface height is not an exact multiple of the cell size.
    HeightNotMultiple,
    /// Fewer than two columns of cells fit on the surface, so the centered
    /// placement is not defined.
    TooFewColumns,
    /// Fewer than two rows of cells fit on the surface.
    TooFewRows,
}

/// A consistent axis configuration: extent `e`, cell size `s`, `n` cells.
pub open spec fn axis_wf(e: int, s: int, n: int) -> bool {
    &&& 1 <= s
    &&& e == s * n
    &&& 2 <= n
    &&& e <= MAX_SURFACE
}

/// Center of cell `i`, in units of `1 / (2 * (n - 1))` of a pixel: the exact
/// value of the interpolation from `[0, n - 1]` to `[-e/2 + s, e/2 - s]` at
/// `i`, scaled by `2 * (n - 1)`.
pub open spec fn center_scaled(e: int, s: int, n: int, i: int) -> int {
    (e - 2 * s) * (2 * i - (n - 1))
}

/// Half a cell size, `s / 2` of a pixel, in the same scaled units.
pub open spec fn half_box_scaled(s: int, n: int) -> int {
    s * (n - 1)
}

/// Whether scaled visual coordinate `v` lies in cell `i`'s bounding box,
/// `[center - s/2, center + s/2)` in pixels, half-open on the upper side.
pub open spec fn in_box(e: int, s: int, n: int, i: int, v: int) -> bool {
    &&& center_scaled(e, s, n, i) - half_box_scaled(s, n) <= v
    &&& v < center_scaled(e, s, n, i) + half_box_scaled(s, n)
}

/// A window-pixel x coordinate mapped to the centered visual space, scaled:
/// the exact value of `(p - e/2) * 2 * (n - 1)`.
pub open spec fn window_to_visual_x(e: int, n: int, p: int) -> int {
    (2 * p - e) * (n - 1)
}

/// A window-pixel y coordinate mapped to the centered visual space, scaled.
/// The window's y axis grows downward while placement's grows upward, so
/// this is the exact value of `(e/2 - p) * 2 * (n - 1)`.
pub open spec fn window_to_visual_y(e: int, n: int, p: int) -> int {
    (e - 2 * p) * (n - 1)
}

/// Facts every consistent axis satisfies: the cell count and cell size are
/// no larger than the extent, and half a box is positive but less than the
/// extent.
pub proof fn lemma_axis_bounds(e: int, s: int, n: int)
    requires
        axis_wf(e, s, n),
    ensures
        n <= e,
        s <= e,
        1 <= half_box_scaled(s, n) < e,
{
    assert(n <= s * n && s <= s * n && 1 <= s * (n - 1) && s * (n - 1) == s * n - s) by (nonlinear_arith)
        requires
            1 <= s,
            2 <= n,
    ;
}

/// Every cell center stays well inside `i64` in scaled units, which keeps
/// all arithmetic on centers exact.
pub proof fn lemma_center_bounds(e: int, s: int, n: int, i: int)
    requires
        axis_wf(e, s, n),
        0 <= i < n,
    ensures
        -0x2000000000000000 <= center_scaled(e, s, n, i) <= 0x2000000000000000,
{
    lemma_axis_bounds(e, s, n);
    assert(-0x2000000000000000 <= (e - 2 * s) * (2 * i - (n - 1))
        <= 0x2000000000000000) by (nonlinear_arith)
        requires
            1 <= s <= e,
            2 <= n <= e,
            0 <= i < n,
            e <= 0x40000000,
    ;
}

/// Compute the scaled center of cell `i` on one axis.
fn center_on_axis(e: u32, s: u32, n: usize, i: usize) -> (c: i64)
    requires
        axis_wf(e as int, s as int, n as int),
        i < n,
    ensures
        c == center_scaled(e as int, s as int, n as int, i as int),
{
    proof {
        lemma_axis_bounds(e as int, s as int, n as int);
        lemma_center_bounds(e as int, s as int, n as int, i as int);
    }
    let a: i64 = e as i64 - 2 * (s as i64);
    let b: i64 = 2 * (i as i64) - ((n - 1) as i64);
    a * b
}

/// Scan an axis for the first cell whose box contains scaled coordinate
/// `v`: the cell with the lowest index, boxes being scanned in index order.
fn hit_axis(e: u32, s: u32, n: usize, v: i64) -> (r: Option<usize>)
    requires
        axis_wf(e as int, s as int, n as int),
    ensures
        r matches Some(i) ==> i < n && in_box(e as int, s as int, n as int, i as int, v as int)
            && (forall|i2: int|
            0 <= i2 < i ==> !in_box(e as int, s as int, n as int, i2, v as int)),
        r is None ==> forall|i2: int|
            0 <= i2 < n ==> !in_box(e as int, s as int, n as int, i2, v as int),
{
    proof {
        lemma_axis_bounds(e as int, s as int, n as int);
    }
    let hb: i64 = (s as i64) * ((n - 1) as i64);
    let mut i: usize = 0;
    while i < n
        invariant
            axis_wf(e as int, s as int, n as int),
            hb == half_box_scaled(s as int, n as int),
            i <= n,
            forall|i2: int| 0 <= i2 < i ==> !in_box(e as int, s as int, n as int, i2, v as int),
        decreases n - i,
    {
        let c = center_on_axis(e, s, n, i);
        proof {
            lemma_axis_bounds(e as int, s as int, n as int);
            lemma_center_bounds(e as int, s as int, n as int, i as int);
        }
        if c - hb <= v && v < c + hb {
            return Some(i);
        }
        i += 1;
    }
    None
}

/// The four scalar bounds of the visual surface and the grid dimensions
/// they determine; immutable for the process lifetime.
#[derive(Clone, Copy, Debug)]
pub struct Mapper {
    surface_w: u32,
    surface_h: u32,
    cell_size: u32,
    grid_w: usize,
    grid_h: usize,
}

impl Mapper {
    /// Surface width in pixels.
    pub closed spec fn spec_surface_w(self) -> int {
        self.surface_w as int
    }

    /// Surface height in pixels.
    pub closed spec fn spec_surface_h(self) -> int {
        self.surface_h as int
    }

    /// Cell size in pixels.
    pub closed spec fn spec_cell_size(self) -> int {
        self.cell_size as int
    }

    /// Number of grid columns, `surface_w / cell_size`.
    pub closed spec fn spec_grid_w(self) -> int {
        self.grid_w as int
    }

    /// Number of grid rows, `surface_h / cell_size`.
    pub closed spec fn spec_grid_h(self) -> int {
        self.grid_h as int
    }

    /// Both axes are consistent: exact multiples, at least two cells each.
    pub open spec fn wf(self) -> bool {
        &&& axis_wf(self.spec_surface_w(), self.spec_cell_size(), self.spec_grid_w())
        &&& axis_wf(self.spec_surface_h(), self.spec_cell_size(), self.spec_grid_h())
    }

    /// Check the surface configuration and derive the grid dimensions.
    /// Surface dimensions that are not exact multiples of the cell size, and
    /// grids with fewer than two columns or rows, are configuration errors:
    /// the simulation must not run on an ill-defined grid.
    pub fn new(surface_w: u32, surface_h: u32, cell_size: u32) -> (r: Result<Mapper, ConfigError>)
        requires
            surface_w <= MAX_SURFACE,
            surface_h <= MAX_SURFACE,
        ensures
            r matches Ok(m) ==> m.wf() && m.spec_surface_w() == surface_w && m.spec_surface_h()
                == surface_h && m.spec_cell_size() == cell_size && m.spec_grid_w() == surface_w
                as int / cell_size as int && m.spec_grid_h() == surface_h as int / cell_size as int,
            r is Ok <==> (1 <= cell_size && surface_w as int % cell_size as int == 0 && surface_h
                as int % cell_size as int == 0 && surface_w as int / cell_size as int >= 2
                && surface_h as int / cell_size as int >= 2),
            r == Err::<Mapper, ConfigError>(ConfigError::CellSizeZero) <==> cell_size == 0,
            r == Err::<Mapper, ConfigError>(ConfigError::WidthNotMultiple) <==> (1 <= cell_size
                && surface_w as int % cell_size as int != 0),
            r == Err::<Mapper, ConfigError>(ConfigError::HeightNotMultiple) <==> (1 <= cell_size
                && surface_w as int % cell_size as int == 0 && surface_h as int % cell_size as int
                != 0),
            r == Err::<Mapper, ConfigError>(ConfigError::TooFewColumns) <==> (1 <= cell_size
                && surface_w as int % cell_size as int == 0 && surface_h as int % cell_size as int
                == 0 && (surface_w as int / cell_size as int) < 2),
            r == Err::<Mapper, ConfigError>(ConfigError::TooFewRows) <==> (1 <= cell_size
                && surface_w as int % cell_size as int == 0 && surface_h as int % cell_size as int
                == 0 && surface_w as int / cell_size as int >= 2 && (surface_h as int
                / cell_size as int) < 2),
    {
        if cell_size == 0 {
            return Err(ConfigError::CellSizeZero);
        }
        if surface_w % cell_size != 0 {
            return Err(ConfigError::WidthNotMultiple);
        }
        if surface_h % cell_size != 0 {
            return Err(ConfigError::HeightNotMultiple);
        }
        let grid_w = (surface_w / cell_size) as usize;
        let grid_h = (surface_h / cell_size) as usize;
        if grid_w < 2 {
            return Err(ConfigError::TooFewColumns);
        }
        if grid_h < 2 {
            return Err(ConfigError::TooFewRows);
        }
        proof {
            lemma_fundamental_div_mod(surface_w as int, cell_size as int);
            lemma_fundamental_div_mod(surface_h as int, cell_size as int);
        }
        Ok(Mapper { surface_w, surface_h, cell_size, grid_w, grid_h })
    }

    /// The surface dimensions `(width, height)` in pixels.
    pub fn surface_size(&self) -> (r: (u32, u32))
        ensures
            r.0 == self.spec_surface_w(),
            r.1 == self.spec_surface_h(),
    {
        (self.surface_w, self.surface_h)
    }

    /// The cell size in pixels.
    pub fn cell_size(&self) -> (r: u32)
        ensures
            r == self.spec_cell_size(),
    {
        self.cell_size
    }

    /// The grid dimensions `(columns, rows)` this surface holds.
    pub fn grid_size(&self) -> (r: (usize, usize))
        ensures
            r.0 == self.spec_grid_w(),
            r.1 == self.spec_grid_h(),
    {
        (self.grid_w, self.grid_h)
    }

    /// Scaled coordinates are in units of `1 / scale` of a pixel per axis;
    /// this returns `(2 * (columns - 1), 2 * (rows - 1))`.
    pub fn scale(&self) -> (r: (i64, i64))
        requires
            self.wf(),
        ensures
            r.0 == 2 * (self.spec_grid_w() - 1),
            r.1 == 2 * (self.spec_grid_h() - 1),
    {
        proof {
            lemma_axis_bounds(self.spec_surface_w(), self.spec_cell_size(), self.spec_grid_w());
            lemma_axis_bounds(self.spec_surface_h(), self.spec_cell_size(), self.spec_grid_h());
        }
        (2 * ((self.grid_w - 1) as i64), 2 * ((self.grid_h - 1) as i64))
    }

    /// The scaled visual center of cell `(i, j)`, used to place its visual
    /// element; divide by `scale()` per axis for pixel coordinates.
    pub fn cell_center(&self, i: usize, j: usize) -> (r: (i64, i64))
        requires
            self.wf(),
            i < self.spec_grid_w(),
            j < self.spec_grid_h(),
        ensures
            r.0 == center_scaled(self.spec_surface_w(), self.spec_cell_size(), self.spec_grid_w(), i as int),
            r.1 == center_scaled(self.spec_surface_h(), self.spec_cell_size(), self.spec_grid_h(), j as int),
    {
        let cx = center_on_axis(self.surface_w, self.cell_size, self.grid_w, i);
        let cy = center_on_axis(self.surface_h, self.cell_size, self.grid_h, j);
        (cx, cy)
    }

    /// Map a pointer position in window pixels, origin top left and y
    /// growing downward, into the scaled centered visual space used for
    /// placement; the y axis is inverted here and nowhere else.
    pub fn window_to_visual(&self, wx: i64, wy: i64) -> (r: (i64, i64))
        requires
            self.wf(),
            0 <= wx <= self.spec_surface_w(),
            0 <= wy <= self.spec_surface_h(),
        ensures
            r.0 == window_to_visual_x(self.spec_surface_w(), self.spec_grid_w(), wx as int),
            r.1 == window_to_visual_y(self.spec_surface_h(), self.spec_grid_h(), wy as int),
    {
        proof {
            lemma_axis_bounds(self.spec_surface_w(), self.spec_cell_size(), self.spec_grid_w());
            lemma_axis_bounds(self.spec_surface_h(), self.spec_cell_size(), self.spec_grid_h());
            assert((-0x1000000000000000 <= (2 * wx - self.spec_surface_w()) * (self.spec_grid_w()
                - 1) <= 0x1000000000000000) && (-0x1000000000000000 <= (self.spec_surface_h() - 2
                * wy) * (self.spec_grid_h() - 1) <= 0x1000000000000000)) by (nonlinear_arith)
                requires
                    0 <= wx <= self.spec_surface_w() <= 0x40000000,
                    0 <= wy <= self.spec_surface_h() <= 0x40000000,
                    2 <= self.spec_grid_w() <= self.spec_surface_w(),
                    2 <= self.spec_grid_h() <= self.spec_surface_h(),
            ;
        }
        let vx: i64 = (2 * wx - self.surface_w as i64) * ((self.grid_w - 1) as i64);
        let vy: i64 = (self.surface_h as i64 - 2 * wy) * ((self.grid_h - 1) as i64);
        (vx, vy)
    }

    /// Hit-test a scaled visual position against every cell's bounding box.
    /// The hit is the first cell, in row-major order, whose box contains the
    /// point on both axes; if no box contains it the pointer lies outside
    /// the grid's visual extent and there is no hit.
    pub fn hit_visual(&self, vx: i64, vy: i64) -> (r: Option<(usize, usize)>)
        requires
            self.wf(),
        ensures
            r matches Some(ij) ==> ij.0 < self.spec_grid_w() && ij.1 < self.spec_grid_h()
                && in_box(self.spec_surface_w(), self.spec_cell_size(), self.spec_grid_w(),
                ij.0 as int, vx as int) && in_box(self.spec_surface_h(), self.spec_cell_size(),
                self.spec_grid_h(), ij.1 as int, vy as int) && (forall|i2: int|
                0 <= i2 < ij.0 ==> !in_box(self.spec_surface_w(), self.spec_cell_size(),
                self.spec_grid_w(), i2, vx as int)) && (forall|j2: int|
                0 <= j2 < ij.1 ==> !in_box(self.spec_surface_h(), self.spec_cell_size(),
                self.spec_grid_h(), j2, vy as int)),
            r is None ==> (forall|i2: int|
                0 <= i2 < self.spec_grid_w() ==> !in_box(self.spec_surface_w(),
                self.spec_cell_size(), self.spec_grid_w(), i2, vx as int)) || (forall|j2: int|
                0 <= j2 < self.spec_grid_h() ==> !in_box(self.spec_surface_h(),
                self.spec_cell_size(), self.spec_grid_h(), j2, vy as int)),
    {
        let hx = hit_axis(self.surface_w, self.cell_size, self.grid_w, vx);
        let hy = hit_axis(self.surface_h, self.cell_size, self.grid_h, vy);
        match (hx, hy) {
            (Some(i), Some(j)) => Some((i, j)),
            _ => None,
        }
    }

    /// Hit-test a pointer position in window pixels: map it into the
    /// centered visual space, then test it against every cell's box.
    pub fn hit_window(&self, wx: i64, wy: i64) -> (r: Option<(usize, usize)>)
        requires
            self.wf(),
            0 <= wx <= self.spec_surface_w(),
            0 <= wy <= self.spec_surface_h(),
        ensures
            r matches Some(ij) ==> ij.0 < self.spec_grid_w() && ij.1 < self.spec_grid_h()
                && in_box(self.spec_surface_w(), self.spec_cell_size(), self.spec_grid_w(),
                ij.0 as int, window_to_visual_x(self.spec_surface_w(), self.spec_grid_w(),
                wx as int)) && in_box(self.spec_surface_h(), self.spec_cell_size(),
                self.spec_grid_h(), ij.1 as int, window_to_visual_y(self.spec_surface_h(),
                self.spec_grid_h(), wy as int)) && (forall|i2: int|
                0 <= i2 < ij.0 ==> !in_box(self.spec_surface_w(), self.spec_cell_size(),
                self.spec_grid_w(), i2, window_to_visual_x(self.spec_surface_w(),
                self.spec_grid_w(), wx as int))) && (forall|j2: int|
                0 <= j2 < ij.1 ==> !in_box(self.spec_surface_h(), self.spec_cell_size(),
                self.spec_grid_h(), j2, window_to_visual_y(self.spec_surface_h(),
                self.spec_grid_h(), wy as int))),
            r is None ==> (forall|i2: int|
                0 <= i2 < self.spec_grid_w() ==> !in_box(self.spec_surface_w(),
                self.spec_cell_size(), self.spec_grid_w(), i2, window_to_visual_x(
                self.spec_surface_w(), self.spec_grid_w(), wx as int))) || (forall|j2: int|
                0 <= j2 < self.spec_grid_h() ==> !in_box(self.spec_surface_h(),
                self.spec_cell_size(), self.spec_grid_h(), j2, window_to_visual_y(
                self.spec_surface_h(), self.spec_grid_h(), wy as int))),
    {
        let (vx, vy) = self.window_to_visual(wx, wy);
        self.hit_visual(vx, vy)
    }
}

/// On an axis with at least three cells, the center of a cell lies in that
/// cell's own box and in no earlier cell's box. Boxes are scanned in index
/// order, so hit-testing a cell's exact center resolves to that very cell:
/// placement and hit-testing, built on the same parameters, cannot drift
/// apart.
pub proof fn lemma_center_resolves_to_own_cell(e: int, s: int, n: int, i: int)
    requires
        axis_wf(e, s, n),
        3 <= n,
        0 <= i < n,
    ensures
        in_box(e, s, n, i, center_scaled(e, s, n, i)),
        forall|i2: int| 0 <= i2 < i ==> !in_box(e, s, n, i2, center_scaled(e, s, n, i)),
{
    lemma_axis_bounds(e, s, n);
    assert forall|i2: int| 0 <= i2 < i implies !in_box(e, s, n, i2, center_scaled(e, s, n, i)) by {
        assert((e - 2 * s) * (2 * i - (n - 1)) >= (e - 2 * s) * (2 * i2 - (n - 1)) + s * (n
            - 1)) by (nonlinear_arith)
            requires
                e == s * n,
                1 <= s,
                3 <= n,
                0 <= i2 < i < n,
        ;
    }
}

/// Coordinate round trip for a whole mapper with at least three columns and
/// rows: the visual center of any valid grid index `(i, j)` lies in the box
/// of `(i, j)` on both axes and in no earlier cell's box on either axis, so
/// hit-testing the center resolves back to exactly `(i, j)`.
pub proof fn lemma_round_trip(m: Mapper, i: int, j: int)
    requires
        m.wf(),
        3 <= m.spec_grid_w(),
        3 <= m.spec_grid_h(),
        0 <= i < m.spec_grid_w(),
        0 <= j < m.spec_grid_h(),
    ensures
        in_box(m.spec_surface_w(), m.spec_cell_size(), m.spec_grid_w(), i, center_scaled(
            m.spec_surface_w(), m.spec_cell_size(), m.spec_grid_w(), i)),
        forall|i2: int|
            0 <= i2 < i ==> !in_box(m.spec_surface_w(), m.spec_cell_size(), m.spec_grid_w(), i2,
            center_scaled(m.spec_surface_w(), m.spec_cell_size(), m.spec_grid_w(), i)),
        in_box(m.spec_surface_h(), m.spec_cell_size(), m.spec_grid_h(), j, center_scaled(
            m.spec_surface_h(), m.spec_cell_size(), m.spec_grid_h(), j)),
        forall|j2: int|
            0 <= j2 < j ==> !in_box(m.spec_surface_h(), m.spec_cell_size(), m.spec_grid_h(), j2,
            center_scaled(m.spec_surface_h(), m.spec_cell_size(), m.spec_grid_h(), j)),
{
    lemma_center_resolves_to_own_cell(m.spec_surface_w(), m.spec_cell_size(), m.spec_grid_w(), i);
    lemma_center_resolves_to_own_cell(m.spec_surface_h(), m.spec_cell_size(), m.spec_grid_h(), j);
}

/// A scaled coordinate below the first cell's box or beyond the last cell's
/// box lies in no cell's box at all: cell centers grow with the index, so
/// the two extreme boxes bound the grid's whole visual extent on the axis.
pub proof fn lemma_outside_extent_misses_all(e: int, s: int, n: int, v: int)
    requires
        axis_wf(e, s, n),
        v < center_scaled(e, s, n, 0) - half_box_scaled(s, n) || v >= center_scaled(e, s, n, n - 1)
            + half_box_scaled(s, n),
    ensures
        forall|i: int| 0 <= i < n ==> !in_box(e, s, n, i, v),
{
    assert forall|i: int| 0 <= i < n implies !in_box(e, s, n, i, v) by {
        assert((e - 2 * s) * (2 * i - (n - 1)) >= (e - 2 * s) * (0 - (n - 1)) && (e - 2 * s) * (2
            * i - (n - 1)) <= (e - 2 * s) * (2 * (n - 1) - (n - 1))) by (nonlinear_arith)
            requires
                e == s * n,
                1 <= s,
                2 <= n,
                0 <= i < n,
        ;
    }
}

/// Resolve a pointer-button press at window position `(wx, wy)` against the
/// grid: the first cell, in row-major order, whose visual box contains the
/// point is set Alive and returned; a press outside the grid's visual
/// extent affects no cell.
pub fn handle_click(grid: &mut Grid, m: &Mapper, wx: i64, wy: i64) -> (r: Option<(usize, usize)>)
    requires
        old(grid).wf(),
        m.wf(),
        m.spec_grid_w() == old(grid).width(),
        m.spec_grid_h() == old(grid).height(),
        0 <= wx <= m.spec_surface_w(),
        0 <= wy <= m.spec_surface_h(),
    ensures
        final(grid).wf(),
        final(grid).width() == old(grid).width(),
        final(grid).height() == old(grid).height(),
        r is None ==> final(grid)@ == old(grid)@,
        r matches Some(ij) ==> ij.0 < old(grid).width() && ij.1 < old(grid).height() && in_box(
            m.spec_surface_w(), m.spec_cell_size(), m.spec_grid_w(), ij.0 as int,
            window_to_visual_x(m.spec_surface_w(), m.spec_grid_w(), wx as int)) && in_box(
            m.spec_surface_h(), m.spec_cell_size(), m.spec_grid_h(), ij.1 as int,
            window_to_visual_y(m.spec_surface_h(), m.spec_grid_h(), wy as int))
            && final(grid)@[ij.1 as int][ij.0 as int] == Cell::Alive && (forall|x2: int, y2: int|
            0 <= x2 < old(grid).width() && 0 <= y2 < old(grid).height() && !(x2 == ij.0 && y2
                == ij.1) ==> #[trigger] final(grid)@[y2][x2] == old(grid)@[y2][x2]),
        r is None <==> (forall|i2: int|
            0 <= i2 < m.spec_grid_w() ==> !in_box(m.spec_surface_w(), m.spec_cell_size(),
            m.spec_grid_w(), i2, window_to_visual_x(m.spec_surface_w(), m.spec_grid_w(),
            wx as int))) || (forall|j2: int|
            0 <= j2 < m.spec_grid_h() ==> !in_box(m.spec_surface_h(), m.spec_cell_size(),
            m.spec_grid_h(), j2, window_to_visual_y(m.spec_surface_h(), m.spec_grid_h(),
            wy as int))),
{
    let hit = m.hit_window(wx, wy);
    match hit {
        Some((i, j)) => {
            grid.set(i, j, Cell::Alive);
            Some((i, j))
        },
        None => None,
    }
}

} // verus!
