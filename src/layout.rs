//! The layout engine: pure geometry from a window count and the screen to one
//! rectangle per window.
use vstd::prelude::*;
use crate::error::WmError;
use crate::text::same_text;
use vstd::arithmetic::div_mod::lemma_fundamental_div_mod;

verus! {

/// How a workspace arranges its windows.
#[derive(Clone, Copy, Debug, PartialEq, Eq, Structural)]
pub enum LayoutType {
    /// Row-major grid, in insertion order, with a gap around every cell.
    Tiling,
    /// No automatic arrangement: windows keep their recorded geometry.
    Floating,
    /// Every window covers the whole screen, gap ignored.
    Monocle,
}

impl Default for LayoutType {
    fn default() -> (r: Self)
        ensures
            r == LayoutType::Tiling,
    {
        LayoutType::Tiling
    }
}

/// The layout that a lower-case name designates, if any.
pub open spec fn layout_named(name: Seq<char>) -> Option<LayoutType> {
    if name == "tiling"@ {
        Some(LayoutType::Tiling)
    } else if name == "floating"@ {
        Some(LayoutType::Floating)
    } else if name == "monocle"@ {
        Some(LayoutType::Monocle)
    } else {
        None
    }
}

/// The display name of a layout.
pub open spec fn layout_title(layout: LayoutType) -> Seq<char> {
    match layout {
        LayoutType::Tiling => "Tiling"@,
        LayoutType::Floating => "Floating"@,
        LayoutType::Monocle => "Monocle"@,
    }
}

impl LayoutType {
    /// Reads `tiling`, `floating` or `monocle`; any other name is invalid input.
    pub fn parse(name: &str) -> (r: Result<LayoutType, WmError>)
        ensures
            match layout_named(name@) {
                Some(l) => r == Ok::<LayoutType, WmError>(l),
                None => r == Err::<LayoutType, WmError>(WmError::InvalidLayout),
            },
    {
        if same_text(name, "tiling") {
            Ok(LayoutType::Tiling)
        } else if same_text(name, "floating") {
            Ok(LayoutType::Floating)
        } else if same_text(name, "monocle") {
            Ok(LayoutType::Monocle)
        } else {
            Err(WmError::InvalidLayout)
        }
    }

    /// `Tiling`, `Floating` or `Monocle`.
    pub fn title(&self) -> (r: String)
        ensures
            r@ == layout_title(*self),
    {
        match self {
            LayoutType::Tiling => "Tiling".to_owned(),
            LayoutType::Floating => "Floating".to_owned(),
            LayoutType::Monocle => "Monocle".to_owned(),
        }
    }
}

/// A placement on screen: top-left corner and size, in pixels.
#[derive(Clone, Copy, Debug, PartialEq, Eq, Structural)]
pub struct Rect {
    pub x: i32,
    pub y: i32,
    pub width: u32,
    pub height: u32,
}

/// Searches upward from `c` for the least column count whose square holds `n` cells.
pub open spec fn columns_from(n: int, c: int) -> int
    decreases n - c,
{
    if c >= n || c * c >= n {
        c
    } else {
        columns_from(n, c + 1)
    }
}

/// Number of grid columns for `n` windows: the ceiling of the square root of `n`.
pub open spec fn grid_columns(n: int) -> int {
    columns_from(n, 1)
}

/// Number of grid rows for `n` windows: `n` divided by the columns, rounded up.
pub open spec fn grid_rows(n: int) -> int {
    (n + grid_columns(n) - 1) / grid_columns(n)
}

/// Width of one tiling cell.
pub open spec fn cell_width(n: int, screen_width: int, gap: int) -> int {
    (screen_width - gap * (grid_columns(n) + 1)) / grid_columns(n)
}

/// Height of one tiling cell.
pub open spec fn cell_height(n: int, screen_height: int, gap: int) -> int {
    (screen_height - gap * (grid_rows(n) + 1)) / grid_rows(n)
}

/// Left edge of the cell of the window at sequence index `i`.
pub open spec fn tile_x(n: int, screen_width: int, gap: int, i: int) -> int {
    gap + (i % grid_columns(n)) * (cell_width(n, screen_width, gap) + gap)
}

/// Top edge of the cell of the window at sequence index `i`.
pub open spec fn tile_y(n: int, screen_height: int, gap: int, i: int) -> int {
    gap + (i / grid_columns(n)) * (cell_height(n, screen_height, gap) + gap)
}

/// The screen holds the gaps of an `n`-window grid, and every coordinate fits
/// an `i32`. With no windows there is nothing to place, so any screen fits.
pub open spec fn tiling_fits(n: int, screen_width: int, screen_height: int, gap: int) -> bool {
    &&& n >= 1 ==> screen_width <= i32::MAX
    &&& n >= 1 ==> screen_height <= i32::MAX
    &&& n >= 1 ==> gap * (grid_columns(n) + 1) <= screen_width
    &&& n >= 1 ==> gap * (grid_rows(n) + 1) <= screen_height
}

/// `r` is the tiling cell of window `i` out of `n`.
pub open spec fn is_tile(r: Rect, n: int, screen_width: int, screen_height: int, gap: int, i: int) -> bool {
    &&& r.x == tile_x(n, screen_width, gap, i)
    &&& r.y == tile_y(n, screen_height, gap, i)
    &&& r.width == cell_width(n, screen_width, gap)
    &&& r.height == cell_height(n, screen_height, gap)
}

proof fn lemma_columns_from(n: int, c: int)
    requires
        1 <= c,
        (c - 1) * (c - 1) < n,
    ensures
        columns_from(n, c) >= c,
        columns_from(n, c) * columns_from(n, c) >= n,
        (columns_from(n, c) - 1) * (columns_from(n, c) - 1) < n,
    decreases n - c,
{
    if c >= n || c * c >= n {
        if c >= n {
            assert(c * c >= c * 1) by (nonlinear_arith)
                requires c >= 1;
        }
    } else {
        lemma_columns_from(n, c + 1);
    }
}

/// The column count is the ceiling of the square root: the least `c` with `c * c >= n`.
pub proof fn lemma_grid_columns(n: int)
    requires
        n >= 1,
    ensures
        grid_columns(n) >= 1,
        grid_columns(n) * grid_columns(n) >= n,
        (grid_columns(n) - 1) * (grid_columns(n) - 1) < n,
        grid_columns(n) <= n,
        grid_rows(n) >= 1,
        grid_rows(n) <= grid_columns(n),
{
    lemma_columns_from(n, 1);
    let c = grid_columns(n);
    if c > n {
        assert((c - 1) * (c - 1) >= n) by (nonlinear_arith)
            requires c - 1 >= n, n >= 1;
    }
    assert(grid_rows(n) >= 1) by (nonlinear_arith)
        requires c >= 1, n >= 1, grid_rows(n) == (n + c - 1) / c;
    assert(grid_rows(n) <= c) by (nonlinear_arith)
        requires c >= 1, c * c >= n, grid_rows(n) == (n + c - 1) / c;
}

/// Computes the number of grid columns for `n` windows.
pub fn tiling_columns(n: usize) -> (c: u64)
    requires
        n >= 1,
    ensures
        c == grid_columns(n as int),
{
    let mut c: u64 = 1;
    loop
        invariant
            1 <= c <= n,
            columns_from(n as int, c as int) == grid_columns(n as int),
        decreases n - c,
    {
        let wide = c as u128;
        assert(wide * wide <= u64::MAX as u128 * u64::MAX as u128) by (nonlinear_arith)
            requires wide <= u64::MAX as u128;
        if wide * wide >= n as u128 || c as usize >= n {
            return c;
        }
        c = c + 1;
    }
}

/// `r` lies inside the screen shrunk by `gap` on every side.
pub open spec fn within_margin(r: Rect, screen_width: int, screen_height: int, gap: int) -> bool {
    &&& gap <= r.x
    &&& r.x + r.width <= screen_width - gap
    &&& gap <= r.y
    &&& r.y + r.height <= screen_height - gap
}

/// The interiors of `a` and `b` do not meet.
pub open spec fn disjoint(a: Rect, b: Rect) -> bool {
    ||| a.x + a.width <= b.x
    ||| b.x + b.width <= a.x
    ||| a.y + a.height <= b.y
    ||| b.y + b.height <= a.y
}

/// The cell of window `i` lies inside the screen shrunk by the gap.
proof fn lemma_tile_within(n: int, screen_width: int, screen_height: int, gap: int, i: int)
    requires
        0 <= i < n,
        0 <= gap,
        tiling_fits(n, screen_width, screen_height, gap),
    ensures
        cell_width(n, screen_width, gap) >= 0,
        cell_height(n, screen_height, gap) >= 0,
        gap <= tile_x(n, screen_width, gap, i),
        tile_x(n, screen_width, gap, i) + cell_width(n, screen_width, gap) <= screen_width - gap,
        gap <= tile_y(n, screen_height, gap, i),
        tile_y(n, screen_height, gap, i) + cell_height(n, screen_height, gap) <= screen_height - gap,
{
    lemma_grid_columns(n);
    let c = grid_columns(n);
    let rows = grid_rows(n);
    let free_w = screen_width - gap * (c + 1);
    let free_h = screen_height - gap * (rows + 1);
    let cw = cell_width(n, screen_width, gap);
    let ch = cell_height(n, screen_height, gap);
    lemma_fundamental_div_mod(free_w, c);
    lemma_fundamental_div_mod(free_h, rows);
    lemma_fundamental_div_mod(i, c);
    lemma_fundamental_div_mod(n + c - 1, c);
    assert(cw >= 0) by (nonlinear_arith)
        requires free_w >= 0, c >= 1, cw == free_w / c;
    assert(ch >= 0) by (nonlinear_arith)
        requires free_h >= 0, rows >= 1, ch == free_h / rows;
    let col = i % c;
    let row = i / c;
    assert(row >= 0) by (nonlinear_arith)
        requires i >= 0, c >= 1, row == i / c;
    assert(row <= rows - 1) by (nonlinear_arith)
        requires
            i == c * row + col,
            0 <= col < c,
            n + c - 1 == c * rows + (n + c - 1) % c,
            0 <= (n + c - 1) % c < c,
            i < n,
    ;
    assert(gap + col * (cw + gap) + cw <= screen_width - gap) by (nonlinear_arith)
        requires
            0 <= col <= c - 1,
            cw >= 0,
            gap >= 0,
            free_w == c * cw + free_w % c,
            free_w % c >= 0,
            free_w == screen_width - gap * (c + 1),
    ;
    assert(gap + row * (ch + gap) + ch <= screen_height - gap) by (nonlinear_arith)
        requires
            0 <= row <= rows - 1,
            ch >= 0,
            gap >= 0,
            free_h == rows * ch + free_h % rows,
            free_h % rows >= 0,
            free_h == screen_height - gap * (rows + 1),
    ;
    assert(gap <= gap + col * (cw + gap)) by (nonlinear_arith)
        requires col >= 0, cw >= 0, gap >= 0;
    assert(gap <= gap + row * (ch + gap)) by (nonlinear_arith)
        requires row >= 0, ch >= 0, gap >= 0;
}

/// Cells of two different windows do not overlap.
proof fn lemma_tiles_apart(n: int, screen_width: int, screen_height: int, gap: int, i: int, j: int)
    requires
        0 <= i < n,
        0 <= j < n,
        i != j,
        0 <= gap,
        tiling_fits(n, screen_width, screen_height, gap),
    ensures
        ({
            let cw = cell_width(n, screen_width, gap);
            let ch = cell_height(n, screen_height, gap);
            let (xi, yi) = (tile_x(n, screen_width, gap, i), tile_y(n, screen_height, gap, i));
            let (xj, yj) = (tile_x(n, screen_width, gap, j), tile_y(n, screen_height, gap, j));
            xi + cw <= xj || xj + cw <= xi || yi + ch <= yj || yj + ch <= yi
        }),
{
    lemma_grid_columns(n);
    lemma_tile_within(n, screen_width, screen_height, gap, i);
    let c = grid_columns(n);
    let cw = cell_width(n, screen_width, gap);
    let ch = cell_height(n, screen_height, gap);
    lemma_fundamental_div_mod(i, c);
    lemma_fundamental_div_mod(j, c);
    let (ci, cj, ri, rj) = (i % c, j % c, i / c, j / c);
    if ci < cj {
        assert(gap + ci * (cw + gap) + cw <= gap + cj * (cw + gap)) by (nonlinear_arith)
            requires ci < cj, cw >= 0, gap >= 0;
    } else if cj < ci {
        assert(gap + cj * (cw + gap) + cw <= gap + ci * (cw + gap)) by (nonlinear_arith)
            requires cj < ci, cw >= 0, gap >= 0;
    } else if ri < rj {
        assert(gap + ri * (ch + gap) + ch <= gap + rj * (ch + gap)) by (nonlinear_arith)
            requires ri < rj, ch >= 0, gap >= 0;
    } else if rj < ri {
        assert(gap + rj * (ch + gap) + ch <= gap + ri * (ch + gap)) by (nonlinear_arith)
            requires rj < ri, ch >= 0, gap >= 0;
    } else {
        assert(i == j);
    }
}

/// Tiling `n` windows gives `n` cells that lie inside the screen shrunk by the
/// gap and that pairwise do not overlap.
pub proof fn lemma_tiling_partitions(n: int, screen_width: int, screen_height: int, gap: int)
    requires
        0 <= gap,
        tiling_fits(n, screen_width, screen_height, gap),
    ensures
        forall|i: int| 0 <= i < n ==> {
            &&& gap <= #[trigger] tile_x(n, screen_width, gap, i)
            &&& tile_x(n, screen_width, gap, i) + cell_width(n, screen_width, gap) <= screen_width - gap
            &&& gap <= tile_y(n, screen_height, gap, i)
            &&& tile_y(n, screen_height, gap, i) + cell_height(n, screen_height, gap) <= screen_height - gap
        },
        forall|i: int, j: int|
            0 <= i < n && 0 <= j < n && i != j ==> {
                ||| #[trigger] tile_x(n, screen_width, gap, i) + cell_width(n, screen_width, gap) <= #[trigger] tile_x(n, screen_width, gap, j)
                ||| tile_x(n, screen_width, gap, j) + cell_width(n, screen_width, gap) <= tile_x(n, screen_width, gap, i)
                ||| tile_y(n, screen_height, gap, i) + cell_height(n, screen_height, gap) <= tile_y(n, screen_height, gap, j)
                ||| tile_y(n, screen_height, gap, j) + cell_height(n, screen_height, gap) <= tile_y(n, screen_height, gap, i)
            },
{
    assert forall|i: int| 0 <= i < n implies {
        &&& gap <= #[trigger] tile_x(n, screen_width, gap, i)
        &&& tile_x(n, screen_width, gap, i) + cell_width(n, screen_width, gap) <= screen_width - gap
        &&& gap <= tile_y(n, screen_height, gap, i)
        &&& tile_y(n, screen_height, gap, i) + cell_height(n, screen_height, gap) <= screen_height - gap
    } by {
        lemma_tile_within(n, screen_width, screen_height, gap, i);
    }
    assert forall|i: int, j: int| 0 <= i < n && 0 <= j < n && i != j implies {
        ||| #[trigger] tile_x(n, screen_width, gap, i) + cell_width(n, screen_width, gap) <= #[trigger] tile_x(n, screen_width, gap, j)
        ||| tile_x(n, screen_width, gap, j) + cell_width(n, screen_width, gap) <= tile_x(n, screen_width, gap, i)
        ||| tile_y(n, screen_height, gap, i) + cell_height(n, screen_height, gap) <= tile_y(n, screen_height, gap, j)
        ||| tile_y(n, screen_height, gap, j) + cell_height(n, screen_height, gap) <= tile_y(n, screen_height, gap, i)
    } by {
        lemma_tiles_apart(n, screen_width, screen_height, gap, i, j);
    }
}

/// Decides whether the screen holds the tiling grid of `n` windows.
pub fn fits_tiling(n: usize, screen_width: u32, screen_height: u32, gap: u32) -> (r: bool)
    ensures
        r == tiling_fits(n as int, screen_width as int, screen_height as int, gap as int),
{
    if n == 0 {
        return true;
    }
    if screen_width > i32::MAX as u32 || screen_height > i32::MAX as u32 {
        return false;
    }
    let c = tiling_columns(n) as u128;
    proof {
        lemma_grid_columns(n as int);
    }
    let rows = (n as u128 + c - 1) / c;
    let g = gap as u128;
    assert(g * (c + 1) <= u32::MAX as u128 * (u64::MAX as u128 + 1)) by (nonlinear_arith)
        requires g <= u32::MAX as u128, c <= u64::MAX as u128;
    assert(g * (rows + 1) <= u32::MAX as u128 * (u64::MAX as u128 + 1)) by (nonlinear_arith)
        requires g <= u32::MAX as u128, rows <= u64::MAX as u128;
    g * (c + 1) <= screen_width as u128 && g * (rows + 1) <= screen_height as u128
}

/// Places `n` windows on a row-major grid in sequence order: window `i` takes
/// column `i % columns` and row `i / columns`, with `gap` pixels around every cell.
pub fn tiling_layout(n: usize, screen_width: u32, screen_height: u32, gap: u32) -> (r: Vec<Rect>)
    requires
        tiling_fits(n as int, screen_width as int, screen_height as int, gap as int),
    ensures
        r@.len() == n,
        forall|i: int|
            0 <= i < n ==> is_tile(
                #[trigger] r@[i],
                n as int,
                screen_width as int,
                screen_height as int,
                gap as int,
                i,
            ),
        forall|i: int|
            0 <= i < n ==> within_margin(
                #[trigger] r@[i],
                screen_width as int,
                screen_height as int,
                gap as int,
            ),
        forall|i: int, j: int|
            0 <= i < n && 0 <= j < n && i != j ==> disjoint(#[trigger] r@[i], #[trigger] r@[j]),
{
    let mut out: Vec<Rect> = Vec::new();
    if n == 0 {
        return out;
    }
    let c = tiling_columns(n) as u128;
    proof {
        lemma_grid_columns(n as int);
        lemma_tiling_partitions(n as int, screen_width as int, screen_height as int, gap as int);
    }
    let rows = (n as u128 + c - 1) / c;
    let g = gap as u128;
    let cw = (screen_width as u128 - g * (c + 1)) / c;
    let ch = (screen_height as u128 - g * (rows + 1)) / rows;
    let mut i: usize = 0;
    while i < n
        invariant
            0 <= i <= n,
            c == grid_columns(n as int),
            c >= 1,
            rows == grid_rows(n as int),
            cw == cell_width(n as int, screen_width as int, gap as int),
            ch == cell_height(n as int, screen_height as int, gap as int),
            g == gap,
            tiling_fits(n as int, screen_width as int, screen_height as int, gap as int),
            out@.len() == i,
            forall|k: int|
                0 <= k < i ==> is_tile(
                    #[trigger] out@[k],
                    n as int,
                    screen_width as int,
                    screen_height as int,
                    gap as int,
                    k,
                ),
        decreases n - i,
    {
        proof {
            lemma_tile_within(n as int, screen_width as int, screen_height as int, gap as int, i as int);
        }
        let col = i as u128 % c;
        let row = i as u128 / c;
        let x = g + col * (cw + g);
        let y = g + row * (ch + g);
        out.push(Rect { x: x as i32, y: y as i32, width: cw as u32, height: ch as u32 });
        i = i + 1;
    }
    out
}

/// Stacks `n` windows, each covering the whole screen; the gap does not apply.
pub fn monocle_layout(n: usize, screen_width: u32, screen_height: u32) -> (r: Vec<Rect>)
    ensures
        r@.len() == n,
        forall|i: int|
            0 <= i < n ==> #[trigger] r@[i] == (Rect { x: 0, y: 0, width: screen_width, height: screen_height }),
{
    let mut out: Vec<Rect> = Vec::new();
    let mut i: usize = 0;
    while i < n
        invariant
            0 <= i <= n,
            out@.len() == i,
            forall|k: int|
                0 <= k < i ==> #[trigger] out@[k] == (Rect { x: 0, y: 0, width: screen_width, height: screen_height }),
        decreases n - i,
    {
        out.push(Rect { x: 0, y: 0, width: screen_width, height: screen_height });
        i = i + 1;
    }
    out
}

} // verus!
