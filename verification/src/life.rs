//! Conway's game of life on a bounded board.
//!
//! The board is a grid of columns: `cells[x][y]` says whether the cell in
//! column `x`, row `y` is alive. A world of width `w` and height `h` plays on
//! the cells with `x < w` and `y < h`; its grid has one more column and one
//! more row, which stay dead and let the last column and row look one step
//! beyond themselves.

use std::rc::Rc;
use vstd::prelude::*;

use crate::rng::native_bytes;
use crate::rng::new_thread_rng;
use crate::rng::seeded_below;
use crate::rng::seeded_rng;
use crate::rng::thread_usize;

verus! {

/// Calls `Rc::clone`, which hands out another pointer to the same grid:
/// the grid seen through it is the one seen through `grid`.
#[verifier::external_body]
fn share_grid(grid: &Rc<Vec<Vec<bool>>>) -> (r: Rc<Vec<Vec<bool>>>)
    ensures
        r@ == grid@,
{
    Rc::clone(grid)
}

/// The grid as a sequence of columns, each a sequence of cells.
pub open spec fn cells(g: Seq<Vec<bool>>) -> Seq<Seq<bool>> {
    g.map_values(|column: Vec<bool>| column@)
}

/// The cell at column `i`, row `j` exists and is alive.
pub open spec fn cell_alive(g: Seq<Seq<bool>>, i: int, j: int) -> bool {
    0 <= i < g.len() && 0 <= j < g[i].len() && g[i][j]
}

/// 1 for a live cell, 0 otherwise.
pub open spec fn alive_count(g: Seq<Seq<bool>>, i: int, j: int) -> int {
    if cell_alive(g, i, j) {
        1
    } else {
        0
    }
}

/// The live cells among the eight around column `x`, row `y`.
pub open spec fn live_neighbors(g: Seq<Seq<bool>>, x: int, y: int) -> int {
    alive_count(g, x - 1, y - 1) + alive_count(g, x - 1, y) + alive_count(g, x - 1, y + 1)
        + alive_count(g, x, y - 1) + alive_count(g, x, y + 1) + alive_count(g, x + 1, y - 1)
        + alive_count(g, x + 1, y) + alive_count(g, x + 1, y + 1)
}

/// The cell at column `i`, row `j` can be read, or lies off the board on
/// the side of the negative coordinates, which is never read.
pub open spec fn readable(g: Seq<Seq<bool>>, i: int, j: int) -> bool {
    i < 0 || j < 0 || (i < g.len() && j < g[i].len())
}

/// All eight neighbors of column `x`, row `y` with no negative coordinate
/// lie on the grid.
pub open spec fn neighbors_readable(g: Seq<Seq<bool>>, x: int, y: int) -> bool {
    &&& readable(g, x - 1, y - 1)
    &&& readable(g, x - 1, y)
    &&& readable(g, x - 1, y + 1)
    &&& readable(g, x, y - 1)
    &&& readable(g, x, y + 1)
    &&& readable(g, x + 1, y - 1)
    &&& readable(g, x + 1, y)
    &&& readable(g, x + 1, y + 1)
}

/// Conway's rule: a live cell with two or three live neighbors lives on, a
/// dead cell with exactly three comes to life, every other cell is dead.
pub open spec fn next_state(alive: bool, neighbors: int) -> bool {
    if alive {
        neighbors == 2 || neighbors == 3
    } else {
        neighbors == 3
    }
}

/// The neighbor at offset `(i - 1, j - 1)` counted by the scan of
/// `get_neighbor`, the cell itself excluded.
spec fn scanned(g: Seq<Seq<bool>>, x: int, y: int, i: int, j: int) -> int {
    if i == 1 && j == 1 {
        0
    } else {
        alive_count(g, x + i - 1, y + j - 1)
    }
}

/// The first `n` neighbors scanned in column offset `i`.
spec fn scanned_column(g: Seq<Seq<bool>>, x: int, y: int, i: int, n: int) -> int
    decreases n,
{
    if n <= 0 {
        0
    } else {
        scanned_column(g, x, y, i, n - 1) + scanned(g, x, y, i, n - 1)
    }
}

/// The neighbors scanned in the first `m` column offsets.
spec fn scanned_block(g: Seq<Seq<bool>>, x: int, y: int, m: int) -> int
    decreases m,
{
    if m <= 0 {
        0
    } else {
        scanned_block(g, x, y, m - 1) + scanned_column(g, x, y, m - 1, 3)
    }
}

/// A cell of the board, with the grid it lives in.
#[derive(Debug)]
pub struct Point {
    pub x: usize,
    pub y: usize,
    pub is_alive: bool,
    pub world: Rc<Vec<Vec<bool>>>,
}

impl Point {
    /// A point at column `x`, row `y` of `world`.
    pub fn new(x: usize, y: usize, is_alive: bool, world: Rc<Vec<Vec<bool>>>) -> (p: Self)
        ensures
            p.x == x,
            p.y == y,
            p.is_alive == is_alive,
            p.world == world,
    {
        Self { x, y, is_alive, world }
    }

    /// A dead point at column `x`, row `y`, in an empty grid: the form in
    /// which seeds are given.
    pub fn new_xy(x: usize, y: usize) -> (p: Self)
        ensures
            p.x == x,
            p.y == y,
            !p.is_alive,
            p.world@.len() == 0,
    {
        Self { x, y, is_alive: false, world: Rc::new(Vec::new()) }
    }

    /// The number of live cells among the eight around this point.
    pub fn get_neighbor(&self) -> (alive: i64)
        requires
            neighbors_readable(cells(self.world@), self.x as int, self.y as int),
        ensures
            alive == live_neighbors(cells(self.world@), self.x as int, self.y as int),
            0 <= alive <= 8,
    {
        let ghost g = cells(self.world@);
        let ghost (x, y) = (self.x as int, self.y as int);
        let w: &Vec<Vec<bool>> = &*self.world;
        let columns = w.len();
        let mut alive: i64 = 0;
        let mut i: usize = 0;
        while i < 3
            invariant
                i <= 3,
                g == cells(w@),
                columns == w@.len(),
                x == self.x,
                y == self.y,
                neighbors_readable(g, x, y),
                alive == scanned_block(g, x, y, i as int),
                0 <= alive <= 3 * i,
            decreases 3 - i,
        {
            let mut j: usize = 0;
            while j < 3
                invariant
                    i < 3,
                    j <= 3,
                    g == cells(w@),
                    columns == w@.len(),
                    x == self.x,
                    y == self.y,
                    neighbors_readable(g, x, y),
                    alive == scanned_block(g, x, y, i as int) + scanned_column(g, x, y, i as int, j as int),
                    0 <= alive <= 3 * i + j,
                decreases 3 - j,
            {
                if !(i == 1 && j == 1) && !(self.x == 0 && i == 0) && !(self.y == 0 && j == 0) {
                    let nx: usize = if i == 0 {
                        self.x - 1
                    } else if i == 1 {
                        self.x
                    } else {
                        self.x + 1
                    };
                    let column: &Vec<bool> = &w[nx];
                    assert(column@ == g[nx as int]);
                    let rows = column.len();
                    assert(rows == g[nx as int].len());
                    let ny: usize = if j == 0 {
                        self.y - 1
                    } else if j == 1 {
                        self.y
                    } else {
                        self.y + 1
                    };
                    if column[ny] {
                        alive = alive + 1;
                    }
                }
                j = j + 1;
            }
            i = i + 1;
        }
        proof {
            reveal_with_fuel(scanned_block, 4);
            reveal_with_fuel(scanned_column, 4);
        }
        alive
    }

    /// Whether this point is alive in the next generation, by Conway's rule.
    pub fn check_around(&self) -> (r: bool)
        requires
            neighbors_readable(cells(self.world@), self.x as int, self.y as int),
        ensures
            r == next_state(
                self.is_alive,
                live_neighbors(cells(self.world@), self.x as int, self.y as int),
            ),
    {
        let alive = self.get_neighbor();
        if self.is_alive && alive < 2 {
            false
        } else if self.is_alive && alive > 3 {
            false
        } else if !self.is_alive && alive == 3 {
            true
        } else if self.is_alive && (alive == 3 || alive == 2) {
            true
        } else {
            self.is_alive
        }
    }
}

/// Whether a seed names the cell at column `i`, row `j`: a seed names it
/// when it stands there, dead, in an empty grid, as `Point::new_xy` makes it.
pub open spec fn seeded_at(seed: Seq<Point>, i: int, j: int) -> bool {
    exists|k: int|
        0 <= k < seed.len() && #[trigger] seed[k].x == i && seed[k].y == j && !seed[k].is_alive
            && seed[k].world@.len() == 0
}

/// What is drawn for one cell: its place on the screen, two columns per
/// cell, and whether it is alive.
#[derive(Clone, Copy, Debug, PartialEq, Eq, Structural)]
pub struct Glyph {
    pub col: u16,
    pub row: u16,
    pub alive: bool,
}

/// A drawing of the board: the glyphs of each row in order, and whether
/// any cell is alive.
pub struct Frame {
    pub any_alive: bool,
    pub rows: Vec<Vec<Glyph>>,
}

/// The state of a world, as contracts see it.
pub struct WorldView {
    pub width: usize,
    pub height: usize,
    pub seed: Seq<Point>,
    pub cells: Seq<Seq<bool>>,
    pub dead: Seq<char>,
    pub alive: Seq<char>,
}

/// The grid has one column more than the width and one row more than the
/// height.
pub open spec fn world_wf(v: WorldView) -> bool {
    &&& v.cells.len() == v.width + 1
    &&& forall|i: int| 0 <= i < v.cells.len() ==> (#[trigger] v.cells[i]).len() == v.height + 1
}

/// A grid of `columns` columns of `rows` dead cells.
pub open spec fn dead_grid(columns: int, rows: int) -> Seq<Seq<bool>> {
    Seq::new(columns as nat, |i: int| Seq::new(rows as nat, |j: int| false))
}

/// `new` is `old` with every cell of the board, and no other, set by `f`.
pub open spec fn board_set(
    old: Seq<Seq<bool>>,
    new: Seq<Seq<bool>>,
    width: int,
    height: int,
    f: spec_fn(int, int) -> bool,
) -> bool {
    &&& new.len() == old.len()
    &&& forall|i: int| 0 <= i < old.len() ==> (#[trigger] new[i]).len() == old[i].len()
    &&& forall|i: int, j: int|
        0 <= i < old.len() && 0 <= j < old[i].len() ==> #[trigger] new[i][j] == if i < width && j
            < height {
            f(i, j)
        } else {
            old[i][j]
        }
}

/// The board a world plays on, with the seed it started from and the
/// symbols it draws live and dead cells with.
pub struct World {
    x: usize,
    y: usize,
    seed: Vec<Point>,
    world: Rc<Vec<Vec<bool>>>,
    dead: String,
    alive: String,
}

impl View for World {
    type V = WorldView;

    closed spec fn view(&self) -> WorldView {
        WorldView {
            width: self.x,
            height: self.y,
            seed: self.seed@,
            cells: cells(self.world@),
            dead: self.dead@,
            alive: self.alive@,
        }
    }
}

impl World {
    /// Every world keeps the shape of its grid.
    #[verifier::type_invariant]
    spec fn grid_shape(self) -> bool {
        world_wf(self@)
    }
}

/// A copy of the column `old`; when the column lies on the board, its first
/// `height` cells are taken from `values` instead.
fn column_of(
    old: &Vec<bool>,
    on_board: bool,
    height: usize,
    values: &Vec<bool>,
) -> (r: Vec<bool>)
    requires
        on_board ==> values@.len() == height,
        height <= old@.len(),
    ensures
        r@.len() == old@.len(),
        forall|j: int|
            0 <= j < old@.len() ==> #[trigger] r@[j] == if on_board && j < height {
                values@[j]
            } else {
                old@[j]
            },
{
    let mut r: Vec<bool> = Vec::new();
    let mut j: usize = 0;
    while j < old.len()
        invariant
            j <= old@.len(),
            on_board ==> values@.len() == height,
            height <= old@.len(),
            r@.len() == j,
            forall|k: int|
                0 <= k < j ==> #[trigger] r@[k] == if on_board && k < height {
                    values@[k]
                } else {
                    old@[k]
                },
        decreases old@.len() - j,
    {
        if on_board && j < height {
            r.push(values[j]);
        } else {
            r.push(old[j]);
        }
        j = j + 1;
    }
    r
}

/// Two points are equal: the same place, the same state, and grids with the
/// same cells.
pub open spec fn same_point(a: Point, b: Point) -> bool {
    &&& a.x == b.x
    &&& a.y == b.y
    &&& a.is_alive == b.is_alive
    &&& cells(a.world@) == cells(b.world@)
}

/// Whether two grids have the same columns, cell by cell.
fn same_grid(a: &Vec<Vec<bool>>, b: &Vec<Vec<bool>>) -> (r: bool)
    ensures
        r == (cells(a@) == cells(b@)),
{
    if a.len() != b.len() {
        assert(cells(a@).len() != cells(b@).len());
        return false;
    }
    let mut i: usize = 0;
    while i < a.len()
        invariant
            i <= a@.len(),
            a@.len() == b@.len(),
            forall|k: int| 0 <= k < i ==> #[trigger] a@[k]@ == b@[k]@,
        decreases a@.len() - i,
    {
        let ca: &Vec<bool> = &a[i];
        let cb: &Vec<bool> = &b[i];
        if ca.len() != cb.len() {
            assert(cells(a@)[i as int] != cells(b@)[i as int]);
            return false;
        }
        let mut j: usize = 0;
        while j < ca.len()
            invariant
                i < a@.len(),
                a@.len() == b@.len(),
                ca@ == a@[i as int]@,
                cb@ == b@[i as int]@,
                j <= ca@.len(),
                ca@.len() == cb@.len(),
                forall|m: int| 0 <= m < j ==> ca@[m] == cb@[m],
            decreases ca@.len() - j,
        {
            if ca[j] != cb[j] {
                assert(cells(a@)[i as int][j as int] != cells(b@)[i as int][j as int]);
                return false;
            }
            j = j + 1;
        }
        assert(ca@ =~= cb@);
        i = i + 1;
    }
    assert(cells(a@) =~= cells(b@));
    true
}

impl Point {
    /// Whether this point equals `other`: see `same_point`.
    pub fn eq_point(&self, other: &Point) -> (r: bool)
        ensures
            r == same_point(*self, *other),
    {
        self.x == other.x && self.y == other.y && self.is_alive == other.is_alive && same_grid(
            &*self.world,
            &*other.world,
        )
    }
}

/// Whether some point of the seed equals `point`.
fn seed_contains(seed: &Vec<Point>, point: &Point) -> (r: bool)
    ensures
        r == exists|k: int| 0 <= k < seed@.len() && same_point(#[trigger] seed@[k], *point),
{
    let mut k: usize = 0;
    while k < seed.len()
        invariant
            k <= seed@.len(),
            forall|m: int| 0 <= m < k ==> !same_point(#[trigger] seed@[m], *point),
        decreases seed@.len() - k,
    {
        if seed[k].eq_point(point) {
            return true;
        }
        k = k + 1;
    }
    false
}

/// A point of the seed equals the point `Point::new_xy` makes at column `x`,
/// row `y` exactly when the seed names that cell.
proof fn lemma_contains_seeded(seed: Seq<Point>, point: Point)
    requires
        !point.is_alive,
        point.world@.len() == 0,
    ensures
        (exists|k: int| 0 <= k < seed.len() && same_point(#[trigger] seed[k], point)) == seeded_at(
            seed,
            point.x as int,
            point.y as int,
        ),
{
    if exists|k: int| 0 <= k < seed.len() && same_point(#[trigger] seed[k], point) {
        let k = choose|k: int| 0 <= k < seed.len() && same_point(#[trigger] seed[k], point);
        assert(cells(seed[k].world@).len() == 0);
    }
    if seeded_at(seed, point.x as int, point.y as int) {
        let k = choose|k: int|
            0 <= k < seed.len() && #[trigger] seed[k].x == point.x && seed[k].y == point.y
                && !seed[k].is_alive && seed[k].world@.len() == 0;
        assert(cells(seed[k].world@) =~= cells(point.world@));
        assert(same_point(seed[k], point));
    }
}

impl World {
    /// A world of `x` columns and `y` rows, all dead, on a grid one column
    /// and one row larger.
    pub fn new(x: usize, y: usize, seed: Vec<Point>, dead: String, alive: String) -> (w: Self)
        requires
            x < usize::MAX,
            y < usize::MAX,
        ensures
            world_wf(w@),
            w@.width == x,
            w@.height == y,
            w@.seed == seed@,
            w@.cells == dead_grid(x + 1, y + 1),
            w@.dead == dead@,
            w@.alive == alive@,
    {
        let mut grid: Vec<Vec<bool>> = Vec::new();
        let mut i: usize = 0;
        while i <= x
            invariant
                i <= x + 1,
                x < usize::MAX,
                y < usize::MAX,
                cells(grid@) == dead_grid(i as int, y + 1),
            decreases x + 1 - i,
        {
            let mut column: Vec<bool> = Vec::new();
            let mut j: usize = 0;
            while j <= y
                invariant
                    j <= y + 1,
                    y < usize::MAX,
                    column@ == Seq::new(j as nat, |k: int| false),
                decreases y + 1 - j,
            {
                column.push(false);
                j = j + 1;
            }
            let ghost before = grid@;
            grid.push(column);
            assert(cells(grid@) =~= cells(before).push(column@));
            assert(cells(grid@) =~= dead_grid(i + 1, y + 1));
            i = i + 1;
        }
        Self { x, y, seed, world: Rc::new(grid), dead, alive }
    }

    /// Places the seed: every cell of the board is alive exactly when the
    /// seed names it; the cells off the board stay as they were.
    pub fn init(&mut self)
        ensures
            world_wf(final(self)@),
            final(self)@.width == old(self)@.width,
            final(self)@.height == old(self)@.height,
            final(self)@.seed == old(self)@.seed,
            final(self)@.dead == old(self)@.dead,
            final(self)@.alive == old(self)@.alive,
            board_set(
                old(self)@.cells,
                final(self)@.cells,
                old(self)@.width as int,
                old(self)@.height as int,
                |i: int, j: int| seeded_at(old(self)@.seed, i, j),
            ),
    {
        proof {
            use_type_invariant(&*self);
        }
        let ghost start = self@;
        let old_grid = share_grid(&self.world);
        let mut grid: Vec<Vec<bool>> = Vec::new();
        let mut i: usize = 0;
        while i < old_grid.len()
            invariant
                i <= old_grid@.len(),
                self@ == start,
                world_wf(start),
                cells(old_grid@) == start.cells,
                grid@.len() == i,
                forall|k: int| 0 <= k < i ==> (#[trigger] grid@[k])@.len() == start.cells[k].len(),
                forall|k: int, j: int|
                    0 <= k < i && 0 <= j < start.cells[k].len() ==> #[trigger] grid@[k]@[j] == if k
                        < start.width && j < start.height {
                        seeded_at(start.seed, k, j)
                    } else {
                        start.cells[k][j]
                    },
            decreases old_grid@.len() - i,
        {
            let mut values: Vec<bool> = Vec::new();
            if i < self.x {
                let mut j: usize = 0;
                while j < self.y
                    invariant
                        j <= self.y,
                        self@ == start,
                        values@.len() == j,
                        forall|m: int|
                            0 <= m < j ==> #[trigger] values@[m] == seeded_at(start.seed, i as int, m),
                    decreases self.y - j,
                {
                    let point = Point::new_xy(i, j);
                    let found = seed_contains(&self.seed, &point);
                    proof {
                        lemma_contains_seeded(self.seed@, point);
                    }
                    values.push(found);
                    j = j + 1;
                }
            }
            assert(old_grid@[i as int]@ == start.cells[i as int]);
            let column = column_of(&old_grid[i], i < self.x, self.y, &values);
            grid.push(column);
            i = i + 1;
        }
        self.world = Rc::new(grid);
        assert(cells(self.world@).len() == start.cells.len());
        assert forall|k: int| 0 <= k < start.cells.len() implies (#[trigger] cells(self.world@)[k]).len()
            == start.cells[k].len() by {}
    }

    /// One generation: every cell of the board takes its next state by
    /// Conway's rule, all of them read from the board as it was before; the
    /// cells off the board stay as they were.
    pub fn update(&mut self)
        ensures
            world_wf(final(self)@),
            final(self)@.width == old(self)@.width,
            final(self)@.height == old(self)@.height,
            final(self)@.seed == old(self)@.seed,
            final(self)@.dead == old(self)@.dead,
            final(self)@.alive == old(self)@.alive,
            board_set(
                old(self)@.cells,
                final(self)@.cells,
                old(self)@.width as int,
                old(self)@.height as int,
                |i: int, j: int|
                    next_state(old(self)@.cells[i][j], live_neighbors(old(self)@.cells, i, j)),
            ),
    {
        proof {
            use_type_invariant(&*self);
        }
        let ghost start = self@;
        let old_grid = share_grid(&self.world);
        let mut grid: Vec<Vec<bool>> = Vec::new();
        let mut i: usize = 0;
        while i < old_grid.len()
            invariant
                i <= old_grid@.len(),
                self@ == start,
                world_wf(start),
                cells(old_grid@) == start.cells,
                grid@.len() == i,
                forall|k: int| 0 <= k < i ==> (#[trigger] grid@[k])@.len() == start.cells[k].len(),
                forall|k: int, j: int|
                    0 <= k < i && 0 <= j < start.cells[k].len() ==> #[trigger] grid@[k]@[j] == if k
                        < start.width && j < start.height {
                        next_state(start.cells[k][j], live_neighbors(start.cells, k, j))
                    } else {
                        start.cells[k][j]
                    },
            decreases old_grid@.len() - i,
        {
            let mut values: Vec<bool> = Vec::new();
            if i < self.x {
                let mut j: usize = 0;
                while j < self.y
                    invariant
                        i < self.x,
                        j <= self.y,
                        self@ == start,
                        world_wf(start),
                        cells(old_grid@) == start.cells,
                        values@.len() == j,
                        forall|m: int|
                            0 <= m < j ==> #[trigger] values@[m] == next_state(
                                start.cells[i as int][m],
                                live_neighbors(start.cells, i as int, m),
                            ),
                    decreases self.y - j,
                {
                    assert(old_grid@[i as int]@ == start.cells[i as int]);
                    let is_alive = old_grid[i][j];
                    let point = Point::new(i, j, is_alive, share_grid(&old_grid));
                    assert(start.cells[(i + 1) as int].len() == start.height + 1);
                    assert(i > 0 ==> start.cells[(i - 1) as int].len() == start.height + 1);
                    let should_live = point.check_around();
                    values.push(should_live);
                    j = j + 1;
                }
            }
            assert(old_grid@[i as int]@ == start.cells[i as int]);
            let column = column_of(&old_grid[i], i < self.x, self.y, &values);
            grid.push(column);
            i = i + 1;
        }
        self.world = Rc::new(grid);
        assert(cells(self.world@).len() == start.cells.len());
        assert forall|k: int| 0 <= k < start.cells.len() implies (#[trigger] cells(self.world@)[k]).len()
            == start.cells[k].len() by {}
    }
}

impl World {
    /// The drawing of the board, row by row: each cell at screen column
    /// `2 * x` and screen row `y` (cut to 16 bits), and whether any cell of
    /// the board is alive.
    pub fn draw(&self) -> (f: Frame)
        requires
            self@.height == 0 || self@.width <= 32768,
        ensures
            f.any_alive == exists|i: int, j: int|
                0 <= i < self@.width && 0 <= j < self@.height && #[trigger] self@.cells[i][j],
            f.rows@.len() == self@.height,
            forall|j: int| 0 <= j < self@.height ==> (#[trigger] f.rows@[j])@.len() == self@.width,
            forall|i: int, j: int|
                0 <= i < self@.width && 0 <= j < self@.height ==> #[trigger] f.rows@[j]@[i] == (Glyph {
                    col: (2 * i) as u16,
                    row: j as u16,
                    alive: self@.cells[i][j],
                }),
    {
        proof {
            use_type_invariant(self);
        }
        let ghost v = self@;
        let mut alive = false;
        let mut rows: Vec<Vec<Glyph>> = Vec::new();
        let mut y: usize = 0;
        while y < self.y
            invariant
                y <= v.height,
                self@ == v,
                world_wf(v),
                v.height == 0 || v.width <= 32768,
                rows@.len() == y,
                forall|j: int| 0 <= j < y ==> (#[trigger] rows@[j])@.len() == v.width,
                forall|i: int, j: int|
                    0 <= i < v.width && 0 <= j < y ==> #[trigger] rows@[j]@[i] == (Glyph {
                        col: (2 * i) as u16,
                        row: j as u16,
                        alive: v.cells[i][j],
                    }),
                alive == exists|i: int, j: int|
                    0 <= i < v.width && 0 <= j < y && #[trigger] v.cells[i][j],
            decreases v.height - y,
        {
            let mut row: Vec<Glyph> = Vec::new();
            let ghost alive_before = alive;
            let mut x: usize = 0;
            while x < self.x
                invariant
                    x <= v.width,
                    y < v.height,
                    v.width <= 32768,
                    self@ == v,
                    world_wf(v),
                    row@.len() == x,
                    forall|i: int| 0 <= i < x ==> #[trigger] row@[i] == (Glyph {
                        col: (2 * i) as u16,
                        row: y as u16,
                        alive: v.cells[i][y as int],
                    }),
                    alive == (alive_before || exists|i: int| 0 <= i < x && #[trigger] v.cells[i][y as int]),
                decreases v.width - x,
            {
                assert(self.world@[x as int]@ == v.cells[x as int]);
                let is_alive = self.world[x][y];
                if is_alive {
                    alive = true;
                }
                let col: u16 = (x as u16) * 2;
                row.push(Glyph { col, row: y as u16, alive: is_alive });
                x = x + 1;
            }
            rows.push(row);
            proof {
                assert forall|i: int, j: int|
                    0 <= i < v.width && 0 <= j < y + 1 implies #[trigger] rows@[j]@[i] == (Glyph {
                        col: (2 * i) as u16,
                        row: j as u16,
                        alive: v.cells[i][j],
                    }) by {
                    if j == y {
                        assert(rows@[j] == row);
                    }
                }
                if alive {
                    if !alive_before {
                        let i = choose|i: int| 0 <= i < v.width && #[trigger] v.cells[i][y as int];
                        assert(v.cells[i][y as int]);
                    }
                }
                if exists|i: int, j: int| 0 <= i < v.width && 0 <= j < y + 1 && #[trigger] v.cells[i][j] {
                    let (i, j) = choose|i: int, j: int| 0 <= i < v.width && 0 <= j < y + 1 && #[trigger] v.cells[i][j];
                    if j < y {
                        assert(alive_before);
                    } else {
                        assert(v.cells[i][y as int]);
                    }
                }
            }
            y = y + 1;
        }
        Frame { any_alive: alive, rows }
    }

    /// The symbol a cell is drawn with: the live one or the dead one.
    pub fn symbol(&self, alive: bool) -> (s: &String)
        ensures
            s@ == if alive { self@.alive } else { self@.dead },
    {
        if alive {
            &self.alive
        } else {
            &self.dead
        }
    }

    /// The width of the board.
    pub fn width(&self) -> (r: usize)
        ensures
            r == self@.width,
    {
        self.x
    }

    /// The height of the board.
    pub fn height(&self) -> (r: usize)
        ensures
            r == self@.height,
    {
        self.y
    }

    /// Whether the cell at column `x`, row `y` of the grid is alive.
    pub fn cell(&self, x: usize, y: usize) -> (r: bool)
        requires
            x <= self@.width,
            y <= self@.height,
        ensures
            r == self@.cells[x as int][y as int],
    {
        proof {
            use_type_invariant(self);
        }
        assert(self.world@[x as int]@ == self@.cells[x as int]);
        self.world[x][y]
    }
}

/// The coordinate that a draw `v` becomes after the round trip through
/// `i32` that seeds take: `v` itself when it fits in an `i32`.
pub open spec fn via_i32(v: usize) -> usize {
    ((v as i32) as usize)
}

/// `c` is a coordinate drawn below `bound`.
pub open spec fn drawn_below(c: usize, bound: usize) -> bool {
    exists|v: usize| v < bound && c == #[trigger] via_i32(v)
}

/// The 32-byte seed of a generator built from 8 bytes: the bytes first,
/// then zeros.
pub fn seed_from_bytes(bytes: [u8; 8]) -> (r: [u8; 32])
    ensures
        r@ == bytes@ + Seq::new(24, |i: int| 0u8),
{
    let mut seed = [0u8; 32];
    let mut b: usize = 0;
    while b < 8
        invariant
            b <= 8,
            seed@.len() == 32,
            forall|i: int| 0 <= i < b ==> seed@[i] == bytes@[i],
            forall|i: int| b <= i < 32 ==> seed@[i] == 0u8,
        decreases 8 - b,
    {
        seed[b] = bytes[b];
        b = b + 1;
    }
    assert(seed@ =~= bytes@ + Seq::new(24, |i: int| 0u8));
    seed
}

/// Where the seed's random points come from: the given seed, or else a
/// number from the thread-local generator; and `n` points, each dead, in an
/// empty grid, at a column drawn below `x` and a row drawn below `y` by a
/// generator seeded with that number's bytes followed by zeros (see
/// `seed_from_bytes`). The number is returned with the points.
pub fn make_seed(x: usize, y: usize, n: usize, basic_seed: Option<usize>) -> (r: (usize, Vec<Point>))
    requires
        n > 0 ==> x > 0 && y > 0,
    ensures
        basic_seed matches Some(s) ==> r.0 == s,
        r.1@.len() == n,
        forall|k: int|
            0 <= k < n ==> {
                &&& !(#[trigger] r.1@[k]).is_alive
                &&& r.1@[k].world@.len() == 0
                &&& drawn_below(r.1@[k].x, x)
                &&& drawn_below(r.1@[k].y, y)
            },
{
    let mut rng_seed = new_thread_rng();
    let mut begin_seed: usize = thread_usize(&mut rng_seed);
    if let Some(seed) = basic_seed {
        begin_seed = seed;
    }
    let seed_bytes: [u8; 8] = native_bytes(begin_seed);
    let seed = seed_from_bytes(seed_bytes);
    let mut rng = seeded_rng(seed);
    let mut points: Vec<Point> = Vec::new();
    let mut i: usize = 0;
    while i < n
        invariant
            i <= n,
            n > 0 ==> x > 0 && y > 0,
            points@.len() == i,
            forall|k: int|
                0 <= k < i ==> {
                    &&& !(#[trigger] points@[k]).is_alive
                    &&& points@[k].world@.len() == 0
                    &&& drawn_below(points@[k].x, x)
                    &&& drawn_below(points@[k].y, y)
                },
        decreases n - i,
    {
        let vx = seeded_below(&mut rng, x);
        let vy = seeded_below(&mut rng, y);
        let nx: i32 = vx as i32;
        let ny: i32 = vy as i32;
        let point = Point::new_xy(nx as usize, ny as usize);
        assert(point.x == via_i32(vx));
        assert(point.y == via_i32(vy));
        points.push(point);
        i = i + 1;
    }
    (begin_seed, points)
}

/// A coordinate drawn below a bound that fits in an `i32` lies below that
/// bound: seeds of such a board land on the board.
pub proof fn lemma_seed_on_board(c: usize, bound: usize)
    requires
        drawn_below(c, bound),
        bound <= 0x8000_0000,
    ensures
        c < bound,
{
    let v = choose|v: usize| v < bound && c == #[trigger] via_i32(v);
    assert(v <= 0x7fff_ffff ==> ((v as i32) as usize) == v) by (bit_vector);
}

/// A board with no live cell stays without one: no cell comes to life
/// without three live neighbors.
pub proof fn lemma_dead_board_stays_dead(
    old: Seq<Seq<bool>>,
    new: Seq<Seq<bool>>,
    width: int,
    height: int,
)
    requires
        board_set(old, new, width, height, |i: int, j: int| next_state(old[i][j], live_neighbors(old, i, j))),
        forall|i: int, j: int| 0 <= i < old.len() && 0 <= j < old[i].len() ==> !#[trigger] old[i][j],
    ensures
        forall|i: int, j: int| 0 <= i < new.len() && 0 <= j < new[i].len() ==> !#[trigger] new[i][j],
{
    assert forall|i: int, j: int| 0 <= i < new.len() && 0 <= j < new[i].len() implies !#[trigger] new[i][j] by {
        assert(old[i].len() == new[i].len());
        assert(!old[i][j]);
        if i < width && j < height {
            assert(!cell_alive(old, i - 1, j - 1));
            assert(!cell_alive(old, i - 1, j));
            assert(!cell_alive(old, i - 1, j + 1));
            assert(!cell_alive(old, i, j - 1));
            assert(!cell_alive(old, i, j + 1));
            assert(!cell_alive(old, i + 1, j - 1));
            assert(!cell_alive(old, i + 1, j));
            assert(!cell_alive(old, i + 1, j + 1));
        }
    }
}

} // verus!
