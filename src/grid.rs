//! The grid model: a fixed 5×5 toroidal board of cells, the neighbour count
//! and the one-generation step of Conway's rule.
use vstd::prelude::*;

verus! {

/// Number of columns of the board.
pub const WIDTH: usize = 5;

/// Number of rows of the board.
pub const HEIGHT: usize = 5;

/// A board of cells, indexed `grid[y][x]`; `true` is alive.
pub type Grid = [[bool; WIDTH]; HEIGHT];

/// The board as a sequence of rows, each a sequence of cells.
pub open spec fn cells(g: Grid) -> Seq<Seq<bool>> {
    Seq::new(HEIGHT as nat, |y: int| g[y]@)
}

/// Whether the cell at (x, y) is alive, coordinates taken modulo the board's
/// dimensions: the board has no edges.
pub open spec fn alive_at(c: Seq<Seq<bool>>, x: int, y: int) -> bool {
    c[y % (HEIGHT as int)][x % (WIDTH as int)]
}

/// 1 for a live cell, 0 for a dead one.
pub open spec fn live(c: Seq<Seq<bool>>, x: int, y: int) -> int {
    if alive_at(c, x, y) {
        1
    } else {
        0
    }
}

/// How many of the eight cells around (x, y) are alive.
pub open spec fn live_neighbors(c: Seq<Seq<bool>>, x: int, y: int) -> int {
    live(c, x - 1, y - 1) + live(c, x, y - 1) + live(c, x + 1, y - 1)
    + live(c, x - 1, y) + live(c, x + 1, y)
    + live(c, x - 1, y + 1) + live(c, x, y + 1) + live(c, x + 1, y + 1)
}

/// The cell at position k of the 3×3 block around (x, y): k / 3 picks the
/// x offset and k % 3 the y offset, each of -1, 0, +1; the centre (k == 4)
/// counts nothing.
spec fn block_term(c: Seq<Seq<bool>>, x: int, y: int, k: int) -> int {
    if k == 4 {
        0
    } else {
        live(c, x + k / 3 - 1, y + k % 3 - 1)
    }
}

/// The live cells among the first k offsets of the 3×3 block around (x, y).
spec fn block_count(c: Seq<Seq<bool>>, x: int, y: int, k: nat) -> int
    decreases k,
{
    if k == 0 {
        0
    } else {
        block_count(c, x, y, (k - 1) as nat) + block_term(c, x, y, k - 1)
    }
}

/// Each of the first k positions adds 0 or 1.
proof fn lemma_block_count_bound(c: Seq<Seq<bool>>, x: int, y: int, k: nat)
    ensures
        0 <= block_count(c, x, y, k) <= k,
    decreases k,
{
    if k > 0 {
        lemma_block_count_bound(c, x, y, (k - 1) as nat);
    }
}

/// All nine positions of the block count the eight neighbours.
proof fn lemma_block_count_full(c: Seq<Seq<bool>>, x: int, y: int)
    ensures
        block_count(c, x, y, 9) == live_neighbors(c, x, y),
{
    reveal_with_fuel(block_count, 10);
}

/// Stepping a non-negative coordinate by an offset in {-1, 0, +1}, written as
/// the unsigned sum that the executable code computes.
proof fn lemma_wrap(a: int, d: int, n: int)
    requires
        a >= 0,
        0 <= d < 3,
        n == 5,
    ensures
        (a % n + d + n - 1) % n == (a + d - 1) % n,
{
}

/// Counts the live cells among the eight around (x, y) on the torus. The
/// coordinates are taken modulo the board's dimensions.
pub fn count_neighbors(grid: &Grid, x: usize, y: usize) -> (r: usize)
    ensures
        r as int == live_neighbors(cells(*grid), x as int, y as int),
        r <= 8,
{
    let ghost c = cells(*grid);
    let mut count: usize = 0;
    let mut dx: usize = 0;
    while dx < 3
        invariant
            c == cells(*grid),
            dx <= 3,
            count as int == block_count(c, x as int, y as int, (3 * dx) as nat),
        decreases 3 - dx,
    {
        let mut dy: usize = 0;
        while dy < 3
            invariant
                c == cells(*grid),
                dx < 3,
                dy <= 3,
                count as int == block_count(c, x as int, y as int, (3 * dx + dy) as nat),
            decreases 3 - dy,
        {
            proof {
                lemma_block_count_bound(c, x as int, y as int, (3 * dx + dy) as nat);
            }
            if dx == 1 && dy == 1 {
                dy += 1;
                continue;
            }
            let nx = (x % WIDTH + dx + WIDTH - 1) % WIDTH;
            let ny = (y % HEIGHT + dy + HEIGHT - 1) % HEIGHT;
            proof {
                lemma_wrap(x as int, dx as int, WIDTH as int);
                lemma_wrap(y as int, dy as int, HEIGHT as int);
                assert((3 * dx + dy) / 3 == dx && (3 * dx + dy) % 3 == dy);
            }
            proof {
            }
            if grid[ny][nx] {
                count += 1;
            }
            dy += 1;
        }
        dx += 1;
    }
    proof {
        lemma_block_count_full(c, x as int, y as int);
        lemma_block_count_bound(c, x as int, y as int, 9);
    }
    count
}


/// Conway's rule for the cell at (x, y): a live cell survives with two or
/// three live neighbours, a dead one comes alive with exactly three.
pub open spec fn next_alive(c: Seq<Seq<bool>>, x: int, y: int) -> bool {
    let n = live_neighbors(c, x, y);
    if alive_at(c, x, y) {
        n == 2 || n == 3
    } else {
        n == 3
    }
}

/// Row y of the next generation.
pub open spec fn next_row(c: Seq<Seq<bool>>, y: int) -> Seq<bool> {
    Seq::new(WIDTH as nat, |x: int| next_alive(c, x, y))
}

/// The next generation of the whole board, every cell computed from `c`.
pub open spec fn next_generation(c: Seq<Seq<bool>>) -> Seq<Seq<bool>> {
    Seq::new(HEIGHT as nat, |y: int| next_row(c, y))
}

/// Computes the next generation of the board. Every cell of the result is
/// computed from `grid` as it was passed in, never from cells already
/// computed.
pub fn step(grid: &Grid) -> (r: Grid)
    ensures
        cells(r) == next_generation(cells(*grid)),
{
    let ghost c = cells(*grid);
    let mut new_grid: Grid = [[false; WIDTH]; HEIGHT];
    let mut y: usize = 0;
    while y < HEIGHT
        invariant
            c == cells(*grid),
            y <= HEIGHT,
            forall|j: int| 0 <= j < y ==> new_grid[j]@ == next_row(c, j),
        decreases HEIGHT - y,
    {
        let mut row: [bool; WIDTH] = [false; WIDTH];
        let mut x: usize = 0;
        while x < WIDTH
            invariant
                c == cells(*grid),
                y < HEIGHT,
                x <= WIDTH,
                forall|i: int| 0 <= i < x ==> row[i] == next_alive(c, i, y as int),
                forall|i: int| x <= i < WIDTH ==> !row[i],
            decreases WIDTH - x,
        {
            let neighbors = count_neighbors(grid, x, y);
            proof {
                assert(alive_at(c, x as int, y as int) == grid[y as int][x as int]);
            }
            if grid[y][x] && (neighbors == 2 || neighbors == 3) {
                row[x] = true;
            } else if !grid[y][x] && neighbors == 3 {
                row[x] = true;
            }
            x += 1;
        }
        assert(row@ =~= next_row(c, y as int));
        new_grid[y] = row;
        y += 1;
    }
    assert(cells(new_grid) =~= next_generation(c));
    new_grid
}

/// Advances the board by one generation in place.
pub fn update_grid(grid: &mut Grid)
    ensures
        cells(*final(grid)) == next_generation(cells(*old(grid))),
{
    *grid = step(&*grid);
}

/// On the torus every cell has eight distinct neighbours: two offsets in
/// {-1, 0, +1}² reach the same cell only when they are the same offset, also
/// where a step crosses from one edge of the board to the other. So the eight
/// offsets other than (0, 0) count eight different cells, none of them (x, y).
pub proof fn lemma_neighbors_distinct(x: int, y: int, dx1: int, dy1: int, dx2: int, dy2: int)
    requires
        -1 <= dx1 <= 1,
        -1 <= dy1 <= 1,
        -1 <= dx2 <= 1,
        -1 <= dy2 <= 1,
    ensures
        ((x + dx1) % (WIDTH as int) == (x + dx2) % (WIDTH as int)
            && (y + dy1) % (HEIGHT as int) == (y + dy2) % (HEIGHT as int))
            <==> (dx1 == dx2 && dy1 == dy2),
{
    lemma_small_offsets_distinct(x, dx1, dx2, WIDTH as int);
    lemma_small_offsets_distinct(y, dy1, dy2, HEIGHT as int);
}

/// On a cycle of five, offsets of at most one either way land on the same
/// place only when they are equal.
proof fn lemma_small_offsets_distinct(a: int, d1: int, d2: int, n: int)
    requires
        -1 <= d1 <= 1,
        -1 <= d2 <= 1,
        n == 5,
    ensures
        (a + d1) % n == (a + d2) % n <==> d1 == d2,
{
    vstd::arithmetic::div_mod::lemma_fundamental_div_mod(a + d1, n);
    vstd::arithmetic::div_mod::lemma_fundamental_div_mod(a + d2, n);
    if (a + d1) % n == (a + d2) % n {
        let q1 = (a + d1) / n;
        let q2 = (a + d2) / n;
        assert(n * q1 - n * q2 == d1 - d2);
        assert(n * (q1 - q2) == d1 - d2) by (nonlinear_arith)
            requires n * q1 - n * q2 == d1 - d2;
        if q1 != q2 {
            assert(q1 - q2 >= 1 || q1 - q2 <= -1);
            assert(n * (q1 - q2) >= 5 || n * (q1 - q2) <= -5) by (nonlinear_arith)
                requires n == 5, q1 - q2 >= 1 || q1 - q2 <= -1;
        }
    }
}

/// A board with no live cell stays without one: nothing comes alive from
/// nothing.
pub proof fn lemma_empty_stays_empty(g: Grid)
    requires
        forall|y: int, x: int| 0 <= y < HEIGHT && 0 <= x < WIDTH ==> !#[trigger] g[y][x],
    ensures
        next_generation(cells(g)) == cells(g),
{
    let c = cells(g);
    assert forall|y: int| 0 <= y < HEIGHT implies #[trigger] next_generation(c)[y] =~= c[y] by {
        assert forall|x: int| 0 <= x < WIDTH implies !#[trigger] next_row(c, y)[x] by {
            assert(!alive_at(c, x - 1, y - 1) && !alive_at(c, x, y - 1) && !alive_at(c, x + 1, y - 1));
            assert(!alive_at(c, x - 1, y) && !alive_at(c, x, y) && !alive_at(c, x + 1, y));
            assert(!alive_at(c, x - 1, y + 1) && !alive_at(c, x, y + 1) && !alive_at(c, x + 1, y + 1));
        }
    }
    assert(next_generation(c) =~= c);
}

} // verus!
