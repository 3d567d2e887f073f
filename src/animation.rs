//! The animation state kept between ticks of the slow timer: a step counter
//! and the board, advanced by one generation every fifth tick.
use vstd::prelude::*;
use crate::frame::{draw_grid, shows, Frame};
use crate::grid::{cells, next_generation, update_grid, Grid};

verus! {

/// The largest value the step counter holds; the tick that would take it
/// past this value advances the board and sets the counter back to 0.
pub const MAX_STEP: u8 = 4;

/// The board the animation starts from: a hollow 3×3 ring in the middle.
pub open spec fn ring_seed() -> Seq<Seq<bool>> {
    seq![
        seq![false, false, false, false, false],
        seq![false, true, true, true, false],
        seq![false, true, false, true, false],
        seq![false, true, true, true, false],
        seq![false, false, false, false, false],
    ]
}

/// The effect of one tick on the counter and the board.
pub open spec fn tick_model(counter: nat, c: Seq<Seq<bool>>) -> (nat, Seq<Seq<bool>>) {
    if counter + 1 > MAX_STEP {
        (0, next_generation(c))
    } else {
        (counter + 1, c)
    }
}

/// The counter and the board after n ticks.
pub open spec fn after_ticks(counter: nat, c: Seq<Seq<bool>>, n: nat) -> (nat, Seq<Seq<bool>>)
    decreases n,
{
    if n == 0 {
        (counter, c)
    } else {
        let (k, d) = tick_model(counter, c);
        after_ticks(k, d, (n - 1) as nat)
    }
}

/// Builds the starting board, the hollow ring.
pub fn seed_grid() -> (r: Grid)
    ensures
        cells(r) == ring_seed(),
{
    let r: Grid = [
        [false, false, false, false, false],
        [false, true, true, true, false],
        [false, true, false, true, false],
        [false, true, true, true, false],
        [false, false, false, false, false],
    ];
    assert(cells(r)[0] =~= ring_seed()[0]);
    assert(cells(r)[1] =~= ring_seed()[1]);
    assert(cells(r)[2] =~= ring_seed()[2]);
    assert(cells(r)[3] =~= ring_seed()[3]);
    assert(cells(r)[4] =~= ring_seed()[4]);
    assert(cells(r) =~= ring_seed());
    r
}

/// The state that the animation handler keeps from one tick to the next.
pub struct Animator {
    step: u8,
    grid: Grid,
}

impl Animator {
    /// The number of ticks since the board last advanced.
    pub closed spec fn counter(&self) -> nat {
        self.step as nat
    }

    /// The board as it stands.
    pub closed spec fn board(&self) -> Grid {
        self.grid
    }

    /// The counter never exceeds `MAX_STEP`.
    pub open spec fn wf(&self) -> bool {
        self.counter() <= MAX_STEP
    }

    /// The state at power-on: the ring on the board, the counter at 0.
    pub fn new() -> (r: Animator)
        ensures
            r.wf(),
            r.counter() == 0,
            cells(r.board()) == ring_seed(),
    {
        Animator { step: 0, grid: seed_grid() }
    }

    /// Handles one tick: counts it, advances the board when the counter
    /// passes `MAX_STEP` (and then sets the counter to 0), and returns the
    /// image of the board as it now stands, whether it advanced or not.
    pub fn tick(&mut self) -> (r: Frame)
        requires
            old(self).wf(),
        ensures
            final(self).wf(),
            (final(self).counter(), cells(final(self).board()))
                == tick_model(old(self).counter(), cells(old(self).board())),
            shows(r, final(self).board()),
    {
        let mut grid = self.grid;
        self.step = self.step + 1;
        if self.step > MAX_STEP {
            update_grid(&mut grid);
            self.step = 0;
        }
        self.grid = grid;
        draw_grid(&grid)
    }

    /// The number of ticks since the board last advanced.
    pub fn step_count(&self) -> (r: u8)
        ensures
            r as nat == self.counter(),
    {
        self.step
    }

    /// A copy of the board.
    pub fn grid(&self) -> (r: Grid)
        ensures
            r == self.board(),
    {
        self.grid
    }
}

/// Starting from a counter of 0, the four ticks that follow leave the board
/// as it was and only count, and the fifth advances the board by exactly
/// one generation and brings the counter back to 0.
pub proof fn lemma_fifth_tick_advances(c: Seq<Seq<bool>>)
    ensures
        forall|n: nat| 1 <= n <= 4 ==> #[trigger] after_ticks(0, c, n) == (n, c),
        after_ticks(0, c, 5) == (0nat, next_generation(c)),
{
    reveal_with_fuel(after_ticks, 6);
    assert forall|n: nat| 1 <= n <= 4 implies #[trigger] after_ticks(0, c, n) == (n, c) by {
        if n == 1 {
        } else if n == 2 {
        } else if n == 3 {
        } else {
        }
    }
}

} // verus!
