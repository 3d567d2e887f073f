use torus_life::animation::{seed_grid, Animator};
use torus_life::frame::{draw_grid, Frame, BRIGHTNESS};
use torus_life::grid::{count_neighbors, step, update_grid, Grid};

fn from_rows(rows: [[u8; 5]; 5]) -> Grid {
    let mut g = [[false; 5]; 5];
    for y in 0..5 {
        for x in 0..5 {
            g[y][x] = rows[y][x] == 1;
        }
    }
    g
}

fn ring() -> Grid {
    from_rows([
        [0, 0, 0, 0, 0],
        [0, 1, 1, 1, 0],
        [0, 1, 0, 1, 0],
        [0, 1, 1, 1, 0],
        [0, 0, 0, 0, 0],
    ])
}

fn ring_next() -> Grid {
    from_rows([
        [0, 0, 1, 0, 0],
        [0, 1, 0, 1, 0],
        [1, 0, 0, 0, 1],
        [0, 1, 0, 1, 0],
        [0, 0, 1, 0, 0],
    ])
}

fn ring_after_two() -> Grid {
    from_rows([
        [0, 1, 1, 1, 0],
        [1, 1, 1, 1, 1],
        [1, 1, 0, 1, 1],
        [1, 1, 1, 1, 1],
        [0, 1, 1, 1, 0],
    ])
}

fn frame_of(g: &Grid) -> Frame {
    let mut f = [[0u8; 5]; 5];
    for y in 0..5 {
        for x in 0..5 {
            f[y][x] = if g[y][x] { 7 } else { 0 };
        }
    }
    f
}

#[test]
fn seed_is_hollow_ring() {
    assert_eq!(seed_grid(), ring());
}

#[test]
fn ring_neighbor_counts() {
    let expected: [[usize; 5]; 5] = [
        [1, 2, 3, 2, 1],
        [2, 2, 4, 2, 2],
        [3, 4, 8, 4, 3],
        [2, 2, 4, 2, 2],
        [1, 2, 3, 2, 1],
    ];
    let g = ring();
    for y in 0..5 {
        for x in 0..5 {
            assert_eq!(count_neighbors(&g, x, y), expected[y][x], "cell ({}, {})", x, y);
        }
    }
}

#[test]
fn corner_cell_is_seen_across_both_edges() {
    let mut g = [[false; 5]; 5];
    g[0][0] = true;
    assert_eq!(count_neighbors(&g, 4, 4), 1);
    assert_eq!(count_neighbors(&g, 1, 1), 1);
    assert_eq!(count_neighbors(&g, 4, 0), 1);
    assert_eq!(count_neighbors(&g, 0, 4), 1);
    assert_eq!(count_neighbors(&g, 1, 4), 1);
    assert_eq!(count_neighbors(&g, 4, 1), 1);
    assert_eq!(count_neighbors(&g, 0, 0), 0);
    assert_eq!(count_neighbors(&g, 2, 2), 0);
    assert_eq!(count_neighbors(&g, 3, 0), 0);
}

#[test]
fn full_board_has_eight_neighbors_everywhere() {
    let g = [[true; 5]; 5];
    for y in 0..5 {
        for x in 0..5 {
            assert_eq!(count_neighbors(&g, x, y), 8);
        }
    }
}

#[test]
fn coordinates_wrap_modulo_the_board() {
    let g = ring();
    assert_eq!(count_neighbors(&g, 7, 2), count_neighbors(&g, 2, 2));
    assert_eq!(count_neighbors(&g, 5, 9), count_neighbors(&g, 0, 4));
    assert_eq!(count_neighbors(&g, usize::MAX, 0), count_neighbors(&g, 0, 0));
}

#[test]
fn ring_steps_to_toroidal_diamond() {
    let next = step(&ring());
    let expected = ring_next();
    for y in 0..5 {
        for x in 0..5 {
            assert_eq!(next[y][x], expected[y][x], "cell ({}, {})", x, y);
        }
    }
    assert_eq!(step(&next), ring_after_two());
}

#[test]
fn empty_board_stays_empty() {
    let g = [[false; 5]; 5];
    assert_eq!(step(&g), g);
}

#[test]
fn blinker_oscillates() {
    let h = from_rows([
        [0, 0, 0, 0, 0],
        [0, 0, 0, 0, 0],
        [0, 1, 1, 1, 0],
        [0, 0, 0, 0, 0],
        [0, 0, 0, 0, 0],
    ]);
    let v = from_rows([
        [0, 0, 0, 0, 0],
        [0, 0, 1, 0, 0],
        [0, 0, 1, 0, 0],
        [0, 0, 1, 0, 0],
        [0, 0, 0, 0, 0],
    ]);
    assert_eq!(step(&h), v);
    assert_eq!(step(&v), h);
}

#[test]
fn block_is_still() {
    let b = from_rows([
        [0, 0, 0, 0, 0],
        [0, 1, 1, 0, 0],
        [0, 1, 1, 0, 0],
        [0, 0, 0, 0, 0],
        [0, 0, 0, 0, 0],
    ]);
    assert_eq!(step(&b), b);
}

#[test]
fn update_grid_replaces_board_with_next_generation() {
    let mut g = ring();
    update_grid(&mut g);
    assert_eq!(g, ring_next());
    update_grid(&mut g);
    assert_eq!(g, ring_after_two());
}

#[test]
fn draw_grid_lights_exactly_live_cells() {
    let g = ring();
    let f = draw_grid(&g);
    assert_eq!(f.len(), 5);
    for y in 0..5 {
        assert_eq!(f[y].len(), 5);
        for x in 0..5 {
            if g[y][x] {
                assert_eq!(f[y][x], BRIGHTNESS);
                assert_eq!(f[y][x], 7);
            } else {
                assert_eq!(f[y][x], 0);
            }
        }
    }
    assert_eq!(draw_grid(&[[false; 5]; 5]), [[0u8; 5]; 5]);
    assert_eq!(draw_grid(&[[true; 5]; 5]), [[7u8; 5]; 5]);
}

#[test]
fn animator_starts_at_seed_with_zero_count() {
    let a = Animator::new();
    assert_eq!(a.step_count(), 0);
    assert_eq!(a.grid(), ring());
}

#[test]
fn five_ticks_advance_exactly_one_generation() {
    let mut a = Animator::new();
    for n in 1..5u8 {
        let f = a.tick();
        assert_eq!(a.step_count(), n);
        assert_eq!(a.grid(), ring());
        assert_eq!(f, frame_of(&ring()));
    }
    let f = a.tick();
    assert_eq!(a.step_count(), 0);
    assert_eq!(a.grid(), ring_next());
    assert_eq!(f, frame_of(&ring_next()));
}

#[test]
fn ten_ticks_advance_two_generations() {
    let mut a = Animator::new();
    for _ in 0..10 {
        a.tick();
    }
    assert_eq!(a.step_count(), 0);
    assert_eq!(a.grid(), ring_after_two());
    let f = a.tick();
    assert_eq!(a.step_count(), 1);
    assert_eq!(f, frame_of(&ring_after_two()));
}
