//! The generation step: toroidal neighbor counting and the standard
//! birth/survival rule, computed for a whole grid from a fixed pre-step
//! snapshot.

use vstd::prelude::*;
use crate::grid::{cell_at, wf_grid, Chunk};

verus! {

/// One if the cell is alive, zero if it is dead.
pub open spec fn b2i(b: bool) -> int {
    if b {
        1
    } else {
        0
    }
}

/// The row or column one step up, wrapping from edge 0 to edge 31.
pub open spec fn wrap_dec(x: int) -> int {
    if x == 0 {
        31
    } else {
        x - 1
    }
}

/// The row or column one step down, wrapping from edge 31 to edge 0.
pub open spec fn wrap_inc(x: int) -> int {
    if x == 31 {
        0
    } else {
        x + 1
    }
}

/// How many of the eight toroidal neighbors of (`i`, `j`) are alive.
pub open spec fn neighbor_count(g: Seq<Seq<bool>>, i: int, j: int) -> int
    recommends
        wf_grid(g),
        0 <= i < 32,
        0 <= j < 32,
{
    b2i(cell_at(g, wrap_dec(i), wrap_dec(j))) + b2i(cell_at(g, wrap_dec(i), j)) + b2i(
        cell_at(g, wrap_dec(i), wrap_inc(j)),
    ) + b2i(cell_at(g, i, wrap_dec(j))) + b2i(cell_at(g, i, wrap_inc(j))) + b2i(
        cell_at(g, wrap_inc(i), wrap_dec(j)),
    ) + b2i(cell_at(g, wrap_inc(i), j)) + b2i(cell_at(g, wrap_inc(i), wrap_inc(j)))
}

/// The standard rule: a cell with three live neighbors is alive next
/// generation whatever it is now; with two it keeps its state; any other
/// count leaves it dead.
pub open spec fn next_state(alive: bool, neighbors: int) -> bool {
    neighbors == 3 || (alive && neighbors == 2)
}

/// Counts the live toroidal neighbors of one in-range cell.
#[verifier::rlimit(100)]
pub fn live_neighbors(grid: &Chunk, i: usize, j: usize) -> (n: u8)
    requires
        grid.wf(),
        i < 32,
        j < 32,
    ensures
        n as int == neighbor_count(grid@, i as int, j as int),
{
    let im: usize = if i == 0 {
        31
    } else {
        i - 1
    };
    let ip: usize = if i == 31 {
        0
    } else {
        i + 1
    };
    let jm: usize = if j == 0 {
        31
    } else {
        j - 1
    };
    let jp: usize = if j == 31 {
        0
    } else {
        j + 1
    };
    let n0: u8 = if grid.get(im, jm) {
        1
    } else {
        0
    };
    let n1: u8 = if grid.get(im, j) {
        1
    } else {
        0
    };
    let n2: u8 = if grid.get(im, jp) {
        1
    } else {
        0
    };
    let n3: u8 = if grid.get(i, jm) {
        1
    } else {
        0
    };
    let n4: u8 = if grid.get(i, jp) {
        1
    } else {
        0
    };
    let n5: u8 = if grid.get(ip, jm) {
        1
    } else {
        0
    };
    let n6: u8 = if grid.get(ip, j) {
        1
    } else {
        0
    };
    let n7: u8 = if grid.get(ip, jp) {
        1
    } else {
        0
    };
    n0 + n1 + n2 + n3 + n4 + n5 + n6 + n7
}

/// Computes the next generation of the whole grid from the given snapshot.
/// Every output cell is a function of the input grid alone, so writes made
/// while filling the result never feed back into the same step.
#[verifier::rlimit(60)]
pub fn step(grid: &Chunk) -> (next: Chunk)
    requires
        grid.wf(),
    ensures
        next.wf(),
        forall|i: int, j: int|
            0 <= i < 32 && 0 <= j < 32 ==> #[trigger] next.cell(i, j) == next_state(
                grid.cell(i, j),
                neighbor_count(grid@, i, j),
            ),
{
    let mut next = Chunk::new();
    let mut i: usize = 0;
    while i < 32
        invariant
            grid.wf(),
            next.wf(),
            i <= 32,
            forall|r: int, c: int|
                0 <= r < i as int && 0 <= c < 32 ==> #[trigger] cell_at(next@, r, c) == next_state(
                    grid.cell(r, c),
                    neighbor_count(grid@, r, c),
                ),
            forall|r: int, c: int|
                i as int <= r < 32 && 0 <= c < 32 ==> !(#[trigger] cell_at(next@, r, c)),
        decreases 32 - i,
    {
        let mut j: usize = 0;
        while j < 32
            invariant
                grid.wf(),
                next.wf(),
                i < 32,
                j <= 32,
                forall|r: int, c: int|
                    0 <= r < i as int && 0 <= c < 32 ==> #[trigger] cell_at(next@, r, c)
                        == next_state(grid.cell(r, c), neighbor_count(grid@, r, c)),
                forall|c: int|
                    0 <= c < j as int ==> #[trigger] cell_at(next@, i as int, c) == next_state(
                        grid.cell(i as int, c),
                        neighbor_count(grid@, i as int, c),
                    ),
                forall|r: int, c: int|
                    ((i as int) < r && r < 32 || (r == i as int && j as int <= c && c < 32)) && 0
                        <= c < 32 ==> !(#[trigger] cell_at(next@, r, c)),
            decreases 32 - j,
        {
            let n = live_neighbors(grid, i, j);
            let alive = grid.get(i, j);
            let ghost prev = next@;
            proof {
                crate::grid::lemma_chunk_view_wf(next);
            }
            if n == 3 || (alive && n == 2) {
                next.set(i, j);
                proof {
                    crate::grid::lemma_set_then_get(prev, i as int, j as int, true);
                }
            }
            proof {
                assert forall|r: int, c: int|
                    0 <= r < 32 && 0 <= c < 32 && !(r == i as int && c == j as int) implies #[trigger] cell_at(
                    next@,
                    r,
                    c,
                ) == cell_at(prev, r, c) by {}
                assert(cell_at(next@, i as int, j as int) == next_state(
                    grid.cell(i as int, j as int),
                    neighbor_count(grid@, i as int, j as int),
                ));
            }
            j += 1;
        }
        i += 1;
    }
    proof {
        assert forall|i: int, j: int|
            0 <= i < 32 && 0 <= j < 32 implies #[trigger] next.cell(i, j) == next_state(
            grid.cell(i, j),
            neighbor_count(grid@, i, j),
        ) by {
            assert(cell_at(next@, i, j) == next_state(grid.cell(i, j), neighbor_count(grid@, i, j)));
        }
    }
    next
}

/// One iteration's worth of grid work: when paused the grid is left
/// bit-for-bit as it was, otherwise it advances by exactly one generation.
pub fn tick(grid: &mut Chunk, paused: bool)
    requires
        old(grid).wf(),
    ensures
        final(grid).wf(),
        paused ==> final(grid)@ == old(grid)@,
        !paused ==> forall|i: int, j: int|
            0 <= i < 32 && 0 <= j < 32 ==> #[trigger] final(grid).cell(i, j) == next_state(
                old(grid).cell(i, j),
                neighbor_count(old(grid)@, i, j),
            ),
{
    if !paused {
        let next = step(grid);
        *grid = next;
    }
}

/// The rule itself, spelled out: three live neighbors give life whatever the
/// cell held, two preserve it, and every other count kills.
pub proof fn lemma_life_rule(alive: bool, neighbors: int)
    ensures
        neighbors == 3 ==> next_state(alive, neighbors),
        neighbors == 2 ==> next_state(alive, neighbors) == alive,
        neighbors != 2 && neighbors != 3 ==> !next_state(alive, neighbors),
{
}

/// Neighbor counting wraps at the columns: for a cell in column 0 the three
/// neighbors on its left live in column 31.
pub proof fn lemma_column_wraparound(g: Seq<Seq<bool>>, i: int)
    requires
        wf_grid(g),
        0 <= i < 32,
    ensures
        neighbor_count(g, i, 0) == b2i(cell_at(g, wrap_dec(i), 31)) + b2i(cell_at(g, wrap_dec(i), 0))
            + b2i(cell_at(g, wrap_dec(i), 1)) + b2i(cell_at(g, i, 31)) + b2i(cell_at(g, i, 1))
            + b2i(cell_at(g, wrap_inc(i), 31)) + b2i(cell_at(g, wrap_inc(i), 0)) + b2i(
            cell_at(g, wrap_inc(i), 1),
        ),
{
}

/// Neighbor counting wraps at the rows: for a cell in row 0 the three
/// neighbors above it live in row 31.
pub proof fn lemma_row_wraparound(g: Seq<Seq<bool>>, j: int)
    requires
        wf_grid(g),
        0 <= j < 32,
    ensures
        neighbor_count(g, 0, j) == b2i(cell_at(g, 31, wrap_dec(j))) + b2i(cell_at(g, 31, j)) + b2i(
            cell_at(g, 31, wrap_inc(j)),
        ) + b2i(cell_at(g, 0, wrap_dec(j))) + b2i(cell_at(g, 0, wrap_inc(j))) + b2i(
            cell_at(g, 1, wrap_dec(j)),
        ) + b2i(cell_at(g, 1, j)) + b2i(cell_at(g, 1, wrap_inc(j))),
{
}

/// An all-dead grid is a fixed point: any grid that stands in the step
/// relation to it — as `step`'s contract states it — is all-dead again.
pub proof fn lemma_dead_grid_fixed(g: Seq<Seq<bool>>, stepped: Seq<Seq<bool>>)
    requires
        wf_grid(g),
        forall|i: int, j: int| !(#[trigger] cell_at(g, i, j)),
        forall|i: int, j: int|
            0 <= i < 32 && 0 <= j < 32 ==> #[trigger] cell_at(stepped, i, j) == next_state(
                cell_at(g, i, j),
                neighbor_count(g, i, j),
            ),
    ensures
        forall|i: int, j: int| !(#[trigger] cell_at(stepped, i, j)),
{
    assert forall|i: int, j: int| !(#[trigger] cell_at(stepped, i, j)) by {
        if 0 <= i < 32 && 0 <= j < 32 {
            assert(!cell_at(g, wrap_dec(i), wrap_dec(j)));
            assert(!cell_at(g, wrap_dec(i), j));
            assert(!cell_at(g, wrap_dec(i), wrap_inc(j)));
            assert(!cell_at(g, i, wrap_dec(j)));
            assert(!cell_at(g, i, wrap_inc(j)));
            assert(!cell_at(g, wrap_inc(i), wrap_dec(j)));
            assert(!cell_at(g, wrap_inc(i), j));
            assert(!cell_at(g, wrap_inc(i), wrap_inc(j)));
            assert(neighbor_count(g, i, j) == 0);
        }
    }
}

} // verus!
