//! The cell grid: a fixed 32x32 board of alive/dead cells, bit-packed one
//! row per `u32`. The mathematical model is a sequence of 32 rows of 32
//! booleans; the packing itself stays private.

use vstd::prelude::*;

verus! {

/// A grid value as mathematics: 32 rows, each a sequence of 32 cells.
pub open spec fn wf_grid(g: Seq<Seq<bool>>) -> bool {
    &&& g.len() == 32
    &&& forall|r: int| 0 <= r < 32 ==> (#[trigger] g[r]).len() == 32
}

/// The cell at row `i`, column `j`; out-of-range coordinates read as dead.
pub open spec fn cell_at(g: Seq<Seq<bool>>, i: int, j: int) -> bool
    recommends
        wf_grid(g),
{
    0 <= i < 32 && 0 <= j < 32 && g[i][j]
}

/// The grid with the cell at (`i`, `j`) replaced by `v`; out-of-range
/// coordinates leave the grid unchanged.
pub open spec fn set_cell(g: Seq<Seq<bool>>, i: int, j: int, v: bool) -> Seq<Seq<bool>>
    recommends
        wf_grid(g),
{
    if 0 <= i < 32 && 0 <= j < 32 {
        g.update(i, g[i].update(j, v))
    } else {
        g
    }
}

/// The grid with the cell at (`i`, `j`) flipped; out-of-range coordinates
/// leave the grid unchanged.
pub open spec fn toggle_cell(g: Seq<Seq<bool>>, i: int, j: int) -> Seq<Seq<bool>>
    recommends
        wf_grid(g),
{
    set_cell(g, i, j, !cell_at(g, i, j))
}

/// Whether bit `j` (counting from the most significant bit) of a packed row
/// is set.
spec fn row_bit(row: u32, j: int) -> bool
    recommends
        0 <= j < 32,
{
    (row >> ((31 - j) as u32)) & 1u32 == 1u32
}

/// The model of a packed row vector: 32 rows of 32 cells.
spec fn grid_view(rows: Seq<u32>) -> Seq<Seq<bool>>
    recommends
        rows.len() == 32,
{
    Seq::new(32, |i: int| Seq::new(32, |j: int| row_bit(rows[i], j)))
}

/// A 32x32 board of cells, one bit per cell, packed row-major with column 0
/// in the most significant bit of each row.
#[derive(Debug)]
pub struct Chunk {
    rows: Vec<u32>,
}

impl View for Chunk {
    type V = Seq<Seq<bool>>;

    closed spec fn view(&self) -> Seq<Seq<bool>> {
        grid_view(self.rows@)
    }
}

proof fn lemma_zero_row_bit(j: int)
    requires
        0 <= j < 32,
    ensures
        !row_bit(0u32, j),
{
    let s = (31 - j) as u32;
    assert((0u32 >> s) & 1u32 != 1u32) by (bit_vector);
}

/// Bit `k` of `u | (1 << (31 - j))`: bit `j` becomes set, every other bit
/// keeps its value.
proof fn lemma_or_bit(u: u32, j: u32, k: u32)
    by (bit_vector)
    requires
        j < 32,
        k < 32,
    ensures
        ((u | (1u32 << ((31 - j) as u32))) >> ((31 - k) as u32)) & 1u32 == (if k == j {
            1u32
        } else {
            (u >> ((31 - k) as u32)) & 1u32
        }),
{
}

/// Bit `k` of `u & !(1 << (31 - j))`: bit `j` becomes clear, every other bit
/// keeps its value.
proof fn lemma_clear_bit(u: u32, j: u32, k: u32)
    by (bit_vector)
    requires
        j < 32,
        k < 32,
    ensures
        ((u & !(1u32 << ((31 - j) as u32))) >> ((31 - k) as u32)) & 1u32 == (if k == j {
            0u32
        } else {
            (u >> ((31 - k) as u32)) & 1u32
        }),
{
}

/// Bit `k` of `u ^ (1 << (31 - j))`: bit `j` flips, every other bit keeps
/// its value.
proof fn lemma_xor_bit(u: u32, j: u32, k: u32)
    by (bit_vector)
    requires
        j < 32,
        k < 32,
    ensures
        ((u ^ (1u32 << ((31 - j) as u32))) >> ((31 - k) as u32)) & 1u32 == (if k == j {
            if (u >> ((31 - j) as u32)) & 1u32 == 1u32 {
                0u32
            } else {
                1u32
            }
        } else {
            (u >> ((31 - k) as u32)) & 1u32
        }),
{
}

/// Row-major flattening: the flat index of an in-range (row, column) pair
/// splits back into that pair.
proof fn lemma_flat_index(i: int, j: int)
    requires
        0 <= i < 32,
        0 <= j < 32,
    ensures
        (i * 32 + j) / 32 == i,
        (i * 32 + j) % 32 == j,
        0 <= i * 32 + j < 1024,
{
    vstd::arithmetic::div_mod::lemma_fundamental_div_mod_converse(i * 32 + j, 32, i, j);
}

/// Splitting a flat index gives an in-range (row, column) pair that
/// flattens back to it.
proof fn lemma_flat_split(k: int)
    requires
        0 <= k < 1024,
    ensures
        0 <= k / 32 < 32,
        0 <= k % 32 < 32,
        (k / 32) * 32 + (k % 32) == k,
{
    vstd::arithmetic::div_mod::lemma_fundamental_div_mod(k, 32);
    vstd::arithmetic::div_mod::lemma_mod_bound(k, 32);
    assert(0 <= k / 32 < 32) by (nonlinear_arith)
        requires
            0 <= k < 1024,
            32 * (k / 32) + k % 32 == k,
            0 <= k % 32 < 32,
    ;
}

/// Distinct flat indices split into distinct (row, column) pairs.
proof fn lemma_flat_unique(k2: int, k: int)
    requires
        0 <= k2 < 1024,
        0 <= k < 1024,
    ensures
        k2 != k ==> k2 / 32 != k / 32 || k2 % 32 != k % 32,
{
    lemma_flat_split(k2);
    lemma_flat_split(k);
}

/// Updating one packed row so that exactly bit `j` changes to `v` updates
/// exactly one cell of the grid model.
proof fn lemma_view_update(rows_old: Seq<u32>, rows_new: Seq<u32>, i: int, j: int, v: bool)
    requires
        rows_old.len() == 32,
        rows_new.len() == 32,
        0 <= i < 32,
        0 <= j < 32,
        forall|r: int| 0 <= r < 32 && r != i ==> rows_new[r] == rows_old[r],
        forall|c: int|
            0 <= c < 32 ==> #[trigger] row_bit(rows_new[i], c) == (if c == j {
                v
            } else {
                row_bit(rows_old[i], c)
            }),
    ensures
        grid_view(rows_new) == set_cell(grid_view(rows_old), i, j, v),
{
    let gv_old = grid_view(rows_old);
    let gv_new = grid_view(rows_new);
    let target = set_cell(gv_old, i, j, v);
    assert forall|r: int| 0 <= r < 32 implies gv_new[r] == target[r] by {
        if r == i {
            assert(gv_new[r] =~= gv_old[i].update(j, v));
        } else {
            assert(gv_new[r] =~= gv_old[r]);
        }
    }
    assert(gv_new =~= target);
}

impl Chunk {
    /// Well-formed: exactly 32 packed rows.
    pub closed spec fn wf(self) -> bool {
        self.rows@.len() == 32
    }

    /// The cell at row `i`, column `j` of this grid's model.
    pub open spec fn cell(self, i: int, j: int) -> bool {
        cell_at(self@, i, j)
    }

    /// A fresh grid with every cell dead.
    pub fn new() -> (c: Chunk)
        ensures
            c.wf(),
            forall|i: int, j: int| !(#[trigger] cell_at(c@, i, j)),
    {
        let c = Chunk { rows: vec![0u32; 32] };
        proof {
            assert forall|i: int, j: int| !(#[trigger] cell_at(c@, i, j)) by {
                if 0 <= i < 32 && 0 <= j < 32 {
                    lemma_zero_row_bit(j);
                    assert(c.rows@[i] == 0u32);
                }
            }
        }
        c
    }

    /// Reads one cell; out-of-range coordinates read as dead.
    pub fn get(&self, i: usize, j: usize) -> (alive: bool)
        requires
            self.wf(),
        ensures
            alive == self.cell(i as int, j as int),
    {
        if i < 32 && j < 32 {
            let shift: u32 = 31 - (j as u32);
            let r = (self.rows[i] >> shift) & 1 == 1;
            proof {
                assert(self@[i as int][j as int] == row_bit(self.rows@[i as int], j as int));
            }
            r
        } else {
            false
        }
    }

    /// Makes one cell alive, whatever it held; out-of-range coordinates are
    /// a no-op.
    pub fn set(&mut self, i: usize, j: usize)
        requires
            old(self).wf(),
        ensures
            final(self).wf(),
            final(self)@ == set_cell(old(self)@, i as int, j as int, true),
    {
        if i < 32 && j < 32 {
            let m: u32 = 1u32 << (31 - (j as u32));
            self.rows[i] = self.rows[i] | m;
            proof {
                assert forall|c: int|
                    0 <= c < 32 implies #[trigger] row_bit(self.rows@[i as int], c) == (if c
                    == j as int {
                    true
                } else {
                    row_bit(old(self).rows@[i as int], c)
                }) by {
                    lemma_or_bit(old(self).rows@[i as int], j as u32, c as u32);
                }
                lemma_view_update(old(self).rows@, self.rows@, i as int, j as int, true);
            }
        }
    }

    /// Makes one cell dead, whatever it held; out-of-range coordinates are a
    /// no-op.
    pub fn unset(&mut self, i: usize, j: usize)
        requires
            old(self).wf(),
        ensures
            final(self).wf(),
            final(self)@ == set_cell(old(self)@, i as int, j as int, false),
    {
        if i < 32 && j < 32 {
            let m: u32 = 1u32 << (31 - (j as u32));
            self.rows[i] = self.rows[i] & !m;
            proof {
                assert forall|c: int|
                    0 <= c < 32 implies #[trigger] row_bit(self.rows@[i as int], c) == (if c
                    == j as int {
                    false
                } else {
                    row_bit(old(self).rows@[i as int], c)
                }) by {
                    lemma_clear_bit(old(self).rows@[i as int], j as u32, c as u32);
                }
                lemma_view_update(old(self).rows@, self.rows@, i as int, j as int, false);
            }
        }
    }

    /// Kills every cell in place, as the clear-board user action asks.
    pub fn clear(&mut self)
        requires
            old(self).wf(),
        ensures
            final(self).wf(),
            forall|i: int, j: int| !(#[trigger] cell_at(final(self)@, i, j)),
    {
        let mut k: usize = 0;
        while k < 32
            invariant
                self.rows@.len() == 32,
                k <= 32,
                forall|r: int| 0 <= r < k as int ==> self.rows@[r] == 0u32,
            decreases 32 - k,
        {
            self.rows[k] = 0;
            k += 1;
        }
        proof {
            assert forall|i: int, j: int| !(#[trigger] cell_at(self@, i, j)) by {
                if 0 <= i < 32 && 0 <= j < 32 {
                    lemma_zero_row_bit(j);
                    assert(self.rows@[i] == 0u32);
                }
            }
        }
    }

    /// The frame buffer: 1024 per-cell values, row-major, an all-bits-set
    /// sentinel for a live cell and zero for a dead one, usable directly as
    /// pixels.
    pub fn to_u32_array(&self) -> (frame: Vec<u32>)
        requires
            self.wf(),
        ensures
            frame@.len() == 1024,
            forall|i: int, j: int|
                0 <= i < 32 && 0 <= j < 32 ==> (#[trigger] cell_at(self@, i, j) <==> frame@[i * 32
                    + j] == 0xffff_ffffu32),
            forall|k: int| 0 <= k < 1024 ==> #[trigger] frame@[k] == 0xffff_ffffu32 || frame@[k]
                == 0u32,
    {
        let mut frame: Vec<u32> = Vec::new();
        let mut k: usize = 0;
        while k < 1024
            invariant
                self.wf(),
                k <= 1024,
                frame@.len() == k as int,
                forall|k2: int|
                    0 <= k2 < k as int ==> #[trigger] frame@[k2] == (if cell_at(
                        self@,
                        k2 / 32,
                        k2 % 32,
                    ) {
                        0xffff_ffffu32
                    } else {
                        0u32
                    }),
            decreases 1024 - k,
        {
            let v: u32 = if self.get(k / 32, k % 32) {
                0xffff_ffff
            } else {
                0
            };
            frame.push(v);
            k += 1;
        }
        proof {
            assert forall|i: int, j: int| 0 <= i < 32 && 0 <= j < 32 implies (#[trigger] cell_at(
                self@,
                i,
                j,
            ) <==> frame@[i * 32 + j] == 0xffff_ffffu32) by {
                lemma_flat_index(i, j);
                assert(frame@[i * 32 + j] == (if cell_at(self@, (i * 32 + j) / 32, (i * 32 + j)
                    % 32) {
                    0xffff_ffffu32
                } else {
                    0u32
                }));
            }
        }
        frame
    }

    /// Rebuilds a grid from 1024 row-major per-cell values: any nonzero
    /// value counts as alive.
    pub fn from_u32_array(frame: &Vec<u32>) -> (chunk: Chunk)
        requires
            frame@.len() == 1024,
        ensures
            chunk.wf(),
            forall|i: int, j: int|
                0 <= i < 32 && 0 <= j < 32 ==> (#[trigger] cell_at(chunk@, i, j) <==> frame@[i * 32
                    + j] != 0u32),
    {
        let mut chunk = Chunk::new();
        let mut k: usize = 0;
        while k < 1024
            invariant
                chunk.wf(),
                frame@.len() == 1024,
                k <= 1024,
                forall|k2: int|
                    0 <= k2 < k as int ==> (cell_at(chunk@, k2 / 32, k2 % 32) <==> #[trigger] frame@[k2]
                        != 0u32),
                forall|r: int, c: int|
                    r * 32 + c >= k as int && 0 <= r < 32 && 0 <= c < 32 ==> !(#[trigger] cell_at(
                        chunk@,
                        r,
                        c,
                    )),
            decreases 1024 - k,
        {
            if frame[k] != 0 {
                let ghost prev = chunk@;
                proof {
                    lemma_chunk_view_wf(chunk);
                }
                chunk.set(k / 32, k % 32);
                proof {
                    lemma_set_then_get(prev, k as int / 32, k as int % 32, true);
                }
            }
            proof {
                assert forall|k2: int|
                    0 <= k2 < k as int + 1 implies (cell_at(chunk@, k2 / 32, k2 % 32)
                    <==> #[trigger] frame@[k2] != 0u32) by {
                    lemma_flat_split(k2);
                    lemma_flat_split(k as int);
                    if k2 != k as int {
                        lemma_flat_unique(k2, k as int);
                    }
                }
                assert forall|r: int, c: int|
                    r * 32 + c >= k as int + 1 && 0 <= r < 32 && 0 <= c < 32 implies !(
                #[trigger] cell_at(chunk@, r, c)) by {
                    lemma_flat_index(r, c);
                    lemma_flat_split(k as int);
                }
            }
            k += 1;
        }
        proof {
            assert forall|i: int, j: int| 0 <= i < 32 && 0 <= j < 32 implies (#[trigger] cell_at(
                chunk@,
                i,
                j,
            ) <==> frame@[i * 32 + j] != 0u32) by {
                lemma_flat_index(i, j);
            }
        }
        chunk
    }

    /// Flips one cell; out-of-range coordinates are a no-op.
    pub fn toggle(&mut self, i: usize, j: usize)
        requires
            old(self).wf(),
        ensures
            final(self).wf(),
            final(self)@ == toggle_cell(old(self)@, i as int, j as int),
    {
        if i < 32 && j < 32 {
            let m: u32 = 1u32 << (31 - (j as u32));
            self.rows[i] = self.rows[i] ^ m;
            proof {
                let was = cell_at(old(self)@, i as int, j as int);
                assert(was == row_bit(old(self).rows@[i as int], j as int));
                assert forall|c: int|
                    0 <= c < 32 implies #[trigger] row_bit(self.rows@[i as int], c) == (if c
                    == j as int {
                    !was
                } else {
                    row_bit(old(self).rows@[i as int], c)
                }) by {
                    lemma_xor_bit(old(self).rows@[i as int], j as u32, c as u32);
                }
                lemma_view_update(old(self).rows@, self.rows@, i as int, j as int, !was);
            }
        }
    }
}

impl Default for Chunk {
    /// The default grid is a fresh all-dead board.
    fn default() -> (c: Self)
        ensures
            c.wf(),
            forall|i: int, j: int| !(#[trigger] cell_at(c@, i, j)),
    {
        Chunk::new()
    }
}

/// Every grid model that a `Chunk` presents has 32 rows of 32 cells.
pub proof fn lemma_chunk_view_wf(c: Chunk)
    ensures
        wf_grid(c@),
{
}

/// Writing a cell then reading it gives the written value, whatever the cell
/// held before, and no other cell moves.
pub proof fn lemma_set_then_get(g: Seq<Seq<bool>>, i: int, j: int, v: bool)
    requires
        wf_grid(g),
        0 <= i < 32,
        0 <= j < 32,
    ensures
        cell_at(set_cell(g, i, j, v), i, j) == v,
        forall|r: int, c: int|
            !(r == i && c == j) ==> #[trigger] cell_at(set_cell(g, i, j, v), r, c) == cell_at(
                g,
                r,
                c,
            ),
{
    assert forall|r: int, c: int| !(r == i && c == j) implies #[trigger] cell_at(
        set_cell(g, i, j, v),
        r,
        c,
    ) == cell_at(g, r, c) by {
        if 0 <= r < 32 && 0 <= c < 32 {
            assert(set_cell(g, i, j, v)[r][c] == g[r][c]);
        }
    }
}

/// Toggling a cell twice, with nothing in between, restores the grid
/// exactly.
pub proof fn lemma_toggle_involution(g: Seq<Seq<bool>>, i: int, j: int)
    requires
        wf_grid(g),
        0 <= i < 32,
        0 <= j < 32,
    ensures
        toggle_cell(toggle_cell(g, i, j), i, j) == g,
{
    let g1 = toggle_cell(g, i, j);
    let g2 = toggle_cell(g1, i, j);
    assert(g1[i] =~= g[i].update(j, !g[i][j]));
    assert(g2[i] =~= g[i]);
    assert forall|r: int| 0 <= r < 32 implies g2[r] == g[r] by {
        if r != i {
            assert(g2[r] =~= g[r]);
        }
    }
    assert(g2 =~= g);
}

} // verus!
