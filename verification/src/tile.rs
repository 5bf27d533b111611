//! The per-cell record of generated values and the dense matrix that holds
//! one record for every cell of the grid.

use vstd::prelude::*;
use crate::fixed::Fixed;

verus! {

/// The values generated for one cell.
#[derive(Debug, Clone, Copy)]
pub struct Tile {
    pub elevation: Fixed,
    pub temperature: Fixed,
}

impl Default for Tile {
    /// The tile of a cell for which nothing was generated yet: every field 0.
    fn default() -> (r: Self)
        ensures
            r == (Tile { elevation: 0, temperature: 0 }),
    {
        Tile { elevation: 0, temperature: 0 }
    }
}

/// Why a tile could not be stored.
#[derive(Debug, Clone, Copy, PartialEq, Eq)]
pub enum TileError {
    /// The position lies outside the grid.
    OutOfBounds,
}

/// A grid of `width` by `height` tiles, stored row after row.
#[derive(Debug)]
pub struct TileMatrixResource {
    height: usize,
    width: usize,
    tiles: Vec<Tile>,
}

proof fn lemma_row_major(x: int, y: int, width: int, height: int)
    requires
        0 <= x < width,
        0 <= y < height,
    ensures
        0 <= y * width + x < width * height,
{
    assert(y * width + x < width * height) by (nonlinear_arith)
        requires
            0 <= x < width,
            0 <= y,
            y + 1 <= height,
    ;
    assert(0 <= y * width) by (nonlinear_arith)
        requires
            0 <= y,
            0 <= width,
    ;
}

proof fn lemma_row_major_distinct(x: int, y: int, i: int, j: int, width: int)
    requires
        0 <= x < width,
        0 <= i < width,
        0 <= y,
        0 <= j,
        y * width + x == j * width + i,
    ensures
        x == i,
        y == j,
{
    if y < j {
        assert(j * width >= y * width + width) by (nonlinear_arith)
            requires
                y + 1 <= j,
                0 <= width,
        ;
    }
    if j < y {
        assert(y * width >= j * width + width) by (nonlinear_arith)
            requires
                j + 1 <= y,
                0 <= width,
        ;
    }
}

impl TileMatrixResource {
    /// The matrix holds one tile for every cell. Every matrix that `new`
    /// made is well formed, and `set` keeps it so.
    pub closed spec fn wf(self) -> bool {
        self.tiles@.len() == self.width * self.height
    }

    /// The number of columns.
    pub closed spec fn columns(self) -> nat {
        self.width as nat
    }

    /// The number of rows.
    pub closed spec fn rows(self) -> nat {
        self.height as nat
    }

    /// Whether `(x, y)` is a position of the grid.
    pub open spec fn holds(self, x: int, y: int) -> bool {
        0 <= x < self.columns() && 0 <= y < self.rows()
    }

    /// The tile at `(x, y)`, for a position of the grid.
    pub closed spec fn tile_at(self, x: int, y: int) -> Tile {
        self.tiles@[y * self.width + x]
    }

    /// A matrix of `width` by `height` default tiles.
    ///
    /// The number of cells must fit in `usize`.
    pub fn new(width: usize, height: usize) -> (r: Self)
        requires
            width * height <= usize::MAX,
        ensures
            r.wf(),
            r.columns() == width,
            r.rows() == height,
            forall|x: int, y: int|
                r.holds(x, y) ==> #[trigger] r.tile_at(x, y) == (Tile { elevation: 0, temperature: 0 }),
    {
        let count: usize = width * height;
        let mut tiles: Vec<Tile> = Vec::with_capacity(count);
        let mut i: usize = 0;
        while i < count
            invariant
                i <= count,
                tiles@.len() == i,
                forall|k: int| 0 <= k < i ==> #[trigger] tiles@[k] == (Tile { elevation: 0, temperature: 0 }),
            decreases count - i,
        {
            tiles.push(Tile::default());
            i = i + 1;
        }
        let r = Self { width, height, tiles };
        assert forall|x: int, y: int| r.holds(x, y) implies #[trigger] r.tile_at(x, y) == (Tile {
            elevation: 0,
            temperature: 0,
        }) by {
            lemma_row_major(x, y, width as int, height as int);
        }
        r
    }

    /// The number of columns.
    pub fn width(&self) -> (r: usize)
        ensures
            r == self.columns(),
    {
        self.width
    }

    /// The number of rows.
    pub fn height(&self) -> (r: usize)
        ensures
            r == self.rows(),
    {
        self.height
    }

    /// The tile at `(x, y)`, or nothing for a position outside the grid.
    pub fn get(&self, x: usize, y: usize) -> (r: Option<&Tile>)
        requires
            self.wf(),
        ensures
            self.holds(x as int, y as int) ==> r == Some(&self.tile_at(x as int, y as int)),
            !self.holds(x as int, y as int) ==> r is None,
    {
        let count: usize = self.tiles.len();
        if x < self.width && y < self.height {
            proof {
                lemma_row_major(x as int, y as int, self.width as int, self.height as int);
                assert(y * self.width + x < count);
            }
            Some(&self.tiles[y * self.width + x])
        } else {
            None
        }
    }

    /// The tile at `(x, y)`, a position of the grid.
    pub fn tile(&self, x: usize, y: usize) -> (r: &Tile)
        requires
            self.wf(),
            self.holds(x as int, y as int),
        ensures
            *r == self.tile_at(x as int, y as int),
    {
        let count: usize = self.tiles.len();
        proof {
            lemma_row_major(x as int, y as int, self.width as int, self.height as int);
            assert(y * self.width + x < count);
        }
        &self.tiles[y * self.width + x]
    }

    /// Stores `tile` at `(x, y)`. A position outside the grid is refused and
    /// the matrix stays as it was.
    pub fn set(&mut self, x: usize, y: usize, tile: Tile) -> (r: Result<(), TileError>)
        requires
            old(self).wf(),
        ensures
            final(self).wf(),
            final(self).columns() == old(self).columns(),
            final(self).rows() == old(self).rows(),
            old(self).holds(x as int, y as int) ==> {
                &&& r is Ok
                &&& final(self).tile_at(x as int, y as int) == tile
                &&& forall|i: int, j: int|
                    old(self).holds(i, j) && (i != x || j != y) ==> #[trigger] final(self).tile_at(i, j)
                        == old(self).tile_at(i, j)
            },
            !old(self).holds(x as int, y as int) ==> {
                &&& r == Err::<(), TileError>(TileError::OutOfBounds)
                &&& *final(self) == *old(self)
            },
    {
        let count: usize = self.tiles.len();
        if x < self.width && y < self.height {
            proof {
                lemma_row_major(x as int, y as int, self.width as int, self.height as int);
                assert(y * self.width + x < count);
            }
            let at: usize = y * self.width + x;
            self.tiles.set(at, tile);
            assert forall|i: int, j: int|
                old(self).holds(i, j) && (i != x || j != y) implies #[trigger] self.tile_at(i, j)
                == old(self).tile_at(i, j) by {
                lemma_row_major(i, j, self.width as int, self.height as int);
                if j * self.width + i == y * self.width + x {
                    lemma_row_major_distinct(x as int, y as int, i, j, self.width as int);
                }
            }
            Ok(())
        } else {
            Err(TileError::OutOfBounds)
        }
    }
}

} // verus!
