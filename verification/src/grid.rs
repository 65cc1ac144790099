//! The simulation engine: a rectangular field of boolean cells with
//! neighbor counting, the generation-transition rule, and random seeding.

use vstd::prelude::*;

verus! {

/// Errors reported by grid construction and cell access.
#[derive(Clone, Copy, Debug, PartialEq, Eq, Structural)]
pub enum GridError {
    /// Construction was asked for a grid with a zero dimension.
    InvalidDimension,
    /// A coordinate lies outside the grid.
    OutOfRange,
}

/// A fixed-size, non-wrapping field of cells, `true` meaning alive.
///
/// Dimensions never change after construction; cells are stored in
/// column-major order, one value per position.
pub struct Grid {
    width: usize,
    height: usize,
    cells: Vec<bool>,
}

/// 1 for an alive cell, 0 for a dead one.
pub open spec fn one_if(b: bool) -> int {
    if b {
        1
    } else {
        0
    }
}

impl Grid {
    /// The grid's width, as a mathematical integer.
    pub closed spec fn spec_width(&self) -> int {
        self.width as int
    }

    /// The grid's height, as a mathematical integer.
    pub closed spec fn spec_height(&self) -> int {
        self.height as int
    }

    /// Internal consistency: positive dimensions and exactly one stored
    /// value per position.
    pub closed spec fn wf(&self) -> bool {
        &&& 0 < self.width
        &&& 0 < self.height
        &&& self.cells.len() == self.width * self.height
    }

    /// The stored value at an in-range position.
    pub closed spec fn cell(&self, x: int, y: int) -> bool {
        self.cells@[x * self.spec_height() + y]
    }

    /// Whether the cell at `(x, y)` is alive; positions beyond the
    /// boundary hold no cell and count as dead.
    pub open spec fn alive(&self, x: int, y: int) -> bool {
        &&& 0 <= x < self.spec_width()
        &&& 0 <= y < self.spec_height()
        &&& self.cell(x, y)
    }

    /// The number of alive cells among the up-to-eight surrounding
    /// positions; positions beyond the boundary contribute nothing.
    pub open spec fn live_neighbors(&self, x: int, y: int) -> int {
        one_if(self.alive(x - 1, y - 1)) + one_if(self.alive(x, y - 1)) + one_if(
            self.alive(x + 1, y - 1),
        ) + one_if(self.alive(x - 1, y)) + one_if(self.alive(x + 1, y)) + one_if(
            self.alive(x - 1, y + 1),
        ) + one_if(self.alive(x, y + 1)) + one_if(self.alive(x + 1, y + 1))
    }

    /// The generation rule: an alive cell survives with two or three alive
    /// neighbors; a dead cell is born with exactly three.
    pub open spec fn next_cell(&self, x: int, y: int) -> bool {
        if self.alive(x, y) {
            self.live_neighbors(x, y) == 2 || self.live_neighbors(x, y) == 3
        } else {
            self.live_neighbors(x, y) == 3
        }
    }

    /// Builds a grid with every cell dead, or reports `InvalidDimension`
    /// when either dimension is zero.
    pub fn new(width: usize, height: usize) -> (r: Result<Grid, GridError>)
        requires
            width * height <= usize::MAX,
        ensures
            r is Ok <==> (0 < width && 0 < height),
            match r {
                Ok(g) => {
                    &&& g.wf()
                    &&& g.spec_width() == width
                    &&& g.spec_height() == height
                    &&& forall|x: int, y: int| !g.alive(x, y)
                },
                Err(e) => e == GridError::InvalidDimension,
            },
    {
        if width == 0 || height == 0 {
            return Err(GridError::InvalidDimension);
        }
        let n = width * height;
        let mut cells: Vec<bool> = Vec::new();
        let mut i: usize = 0;
        while i < n
            invariant
                i <= n,
                cells.len() == i,
                forall|k: int| 0 <= k < i ==> !cells@[k],
            decreases n - i,
        {
            cells.push(false);
            i += 1;
        }
        let g = Grid { width, height, cells };
        proof {
            assert forall|x: int, y: int| !g.alive(x, y) by {
                if 0 <= x < width && 0 <= y < height {
                    lemma_index_in_range(width as int, height as int, x, y);
                }
            }
        }
        Ok(g)
    }

    /// The grid's width.
    pub fn width(&self) -> (w: usize)
        ensures
            w == self.spec_width(),
    {
        self.width
    }

    /// The grid's height.
    pub fn height(&self) -> (h: usize)
        ensures
            h == self.spec_height(),
    {
        self.height
    }

    /// Reads the cell at an in-range position.
    fn at(&self, x: usize, y: usize) -> (b: bool)
        requires
            self.wf(),
            x < self.spec_width(),
            y < self.spec_height(),
        ensures
            b == self.alive(x as int, y as int),
    {
        proof {
            lemma_index_in_range(
                self.spec_width(),
                self.spec_height(),
                x as int,
                y as int,
            );
        }
        self.cells[x * self.height + y]
    }

    /// Counts the alive cells around an in-range position, skipping
    /// offsets that fall outside the grid.
    fn count_neighbors(&self, x: usize, y: usize) -> (n: u8)
        requires
            self.wf(),
            x < self.spec_width(),
            y < self.spec_height(),
        ensures
            n == self.live_neighbors(x as int, y as int),
    {
        let mut n: u8 = 0;
        if x > 0 && y > 0 && self.at(x - 1, y - 1) {
            n += 1;
        }
        if y > 0 && self.at(x, y - 1) {
            n += 1;
        }
        if x + 1 < self.width && y > 0 && self.at(x + 1, y - 1) {
            n += 1;
        }
        if x > 0 && self.at(x - 1, y) {
            n += 1;
        }
        if x + 1 < self.width && self.at(x + 1, y) {
            n += 1;
        }
        if x > 0 && y + 1 < self.height && self.at(x - 1, y + 1) {
            n += 1;
        }
        if y + 1 < self.height && self.at(x, y + 1) {
            n += 1;
        }
        if x + 1 < self.width && y + 1 < self.height && self.at(x + 1, y + 1) {
            n += 1;
        }
        n
    }

    /// Advances the grid one generation: every cell's next state is the
    /// generation rule applied to the prior state of its neighborhood.
    pub fn step(&mut self)
        requires
            old(self).wf(),
        ensures
            final(self).wf(),
            final(self).spec_width() == old(self).spec_width(),
            final(self).spec_height() == old(self).spec_height(),
            forall|x: int, y: int|
                0 <= x < old(self).spec_width() && 0 <= y < old(self).spec_height()
                    ==> final(self).alive(x, y) == old(self).next_cell(x, y),
    {
        let w = self.width;
        let h = self.height;
        let mut next: Vec<bool> = Vec::new();
        let mut x: usize = 0;
        while x < w
            invariant
                *self == *old(self),
                self.wf(),
                w == self.spec_width(),
                h == self.spec_height(),
                x <= w,
                next.len() == x * h,
                forall|i: int, j: int|
                    0 <= i < x && 0 <= j < h ==> next@[i * h + j] == self.next_cell(i, j),
            decreases w - x,
        {
            let mut y: usize = 0;
            while y < h
                invariant
                    *self == *old(self),
                    self.wf(),
                    w == self.spec_width(),
                    h == self.spec_height(),
                    x < w,
                    y <= h,
                    next.len() == x * h + y,
                    forall|i: int, j: int|
                        0 <= i < x && 0 <= j < h ==> next@[i * h + j] == self.next_cell(i, j),
                    forall|j: int| 0 <= j < y ==> next@[x * h + j] == self.next_cell(x as int, j),
                decreases h - y,
            {
                proof {
                    lemma_index_in_range(w as int, h as int, x as int, y as int);
                }
                let count = self.count_neighbors(x, y);
                let was_alive = self.at(x, y);
                let born = if was_alive {
                    count == 2 || count == 3
                } else {
                    count == 3
                };
                next.push(born);
                proof {
                    assert forall|i: int, j: int|
                        0 <= i < x && 0 <= j < h implies next@[i * h + j] == self.next_cell(i, j) by {
                        lemma_index_in_range(x as int, h as int, i, j);
                    }
                }
                y += 1;
            }
            proof {
                assert((x + 1) * h == x * h + h) by (nonlinear_arith);
            }
            x += 1;
        }
        proof {
            assert(next.len() == w * h);
        }
        self.cells = next;
        proof {
            assert forall|x: int, y: int|
                0 <= x < old(self).spec_width() && 0 <= y < old(self).spec_height()
                    implies self.alive(x, y) == old(self).next_cell(x, y) by {
                lemma_index_in_range(w as int, h as int, x, y);
            }
        }
    }

    /// Overwrites the whole grid from the given draws, one per cell: the
    /// cell at `(x, y)` takes `bits[x * height + y]`. Dimensions are
    /// unchanged. This is the placement half of seeding, verified for
    /// every sequence of draws; the random source is a parameter.
    pub fn seed_from(&mut self, bits: &Vec<bool>)
        requires
            old(self).wf(),
            bits@.len() == old(self).spec_width() * old(self).spec_height(),
        ensures
            final(self).wf(),
            final(self).spec_width() == old(self).spec_width(),
            final(self).spec_height() == old(self).spec_height(),
            forall|x: int, y: int|
                0 <= x < old(self).spec_width() && 0 <= y < old(self).spec_height()
                    ==> final(self).alive(x, y) == bits@[x * old(self).spec_height() + y],
    {
        let n = bits.len();
        let mut next: Vec<bool> = Vec::new();
        let mut i: usize = 0;
        while i < n
            invariant
                i <= n,
                next.len() == i,
                n == bits@.len(),
                forall|k: int| 0 <= k < i ==> next@[k] == bits@[k],
            decreases n - i,
        {
            next.push(bits[i]);
            i += 1;
        }
        self.cells = next;
        proof {
            assert forall|x: int, y: int|
                0 <= x < old(self).spec_width() && 0 <= y < old(self).spec_height()
                    implies self.alive(x, y) == bits@[x * old(self).spec_height() + y] by {
                lemma_index_in_range(self.spec_width(), self.spec_height(), x, y);
            }
        }
    }

    /// Draws one random boolean per cell, alive and dead equally likely,
    /// and overwrites the grid with the draws through `seed_from`.
    /// Dimensions are unchanged; nothing can be promised of the drawn
    /// values themselves.
    pub fn seed(&mut self)
        requires
            old(self).wf(),
        ensures
            final(self).wf(),
            final(self).spec_width() == old(self).spec_width(),
            final(self).spec_height() == old(self).spec_height(),
    {
        let n = self.cells.len();
        let mut draws: Vec<bool> = Vec::new();
        let mut i: usize = 0;
        while i < n
            invariant
                i <= n,
                draws.len() == i,
            decreases n - i,
        {
            draws.push(random_bool());
            i += 1;
        }
        self.seed_from(&draws);
    }

    /// Writes the cell at `(x, y)`, leaving every other cell and the
    /// dimensions unchanged, or reports `OutOfRange` when the coordinate
    /// lies outside the grid.
    pub fn set(&mut self, x: usize, y: usize, v: bool) -> (r: Result<(), GridError>)
        requires
            old(self).wf(),
        ensures
            final(self).wf(),
            final(self).spec_width() == old(self).spec_width(),
            final(self).spec_height() == old(self).spec_height(),
            r is Ok <==> (x < old(self).spec_width() && y < old(self).spec_height()),
            match r {
                Ok(_) => {
                    &&& final(self).alive(x as int, y as int) == v
                    &&& forall|i: int, j: int|
                        !(i == x && j == y) ==> final(self).alive(i, j) == old(self).alive(i, j)
                },
                Err(e) => e == GridError::OutOfRange && *final(self) == *old(self),
            },
    {
        if x < self.width && y < self.height {
            proof {
                lemma_index_in_range(
                    self.spec_width(),
                    self.spec_height(),
                    x as int,
                    y as int,
                );
            }
            self.cells[x * self.height + y] = v;
            proof {
                assert forall|i: int, j: int|
                    !(i == x && j == y) implies self.alive(i, j) == old(self).alive(i, j) by {
                    if 0 <= i < self.spec_width() && 0 <= j < self.spec_height() {
                        lemma_index_in_range(self.spec_width(), self.spec_height(), i, j);
                        lemma_index_injective(
                            self.spec_height(),
                            i,
                            j,
                            x as int,
                            y as int,
                        );
                    }
                }
            }
            Ok(())
        } else {
            Err(GridError::OutOfRange)
        }
    }

    /// Reads the cell at `(x, y)`, or reports `OutOfRange` when the
    /// coordinate lies outside the grid.
    pub fn get(&self, x: usize, y: usize) -> (r: Result<bool, GridError>)
        requires
            self.wf(),
        ensures
            r is Ok <==> (x < self.spec_width() && y < self.spec_height()),
            match r {
                Ok(b) => b == self.alive(x as int, y as int),
                Err(e) => e == GridError::OutOfRange,
            },
    {
        if x < self.width && y < self.height {
            Ok(self.at(x, y))
        } else {
            Err(GridError::OutOfRange)
        }
    }
}

/// Relies on rand::random::<bool>: a boolean drawn from the thread-local
/// generator, alive and dead equally likely. Nothing can be promised of
/// the value itself.
#[verifier::external_body]
fn random_bool() -> bool {
    rand::random::<bool>()
}

/// A position inside a `width` by `height` grid maps to an in-range index.
proof fn lemma_index_in_range(width: int, height: int, x: int, y: int)
    requires
        0 <= x < width,
        0 <= y < height,
    ensures
        0 <= x * height + y < width * height,
{
    assert(0 <= x * height + y < width * height) by (nonlinear_arith)
        requires
            0 <= x < width,
            0 <= y < height,
    ;
}

/// Distinct in-range positions map to distinct indexes.
proof fn lemma_index_injective(height: int, x1: int, y1: int, x2: int, y2: int)
    requires
        0 <= y1 < height,
        0 <= y2 < height,
        0 <= x1,
        0 <= x2,
        !(x1 == x2 && y1 == y2),
    ensures
        x1 * height + y1 != x2 * height + y2,
{
    assert(x1 * height + y1 != x2 * height + y2) by (nonlinear_arith)
        requires
            0 <= y1 < height,
            0 <= y2 < height,
            0 <= x1,
            0 <= x2,
            !(x1 == x2 && y1 == y2),
    ;
}

} // verus!
