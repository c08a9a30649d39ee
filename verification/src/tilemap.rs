//! The tile map: a fixed-size row-major grid of cells, each `Empty` or a
//! `Material` index, parsed once from a character grid and immutable
//! afterwards.

use vstd::prelude::*;

verus! {

/// One map cell: empty space, or a wall with a small material index.
#[derive(Clone, Copy, Debug, PartialEq, Eq, Structural)]
pub enum Cell {
    Empty,
    Material(u8),
}

/// Why a map could not be built or read: the character grid does not match
/// the declared dimensions, a character is neither the space marker nor a
/// digit, or a lookup lies outside the grid.
#[derive(Clone, Copy, Debug, PartialEq, Eq, Structural)]
pub enum MapError {
    SizeMismatch,
    BadCharacter,
    IndexOutOfBounds,
}

/// The cell a map character denotes: `' '` is `Empty`, a decimal digit is
/// `Material(digit)`, anything else is rejected.
pub open spec fn char_cell(c: char) -> Option<Cell> {
    let u = c as u32;
    if u == 32 {
        Some(Cell::Empty)
    } else if 48 <= u && u <= 57 {
        Some(Cell::Material((u - 48) as u8))
    } else {
        None
    }
}

/// A fixed `width × height` grid of cells, row-major.
pub struct TileMap {
    width: usize,
    height: usize,
    cells: Vec<Cell>,
}

impl TileMap {
    /// The storage always holds exactly `width * height` cells.
    pub closed spec fn wf(self) -> bool {
        self.cells@.len() == self.width * self.height
    }

    /// The cell storage, row-major.
    pub closed spec fn view(self) -> Seq<Cell> {
        self.cells@
    }

    /// The map width in cells.
    pub closed spec fn w(self) -> int {
        self.width as int
    }

    /// The map height in cells.
    pub closed spec fn h(self) -> int {
        self.height as int
    }

    /// The grid dimensions are sizes, never negative.
    pub proof fn lemma_dims(self)
        ensures
            self.w() >= 0,
            self.h() >= 0,
    {
    }

    /// The cell at column `i`, row `j`.
    pub open spec fn cell(self, i: int, j: int) -> Cell {
        self.view()[i + j * self.w()]
    }

    /// Whether every cell of the map is `Empty`.
    pub open spec fn all_empty(self) -> bool {
        forall|i: int, j: int|
            0 <= i < self.w() && 0 <= j < self.h() ==> #[trigger] self.cell(i, j) == Cell::Empty
    }

    /// Whether every material index on the map is below `n` (so a palette of
    /// `n` entries covers the whole map).
    pub open spec fn materials_below(self, n: int) -> bool {
        forall|i: int, j: int|
            0 <= i < self.w() && 0 <= j < self.h() ==> match #[trigger] self.cell(i, j) {
                Cell::Material(m) => m < n,
                Cell::Empty => true,
            }
    }

    /// Builds the map from a character grid: each character becomes the cell
    /// `char_cell` gives it. Rejected with `SizeMismatch` when the grid
    /// length is not `width * height`, and with `BadCharacter` when some
    /// character is neither the space marker nor a digit.
    pub fn parse(raw: &Vec<char>, width: usize, height: usize) -> (r: Result<TileMap, MapError>)
        requires
            width * height <= usize::MAX,
        ensures
            r is Err <==> (raw@.len() != width * height || exists|k: int|
                0 <= k < raw@.len() && #[trigger] char_cell(raw@[k]) is None),
            r == Err::<TileMap, MapError>(MapError::SizeMismatch) <==> raw@.len() != width
                * height,
            r is Err && raw@.len() == width * height ==> r == Err::<TileMap, MapError>(
                MapError::BadCharacter,
            ),
            r matches Ok(m) ==> m.wf() && m.w() == width && m.h() == height && forall|k: int|
                0 <= k < raw@.len() ==> #[trigger] m.view()[k] == char_cell(raw@[k]).unwrap(),
    {
        if raw.len() != width * height {
            return Err(MapError::SizeMismatch);
        }
        let mut cells: Vec<Cell> = Vec::new();
        let n = raw.len();
        let mut k: usize = 0;
        while k < n
            invariant
                n == raw@.len(),
                n == width * height,
                k <= n,
                cells@.len() == k,
                forall|q: int|
                    0 <= q < k ==> #[trigger] char_cell(raw@[q]) is Some && cells@[q] == char_cell(
                        raw@[q],
                    ).unwrap(),
            decreases n - k,
        {
            let c = raw[k];
            let u = c as u32;
            if u == 32 {
                cells.push(Cell::Empty);
            } else if 48 <= u && u <= 57 {
                cells.push(Cell::Material((u - 48) as u8));
            } else {
                proof {
                    assert(char_cell(raw@[k as int]) is None);
                }
                return Err(MapError::BadCharacter);
            }
            k += 1;
        }
        Ok(TileMap { width, height, cells })
    }

    /// The width, as stored.
    pub fn width(&self) -> (r: usize)
        ensures
            r == self.w(),
    {
        self.width
    }

    /// The height, as stored.
    pub fn height(&self) -> (r: usize)
        ensures
            r == self.h(),
    {
        self.height
    }

    /// Reads the cell at column `i`, row `j`; both must be in bounds.
    pub fn cell_get(&self, i: usize, j: usize) -> (r: Cell)
        requires
            self.wf(),
            i < self.w(),
            j < self.h(),
        ensures
            r == self.cell(i as int, j as int),
    {
        let n: usize = self.cells.len();
        proof {
            crate::framebuffer::lemma_row_major_bound(
                self.width as int,
                self.height as int,
                i as int,
                j as int,
            );
            assert(i + j * self.width < n);
        }
        self.cells[i + j * self.width]
    }

    /// Pure lookup of the cell at column `i`, row `j`; out-of-bounds indices
    /// give `IndexOutOfBounds`.
    pub fn cell_at(&self, i: usize, j: usize) -> (r: Result<Cell, MapError>)
        requires
            self.wf(),
        ensures
            r is Ok <==> i < self.w() && j < self.h(),
            r matches Ok(c) ==> c == self.cell(i as int, j as int),
            r is Err ==> r == Err::<Cell, MapError>(MapError::IndexOutOfBounds),
    {
        if i < self.width && j < self.height {
            Ok(self.cell_get(i, j))
        } else {
            Err(MapError::IndexOutOfBounds)
        }
    }

    /// Checks that every material index on the map is below `n`, so that a
    /// palette of `n` entries covers every wall cell.
    pub fn materials_within(&self, n: usize) -> (r: bool)
        requires
            self.wf(),
        ensures
            r == self.materials_below(n as int),
    {
        let mut j: usize = 0;
        while j < self.height
            invariant
                self.wf(),
                j <= self.h(),
                forall|a: int, b: int|
                    0 <= a < self.w() && 0 <= b < j ==> match #[trigger] self.cell(a, b) {
                        Cell::Material(m) => m < n,
                        Cell::Empty => true,
                    },
            decreases self.h() - j,
        {
            let mut i: usize = 0;
            while i < self.width
                invariant
                    self.wf(),
                    j < self.h(),
                    i <= self.w(),
                    forall|a: int, b: int|
                        0 <= a < self.w() && 0 <= b < j ==> match #[trigger] self.cell(a, b) {
                            Cell::Material(m) => m < n,
                            Cell::Empty => true,
                        },
                    forall|a: int|
                        0 <= a < i ==> match #[trigger] self.cell(a, j as int) {
                            Cell::Material(m) => m < n,
                            Cell::Empty => true,
                        },
                decreases self.w() - i,
            {
                match self.cell_get(i, j) {
                    Cell::Material(m) => {
                        if m as usize >= n {
                            return false;
                        }
                    },
                    Cell::Empty => {},
                }
                i += 1;
            }
            j += 1;
        }
        true
    }
}

} // verus!
