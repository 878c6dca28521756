//! The occupancy grid: for every cell of the sandbox, the atom in it if
//! there is one.

use vstd::prelude::*;
use crate::atom::Atom;
use crate::coordinate::SandboxCoordinate;

verus! {

#[derive(Copy, Clone, Debug, PartialEq, Eq, Structural)]
pub enum CellsError {
    /// The cell is taken; `x` and `y` are the coordinates of the atom in it.
    CellOccupied { x: i32, y: i32 },
}

/// Cells are stored row by row: `(0, 0)..(width - 1, 0)`, then
/// `(0, 1)..(width - 1, 1)`, down to the last row.
pub struct Cells {
    width: i32,
    height: i32,
    array: Vec<Option<Atom>>,
}

/// Place of the cell `(x, y)` in a row-by-row layout of rows of `width` cells.
pub open spec fn cell_index(x: int, y: int, width: int) -> int {
    y * width + x
}

/// Inside a grid every cell has a place of its own, below `width * height`.
pub proof fn lemma_cell_index_bounds(x: int, y: int, width: int, height: int)
    requires
        0 <= x < width,
        0 <= y < height,
    ensures
        0 <= cell_index(x, y, width) < width * height,
        0 <= y * width <= cell_index(x, y, width),
{
    assert(0 <= y * width) by (nonlinear_arith)
        requires
            0 <= y,
            0 < width,
    ;
    assert(y * width + width <= height * width) by (nonlinear_arith)
        requires
            0 <= y < height,
            0 < width,
    ;
    assert(height * width == width * height) by (nonlinear_arith);
}

/// Two cells of a grid with the same place are the same cell.
pub proof fn lemma_cell_index_injective(x1: int, y1: int, x2: int, y2: int, width: int)
    requires
        0 <= x1 < width,
        0 <= x2 < width,
        cell_index(x1, y1, width) == cell_index(x2, y2, width),
    ensures
        x1 == x2,
        y1 == y2,
{
    if y1 < y2 {
        assert(y1 * width + width <= y2 * width) by (nonlinear_arith)
            requires
                y1 < y2,
                0 < width,
        ;
    } else if y2 < y1 {
        assert(y2 * width + width <= y1 * width) by (nonlinear_arith)
            requires
                y2 < y1,
                0 < width,
        ;
    }
}

impl View for Cells {
    type V = Map<SandboxCoordinate, Atom>;

    /// The atoms of the grid by the cell they are in.
    closed spec fn view(&self) -> Map<SandboxCoordinate, Atom> {
        Map::new(
            |c: SandboxCoordinate|
                c.within(self.width as int, self.height as int) && self.array@[cell_index(
                    c.x as int,
                    c.y as int,
                    self.width as int,
                )] is Some,
            |c: SandboxCoordinate|
                self.array@[cell_index(c.x as int, c.y as int, self.width as int)]->0,
        )
    }
}

impl Cells {
    pub closed spec fn width(&self) -> int {
        self.width as int
    }

    pub closed spec fn height(&self) -> int {
        self.height as int
    }

    /// The storage has one slot for each cell.
    pub closed spec fn inv(&self) -> bool {
        &&& 0 < self.width
        &&& 0 < self.height
        &&& self.array@.len() == self.width * self.height
    }

    /// The grid has a slot for each cell, its atoms lie inside it, and each
    /// sits in the cell of its own coordinate.
    pub open spec fn wf(&self) -> bool {
        &&& self.inv()
        &&& 0 < self.width()
        &&& 0 < self.height()
        &&& forall|c: SandboxCoordinate| #[trigger]
            self@.contains_key(c) ==> c.within(self.width(), self.height()) && self@[c].coord == c
    }

    /// An empty square grid with `sandbox_size` cells on each side.
    pub fn new(sandbox_size: i32) -> (cells: Self)
        requires
            0 < sandbox_size,
            sandbox_size * sandbox_size <= usize::MAX,
        ensures
            cells.wf(),
            cells.width() == sandbox_size,
            cells.height() == sandbox_size,
            cells@ == Map::<SandboxCoordinate, Atom>::empty(),
    {
        let side: usize = sandbox_size as usize;
        assert(side * side == sandbox_size * sandbox_size) by (nonlinear_arith)
            requires
                side == sandbox_size,
        ;
        let count: usize = side * side;
        let mut array: Vec<Option<Atom>> = Vec::new();
        let mut filled: usize = 0;
        while filled < count
            invariant
                filled <= count,
                array@.len() == filled,
                forall|i: int| 0 <= i < filled ==> array@[i] is None,
            decreases count - filled,
        {
            array.push(None);
            filled = filled + 1;
        }
        let cells = Cells { width: sandbox_size, height: sandbox_size, array };
        proof {
            assert forall|c: SandboxCoordinate| !(#[trigger] cells@.contains_key(c)) by {
                if c.within(sandbox_size as int, sandbox_size as int) {
                    lemma_cell_index_bounds(
                        c.x as int,
                        c.y as int,
                        sandbox_size as int,
                        sandbox_size as int,
                    );
                }
            }
            assert(cells@ =~= Map::<SandboxCoordinate, Atom>::empty());
        }
        cells
    }

    /// The numbers of columns and of rows of the grid.
    pub fn size(&self) -> (size: (i32, i32))
        ensures
            size.0 == self.width(),
            size.1 == self.height(),
    {
        (self.width, self.height)
    }

    /// The slot of a cell inside the grid.
    fn slot(&self, coord: SandboxCoordinate) -> (index: usize)
        requires
            self.inv(),
            coord.within(self.width(), self.height()),
        ensures
            index == cell_index(coord.x as int, coord.y as int, self.width()),
            index < self.array@.len(),
    {
        let x: usize = coord.x as usize;
        let y: usize = coord.y as usize;
        let width: usize = self.width as usize;
        proof {
            lemma_cell_index_bounds(
                coord.x as int,
                coord.y as int,
                self.width as int,
                self.height as int,
            );
        }
        assert(y * width + x < self.array.len());
        y * width + x
    }

    /// Puts `atom` into the cell of its coordinate, unless the cell is taken.
    pub fn fill_cell(&mut self, atom: Atom) -> (result: Result<(), CellsError>)
        requires
            old(self).wf(),
            atom.coord.within(old(self).width(), old(self).height()),
        ensures
            final(self).wf(),
            final(self).width() == old(self).width(),
            final(self).height() == old(self).height(),
            result is Ok <==> !old(self)@.contains_key(atom.coord),
            result is Ok ==> final(self)@ == old(self)@.insert(atom.coord, atom),
            result is Err ==> final(self)@ == old(self)@ && result == Err::<(), CellsError>(
                CellsError::CellOccupied { x: atom.coord.x, y: atom.coord.y },
            ),
    {
        if let Some(atom_exists) = self.get_cell_contents(atom.coord) {
            Err(CellsError::CellOccupied { x: atom_exists.coord.x, y: atom_exists.coord.y })
        } else {
            let index = self.slot(atom.coord);
            self.array.set(index, Some(atom));
            proof {
                self.lemma_slot_written(*old(self), atom.coord, Some(atom));
                assert(final(self)@ =~= old(self)@.insert(atom.coord, atom));
            }
            Ok(())
        }
    }

    /// Empties the cell at `coord`, whether or not it held an atom.
    pub fn clear_cell(&mut self, coord: SandboxCoordinate)
        requires
            old(self).wf(),
            coord.within(old(self).width(), old(self).height()),
        ensures
            final(self).wf(),
            final(self).width() == old(self).width(),
            final(self).height() == old(self).height(),
            final(self)@ == old(self)@.remove(coord),
    {
        let index = self.slot(coord);
        self.array.set(index, None);
        proof {
            self.lemma_slot_written(*old(self), coord, None);
            assert(final(self)@ =~= old(self)@.remove(coord));
        }
    }

    /// The atom in the cell at `coord`, if there is one.
    pub fn get_cell_contents(&self, coord: SandboxCoordinate) -> (contents: Option<Atom>)
        requires
            self.wf(),
            coord.within(self.width(), self.height()),
        ensures
            contents == (if self@.contains_key(coord) {
                Some(self@[coord])
            } else {
                None
            }),
    {
        let index = self.slot(coord);
        self.array[index]
    }

    /// After one slot of `before` was overwritten, every other cell holds
    /// what it held and the cell of that slot holds what was written.
    proof fn lemma_slot_written(&self, before: Cells, coord: SandboxCoordinate, value: Option<Atom>)
        requires
            before.inv(),
            coord.within(before.width(), before.height()),
            self.width == before.width,
            self.height == before.height,
            self.array@ == before.array@.update(
                cell_index(coord.x as int, coord.y as int, before.width()),
                value,
            ),
        ensures
            self.inv(),
            self@.contains_key(coord) <==> value is Some,
            value is Some ==> self@[coord] == value->0,
            forall|c: SandboxCoordinate|
                c != coord ==> (#[trigger] self@.contains_key(c) <==> before@.contains_key(c)),
            forall|c: SandboxCoordinate|
                c != coord && #[trigger] self@.contains_key(c) ==> self@[c] == before@[c],
    {
        let width = before.width();
        let height = before.height();
        lemma_cell_index_bounds(coord.x as int, coord.y as int, width, height);
        assert forall|c: SandboxCoordinate| c != coord && c.within(width, height) implies cell_index(
            c.x as int,
            c.y as int,
            width,
        ) != cell_index(coord.x as int, coord.y as int, width) by {
            if cell_index(c.x as int, c.y as int, width) == cell_index(
                coord.x as int,
                coord.y as int,
                width,
            ) {
                lemma_cell_index_injective(
                    c.x as int,
                    c.y as int,
                    coord.x as int,
                    coord.y as int,
                    width,
                );
            }
        }
        assert forall|c: SandboxCoordinate| c.within(width, height) implies 0 <= cell_index(
            c.x as int,
            c.y as int,
            width,
        ) < before.array@.len() by {
            lemma_cell_index_bounds(c.x as int, c.y as int, width, height);
        }
    }
}

} // verus!
