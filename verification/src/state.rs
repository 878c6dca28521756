//! The simulation state: the atom list and the occupancy grid, kept in
//! agreement by every operation.

use vstd::prelude::*;
use crate::atom::Atom;
use crate::cells::Cells;
use crate::coordinate::SandboxCoordinate;
use crate::element::{neighbour_dx, neighbour_dy, neighbour_offset, neighbourhood_full, Element};
use crate::model::StateView;
use crate::parameters::Parameters;

verus! {

/// Why an atom could not be placed.
#[derive(Copy, Clone, Debug, PartialEq, Eq, Structural)]
pub enum AtomError {
    /// The coordinate lies outside the sandbox.
    OutOfBounds,
    /// The cell already holds an atom.
    CellOccupied,
}

/// Errors of the simulation state.
#[derive(Copy, Clone, Debug, PartialEq, Eq, Structural)]
pub enum StateError {
    /// An atom could not be placed.
    AtomError(AtomError),
}

impl From<AtomError> for StateError {
    fn from(error: AtomError) -> (wrapped: StateError) {
        StateError::AtomError(error)
    }
}

impl vstd::std_specs::convert::FromSpecImpl<AtomError> for StateError {
    open spec fn obeys_from_spec() -> bool {
        true
    }

    open spec fn from_spec(error: AtomError) -> StateError {
        StateError::AtomError(error)
    }
}

pub type Atoms = Vec<Atom>;

pub struct State {
    parameters: Parameters,
    cells: Cells,
    atoms: Atoms,
    active_element: Element,
}

impl View for State {
    type V = StateView;

    closed spec fn view(&self) -> StateView {
        StateView {
            width: self.parameters.sandbox_w as int,
            height: self.parameters.sandbox_h as int,
            active_element: self.active_element,
            atoms: self.atoms@,
            grid: self.cells@,
        }
    }
}

impl State {
    /// The grid is laid out for the sandbox of the parameters.
    pub closed spec fn inv(&self) -> bool {
        &&& self.cells.wf()
        &&& self.cells.width() == self.parameters.sandbox_w
        &&& self.cells.height() == self.parameters.sandbox_h
    }

    /// The state is laid out as it should be, and its grid and its atom list
    /// agree.
    pub open spec fn wf(&self) -> bool {
        &&& self.inv()
        &&& self@.consistent()
    }

    /// An empty square sandbox with `sandbox_size` cells on each side, in
    /// which sand is placed first.
    pub fn new(sandbox_size: i32) -> (state: Self)
        requires
            0 < sandbox_size,
            sandbox_size * sandbox_size <= usize::MAX,
        ensures
            state.wf(),
            state@ == StateView::empty(sandbox_size as int),
    {
        State {
            parameters: Parameters::new(sandbox_size),
            atoms: Vec::new(),
            cells: Cells::new(sandbox_size),
            active_element: Element::Sand,
        }
    }

    pub fn parameters(&self) -> (parameters: &Parameters)
        ensures
            parameters.sandbox_w == self@.width,
            parameters.sandbox_h == self@.height,
    {
        &self.parameters
    }

    pub fn cells(&self) -> (cells: &Cells)
        requires
            self.wf(),
        ensures
            cells.wf(),
            cells.width() == self@.width,
            cells.height() == self@.height,
            cells@ == self@.grid,
    {
        &self.cells
    }

    pub fn get_atoms(&self) -> (atoms: &Atoms)
        ensures
            atoms@ == self@.atoms,
    {
        &self.atoms
    }

    pub fn active_element(&self) -> (element: Element)
        ensures
            element == self@.active_element,
    {
        self.active_element
    }

    /// Chooses the kind of the atoms that `make_atom` places from now on.
    pub fn set_active_element(&mut self, element: Element)
        ensures
            final(self)@ == (StateView { active_element: element, ..old(self)@ }),
            old(self).wf() ==> final(self).wf(),
    {
        self.active_element = element;
    }

    /// Whether `coord` lies outside the sandbox.
    pub fn atom_out_of_bounds(&self, coord: SandboxCoordinate) -> (outside: bool)
        ensures
            outside == !self@.in_bounds(coord),
    {
        coord.x < 0 || coord.x >= self.parameters.sandbox_w || coord.y < 0 || coord.y
            >= self.parameters.sandbox_h
    }

    /// Whether an atom of the list is at `coord`, by a walk through the list.
    pub fn atom_collision(&self, coord: SandboxCoordinate) -> (collides: bool)
        ensures
            collides == self@.atom_at(coord),
    {
        let mut i: usize = 0;
        while i < self.atoms.len()
            invariant
                i <= self.atoms@.len(),
                forall|j: int| 0 <= j < i ==> (#[trigger] self.atoms@[j]).coord != coord,
            decreases self.atoms@.len() - i,
        {
            let atom = self.atoms[i];
            if coord.x == atom.coord.x && coord.y == atom.coord.y {
                return true;
            }
            i = i + 1;
        }
        false
    }

    /// Places an atom of `element` at `coord` if the cell lies inside the
    /// sandbox and is free.
    fn place_atom(&mut self, coord: SandboxCoordinate, element: Element) -> (result: Result<
        (),
        AtomError,
    >)
        requires
            old(self).wf(),
        ensures
            final(self).wf(),
            final(self)@ == old(self)@.place(coord, element),
            old(self)@.settled() ==> final(self)@.settled(),
            result == (if !old(self)@.in_bounds(coord) {
                Err::<(), AtomError>(AtomError::OutOfBounds)
            } else if old(self)@.grid.contains_key(coord) {
                Err::<(), AtomError>(AtomError::CellOccupied)
            } else {
                Ok::<(), AtomError>(())
            }),
    {
        proof {
            old(self)@.lemma_place_consistent(coord, element);
        }
        if self.atom_out_of_bounds(coord) {
            Err(AtomError::OutOfBounds)
        } else if self.cells.get_cell_contents(coord).is_some() {
            Err(AtomError::CellOccupied)
        } else {
            let atom = Atom::new(coord, element);
            self.atoms.push(atom);
            let filled = self.cells.fill_cell(atom);
            assert(filled is Ok);
            Ok(())
        }
    }

    /// Places an atom of the active element at `coord`.
    ///
    /// Fails with `OutOfBounds` if `coord` lies outside the sandbox, and with
    /// `CellOccupied` if the cell is taken; the state is then as it was.
    pub fn make_atom(&mut self, coord: SandboxCoordinate) -> (result: Result<(), AtomError>)
        requires
            old(self).wf(),
        ensures
            final(self).wf(),
            final(self)@ == old(self)@.place(coord, old(self)@.active_element),
            result == (if !old(self)@.in_bounds(coord) {
                Err::<(), AtomError>(AtomError::OutOfBounds)
            } else if old(self)@.grid.contains_key(coord) {
                Err::<(), AtomError>(AtomError::CellOccupied)
            } else {
                Ok::<(), AtomError>(())
            }),
            result is Err ==> final(self)@ == old(self)@,
            result is Err ==> final(self)@.atoms.len() == old(self)@.atoms.len(),
            result is Ok ==> final(self)@.atoms == old(self)@.atoms.push(
                Atom::spec_new(coord, old(self)@.active_element),
            ),
            old(self)@.settled() ==> final(self)@.settled(),
    {
        let element = self.active_element;
        self.place_atom(coord, element)
    }

    /// Places three grains of sand, at `(0, 0)`, `(10, 10)` and `(20, 20)`,
    /// each only if its cell lies inside the sandbox and is free.
    pub fn init(&mut self)
        requires
            old(self).wf(),
        ensures
            final(self).wf(),
            final(self)@ == old(self)@.place(
                SandboxCoordinate { x: 0, y: 0 },
                Element::Sand,
            ).place(SandboxCoordinate { x: 10, y: 10 }, Element::Sand).place(
                SandboxCoordinate { x: 20, y: 20 },
                Element::Sand,
            ),
            old(self)@.settled() ==> final(self)@.settled(),
    {
        let _ = self.place_atom(SandboxCoordinate { x: 0, y: 0 }, Element::Sand);
        let _ = self.place_atom(SandboxCoordinate { x: 10, y: 10 }, Element::Sand);
        let _ = self.place_atom(SandboxCoordinate { x: 20, y: 20 }, Element::Sand);
    }

    /// Whether the cell `(x, y)` is taken or lies outside the sandbox.
    fn blocked(&self, x: i64, y: i64) -> (blocked: bool)
        requires
            self.wf(),
        ensures
            blocked == self@.blocked(x as int, y as int),
    {
        if x < 0 || x >= self.parameters.sandbox_w as i64 || y < 0 || y
            >= self.parameters.sandbox_h as i64 {
            true
        } else {
            let target = SandboxCoordinate { x: x as i32, y: y as i32 };
            self.cells.get_cell_contents(target).is_some()
        }
    }

    /// The eight cells around `atom`, row by row from the top left: `true`
    /// where a cell is taken or lies outside the sandbox.
    pub fn get_atom_neighbourhood(&self, atom: &Atom) -> (neighbourhood: Vec<bool>)
        requires
            self.wf(),
        ensures
            neighbourhood@ == self@.neighbourhood(atom.coord),
    {
        let mut neighbourhood: Vec<bool> = Vec::new();
        let mut k: usize = 0;
        while k < 8
            invariant
                self.wf(),
                k <= 8,
                neighbourhood@.len() == k,
                forall|j: int|
                    0 <= j < k ==> #[trigger] neighbourhood@[j] == self@.blocked(
                        atom.coord.x + neighbour_dx(j),
                        atom.coord.y + neighbour_dy(j),
                    ),
            decreases 8 - k,
        {
            let (dx, dy) = neighbour_offset(k);
            let x: i64 = atom.coord.x as i64 + dx as i64;
            let y: i64 = atom.coord.y as i64 + dy as i64;
            let blocked = self.blocked(x, y);
            neighbourhood.push(blocked);
            k = k + 1;
        }
        assert(neighbourhood@ =~= self@.neighbourhood(atom.coord));
        neighbourhood
    }

    /// Lets every atom propose its move, with the coins of `given` where
    /// there are any, else with a coin flipped for each atom whose rule takes
    /// one. Returns the coins that the proposals were made with.
    fn propose_each(&mut self, given: Option<&Vec<bool>>) -> (heads: Ghost<Seq<bool>>)
        requires
            old(self).wf(),
        ensures
            final(self).wf(),
            heads@.len() == old(self)@.atoms.len(),
            final(self)@ == old(self)@.propose(heads@),
            given matches Some(coins) ==> final(self)@ == old(self)@.propose(coins@),
    {
        let ghost start = self@;
        let ghost mut heads: Seq<bool> = Seq::empty();
        let count = self.atoms.len();
        let mut i: usize = 0;
        while i < count
            invariant
                i <= count,
                count == start.atoms.len(),
                start.consistent(),
                self.wf(),
                heads.len() == i,
                given matches Some(coins) ==> forall|j: int|
                    0 <= j < i ==> #[trigger] heads[j] == StateView::coin(coins@, j),
                self@.width == start.width,
                self@.height == start.height,
                self@.active_element == start.active_element,
                self@.grid == start.grid,
                self@.atoms.len() == count,
                forall|j: int|
                    0 <= j < i ==> #[trigger] self@.atoms[j] == start.atoms[j].proposing(
                        start.neighbourhood(start.atoms[j].coord),
                        heads[j],
                    ),
                forall|j: int| i <= j < count ==> #[trigger] self@.atoms[j] == start.atoms[j],
            decreases count - i,
        {
            let ghost before = self@;
            let mut atom = self.atoms[i];
            let ghost resting = atom;
            assert(before.holds(resting));
            let neighbourhood = self.get_atom_neighbourhood(&atom);
            assert(neighbourhood@ == start.neighbourhood(resting.coord)) by {
                assert(neighbourhood@ =~= start.neighbourhood(resting.coord));
            }
            let ghost coin: bool;
            if neighbourhood_full(&neighbourhood) {
                // nowhere to go: the rule need not be asked
                atom.reset_next();
                proof {
                    coin = match given {
                        Some(coins) => StateView::coin(coins@, i as int),
                        None => false,
                    };
                    resting.element.lemma_boxed_in_stays(neighbourhood@, coin);
                }
            } else {
                match given {
                    Some(coins) => {
                        let shown = i < coins.len() && coins[i];
                        atom.set_next_with(&neighbourhood, shown);
                        proof {
                            coin = shown;
                        }
                    },
                    None => {
                        atom.set_next(neighbourhood);
                        proof {
                            coin = (atom == resting.proposing(
                                start.neighbourhood(resting.coord),
                                true,
                            ));
                        }
                    },
                }
            }
            proof {
                assert(atom == resting.proposing(start.neighbourhood(resting.coord), coin));
                start.lemma_proposal_in_bounds(resting, coin);
                before.lemma_aim_consistent(i as int, atom);
                heads = heads.push(coin);
            }
            self.atoms.set(i, atom);
            i = i + 1;
        }
        proof {
            assert(self@.atoms =~= start.propose(heads).atoms);
            if let Some(coins) = given {
                assert(self@.atoms =~= start.propose(coins@).atoms);
            }
        }
        Ghost(heads)
    }

    /// The propose phase of a tick: every atom proposes the move that its
    /// element's rule gives in its neighbourhood, flipping a coin where the
    /// rule takes one. No atom moves and the grid stays as it is. An atom
    /// with no free cell around it proposes to stay without its rule being
    /// asked.
    pub fn propose_moves(&mut self)
        requires
            old(self).wf(),
        ensures
            final(self).wf(),
            exists|heads: Seq<bool>|
                heads.len() == old(self)@.atoms.len() && final(self)@ == #[trigger] old(
                    self,
                )@.propose(heads),
            final(self)@.grid == old(self)@.grid,
            final(self)@.atoms.len() == old(self)@.atoms.len(),
            forall|j: int|
                0 <= j < old(self)@.atoms.len() ==> {
                    let after = #[trigger] final(self)@.atoms[j];
                    &&& after.element == old(self)@.atoms[j].element
                    &&& after.coord == old(self)@.atoms[j].coord
                    &&& after.next_coord == old(self)@.proposal(j, true) || after.next_coord
                        == old(self)@.proposal(j, false)
                },
    {
        let Ghost(heads) = self.propose_each(None);
        proof {
            assert(final(self)@ == old(self)@.propose(heads));
            assert forall|j: int| 0 <= j < old(self)@.atoms.len() implies {
                let after = #[trigger] final(self)@.atoms[j];
                after.next_coord == old(self)@.proposal(j, true) || after.next_coord == old(
                    self,
                )@.proposal(j, false)
            } by {
                assert(final(self)@.atoms[j].next_coord == old(self)@.proposal(
                    j,
                    StateView::coin(heads, j),
                ));
            }
        }
    }

    /// The propose phase of a tick in which the coin of atom `i` shows
    /// `heads[i]`, or tails where `heads` holds no coin for it.
    pub fn propose_moves_with(&mut self, heads: &Vec<bool>)
        requires
            old(self).wf(),
        ensures
            final(self).wf(),
            final(self)@ == old(self)@.propose(heads@),
    {
        let _ = self.propose_each(Some(heads));
    }

    /// The commit phase of a tick: the atoms commit one after the other in
    /// the order of the list. An atom whose proposed cell is taken by then,
    /// by itself or by another, stays and drops its proposal; any other
    /// moves there, in the list and in the grid.
    pub fn commit_moves(&mut self)
        requires
            old(self).wf(),
        ensures
            final(self).wf(),
            final(self)@ == old(self)@.commit(),
            final(self)@.settled(),
            final(self)@.atoms.len() == old(self)@.atoms.len(),
            forall|j: int|
                0 <= j < old(self)@.atoms.len() ==> {
                    let after = #[trigger] final(self)@.atoms[j];
                    &&& after.element == old(self)@.atoms[j].element
                    &&& after.coord == old(self)@.atoms[j].coord || after.coord == old(
                        self,
                    )@.atoms[j].next_coord
                },
    {
        proof {
            old(self)@.lemma_commit_consistent();
        }
        let ghost start = self@;
        let count = self.atoms.len();
        let mut i: usize = 0;
        while i < count
            invariant
                i <= count,
                count == start.atoms.len(),
                self.wf(),
                self@ == start.commit_first(i as nat),
                self@.atoms.len() == count,
                forall|j: int| 0 <= j < i ==> (#[trigger] self@.atoms[j]).is_settled(),
            decreases count - i,
        {
            let ghost before = self@;
            let mut atom = self.atoms[i];
            proof {
                before.lemma_commit_one(i as int);
                assert(before.holds(atom));
            }
            if self.cells.get_cell_contents(atom.next_coord).is_some() {
                // the cell was taken, by this atom or by one that came first
                atom.reset_next();
                self.atoms.set(i, atom);
            } else {
                self.cells.clear_cell(atom.coord);
                atom.update();
                self.atoms.set(i, atom);
                let filled = self.cells.fill_cell(atom);
                assert(filled is Ok);
            }
            assert(self@ == before.commit_one(i as int));
            i = i + 1;
        }
    }

    /// Advances the simulation by one tick: the propose phase, then the
    /// commit phase.
    pub fn update_atoms(&mut self)
        requires
            old(self).wf(),
        ensures
            final(self).wf(),
            final(self)@.settled(),
            exists|heads: Seq<bool>|
                heads.len() == old(self)@.atoms.len() && final(self)@ == #[trigger] old(
                    self,
                )@.tick(heads),
            old(self)@.atoms.len() == 0 ==> final(self)@ == old(self)@,
            final(self)@.atoms.len() == old(self)@.atoms.len(),
            forall|j: int|
                0 <= j < old(self)@.atoms.len() ==> {
                    let after = #[trigger] final(self)@.atoms[j];
                    &&& after.element == old(self)@.atoms[j].element
                    &&& after.coord == old(self)@.atoms[j].coord || after.coord == old(
                        self,
                    )@.proposal(j, true) || after.coord == old(self)@.proposal(j, false)
                    &&& after.coord == old(self)@.atoms[j].coord || !old(
                        self,
                    )@.grid.contains_key(after.coord)
                },
    {
        self.propose_moves();
        let ghost heads = choose|heads: Seq<bool>|
            heads.len() == old(self)@.atoms.len() && self@ == #[trigger] old(self)@.propose(heads);
        self.commit_moves();
        proof {
            assert(self@ == old(self)@.tick(heads));
            old(self)@.lemma_tick_consistent(heads);
            if old(self)@.atoms.len() == 0 {
                old(self)@.lemma_tick_of_empty(heads);
            }
        }
    }

    /// Advances the simulation by one tick in which the coin of atom `i`
    /// shows `heads[i]`, or tails where `heads` holds no coin for it: the
    /// propose phase with these coins, then the commit phase.
    pub fn update_atoms_with(&mut self, heads: &Vec<bool>)
        requires
            old(self).wf(),
        ensures
            final(self).wf(),
            final(self)@.settled(),
            final(self)@ == old(self)@.tick(heads@),
    {
        self.propose_moves_with(heads);
        self.commit_moves();
    }
}

} // verus!
