//! The mathematical model of the simulation: what a state is, when its grid
//! and its atom list agree, and what a tick does to it.

use vstd::prelude::*;
use crate::atom::Atom;
use crate::coordinate::SandboxCoordinate;
use crate::element::{neighbour_dx, neighbour_dy, neighbour_index, Element};

verus! {

/// A state of the simulation as plain mathematical values.
pub ghost struct StateView {
    pub width: int,
    pub height: int,
    /// The kind of the atoms that are placed next.
    pub active_element: Element,
    /// The atoms in the order in which they were placed.
    pub atoms: Seq<Atom>,
    /// The atoms by the cell they are in.
    pub grid: Map<SandboxCoordinate, Atom>,
}

impl StateView {
    /// An empty sandbox with `size` cells on each side.
    pub open spec fn empty(size: int) -> StateView {
        StateView {
            width: size,
            height: size,
            active_element: Element::Sand,
            atoms: Seq::empty(),
            grid: Map::empty(),
        }
    }

    pub open spec fn in_bounds(self, c: SandboxCoordinate) -> bool {
        c.within(self.width, self.height)
    }

    /// Some atom of the list is at `c`.
    pub open spec fn atom_at(self, c: SandboxCoordinate) -> bool {
        exists|i: int| 0 <= i < self.atoms.len() && (#[trigger] self.atoms[i]).coord == c
    }

    /// The atom lies inside the sandbox, so does the cell it has proposed,
    /// and the grid holds it at its coordinate.
    pub open spec fn holds(self, a: Atom) -> bool {
        &&& self.in_bounds(a.coord)
        &&& self.in_bounds(a.next_coord)
        &&& self.grid.contains_key(a.coord)
        &&& self.grid[a.coord] == a.settled()
    }

    /// The grid and the atom list agree: the sandbox is a square, every atom
    /// of the list is in the grid at its coordinate, every taken cell of the
    /// grid is the cell of an atom of the list, and no two atoms share a
    /// cell.
    pub open spec fn consistent(self) -> bool {
        &&& 0 < self.width <= i32::MAX
        &&& self.width == self.height
        &&& forall|i: int| 0 <= i < self.atoms.len() ==> self.holds(#[trigger] self.atoms[i])
        &&& forall|c: SandboxCoordinate| #[trigger]
            self.grid.contains_key(c) ==> self.in_bounds(c) && self.atom_at(c)
        &&& forall|i: int, j: int|
            0 <= i < j < self.atoms.len() ==> (#[trigger] self.atoms[i]).coord != (
            #[trigger] self.atoms[j]).coord
    }

    /// No atom has a move pending.
    pub open spec fn settled(self) -> bool {
        forall|i: int| 0 <= i < self.atoms.len() ==> (#[trigger] self.atoms[i]).is_settled()
    }

    /// The cell `(x, y)` cannot be moved into: it is taken, or it lies
    /// outside the sandbox.
    pub open spec fn blocked(self, x: int, y: int) -> bool {
        !(0 <= x < self.width && 0 <= y < self.height) || self.grid.contains_key(
            SandboxCoordinate { x: x as i32, y: y as i32 },
        )
    }

    /// The eight cells around `c`, row by row from the top left: `true`
    /// where a cell is blocked.
    pub open spec fn neighbourhood(self, c: SandboxCoordinate) -> Seq<bool> {
        Seq::new(8, |k: int| self.blocked(c.x + neighbour_dx(k), c.y + neighbour_dy(k)))
    }

    /// The state after an atom of kind `element` was asked for at `coord`:
    /// the atom is there if the cell lies inside the sandbox and was free,
    /// else nothing changed.
    pub open spec fn place(self, coord: SandboxCoordinate, element: Element) -> StateView {
        if self.in_bounds(coord) && !self.grid.contains_key(coord) {
            StateView {
                atoms: self.atoms.push(Atom::spec_new(coord, element)),
                grid: self.grid.insert(coord, Atom::spec_new(coord, element)),
                ..self
            }
        } else {
            self
        }
    }

    /// The coin of atom `i` among the coins `heads`: `heads[i]`, or tails
    /// where `heads` is too short to hold one for it.
    pub open spec fn coin(heads: Seq<bool>, i: int) -> bool {
        0 <= i < heads.len() && heads[i]
    }

    /// The cell that atom `i` proposes in the propose phase if its coin
    /// shows `heads`.
    pub open spec fn proposal(self, i: int, heads: bool) -> SandboxCoordinate {
        self.atoms[i].proposing(self.neighbourhood(self.atoms[i].coord), heads).next_coord
    }

    /// The propose phase: every atom proposes the move that its element's
    /// rule gives in its neighbourhood, with the coins `heads`. No atom
    /// moves yet and the grid is as it was.
    pub open spec fn propose(self, heads: Seq<bool>) -> StateView {
        StateView {
            atoms: Seq::new(
                self.atoms.len(),
                |i: int|
                    self.atoms[i].proposing(
                        self.neighbourhood(self.atoms[i].coord),
                        Self::coin(heads, i),
                    ),
            ),
            ..self
        }
    }

    /// Atom `i` commits: if the cell it proposed is taken it stays and drops
    /// its proposal, else it moves there.
    pub open spec fn commit_one(self, i: int) -> StateView {
        let a = self.atoms[i];
        if self.grid.contains_key(a.next_coord) {
            StateView { atoms: self.atoms.update(i, a.settled()), ..self }
        } else {
            StateView {
                atoms: self.atoms.update(i, a.moved()),
                grid: self.grid.remove(a.coord).insert(a.next_coord, a.moved()),
                ..self
            }
        }
    }

    /// The state after the first `k` atoms have committed, one after the
    /// other in the order of the list.
    pub open spec fn commit_first(self, k: nat) -> StateView
        decreases k,
    {
        if k == 0 {
            self
        } else {
            self.commit_first((k - 1) as nat).commit_one(k - 1)
        }
    }

    /// The commit phase: all atoms commit in the order of the list, so that
    /// of several atoms that proposed one cell the first takes it.
    pub open spec fn commit(self) -> StateView {
        self.commit_first(self.atoms.len())
    }

    /// One tick: the propose phase with the coins `heads`, then the commit
    /// phase.
    pub open spec fn tick(self, heads: Seq<bool>) -> StateView {
        self.propose(heads).commit()
    }

    /// Where the grid and the list agree, a cell is taken in the grid
    /// exactly if an atom of the list is at it.
    pub proof fn lemma_occupancy_agrees(self, c: SandboxCoordinate)
        requires
            self.consistent(),
        ensures
            self.grid.contains_key(c) <==> self.atom_at(c),
    {
        if self.atom_at(c) {
            let i = choose|i: int| 0 <= i < self.atoms.len() && (#[trigger] self.atoms[i]).coord == c;
            assert(self.holds(self.atoms[i]));
        }
    }

    /// Placing an atom keeps the grid and the list in agreement, and keeps
    /// a settled state settled.
    pub proof fn lemma_place_consistent(self, coord: SandboxCoordinate, element: Element)
        requires
            self.consistent(),
        ensures
            self.place(coord, element).consistent(),
            self.settled() ==> self.place(coord, element).settled(),
    {
        let after = self.place(coord, element);
        if self.in_bounds(coord) && !self.grid.contains_key(coord) {
            let atom = Atom::spec_new(coord, element);
            let n = self.atoms.len() as int;
            assert forall|i: int| 0 <= i < after.atoms.len() implies after.holds(
                #[trigger] after.atoms[i],
            ) by {
                if i < n {
                    assert(self.holds(self.atoms[i]));
                }
            }
            assert forall|c: SandboxCoordinate| #[trigger]
                after.grid.contains_key(c) implies after.in_bounds(c) && after.atom_at(c) by {
                if c == coord {
                    assert(after.atoms[n].coord == c);
                } else {
                    let i = choose|i: int|
                        0 <= i < self.atoms.len() && (#[trigger] self.atoms[i]).coord == c;
                    assert(after.atoms[i].coord == c);
                }
            }
            assert forall|i: int, j: int| 0 <= i < j < after.atoms.len() implies (
            #[trigger] after.atoms[i]).coord != (#[trigger] after.atoms[j]).coord by {
                assert(self.holds(self.atoms[i]));
            }
            if self.settled() {
                assert forall|i: int| 0 <= i < after.atoms.len() implies (
                #[trigger] after.atoms[i]).is_settled() by {
                    if i < n {
                        assert(self.atoms[i].is_settled());
                    }
                }
            }
        }
    }

    /// The last cell of the last row lies inside the sandbox, so an atom
    /// can be placed there while it is free. The cell one past the end of
    /// the first row lies outside, so placing an atom there changes nothing.
    pub proof fn lemma_place_at_the_edge(self, element: Element)
        requires
            self.consistent(),
        ensures
            ({
                let last = SandboxCoordinate {
                    x: (self.width - 1) as i32,
                    y: (self.height - 1) as i32,
                };
                let beyond = SandboxCoordinate { x: self.width as i32, y: 0 };
                &&& self.in_bounds(last)
                &&& !self.grid.contains_key(last) ==> self.place(last, element).atoms
                    == self.atoms.push(Atom::spec_new(last, element))
                &&& !self.in_bounds(beyond)
                &&& self.place(beyond, element) == self
            }),
    {
    }

    /// A commit of one atom keeps the grid and the list in agreement. It
    /// changes no atom but that one, which ends settled, of the kind it was,
    /// and in the cell it was in or in the cell it proposed.
    pub proof fn lemma_commit_one(self, i: int)
        requires
            self.consistent(),
            0 <= i < self.atoms.len(),
        ensures
            self.commit_one(i).consistent(),
            self.commit_one(i).width == self.width,
            self.commit_one(i).height == self.height,
            self.commit_one(i).active_element == self.active_element,
            self.commit_one(i).atoms.len() == self.atoms.len(),
            forall|j: int|
                0 <= j < self.atoms.len() && j != i ==> #[trigger] self.commit_one(i).atoms[j]
                    == self.atoms[j],
            self.commit_one(i).atoms[i] == (if self.grid.contains_key(self.atoms[i].next_coord) {
                self.atoms[i].settled()
            } else {
                self.atoms[i].moved()
            }),
    {
        let a = self.atoms[i];
        let after = self.commit_one(i);
        assert(self.holds(a));
        if self.grid.contains_key(a.next_coord) {
            assert forall|j: int| 0 <= j < after.atoms.len() implies after.holds(
                #[trigger] after.atoms[j],
            ) by {
                assert(self.holds(self.atoms[j]));
            }
            assert forall|c: SandboxCoordinate| #[trigger]
                after.grid.contains_key(c) implies after.in_bounds(c) && after.atom_at(c) by {
                let j = choose|j: int|
                    0 <= j < self.atoms.len() && (#[trigger] self.atoms[j]).coord == c;
                assert(after.atoms[j].coord == c);
            }
            assert forall|j: int, k: int| 0 <= j < k < after.atoms.len() implies (
            #[trigger] after.atoms[j]).coord != (#[trigger] after.atoms[k]).coord by {
                assert(self.atoms[j].coord != self.atoms[k].coord);
            }
        } else {
            assert forall|j: int| 0 <= j < after.atoms.len() implies after.holds(
                #[trigger] after.atoms[j],
            ) by {
                assert(self.holds(self.atoms[j]));
                if j != i {
                    if j < i {
                        assert(self.atoms[j].coord != self.atoms[i].coord);
                    } else {
                        assert(self.atoms[i].coord != self.atoms[j].coord);
                    }
                }
            }
            assert forall|c: SandboxCoordinate| #[trigger]
                after.grid.contains_key(c) implies after.in_bounds(c) && after.atom_at(c) by {
                if c == a.next_coord {
                    assert(after.atoms[i].coord == c);
                } else {
                    let j = choose|j: int|
                        0 <= j < self.atoms.len() && (#[trigger] self.atoms[j]).coord == c;
                    assert(after.atoms[j].coord == c);
                }
            }
            assert forall|j: int, k: int| 0 <= j < k < after.atoms.len() implies (
            #[trigger] after.atoms[j]).coord != (#[trigger] after.atoms[k]).coord by {
                assert(self.atoms[j].coord != self.atoms[k].coord);
                assert(self.holds(self.atoms[j]));
                assert(self.holds(self.atoms[k]));
            }
        }
    }

    /// An atom inside the sandbox proposes a cell inside the sandbox that is
    /// its own or next to it, and its own or free.
    pub proof fn lemma_proposal_in_bounds(self, a: Atom, heads: bool)
        requires
            0 < self.width <= i32::MAX,
            0 < self.height <= i32::MAX,
            self.in_bounds(a.coord),
        ensures
            ({
                let (dx, dy) = a.element.spec_move(self.neighbourhood(a.coord), heads);
                let target = a.proposing(self.neighbourhood(a.coord), heads).next_coord;
                &&& target.x == a.coord.x + dx
                &&& target.y == a.coord.y + dy
                &&& self.in_bounds(target)
                &&& target == a.coord || !self.grid.contains_key(target)
            }),
    {
        let nh = self.neighbourhood(a.coord);
        let (dx, dy) = a.element.spec_move(nh, heads);
        a.element.lemma_move_is_one_step(nh, heads);
        a.element.lemma_move_into_free_cell(nh, heads);
        if (dx, dy) != (0int, 0int) {
            let k = neighbour_index(dx, dy);
            assert(0 <= k < 8);
            assert(neighbour_dx(k) == dx && neighbour_dy(k) == dy);
            assert(nh[k] == self.blocked(a.coord.x + neighbour_dx(k), a.coord.y + neighbour_dy(k)));
        }
    }

    /// A new proposal of one atom, for a cell inside the sandbox, keeps the
    /// grid and the list in agreement.
    pub proof fn lemma_aim_consistent(self, i: int, aimed: Atom)
        requires
            self.consistent(),
            0 <= i < self.atoms.len(),
            aimed.element == self.atoms[i].element,
            aimed.coord == self.atoms[i].coord,
            self.in_bounds(aimed.next_coord),
        ensures
            (StateView { atoms: self.atoms.update(i, aimed), ..self }).consistent(),
    {
        let after = StateView { atoms: self.atoms.update(i, aimed), ..self };
        assert forall|j: int| 0 <= j < after.atoms.len() implies after.holds(
            #[trigger] after.atoms[j],
        ) by {
            assert(self.holds(self.atoms[j]));
        }
        assert forall|c: SandboxCoordinate| #[trigger]
            after.grid.contains_key(c) implies after.in_bounds(c) && after.atom_at(c) by {
            let j = choose|j: int|
                0 <= j < self.atoms.len() && (#[trigger] self.atoms[j]).coord == c;
            assert(after.atoms[j].coord == c);
        }
        assert forall|j: int, k: int| 0 <= j < k < after.atoms.len() implies (
        #[trigger] after.atoms[j]).coord != (#[trigger] after.atoms[k]).coord by {
            assert(self.atoms[j].coord != self.atoms[k].coord);
        }
    }

    /// The propose phase keeps the grid and the list in agreement: it moves
    /// no atom, changes no kind, and leaves the grid as it was.
    pub proof fn lemma_propose_consistent(self, heads: Seq<bool>)
        requires
            self.consistent(),
        ensures
            self.propose(heads).consistent(),
            self.propose(heads).atoms.len() == self.atoms.len(),
            self.propose(heads).grid == self.grid,
            forall|i: int|
                0 <= i < self.atoms.len() ==> (#[trigger] self.propose(heads).atoms[i]).coord
                    == self.atoms[i].coord && self.propose(heads).atoms[i].element
                    == self.atoms[i].element,
    {
        let after = self.propose(heads);
        assert forall|j: int| 0 <= j < after.atoms.len() implies after.holds(
            #[trigger] after.atoms[j],
        ) by {
            assert(self.holds(self.atoms[j]));
            self.lemma_proposal_in_bounds(self.atoms[j], Self::coin(heads, j));
        }
        assert forall|c: SandboxCoordinate| #[trigger]
            after.grid.contains_key(c) implies after.in_bounds(c) && after.atom_at(c) by {
            let j = choose|j: int|
                0 <= j < self.atoms.len() && (#[trigger] self.atoms[j]).coord == c;
            assert(after.atoms[j].coord == c);
        }
        assert forall|j: int, k: int| 0 <= j < k < after.atoms.len() implies (
        #[trigger] after.atoms[j]).coord != (#[trigger] after.atoms[k]).coord by {
            assert(self.atoms[j].coord != self.atoms[k].coord);
        }
    }

    /// A tick of a state without atoms changes nothing.
    pub proof fn lemma_tick_of_empty(self, heads: Seq<bool>)
        requires
            self.atoms.len() == 0,
        ensures
            self.propose(heads) == self,
            self.commit() == self,
            self.tick(heads) == self,
    {
        assert(self.propose(heads).atoms =~= self.atoms);
    }

    /// After the first `k` atoms have committed the grid and the list still
    /// agree. Those `k` atoms are settled, each of the kind it was and in
    /// the cell it was in or in the cell it proposed; the others are as they
    /// were.
    pub proof fn lemma_commit_first(self, k: nat)
        requires
            self.consistent(),
            k <= self.atoms.len(),
        ensures
            self.commit_first(k).consistent(),
            self.commit_first(k).width == self.width,
            self.commit_first(k).height == self.height,
            self.commit_first(k).active_element == self.active_element,
            self.commit_first(k).atoms.len() == self.atoms.len(),
            forall|j: int|
                k <= j < self.atoms.len() ==> #[trigger] self.commit_first(k).atoms[j]
                    == self.atoms[j],
            forall|j: int|
                0 <= j < k ==> {
                    let after = #[trigger] self.commit_first(k).atoms[j];
                    &&& after.is_settled()
                    &&& after.element == self.atoms[j].element
                    &&& after.coord == self.atoms[j].coord || after.coord
                        == self.atoms[j].next_coord
                },
        decreases k,
    {
        if k > 0 {
            let before = self.commit_first((k - 1) as nat);
            self.lemma_commit_first((k - 1) as nat);
            before.lemma_commit_one(k - 1);
            assert(before.atoms[k - 1] == self.atoms[k - 1]);
            assert forall|j: int| 0 <= j < k implies {
                let after = #[trigger] self.commit_first(k).atoms[j];
                &&& after.is_settled()
                &&& after.element == self.atoms[j].element
                &&& after.coord == self.atoms[j].coord || after.coord == self.atoms[j].next_coord
            } by {
                if j < k - 1 {
                    assert(self.commit_first(k).atoms[j] == before.atoms[j]);
                }
            }
        }
    }

    /// An atom that has committed is not touched by the commits that
    /// follow.
    pub proof fn lemma_committed_atom_rests(self, k: nat, m: nat, j: int)
        requires
            self.consistent(),
            0 <= j < k <= m <= self.atoms.len(),
        ensures
            self.commit_first(m).atoms[j] == self.commit_first(k).atoms[j],
        decreases m,
    {
        if m > k {
            self.lemma_committed_atom_rests(k, (m - 1) as nat, j);
            self.lemma_commit_first((m - 1) as nat);
            self.commit_first((m - 1) as nat).lemma_commit_one(m - 1);
        }
    }

    /// What the commit phase makes of atom `j` is decided at its turn: it
    /// stays if the cell it proposed is taken once the atoms before it have
    /// committed, else it moves there.
    pub proof fn lemma_commit_decides_in_turn(self, j: int)
        requires
            self.consistent(),
            0 <= j < self.atoms.len(),
        ensures
            self.commit().atoms[j] == (if self.commit_first(j as nat).grid.contains_key(
                self.atoms[j].next_coord,
            ) {
                self.atoms[j].settled()
            } else {
                self.atoms[j].moved()
            }),
    {
        self.lemma_commit_first(j as nat);
        self.commit_first(j as nat).lemma_commit_one(j);
        self.lemma_committed_atom_rests((j + 1) as nat, self.atoms.len(), j);
    }

    /// The commit phase keeps the grid and the list in agreement and leaves
    /// every atom settled, of the kind it was, and in the cell it was in or
    /// in the cell it proposed. No atom appears or disappears.
    pub proof fn lemma_commit_consistent(self)
        requires
            self.consistent(),
        ensures
            self.commit().consistent(),
            self.commit().settled(),
            self.commit().width == self.width,
            self.commit().height == self.height,
            self.commit().active_element == self.active_element,
            self.commit().atoms.len() == self.atoms.len(),
            forall|j: int|
                0 <= j < self.atoms.len() ==> {
                    let after = #[trigger] self.commit().atoms[j];
                    &&& after.element == self.atoms[j].element
                    &&& after.coord == self.atoms[j].coord || after.coord
                        == self.atoms[j].next_coord
                },
    {
        self.lemma_commit_first(self.atoms.len());
    }

    /// An atom that proposes to stay stays.
    pub proof fn lemma_commit_keeps_settled_atom(self, j: int)
        requires
            self.consistent(),
            0 <= j < self.atoms.len(),
            self.atoms[j].is_settled(),
        ensures
            self.commit().atoms[j] == self.atoms[j],
    {
        self.lemma_commit_consistent();
    }

    /// A cell that is free stays free as long as no atom that proposed it
    /// has committed.
    pub proof fn lemma_free_until_claimed(self, c: SandboxCoordinate, k: nat)
        requires
            self.consistent(),
            k <= self.atoms.len(),
            !self.grid.contains_key(c),
            forall|m: int| 0 <= m < k ==> (#[trigger] self.atoms[m]).next_coord != c,
        ensures
            !self.commit_first(k).grid.contains_key(c),
        decreases k,
    {
        if k > 0 {
            self.lemma_free_until_claimed(c, (k - 1) as nat);
            self.lemma_commit_first((k - 1) as nat);
            assert(self.commit_first((k - 1) as nat).atoms[k - 1] == self.atoms[k - 1]);
        }
    }

    /// A cell that an atom holds after it has committed stays taken for the
    /// rest of the commit phase.
    pub proof fn lemma_claimed_stays_taken(self, k: nat, m: nat, j: int)
        requires
            self.consistent(),
            0 <= j < k <= m <= self.atoms.len(),
        ensures
            self.commit_first(m).grid.contains_key(self.commit_first(k).atoms[j].coord),
    {
        self.lemma_committed_atom_rests(k, m, j);
        self.lemma_commit_first(m);
        assert(self.commit_first(m).holds(self.commit_first(m).atoms[j]));
    }

    /// First come, first served: of two atoms that proposed the same free
    /// cell, the one that comes later in the list stays where it was.
    pub proof fn lemma_later_claimant_stays(self, i: int, j: int)
        requires
            self.consistent(),
            0 <= i < j < self.atoms.len(),
            self.atoms[i].next_coord == self.atoms[j].next_coord,
            !self.grid.contains_key(self.atoms[j].next_coord),
        ensures
            self.commit().atoms[j] == self.atoms[j].settled(),
            self.commit().atoms[j].coord == self.atoms[j].coord,
    {
        let c = self.atoms[j].next_coord;
        let at_turn = self.commit_first(i as nat);
        self.lemma_commit_first(i as nat);
        assert(at_turn.atoms[i] == self.atoms[i]);
        at_turn.lemma_commit_one(i);
        self.lemma_commit_first((i + 1) as nat);
        if at_turn.grid.contains_key(c) {
            // an atom that committed before `i` has moved into the cell
            let holder = choose|h: int|
                0 <= h < at_turn.atoms.len() && (#[trigger] at_turn.atoms[h]).coord == c;
            if holder >= i {
                assert(at_turn.atoms[holder] == self.atoms[holder]);
                assert(self.holds(self.atoms[holder]));
            }
            self.lemma_claimed_stays_taken(i as nat, j as nat, holder);
        } else {
            assert(self.commit_first((i + 1) as nat).atoms[i].coord == c);
            self.lemma_claimed_stays_taken((i + 1) as nat, j as nat, i);
        }
        self.lemma_commit_decides_in_turn(j);
    }

    /// First come, first served: an atom that proposed a free cell which no
    /// atom before it in the list proposed moves there.
    pub proof fn lemma_first_claimant_moves(self, i: int)
        requires
            self.consistent(),
            0 <= i < self.atoms.len(),
            !self.grid.contains_key(self.atoms[i].next_coord),
            forall|m: int|
                0 <= m < i ==> (#[trigger] self.atoms[m]).next_coord != self.atoms[i].next_coord,
        ensures
            self.commit().atoms[i] == self.atoms[i].moved(),
            self.commit().atoms[i].coord == self.atoms[i].next_coord,
    {
        self.lemma_free_until_claimed(self.atoms[i].next_coord, i as nat);
        self.lemma_commit_decides_in_turn(i);
    }

    /// A tick keeps the grid and the list in agreement and leaves every atom
    /// settled and of the kind it was. An atom is then where it was, or in
    /// the cell that its element's rule made it propose: a free cell next to
    /// its own, and never one above it. No atom appears or disappears.
    pub proof fn lemma_tick_consistent(self, heads: Seq<bool>)
        requires
            self.consistent(),
        ensures
            self.tick(heads).consistent(),
            self.tick(heads).settled(),
            self.tick(heads).width == self.width,
            self.tick(heads).height == self.height,
            self.tick(heads).active_element == self.active_element,
            self.tick(heads).atoms.len() == self.atoms.len(),
            forall|j: int|
                0 <= j < self.atoms.len() ==> {
                    let after = #[trigger] self.tick(heads).atoms[j];
                    &&& after.element == self.atoms[j].element
                    &&& after.coord == self.atoms[j].coord || after.coord == self.proposal(
                        j,
                        Self::coin(heads, j),
                    )
                    &&& after.coord == self.atoms[j].coord || !self.grid.contains_key(after.coord)
                    &&& -1 <= after.coord.x - self.atoms[j].coord.x <= 1
                    &&& 0 <= after.coord.y - self.atoms[j].coord.y <= 1
                },
    {
        let proposed = self.propose(heads);
        self.lemma_propose_consistent(heads);
        proposed.lemma_commit_consistent();
        assert forall|j: int| 0 <= j < self.atoms.len() implies {
            let after = #[trigger] self.tick(heads).atoms[j];
            &&& after.element == self.atoms[j].element
            &&& after.coord == self.atoms[j].coord || after.coord == self.proposal(
                j,
                Self::coin(heads, j),
            )
            &&& after.coord == self.atoms[j].coord || !self.grid.contains_key(after.coord)
            &&& -1 <= after.coord.x - self.atoms[j].coord.x <= 1
            &&& 0 <= after.coord.y - self.atoms[j].coord.y <= 1
        } by {
            let a = self.atoms[j];
            let nh = self.neighbourhood(a.coord);
            assert(self.holds(a));
            let coin = Self::coin(heads, j);
            assert(proposed.atoms[j] == a.proposing(nh, coin));
            self.lemma_proposal_in_bounds(a, coin);
            a.element.lemma_move_is_one_step(nh, coin);
            a.element.lemma_move_never_rises(nh, coin);
            let after = proposed.commit().atoms[j];
            assert(after.coord == proposed.atoms[j].coord || after.coord
                == proposed.atoms[j].next_coord);
        }
    }

    /// A tick in which no rule takes a coin has one outcome, whatever the
    /// coins show.
    pub proof fn lemma_tick_without_coins(self, heads: Seq<bool>, others: Seq<bool>)
        requires
            forall|i: int|
                0 <= i < self.atoms.len() ==> !(#[trigger] self.atoms[i]).element.spec_uses_coin(
                    self.neighbourhood(self.atoms[i].coord),
                ),
        ensures
            self.tick(heads) == self.tick(others),
    {
        assert forall|i: int| 0 <= i < self.atoms.len() implies self.propose(heads).atoms[i]
            == self.propose(others).atoms[i] by {
            let a = self.atoms[i];
            let nh = self.neighbourhood(a.coord);
            assert(!a.element.spec_uses_coin(nh));
            assert(a.element.spec_move(nh, Self::coin(heads, i)) == a.element.spec_move(
                nh,
                Self::coin(others, i),
            ));
        }
        assert(self.propose(heads).atoms =~= self.propose(others).atoms);
    }
}

} // verus!
