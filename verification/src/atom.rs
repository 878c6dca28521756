//! A single particle of the sandbox.

use vstd::prelude::*;
use crate::color::Color;
use crate::coordinate::SandboxCoordinate;
use crate::element::Element;

verus! {

/// One particle: its kind, the cell it is in, and the cell it has proposed
/// to move to in the tick under way. Between ticks the two cells are equal.
#[derive(Copy, Clone, Debug, PartialEq, Eq, Structural)]
pub struct Atom {
    pub element: Element,
    pub coord: SandboxCoordinate,
    pub next_coord: SandboxCoordinate,
}

impl Atom {
    /// A resting atom of the given kind at `coord`.
    pub open spec fn spec_new(coord: SandboxCoordinate, element: Element) -> Atom {
        Atom { element, coord, next_coord: coord }
    }

    /// The atom has no move pending.
    pub open spec fn is_settled(self) -> bool {
        self.next_coord == self.coord
    }

    /// The atom where it is, with its proposal dropped.
    pub open spec fn settled(self) -> Atom {
        Atom { element: self.element, coord: self.coord, next_coord: self.coord }
    }

    /// The atom after it has made the move it proposed.
    pub open spec fn moved(self) -> Atom {
        Atom { element: self.element, coord: self.next_coord, next_coord: self.next_coord }
    }

    /// The atom with a proposal to move by `(dx, dy)`.
    pub open spec fn aimed(self, dx: int, dy: int) -> Atom {
        Atom {
            element: self.element,
            coord: self.coord,
            next_coord: SandboxCoordinate {
                x: (self.coord.x + dx) as i32,
                y: (self.coord.y + dy) as i32,
            },
        }
    }

    /// The atom with the proposal that its element's rule gives in the
    /// neighbourhood `nh`, for the outcome `heads` of the coin.
    pub open spec fn proposing(self, nh: Seq<bool>, heads: bool) -> Atom {
        let (dx, dy) = self.element.spec_move(nh, heads);
        self.aimed(dx, dy)
    }

    pub fn new(coord: SandboxCoordinate, element: Element) -> (atom: Self)
        ensures
            atom == Atom::spec_new(coord, element),
    {
        Atom { coord, element, next_coord: coord }
    }

    pub fn color(&self) -> (color: Color)
        ensures
            color == self.element.spec_color(),
    {
        self.element.color()
    }

    /// Proposes the move that the element's rule gives in `neighbourhood`:
    /// the eight cells around the atom, row by row from the top left, `true`
    /// where a cell is taken or outside the sandbox. A coin is flipped where
    /// the rule takes one.
    pub fn set_next(&mut self, neighbourhood: Vec<bool>)
        requires
            neighbourhood@.len() == 8,
            i32::MIN < old(self).coord.x < i32::MAX,
            i32::MIN < old(self).coord.y < i32::MAX,
        ensures
            *final(self) == old(self).proposing(neighbourhood@, true) || *final(self) == old(
                self,
            ).proposing(neighbourhood@, false),
    {
        let (dx, dy) = self.element.calculate_move(neighbourhood);
        self.next_coord.x = self.coord.x + dx;
        self.next_coord.y = self.coord.y + dy;
    }

    /// Proposes the move that the element's rule gives in `neighbourhood`
    /// when the coin shows `heads`.
    pub fn set_next_with(&mut self, neighbourhood: &Vec<bool>, heads: bool)
        requires
            neighbourhood@.len() == 8,
            i32::MIN < old(self).coord.x < i32::MAX,
            i32::MIN < old(self).coord.y < i32::MAX,
        ensures
            *final(self) == old(self).proposing(neighbourhood@, heads),
    {
        let (dx, dy) = self.element.calculate_move_with(neighbourhood, heads);
        self.next_coord.x = self.coord.x + dx;
        self.next_coord.y = self.coord.y + dy;
    }

    /// Drops the proposal: the atom stays where it is.
    pub fn reset_next(&mut self)
        ensures
            *final(self) == old(self).settled(),
    {
        self.next_coord = self.coord;
    }

    /// Makes the proposed move.
    pub fn update(&mut self)
        ensures
            *final(self) == old(self).moved(),
    {
        self.coord = self.next_coord;
    }
}

} // verus!
