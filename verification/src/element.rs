//! The kinds of atom and their movement rules.
//!
//! A rule reads the occupancy of the eight cells around an atom and answers
//! with a displacement of at most one cell in each direction. Where a rule
//! leaves a choice, one coin flip settles it.

use vstd::prelude::*;
use crate::color::Color;

verus! {

/// Positions in a neighbourhood: the eight cells around an atom, row by row
/// from the top left, the atom's own cell left out.
pub const ABOVE_LEFT: usize = 0;
pub const ABOVE: usize = 1;
pub const ABOVE_RIGHT: usize = 2;
pub const LEFT: usize = 3;
pub const RIGHT: usize = 4;
pub const BELOW_LEFT: usize = 5;
pub const BELOW: usize = 6;
pub const BELOW_RIGHT: usize = 7;

/// Horizontal offset of the `k`-th cell of a neighbourhood.
pub open spec fn neighbour_dx(k: int) -> int {
    if k < 4 {
        k % 3 - 1
    } else {
        (k + 1) % 3 - 1
    }
}

/// Vertical offset of the `k`-th cell of a neighbourhood.
pub open spec fn neighbour_dy(k: int) -> int {
    if k < 4 {
        k / 3 - 1
    } else {
        (k + 1) / 3 - 1
    }
}

/// Position in a neighbourhood of the cell at offset `(dx, dy)`, which is
/// not `(0, 0)`.
pub open spec fn neighbour_index(dx: int, dy: int) -> int {
    let cell = (dy + 1) * 3 + (dx + 1);
    if cell < 4 {
        cell
    } else {
        cell - 1
    }
}

/// Offset of the `k`-th cell of a neighbourhood.
pub fn neighbour_offset(k: usize) -> (offset: (i32, i32))
    requires
        k < 8,
    ensures
        offset.0 == neighbour_dx(k as int),
        offset.1 == neighbour_dy(k as int),
        -1 <= offset.0 <= 1,
        -1 <= offset.1 <= 1,
        neighbour_index(offset.0 as int, offset.1 as int) == k,
{
    let cell: usize = if k < 4 {
        k
    } else {
        k + 1
    };
    let dx: i32 = (cell % 3) as i32 - 1;
    let dy: i32 = (cell / 3) as i32 - 1;
    (dx, dy)
}

/// Whether all eight cells of a neighbourhood are blocked.
pub fn neighbourhood_full(neighbourhood: &Vec<bool>) -> (full: bool)
    requires
        neighbourhood@.len() == 8,
    ensures
        full == (forall|k: int| 0 <= k < 8 ==> neighbourhood@[k]),
{
    let mut k: usize = 0;
    while k < 8
        invariant
            k <= 8,
            neighbourhood@.len() == 8,
            forall|j: int| 0 <= j < k ==> neighbourhood@[j],
        decreases 8 - k,
    {
        if !neighbourhood[k] {
            return false;
        }
        k = k + 1;
    }
    true
}

/// One flip of a coin, by `rand::random::<bool>()`, which draws a bit from the
/// thread's random number generator. Nothing is claimed of the outcome: every
/// caller is proved for heads and for tails alike. The generator is seeded by
/// the operating system when a thread first asks, and the call panics if that
/// fails.
#[verifier::external_body]
fn flip_coin() -> (heads: bool) {
    rand::random::<bool>()
}

/// The step that a coin picks between right and left.
pub open spec fn spec_heads_or_tails(heads: bool) -> int {
    if heads {
        1
    } else {
        -1
    }
}

/// The step that a coin allows or withholds.
pub open spec fn spec_heads_or_zip(heads: bool) -> int {
    if heads {
        1
    } else {
        0
    }
}

/// A step to the right for heads, to the left for tails.
pub fn heads_or_tails(heads: bool) -> (step: i32)
    ensures
        step == spec_heads_or_tails(heads),
{
    if heads {
        1
    } else {
        -1
    }
}

/// A step for heads, none for tails.
pub fn heads_or_zip(heads: bool) -> (step: i32)
    ensures
        step == spec_heads_or_zip(heads),
{
    if heads {
        1
    } else {
        0
    }
}

#[derive(Copy, Clone, Debug, PartialEq, Eq, Structural)]
pub enum Element {
    Sand,
    Water,
}

impl Element {
    pub open spec fn spec_color(self) -> Color {
        match self {
            Element::Sand => Color::white(),
            Element::Water => Color::blue(),
        }
    }

    pub fn color(&self) -> (color: Color)
        ensures
            color == self.spec_color(),
    {
        match self {
            Element::Sand => Color { r: 255, g: 255, b: 255, a: 255 },
            Element::Water => Color { r: 0, g: 0, b: 255, a: 255 },
        }
    }

    /// The displacement that the element's rule gives in a neighbourhood,
    /// with `heads` as the outcome of the coin flip where the rule takes one.
    ///
    /// An atom falls if the cell below is free. Else it slides diagonally
    /// down to the one free side, or to a side picked by the coin if both are
    /// free. Sand that can do neither rests. Water that can do neither flows
    /// sideways: towards its one free side if the coin allows, or to a side
    /// picked by the coin if both are free.
    pub open spec fn spec_move(self, nh: Seq<bool>, heads: bool) -> (int, int) {
        if !nh[BELOW as int] {
            (0, 1)
        } else if !nh[BELOW_LEFT as int] && nh[BELOW_RIGHT as int] {
            (-1, 1)
        } else if nh[BELOW_LEFT as int] && !nh[BELOW_RIGHT as int] {
            (1, 1)
        } else if !nh[BELOW_LEFT as int] && !nh[BELOW_RIGHT as int] {
            (spec_heads_or_tails(heads), 1)
        } else {
            match self {
                Element::Sand => (0, 0),
                Element::Water => {
                    if nh[LEFT as int] && !nh[RIGHT as int] {
                        (spec_heads_or_zip(heads), 0)
                    } else if !nh[LEFT as int] && nh[RIGHT as int] {
                        (-spec_heads_or_zip(heads), 0)
                    } else if !nh[LEFT as int] && !nh[RIGHT as int] {
                        (spec_heads_or_tails(heads), 0)
                    } else {
                        (0, 0)
                    }
                },
            }
        }
    }

    /// The rule's answer in this neighbourhood depends on the coin.
    pub open spec fn spec_uses_coin(self, nh: Seq<bool>) -> bool {
        self.spec_move(nh, true) != self.spec_move(nh, false)
    }

    /// `(dx, dy)` is an answer of the rule in this neighbourhood, for one
    /// outcome of the coin or the other.
    pub open spec fn may_move(self, nh: Seq<bool>, dx: int, dy: int) -> bool {
        (dx, dy) == self.spec_move(nh, true) || (dx, dy) == self.spec_move(nh, false)
    }

    /// Whether the rule flips a coin in this neighbourhood.
    pub fn uses_coin(&self, neighbourhood: &Vec<bool>) -> (random: bool)
        requires
            neighbourhood@.len() == 8,
        ensures
            random == self.spec_uses_coin(neighbourhood@),
    {
        if !neighbourhood[BELOW] {
            false
        } else if !neighbourhood[BELOW_LEFT] || !neighbourhood[BELOW_RIGHT] {
            !neighbourhood[BELOW_LEFT] && !neighbourhood[BELOW_RIGHT]
        } else {
            match self {
                Element::Sand => false,
                Element::Water => !neighbourhood[LEFT] || !neighbourhood[RIGHT],
            }
        }
    }

    /// The rule's displacement for a given outcome of the coin.
    pub fn calculate_move_with(&self, neighbourhood: &Vec<bool>, heads: bool) -> (delta: (i32, i32))
        requires
            neighbourhood@.len() == 8,
        ensures
            (delta.0 as int, delta.1 as int) == self.spec_move(neighbourhood@, heads),
            -1 <= delta.0 <= 1,
            -1 <= delta.1 <= 1,
    {
        let left = neighbourhood[LEFT];
        let right = neighbourhood[RIGHT];
        let below_left = neighbourhood[BELOW_LEFT];
        let below = neighbourhood[BELOW];
        let below_right = neighbourhood[BELOW_RIGHT];
        if !below {
            (0, 1)
        } else if !below_left && below_right {
            (-1, 1)
        } else if below_left && !below_right {
            (1, 1)
        } else if !below_left && !below_right {
            (heads_or_tails(heads), 1)
        } else {
            match self {
                Element::Sand => (0, 0),
                Element::Water => {
                    if left && !right {
                        (heads_or_zip(heads), 0)
                    } else if !left && right {
                        (-heads_or_zip(heads), 0)
                    } else if !left && !right {
                        (heads_or_tails(heads), 0)
                    } else {
                        (0, 0)
                    }
                },
            }
        }
    }

    /// The rule's displacement, with a coin flipped where the rule takes one.
    ///
    /// Where the rule takes no coin the answer is the rule's one answer;
    /// where it does, the answer is the rule's for one of the two outcomes.
    pub fn calculate_move(&self, neighbourhood: Vec<bool>) -> (delta: (i32, i32))
        requires
            neighbourhood@.len() == 8,
        ensures
            self.may_move(neighbourhood@, delta.0 as int, delta.1 as int),
            -1 <= delta.0 <= 1,
            -1 <= delta.1 <= 1,
    {
        let heads = if self.uses_coin(&neighbourhood) {
            flip_coin()
        } else {
            false
        };
        self.calculate_move_with(&neighbourhood, heads)
    }

    /// A rule moves an atom by at most one cell in each direction.
    pub proof fn lemma_move_is_one_step(self, nh: Seq<bool>, heads: bool)
        ensures
            -1 <= self.spec_move(nh, heads).0 <= 1,
            -1 <= self.spec_move(nh, heads).1 <= 1,
    {
    }

    /// A rule never moves an atom upwards.
    pub proof fn lemma_move_never_rises(self, nh: Seq<bool>, heads: bool)
        ensures
            self.spec_move(nh, heads).1 >= 0,
    {
    }

    /// A rule moves an atom only into a cell that its neighbourhood shows
    /// as free.
    pub proof fn lemma_move_into_free_cell(self, nh: Seq<bool>, heads: bool)
        requires
            nh.len() == 8,
        ensures
            ({
                let (dx, dy) = self.spec_move(nh, heads);
                (dx, dy) != (0int, 0int) ==> !nh[neighbour_index(dx, dy)]
            }),
    {
    }

    /// In a neighbourhood with no free cell every rule answers "stay" and
    /// takes no coin.
    pub proof fn lemma_boxed_in_stays(self, nh: Seq<bool>, heads: bool)
        requires
            nh.len() == 8,
            forall|k: int| 0 <= k < 8 ==> nh[k],
        ensures
            self.spec_move(nh, heads) == (0int, 0int),
            !self.spec_uses_coin(nh),
    {
        assert(nh[LEFT as int] && nh[RIGHT as int]);
        assert(nh[BELOW_LEFT as int] && nh[BELOW as int] && nh[BELOW_RIGHT as int]);
    }

    /// Sand under which the three cells are taken rests, whatever the coin.
    pub proof fn lemma_sand_rests_on_support(nh: Seq<bool>, heads: bool)
        requires
            nh.len() == 8,
            nh[BELOW_LEFT as int],
            nh[BELOW as int],
            nh[BELOW_RIGHT as int],
        ensures
            Element::Sand.spec_move(nh, heads) == (0int, 0int),
    {
    }
}

} // verus!
