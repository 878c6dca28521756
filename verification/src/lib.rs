//! A falling-sand simulation engine: a bounded square sandbox holds atoms of
//! different elements that fall, slide and flow one cell per tick.
//!
//! The occupancy grid, the movement rules of each element and the two-phase
//! tick are verified; the commit phase is proved to keep the grid and the atom
//! list in agreement.

pub mod atom;
pub mod cells;
pub mod color;
pub mod coordinate;
pub mod element;
pub mod model;
pub mod parameters;
pub mod settings;
pub mod state;
