//! A fixed-size toroidal cellular automaton: the classical two-state
//! transition rule extended with two pattern-triggered overrides that
//! destabilize still blocks and vertical blinkers.

mod cell;
mod model;
mod engine;
mod laws;

pub use cell::Cell;
pub use engine::next_cell_state;
pub use engine::Universe;
