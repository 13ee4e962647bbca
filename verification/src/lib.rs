//! Cellular automata on fixed-size, edge-wrapping (toroidal) grids.
//!
//! The core is the [`Frame`] grid type with its read-only per-cell
//! neighborhood view ([`Square`]) and the generation-advance algorithm
//! ([`Frame::next_frame`]); the automaton variants are pure rule functions
//! from a neighborhood view to a new cell state.

/// Frames of a simulation and their neighborhood views
mod frame;

pub use frame::add_modulo;
pub use frame::cell_at;
pub use frame::ortholinear_at;
pub use frame::Frame;
pub use frame::FrameError;
pub use frame::FrameIterator;
pub use frame::Square;
pub use frame::lemma_advance_deterministic;
pub use frame::lemma_wf_after_cell_update;
pub use frame::lemma_offset_wraps;
pub use frame::lemma_offset_zero;
pub use frame::square_at;
pub use frame::wrap_index;

/// Public functions that define Conway's Game of Life
pub mod game_of_life;
/// A second statement of Conway's rule over its own state type
pub mod rules;
/// Two-color life: intensity-carrying cells over cardinal neighbors
pub mod two_color_life;
/// Multi-color life with color-averaging births
pub mod rainbow_averaging;
/// Multi-color life with majority-vote births
pub mod rainbow_life;
