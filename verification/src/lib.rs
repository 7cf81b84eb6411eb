//! A verified core for a toroidal Game of Life engine: a 32x32 bit-packed
//! cell grid, the generation-stepping rule, a last-write-wins rate
//! controller, and the control decisions of the two surrounding loops.

pub mod channel;
pub mod control;
pub mod grid;
pub mod life;
pub mod rate;
