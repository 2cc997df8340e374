//! Simulation core of a top-down survival game: a player fights waves of
//! pursuing enemies with a timed area weapon, collects dropped rewards, and
//! sees transient visual feedback.
//!
//! All geometry is fixed-point: a coordinate of 1000 stands for one world
//! unit, and time is counted in whole milliseconds. Rendering, input and
//! windowing are outside collaborators; this crate holds only the per-frame
//! rules that read and mutate the shared world state.

pub mod feedback;
pub mod frame;
pub mod geom;
pub mod combat;
pub mod motion;
pub mod resources;
pub mod rewards;
mod rng;
pub mod seqtools;
pub mod spawn;
pub mod sweep;
pub mod timer;
pub mod world;
