//! Viewport and transform engine of an interactive scatter plot: a columnar
//! table of fixed-point numbers, per-axis pan and zoom state, tick planning
//! with round step sizes, the projection of the data range onto the screen,
//! and the state machine that turns input events into view changes and frames.
//!
//! Every number is exact. A data value counts millionths of a unit, a zoom
//! factor counts millionths too, and every division states how it rounds.

pub mod arith;
pub mod axis;
pub mod data;
pub mod frame;
pub mod labels;
pub mod projection;
pub mod render;
pub mod textdrawer;
pub mod ticks;
