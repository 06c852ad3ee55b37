//! Visualization core for an evolvable directed network: rebuilds a
//! deduplicated node table from a list of weighted connection genes,
//! relaxes 2-D node positions frame by frame with spring and repulsion
//! forces, and maps nodes and genes to display primitives.
//!
//! All geometry and weights are carried in fixed-point integers:
//! coordinates and weights in thousandths of a unit ("milli"), color
//! channels in ten-thousandths ("tenmilli").

pub mod graph;
pub mod layout;
pub mod network;
pub mod render;
mod rng;
