//! Verified core of a beer-path route planner: points of interest on a road
//! graph, the reader state machines that turn GeoJSON events into a road
//! graph and a list of points of interest, the bookkeeping of the
//! distance oracle's block pairs, and small pieces of user-interface state.

pub mod text;
pub mod graph;
pub mod input;
pub mod types;
pub mod ui;
