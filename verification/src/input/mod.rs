//! Reading road graphs and points of interest from GeoJSON event streams.

pub mod filters;
pub mod geo_zero;
pub mod geometry;
pub mod properties;

use vstd::prelude::*;

use crate::types::Coord;

verus! {

/// The value a graph node can carry: a bare coordinate, or a named point
/// of interest at a coordinate.
#[derive(Debug)]
pub enum NodeValue<C> {
    Coord(Coord<C>),
    Poi { coord: Coord<C>, name: String },
}

/// The coordinate of a node value, whichever kind it is.
pub open spec fn node_value_coord<C>(value: NodeValue<C>) -> Coord<C> {
    match value {
        NodeValue::Coord(coord) => coord,
        NodeValue::Poi { coord, .. } => coord,
    }
}

impl<C: Copy> Clone for NodeValue<C> {
    fn clone(&self) -> (copy: Self)
        ensures
            copy == *self,
    {
        match self {
            NodeValue::Coord(coord) => NodeValue::Coord(*coord),
            NodeValue::Poi { coord, name } => NodeValue::Poi { coord: *coord, name: name.clone() },
        }
    }
}

impl<C: Copy> NodeValue<C> {
    pub fn x_y(&self) -> (xy: (C, C))
        ensures
            xy == (node_value_coord(*self).x, node_value_coord(*self).y),
    {
        match self {
            NodeValue::Coord(coord) => (coord.x, coord.y),
            NodeValue::Poi { coord, .. } => (coord.x, coord.y),
        }
    }

    pub fn as_coord(&self) -> (coord: Coord<C>)
        ensures
            coord == node_value_coord(*self),
    {
        let (x, y) = self.x_y();
        Coord { x, y }
    }
}

impl NodeValue<u64> {
    /// A bare coordinate at the origin; components are IEEE 754 bit
    /// patterns, and the pattern 0 is positive zero.
    pub fn zero() -> (value: Self)
        ensures
            value == NodeValue::<u64>::Coord(Coord { x: 0u64, y: 0u64 }),
    {
        NodeValue::Coord(Coord { x: 0, y: 0 })
    }
}

} // verus!
