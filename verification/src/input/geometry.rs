//! Geometries whose coordinates are kept as IEEE 754 bit patterns.

use vstd::prelude::*;

use crate::types::Coord;

verus! {

/// A polygon: an exterior ring and interior rings, each a sequence of
/// coordinates.
pub struct Polygon {
    pub exterior: Vec<Coord<u64>>,
    pub interiors: Vec<Vec<Coord<u64>>>,
}

/// A geometry of a GeoJSON feature.
pub enum Geometry {
    Point(Coord<u64>),
    MultiPoint(Vec<Coord<u64>>),
    LineString(Vec<Coord<u64>>),
    MultiLineString(Vec<Vec<Coord<u64>>>),
    Polygon(Polygon),
    MultiPolygon(Vec<Polygon>),
    GeometryCollection(Vec<Geometry>),
}

/// What a polygon holds.
#[verifier::ext_equal]
pub struct PolygonView {
    pub exterior: Seq<Coord<u64>>,
    pub interiors: Seq<Seq<Coord<u64>>>,
}

/// What a geometry holds.
pub enum GeometryView {
    Point(Coord<u64>),
    MultiPoint(Seq<Coord<u64>>),
    LineString(Seq<Coord<u64>>),
    MultiLineString(Seq<Seq<Coord<u64>>>),
    Polygon(PolygonView),
    MultiPolygon(Seq<PolygonView>),
    GeometryCollection(Seq<GeometryView>),
}

/// The coordinate sequences of a sequence of line strings.
pub open spec fn lines_view(lines: Seq<Vec<Coord<u64>>>) -> Seq<Seq<Coord<u64>>> {
    lines.map_values(|l: Vec<Coord<u64>>| l@)
}

pub open spec fn polygon_view(p: Polygon) -> PolygonView {
    PolygonView { exterior: p.exterior@, interiors: lines_view(p.interiors@) }
}

pub open spec fn polygons_view(polygons: Seq<Polygon>) -> Seq<PolygonView> {
    polygons.map_values(|p: Polygon| polygon_view(p))
}

pub open spec fn geometry_view(g: Geometry) -> GeometryView
    decreases g,
{
    match g {
        Geometry::Point(c) => GeometryView::Point(c),
        Geometry::MultiPoint(cs) => GeometryView::MultiPoint(cs@),
        Geometry::LineString(cs) => GeometryView::LineString(cs@),
        Geometry::MultiLineString(ls) => GeometryView::MultiLineString(lines_view(ls@)),
        Geometry::Polygon(p) => GeometryView::Polygon(polygon_view(p)),
        Geometry::MultiPolygon(ps) => GeometryView::MultiPolygon(polygons_view(ps@)),
        Geometry::GeometryCollection(gs) => GeometryView::GeometryCollection(
            geometries_view(gs@),
        ),
    }
}

pub open spec fn geometries_view(gs: Seq<Geometry>) -> Seq<GeometryView>
    decreases gs,
{
    if gs.len() == 0 {
        Seq::empty()
    } else {
        geometries_view(gs.drop_last()).push(geometry_view(gs.last()))
    }
}

} // verus!
