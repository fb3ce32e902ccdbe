//! Reader state machines driven by the events of a GeoJSON parser.
//!
//! A parser reports, feature by feature, the feature's properties and the
//! coordinates of its geometries.  [`GraphWriter`] turns line strings into a
//! road graph: every distinct coordinate becomes one node, and every pair of
//! consecutive coordinates of a line string one directed edge.
//! [`PoiWriter`] turns named features into points of interest.
//!
//! Coordinates arrive as the IEEE 754 bit patterns of their components.  Two
//! coordinates denote the same node when their components are equal as
//! floating-point numbers, with every NaN equal to every other NaN.

use std::collections::HashMap;

use vstd::prelude::*;

use crate::input::geometry::{
    geometries_view, geometry_view, lines_view, polygon_view, polygons_view, Geometry, GeometryView,
    Polygon, PolygonView,
};
use crate::input::properties::{ColumnValueClonable, PropertyMap, PropertyValue};
use crate::types::{amenity_of_tag, Amenity, Coord, CoordNode, Poi, PoiView};

verus! {

broadcast use vstd::std_specs::hash::group_hash_axioms;

/// The bits of a NaN that every NaN is identified with.
pub const CANONICAL_NAN_BITS: u64 = 0x7ff8_0000_0000_0000;

/// The bits of negative zero, which is identified with positive zero.
pub const NEGATIVE_ZERO_BITS: u64 = 0x8000_0000_0000_0000;

/// Whether a bit pattern encodes a NaN: all exponent bits set and a nonzero
/// mantissa.
pub open spec fn is_nan_bits(bits: u64) -> bool {
    (bits & 0x7ff0_0000_0000_0000) == 0x7ff0_0000_0000_0000 && (bits & 0x000f_ffff_ffff_ffff)
        != 0
}

/// The representative of a bit pattern's class under floating-point
/// equality with all NaNs identified.
pub open spec fn canonical_bits(bits: u64) -> u64 {
    if is_nan_bits(bits) {
        CANONICAL_NAN_BITS
    } else if bits == NEGATIVE_ZERO_BITS {
        0
    } else {
        bits
    }
}

/// The key under which a coordinate is looked up.
pub open spec fn coord_key(coord: Coord<u64>) -> u128 {
    (canonical_bits(coord.x) as int * 0x1_0000_0000_0000_0000int + canonical_bits(coord.y) as int) as u128
}

/// Two coordinates share a key exactly when both of their components are
/// equal after canonicalisation.
pub proof fn lemma_coord_key_injective(a: Coord<u64>, b: Coord<u64>)
    ensures
        coord_key(a) == coord_key(b) <==> (canonical_bits(a.x) == canonical_bits(b.x)
            && canonical_bits(a.y) == canonical_bits(b.y)),
{
    let ax = canonical_bits(a.x) as int;
    let ay = canonical_bits(a.y) as int;
    let bx = canonical_bits(b.x) as int;
    let by_ = canonical_bits(b.y) as int;
    assert(0 <= ax * 0x1_0000_0000_0000_0000int + ay <= u128::MAX);
    assert(0 <= bx * 0x1_0000_0000_0000_0000int + by_ <= u128::MAX);
    assert(coord_key(a) == ax * 0x1_0000_0000_0000_0000int + ay);
    assert(coord_key(b) == bx * 0x1_0000_0000_0000_0000int + by_);
    if coord_key(a) == coord_key(b) {
        assert((ax - bx) * 0x1_0000_0000_0000_0000int == by_ - ay);
        if ax > bx {
            assert((ax - bx) * 0x1_0000_0000_0000_0000int >= 0x1_0000_0000_0000_0000int);
        }
        if ax < bx {
            assert((ax - bx) * 0x1_0000_0000_0000_0000int <= -0x1_0000_0000_0000_0000int);
        }
    }
}

/// The representative of a bit pattern, as [`canonical_bits`] defines it.
pub fn canonical(bits: u64) -> (canon: u64)
    ensures
        canon == canonical_bits(bits),
{
    if (bits & 0x7ff0_0000_0000_0000) == 0x7ff0_0000_0000_0000 && (bits & 0x000f_ffff_ffff_ffff)
        != 0 {
        CANONICAL_NAN_BITS
    } else if bits == NEGATIVE_ZERO_BITS {
        0
    } else {
        bits
    }
}

/// The lookup key of a coordinate, as [`coord_key`] defines it.
pub fn to_ord_coord(coord: &Coord<u64>) -> (key: u128)
    ensures
        key == coord_key(*coord),
{
    let x = canonical(coord.x) as u128;
    let y = canonical(coord.y) as u128;
    x * 0x1_0000_0000_0000_0000u128 + y
}

/// The errors that the readers report for event sequences they cannot make
/// sense of.
#[derive(Debug, PartialEq, Eq, Structural)]
pub enum WriterError {
    NotReadyForCoords,
    NoCoordsForPoint,
    NoCoordsInLineString,
    CoordNotProcessed,
    NoCoordsForMultiPoint,
    MissingLineStringContainer,
    NoLineStringsForMultiLineString,
    MissingLineStringsForPolygon,
    MissingPolygonContainer,
    MissingPolygonsForMultiPolygon,
    UnexpectedGeometryType,
    NoCentroid,
    NoProperties,
}

/// Which kind of parser error a reader error is reported as.
#[derive(Debug, PartialEq, Eq, Structural)]
pub enum WriterErrorKind {
    Geometry,
    FeatureGeometry,
    Properties,
}

/// The text of each reader error.
pub open spec fn writer_error_message(error: WriterError) -> Seq<char> {
    match error {
        WriterError::NotReadyForCoords => "Not ready for coords"@,
        WriterError::NoCoordsForPoint => "No coords for Point"@,
        WriterError::NoCoordsInLineString => "No coords in LineSting"@,
        WriterError::CoordNotProcessed => "Coord not processed yet"@,
        WriterError::NoCoordsForMultiPoint => "No coords for MultiPoint"@,
        WriterError::MissingLineStringContainer => "Missing container for LineString"@,
        WriterError::NoLineStringsForMultiLineString => "No LineStrings for MultiLineString"@,
        WriterError::MissingLineStringsForPolygon => "Missing LineStrings for Polygon"@,
        WriterError::MissingPolygonContainer => "Missing container for Polygon"@,
        WriterError::MissingPolygonsForMultiPolygon => "Missing polygons for MultiPolygon"@,
        WriterError::UnexpectedGeometryType => "Unexpected geometry type"@,
        WriterError::NoCentroid => "Could not compute centroid for this Feature"@,
        WriterError::NoProperties => "No properties found"@,
    }
}

impl WriterError {
    pub fn kind(&self) -> (kind: WriterErrorKind)
        ensures
            kind == (match *self {
                WriterError::NoCentroid => WriterErrorKind::FeatureGeometry,
                WriterError::NoProperties => WriterErrorKind::Properties,
                _ => WriterErrorKind::Geometry,
            }),
    {
        match self {
            WriterError::NoCentroid => WriterErrorKind::FeatureGeometry,
            WriterError::NoProperties => WriterErrorKind::Properties,
            _ => WriterErrorKind::Geometry,
        }
    }

    /// The message the error is reported with.
    pub fn message(&self) -> (message: &'static str)
        ensures
            message@ == writer_error_message(*self),
    {
        match self {
            WriterError::NotReadyForCoords => "Not ready for coords",
            WriterError::NoCoordsForPoint => "No coords for Point",
            WriterError::NoCoordsInLineString => "No coords in LineSting",
            WriterError::CoordNotProcessed => "Coord not processed yet",
            WriterError::NoCoordsForMultiPoint => "No coords for MultiPoint",
            WriterError::MissingLineStringContainer => "Missing container for LineString",
            WriterError::NoLineStringsForMultiLineString => "No LineStrings for MultiLineString",
            WriterError::MissingLineStringsForPolygon => "Missing LineStrings for Polygon",
            WriterError::MissingPolygonContainer => "Missing container for Polygon",
            WriterError::MissingPolygonsForMultiPolygon => "Missing polygons for MultiPolygon",
            WriterError::UnexpectedGeometryType => "Unexpected geometry type",
            WriterError::NoCentroid => "Could not compute centroid for this Feature",
            WriterError::NoProperties => "No properties found",
        }
    }
}

/// What a graph reader holds between events.
pub struct GraphWriterView {
    /// The node id of every coordinate key seen so far.
    pub node_ids: Map<u128, usize>,
    /// The coordinates of the nodes not yet handed out, in id order.
    pub nodes: Seq<Coord<u64>>,
    /// The edges not yet handed out.
    pub edges: Seq<(usize, usize)>,
    /// The coordinates of the geometry being read, if one is open.
    pub coords: Option<Seq<Coord<u64>>>,
    /// The id the next new node gets.
    pub next_id: usize,
    /// The properties of the current feature.
    pub properties: Map<Seq<char>, PropertyValue>,
    /// Whether the current feature passed the property filter.
    pub include_feature: bool,
}

/// The edges of a line string: one from each coordinate to the next.
pub open spec fn line_edges(node_ids: Map<u128, usize>, coords: Seq<Coord<u64>>) -> Seq<
    (usize, usize),
> {
    Seq::new(
        (coords.len() - 1) as nat,
        |i: int| (node_ids[coord_key(coords[i])], node_ids[coord_key(coords[i + 1])]),
    )
}

/// The coordinates of a sequence of nodes.
pub open spec fn node_coords(nodes: Seq<CoordNode<u64, Poi>>) -> Seq<Coord<u64>> {
    nodes.map_values(|n: CoordNode<u64, Poi>| n@.coord)
}

/// The node-id map is consistent with the pending nodes: the pending nodes
/// are the last ones created, each has exactly its own id, and every id is
/// below the next one.
pub open spec fn node_ids_wf(node_ids: Map<u128, usize>, nodes: Seq<Coord<u64>>, next_id: usize) -> bool {
    let base = next_id - nodes.len();
    &&& nodes.len() <= next_id
    &&& forall|i: int|
        0 <= i < nodes.len() ==> #[trigger] node_ids.contains_key(coord_key(nodes[i]))
            && node_ids[coord_key(nodes[i])] == base + i
    &&& forall|k: u128| #[trigger] node_ids.contains_key(k) ==> node_ids[k] < next_id
    &&& forall|k: u128|
        #[trigger] node_ids.contains_key(k) && node_ids[k] >= base ==> coord_key(
            nodes[node_ids[k] - base],
        ) == k
}

/// No two pending nodes stand for the same coordinate: distinct nodes have
/// distinct keys, so coordinates that are equal as floating-point numbers
/// always share one node.
pub proof fn law_nodes_have_distinct_keys(
    node_ids: Map<u128, usize>,
    nodes: Seq<Coord<u64>>,
    next_id: usize,
)
    requires
        node_ids_wf(node_ids, nodes, next_id),
    ensures
        forall|i: int, j: int|
            0 <= i < nodes.len() && 0 <= j < nodes.len() && i != j ==> coord_key(#[trigger] nodes[i])
                != coord_key(#[trigger] nodes[j]),
{
    assert forall|i: int, j: int|
        0 <= i < nodes.len() && 0 <= j < nodes.len() && i != j implies coord_key(#[trigger] nodes[i])
            != coord_key(#[trigger] nodes[j]) by {
        assert(node_ids.contains_key(coord_key(nodes[i])));
        assert(node_ids.contains_key(coord_key(nodes[j])));
    }
}

/// The road graph read so far: node coordinates in id order and directed
/// edges between node ids.  Edge lengths are left to the caller, which
/// computes them from the coordinates.
pub struct RoadGraph<C, T> {
    pub nodes: Vec<CoordNode<C, T>>,
    pub edges: Vec<(usize, usize)>,
}

/// Reads a road graph from GeoJSON events.
pub struct GraphWriter<F> {
    node_map: HashMap<u128, usize>,
    nodes: Vec<CoordNode<u64, Poi>>,
    edges: Vec<(usize, usize)>,
    coords: Option<Vec<Coord<u64>>>,
    index: usize,
    property_filter: F,
    properties: PropertyMap,
    include_feature: bool,
}

impl<F> View for GraphWriter<F> {
    type V = GraphWriterView;

    closed spec fn view(&self) -> GraphWriterView {
        GraphWriterView {
            node_ids: self.node_map@,
            nodes: node_coords(self.nodes@),
            edges: self.edges@,
            coords: match self.coords {
                Some(c) => Some(c@),
                None => None,
            },
            next_id: self.index,
            properties: self.properties@,
            include_feature: self.include_feature,
        }
    }
}

impl<F: Fn(&PropertyMap) -> bool> GraphWriter<F> {
    /// The filter that decides which features are read.
    pub closed spec fn filter(&self) -> F {
        self.property_filter
    }

    /// The reader's invariant: node ids are dense and assigned in order of
    /// first appearance, each key has exactly one id, the pending nodes are
    /// the last ones created, every edge and every open coordinate refers to
    /// a known node, and the filter accepts every property map.
    pub closed spec fn wf(&self) -> bool {
        &&& node_ids_wf(self.node_map@, node_coords(self.nodes@), self.index)
        &&& forall|i: int|
            0 <= i < self.nodes@.len() ==> (#[trigger] self.nodes@[i])@.data.len() == 0
        &&& forall|i: int|
            0 <= i < self.edges@.len() ==> (#[trigger] self.edges@[i]).0 < self.index
                && self.edges@[i].1 < self.index
        &&& self.coords matches Some(cs) ==> forall|i: int|
            0 <= i < cs@.len() ==> self.node_map@.contains_key(coord_key(#[trigger] cs@[i]))
        &&& forall|p: &PropertyMap| self.property_filter.requires((p,))
    }

    pub fn new(property_filter: F) -> (writer: Self)
        requires
            forall|p: &PropertyMap| property_filter.requires((p,)),
        ensures
            writer.wf(),
            writer.filter() == property_filter,
            writer@.node_ids == Map::<u128, usize>::empty(),
            writer@.nodes == Seq::<Coord<u64>>::empty(),
            writer@.edges == Seq::<(usize, usize)>::empty(),
            writer@.coords is None,
            writer@.next_id == 0,
            writer@.properties == Map::<Seq<char>, PropertyValue>::empty(),
            writer@.include_feature,
    {
        let writer = GraphWriter {
            node_map: HashMap::new(),
            nodes: Vec::new(),
            edges: Vec::new(),
            coords: None,
            index: 0,
            property_filter,
            properties: PropertyMap::new(),
            include_feature: true,
        };
        assert(writer@.nodes =~= Seq::<Coord<u64>>::empty());
        writer
    }

    pub fn new_from_filter(property_filter: F) -> (writer: Self)
        requires
            forall|p: &PropertyMap| property_filter.requires((p,)),
        ensures
            writer.wf(),
            writer.filter() == property_filter,
            writer@.node_ids == Map::<u128, usize>::empty(),
            writer@.nodes == Seq::<Coord<u64>>::empty(),
            writer@.edges == Seq::<(usize, usize)>::empty(),
            writer@.coords is None,
            writer@.next_id == 0,
            writer@.properties == Map::<Seq<char>, PropertyValue>::empty(),
            writer@.include_feature,
    {
        GraphWriter::new(property_filter)
    }

    pub fn new_from(graph_writer: Self) -> (writer: Self)
        ensures
            writer == graph_writer,
    {
        graph_writer
    }

    /// The number of coordinates of the open geometry, if one is open.
    pub fn open_coords_len(&self) -> (n: Option<usize>)
        ensures
            match self@.coords {
                Some(cs) => n == Some(cs.len() as usize),
                None => n is None,
            },
    {
        match &self.coords {
            Some(c) => Some(c.len()),
            None => None,
        }
    }

    /// The id the next new node gets.
    pub fn next_id(&self) -> (id: usize)
        ensures
            id == self@.next_id,
    {
        self.index
    }

    /// Whether the current feature passed the property filter.
    pub fn include_feature(&self) -> (accepted: bool)
        ensures
            accepted == self@.include_feature,
    {
        self.include_feature
    }

    /// A coordinate of the open geometry.
    pub fn xy(&mut self, x: u64, y: u64, idx: usize) -> (result: Result<(), WriterError>)
        requires
            old(self).wf(),
            old(self)@.next_id < usize::MAX,
        ensures
            final(self).wf(),
            final(self).filter() == old(self).filter(),
            ({
                let o = old(self)@;
                let n = final(self)@;
                let c = Coord { x, y };
                if !o.include_feature {
                    result is Ok && n == o
                } else if o.coords is None {
                    result == Err::<(), WriterError>(WriterError::NotReadyForCoords) && n == o
                } else if o.node_ids.contains_key(coord_key(c)) {
                    &&& result is Ok
                    &&& n == GraphWriterView { coords: Some(o.coords.unwrap().push(c)), ..o }
                } else {
                    &&& result is Ok
                    &&& n == GraphWriterView {
                        coords: Some(o.coords.unwrap().push(c)),
                        node_ids: o.node_ids.insert(coord_key(c), o.next_id),
                        nodes: o.nodes.push(c),
                        next_id: (o.next_id + 1) as usize,
                        ..o
                    }
                }
            }),
    {
        if !self.include_feature {
            return Ok(());
        }
        let coord = Coord { x, y };
        let key = to_ord_coord(&coord);
        let ghost old_nodes = self.nodes@;
        match self.coords.as_mut() {
            None => {
                return Err(WriterError::NotReadyForCoords);
            },
            Some(coords) => {
                coords.push(coord);
            },
        }
        if !self.node_map.contains_key(&key) {
            self.node_map.insert(key, self.index);
            self.nodes.push(CoordNode::new(coord, Vec::new()));
            self.index = self.index + 1;
            proof {
                assert(self.nodes@.drop_last() == old_nodes);
                assert(node_coords(self.nodes@) =~= node_coords(old_nodes).push(coord));
                let ids = self.node_map@;
                let nodes = node_coords(self.nodes@);
                let old_ids = old(self).node_map@;
                let old_coords = node_coords(old_nodes);
                let base = self.index - nodes.len();
                assert forall|i: int| 0 <= i < nodes.len() implies #[trigger] ids.contains_key(
                    coord_key(nodes[i]),
                ) && ids[coord_key(nodes[i])] == base + i by {
                    if i < old_coords.len() {
                        assert(nodes[i] == old_coords[i]);
                        assert(old_ids.contains_key(coord_key(old_coords[i])));
                    }
                }
                assert forall|k: u128| #[trigger] ids.contains_key(k) && ids[k] >= base implies coord_key(
                    nodes[ids[k] - base],
                ) == k by {
                    if k != key {
                        assert(old_ids.contains_key(k));
                    }
                }
            }
        }
        Ok(())
    }

    pub fn point_begin(&mut self, idx: usize) -> (result: Result<(), WriterError>)
        requires
            old(self).wf(),
        ensures
            final(self).wf(),
            final(self).filter() == old(self).filter(),
            result is Ok,
            final(self)@ == (GraphWriterView { coords: Some(Seq::<Coord<u64>>::empty()), ..old(self)@ }),
    {
        self.coords = Some(Vec::with_capacity(1));
        assert(self@.coords.unwrap() =~= Seq::<Coord<u64>>::empty());
        Ok(())
    }

    pub fn point_end(&mut self, idx: usize) -> (result: Result<(), WriterError>)
        requires
            old(self).wf(),
        ensures
            final(self).wf(),
            final(self).filter() == old(self).filter(),
            match old(self)@.coords {
                None => result == Err::<(), WriterError>(WriterError::NoCoordsForPoint),
                Some(_) => result is Ok,
            },
            final(self)@ == (GraphWriterView { coords: None, ..old(self)@ }),
    {
        match self.coords.take() {
            None => Err(WriterError::NoCoordsForPoint),
            Some(_) => Ok(()),
        }
    }

    pub fn linestring_begin(&mut self, tagged: bool, size: usize, idx: usize) -> (result: Result<
        (),
        WriterError,
    >)
        requires
            old(self).wf(),
        ensures
            final(self).wf(),
            final(self).filter() == old(self).filter(),
            result is Ok,
            final(self)@ == (GraphWriterView { coords: Some(Seq::<Coord<u64>>::empty()), ..old(self)@ }),
    {
        self.coords = Some(Vec::with_capacity(size));
        assert(self@.coords.unwrap() =~= Seq::<Coord<u64>>::empty());
        Ok(())
    }

    /// Closes a line string: every pair of consecutive coordinates becomes an
    /// edge between their nodes.
    pub fn linestring_end(&mut self, tagged: bool, idx: usize) -> (result: Result<(), WriterError>)
        requires
            old(self).wf(),
            old(self)@.include_feature && old(self)@.coords is Some ==> old(self)@.coords.unwrap().len()
                > 0,
        ensures
            final(self).wf(),
            final(self).filter() == old(self).filter(),
            ({
                let o = old(self)@;
                let n = final(self)@;
                if !o.include_feature {
                    result is Ok && n == GraphWriterView { coords: None, ..o }
                } else if o.coords is None {
                    result == Err::<(), WriterError>(WriterError::NoCoordsInLineString) && n == o
                } else {
                    &&& result is Ok
                    &&& n == GraphWriterView {
                        coords: None,
                        edges: o.edges + line_edges(o.node_ids, o.coords.unwrap()),
                        ..o
                    }
                }
            }),
    {
        if !self.include_feature {
            self.coords = None;
            return Ok(());
        }
        let coords = match self.coords.take() {
            None => {
                return Err(WriterError::NoCoordsInLineString);
            },
            Some(coords) => coords,
        };
        let ghost node_ids = self.node_map@;
        let ghost old_edges = self.edges@;
        let n = coords.len();
        let mut coord_a = coords[0];
        let mut i: usize = 1;
        while i < n
            invariant
                1 <= i <= n,
                n == coords@.len(),
                coord_a == coords@[i - 1],
                self.node_map@ == node_ids,
                old(self).wf(),
                self.index == old(self)@.next_id,
                forall|j: int|
                    0 <= j < n ==> node_ids.contains_key(coord_key(#[trigger] coords@[j])),
                forall|k: u128| #[trigger] node_ids.contains_key(k) ==> node_ids[k] < self.index,
                self.edges@ == old_edges + line_edges(node_ids, coords@.subrange(0, i as int)),
                forall|j: int|
                    0 <= j < self.edges@.len() ==> (#[trigger] self.edges@[j]).0 < self.index
                        && self.edges@[j].1 < self.index,
                self.nodes == old(self).nodes,
                self.property_filter == old(self).property_filter,
                self.properties == old(self).properties,
                self.include_feature == old(self).include_feature,
                self.coords is None,
            decreases n - i,
        {
            let coord_b = coords[i];
            let node_a = match self.node_map.get(&to_ord_coord(&coord_a)) {
                Some(id) => *id,
                None => {
                    return Err(WriterError::CoordNotProcessed);
                },
            };
            let node_b = match self.node_map.get(&to_ord_coord(&coord_b)) {
                Some(id) => *id,
                None => {
                    return Err(WriterError::CoordNotProcessed);
                },
            };
            self.edges.push((node_a, node_b));
            proof {
                let prev = line_edges(node_ids, coords@.subrange(0, i as int));
                let next = line_edges(node_ids, coords@.subrange(0, i + 1));
                assert(next =~= prev.push((node_a, node_b)));
            }
            coord_a = coord_b;
            i = i + 1;
        }
        proof {
            assert(coords@.subrange(0, n as int) =~= coords@);
        }
        Ok(())
    }

    /// Starts a feature: it is read unless its properties are filtered out.
    pub fn feature_begin(&mut self, idx: u64) -> (result: Result<(), WriterError>)
        requires
            old(self).wf(),
        ensures
            final(self).wf(),
            final(self).filter() == old(self).filter(),
            result is Ok,
            final(self)@ == (GraphWriterView {
                include_feature: true,
                properties: Map::<Seq<char>, PropertyValue>::empty(),
                ..old(self)@
            }),
    {
        self.include_feature = true;
        self.properties = PropertyMap::new();
        Ok(())
    }

    /// Ends the properties of a feature: the filter decides whether the
    /// feature is read.
    pub fn properties_end(&mut self) -> (result: Result<(), WriterError>)
        requires
            old(self).wf(),
        ensures
            final(self).wf(),
            final(self).filter() == old(self).filter(),
            result is Ok,
            old(self).properties_map()@ == old(self)@.properties,
            old(self).filter().ensures((&old(self).properties_map(),), final(self)@.include_feature),
            final(self)@ == (GraphWriterView {
                include_feature: final(self)@.include_feature,
                ..old(self)@
            }),
    {
        self.include_feature = (self.property_filter)(&self.properties);
        Ok(())
    }

    /// The property map of the current feature.
    pub closed spec fn properties_map(&self) -> PropertyMap {
        self.properties
    }

    /// A property of the current feature; reading never stops early.
    pub fn property(&mut self, i: usize, n: &str, v: ColumnValueClonable) -> (result: Result<
        bool,
        WriterError,
    >)
        requires
            old(self).wf(),
        ensures
            final(self).wf(),
            final(self).filter() == old(self).filter(),
            result == Ok::<bool, WriterError>(false),
            final(self)@ == (GraphWriterView {
                properties: old(self)@.properties.insert(n@, v@),
                ..old(self)@
            }),
    {
        self.properties.insert(n.to_owned(), v);
        Ok(false)
    }

    /// Hands out the nodes and edges read so far.  The coordinate keys stay
    /// known, so a coordinate seen again later keeps its node id.
    pub fn get_graph(&mut self) -> (graph: RoadGraph<u64, Poi>)
        requires
            old(self).wf(),
        ensures
            final(self).wf(),
            final(self).filter() == old(self).filter(),
            graph.nodes@.map_values(|n: CoordNode<u64, Poi>| n@.coord) == old(self)@.nodes,
            forall|i: int| 0 <= i < graph.nodes@.len() ==> (#[trigger] graph.nodes@[i])@.data.len() == 0,
            graph.edges@ == old(self)@.edges,
            final(self)@ == (GraphWriterView {
                nodes: Seq::<Coord<u64>>::empty(),
                edges: Seq::<(usize, usize)>::empty(),
                ..old(self)@
            }),
    {
        let mut nodes: Vec<CoordNode<u64, Poi>> = Vec::new();
        let mut edges: Vec<(usize, usize)> = Vec::new();
        std::mem::swap(&mut nodes, &mut self.nodes);
        std::mem::swap(&mut edges, &mut self.edges);
        assert(self@.nodes =~= Seq::<Coord<u64>>::empty());
        RoadGraph { nodes, edges }
    }
}

/// The amenity named by a feature's `amenity` property, if it is text.
pub open spec fn amenity_of_properties(properties: Map<Seq<char>, PropertyValue>) -> Amenity {
    if properties.contains_key("amenity"@) && properties["amenity"@] is Text {
        amenity_of_tag(properties["amenity"@]->Text_0)
    } else {
        Amenity::NoAmenity
    }
}

/// What a point-of-interest node holds: its coordinate and its points of
/// interest.
pub open spec fn poi_node_view(node: CoordNode<u64, Poi>) -> (Coord<u64>, Seq<PoiView>) {
    (node@.coord, node@.data.map_values(|p: Poi| p@))
}

pub open spec fn poi_nodes_view(nodes: Seq<CoordNode<u64, Poi>>) -> Seq<(Coord<u64>, Seq<PoiView>)> {
    nodes.map_values(|n: CoordNode<u64, Poi>| poi_node_view(n))
}

/// What a point-of-interest reader holds between events.
pub struct PoiWriterView {
    /// The coordinates of the open point, multi-point or line string.
    pub coords: Option<Seq<Coord<u64>>>,
    /// The rings of the open polygon, or the lines of the open multi-line
    /// string.
    pub line_strings: Option<Seq<Seq<Coord<u64>>>>,
    /// The polygons of the open multi-polygon.
    pub polygons: Option<Seq<PolygonView>>,
    /// The finished top-level geometries of the current feature.
    pub geoms: Seq<GeometryView>,
    /// The open geometry collections, innermost last.
    pub collections: Seq<Seq<GeometryView>>,
    /// The properties of the current feature, once they have begun.
    pub properties: Option<Map<Seq<char>, PropertyValue>>,
    /// The points of interest read so far.
    pub pois: Seq<(Coord<u64>, Seq<PoiView>)>,
    /// Whether the current feature passed the property filter.
    pub include_feature: bool,
}

/// The state after a finished geometry is added to the innermost open
/// collection, or to the top-level geometries when none is open.
pub open spec fn with_finished(v: PoiWriterView, g: GeometryView) -> PoiWriterView {
    if v.collections.len() > 0 {
        PoiWriterView {
            collections: v.collections.update(
                v.collections.len() - 1,
                v.collections.last().push(g),
            ),
            ..v
        }
    } else {
        PoiWriterView { geoms: v.geoms.push(g), ..v }
    }
}

/// Reads named points of interest from GeoJSON events.  A feature becomes a
/// point of interest when it has a textual `name` property; it is placed at
/// the centroid of its geometries.
pub struct PoiWriter<F> {
    coords: Option<Vec<Coord<u64>>>,
    line_strings: Option<Vec<Vec<Coord<u64>>>>,
    geoms: Vec<Geometry>,
    collections: Vec<Vec<Geometry>>,
    polygons: Option<Vec<Polygon>>,
    property_filter: F,
    properties: Option<PropertyMap>,
    pois: Vec<CoordNode<u64, Poi>>,
    include_feature: bool,
}

impl<F> View for PoiWriter<F> {
    type V = PoiWriterView;

    closed spec fn view(&self) -> PoiWriterView {
        PoiWriterView {
            coords: match self.coords {
                Some(c) => Some(c@),
                None => None,
            },
            line_strings: match self.line_strings {
                Some(l) => Some(lines_view(l@)),
                None => None,
            },
            polygons: match self.polygons {
                Some(p) => Some(polygons_view(p@)),
                None => None,
            },
            geoms: geometries_view(self.geoms@),
            collections: self.collections@.map_values(|c: Vec<Geometry>| geometries_view(c@)),
            properties: match self.properties {
                Some(p) => Some(p@),
                None => None,
            },
            pois: poi_nodes_view(self.pois@),
            include_feature: self.include_feature,
        }
    }
}

proof fn lemma_geometries_push(gs: Seq<Geometry>, g: Geometry)
    ensures
        geometries_view(gs.push(g)) == geometries_view(gs).push(geometry_view(g)),
{
    assert(gs.push(g).drop_last() =~= gs);
}

impl<F: Fn(&PropertyMap) -> bool> PoiWriter<F> {
    /// The filter that decides which features are read.
    pub closed spec fn filter(&self) -> F {
        self.property_filter
    }

    /// The filter accepts every property map.
    pub closed spec fn wf(&self) -> bool {
        forall|p: &PropertyMap| self.property_filter.requires((p,))
    }

    /// The property map of the current feature, once its properties began.
    pub closed spec fn properties_map(&self) -> Option<PropertyMap> {
        self.properties
    }

    pub fn new(property_filter: F) -> (writer: Self)
        requires
            forall|p: &PropertyMap| property_filter.requires((p,)),
        ensures
            writer.wf(),
            writer.filter() == property_filter,
            writer@ == (PoiWriterView {
                coords: None,
                line_strings: None,
                polygons: None,
                geoms: Seq::empty(),
                collections: Seq::empty(),
                properties: None,
                pois: Seq::empty(),
                include_feature: true,
            }),
    {
        let writer = PoiWriter {
            coords: None,
            line_strings: None,
            geoms: Vec::new(),
            collections: Vec::new(),
            polygons: None,
            property_filter,
            properties: None,
            pois: Vec::new(),
            include_feature: true,
        };
        assert(writer@.geoms =~= Seq::<GeometryView>::empty());
        assert(writer@.collections =~= Seq::<Seq<GeometryView>>::empty());
        assert(writer@.pois =~= Seq::<(Coord<u64>, Seq<PoiView>)>::empty());
        writer
    }

    /// Adds a finished geometry to the innermost open collection, or to the
    /// feature's geometries when no collection is open.
    fn finish_geometry(&mut self, geometry: Geometry) -> (result: Result<(), WriterError>)
        ensures
            result is Ok,
            final(self).property_filter == old(self).property_filter,
            final(self)@ == with_finished(old(self)@, geometry_view(geometry)),
    {
        let ghost g = geometry_view(geometry);
        if self.collections.len() > 0 {
            let ghost before = self.collections@;
            let mut last = self.collections.pop().unwrap();
            let ghost last_before = last@;
            last.push(geometry);
            proof {
                lemma_geometries_push(last_before, geometry);
            }
            self.collections.push(last);
            proof {
                assert(self@.collections =~= old(self)@.collections.update(
                    old(self)@.collections.len() - 1,
                    old(self)@.collections.last().push(g),
                ));
            }
        } else {
            let ghost before = self.geoms@;
            self.geoms.push(geometry);
            proof {
                lemma_geometries_push(before, geometry);
            }
        }
        Ok(())
    }

    /// The points of interest read so far.
    pub fn pois(&self) -> (pois: &[CoordNode<u64, Poi>])
        ensures
            poi_nodes_view(pois@) == self@.pois,
    {
        self.pois.as_slice()
    }

    /// The top-level geometries of the current feature, whose centroid
    /// places the feature's point of interest.
    pub fn geometries(&self) -> (geometries: &[Geometry])
        ensures
            geometries_view(geometries@) == self@.geoms,
    {
        self.geoms.as_slice()
    }

    pub fn feature_begin(&mut self, idx: u64) -> (result: Result<(), WriterError>)
        requires
            old(self).wf(),
        ensures
            final(self).wf(),
            final(self).filter() == old(self).filter(),
            result is Ok,
            final(self)@ == (PoiWriterView { include_feature: true, ..old(self)@ }),
    {
        self.include_feature = true;
        Ok(())
    }

    /// Ends a feature.  `centroid` is the centroid of the feature's
    /// geometries, if they have one.  The feature's geometries are dropped;
    /// when its properties name it, a point of interest is placed at the
    /// centroid.
    pub fn feature_end(&mut self, idx: u64, centroid: Option<Coord<u64>>) -> (result: Result<
        (),
        WriterError,
    >)
        requires
            old(self).wf(),
        ensures
            final(self).wf(),
            final(self).filter() == old(self).filter(),
            ({
                let o = old(self)@;
                let n = final(self)@;
                if centroid is None {
                    &&& result == Err::<(), WriterError>(WriterError::NoCentroid)
                    &&& n == (PoiWriterView { geoms: Seq::empty(), ..o })
                } else if o.properties is None {
                    &&& result == Err::<(), WriterError>(WriterError::NoProperties)
                    &&& n == (PoiWriterView { geoms: Seq::empty(), ..o })
                } else {
                    let props = o.properties.unwrap();
                    let named = props.contains_key("name"@) && props["name"@] is Text;
                    &&& result is Ok
                    &&& n == (PoiWriterView {
                        geoms: Seq::empty(),
                        properties: None,
                        pois: if named {
                            o.pois.push(
                                (
                                    centroid.unwrap(),
                                    seq![
                                        PoiView {
                                            name: props["name"@]->Text_0,
                                            amenity: amenity_of_properties(props),
                                        },
                                    ],
                                ),
                            )
                        } else {
                            o.pois
                        },
                        ..o
                    })
                }
            }),
    {
        let mut geoms: Vec<Geometry> = Vec::new();
        std::mem::swap(&mut geoms, &mut self.geoms);
        proof {
            assert(self@.geoms =~= Seq::<GeometryView>::empty());
        }
        let center = match centroid {
            None => {
                return Err(WriterError::NoCentroid);
            },
            Some(c) => c,
        };
        let properties = match self.properties.take() {
            None => {
                return Err(WriterError::NoProperties);
            },
            Some(p) => p,
        };
        if let Some(ColumnValueClonable::String(poi_name)) = properties.get("name") {
            let amenity = if let Some(ColumnValueClonable::String(amenity)) = properties.get(
                "amenity",
            ) {
                Amenity::from_tag(amenity.as_str())
            } else {
                Amenity::NoAmenity
            };
            let poi = Poi::new(poi_name.clone(), amenity);
            let node = CoordNode::new(center, vec![poi]);
            let ghost before = self.pois@;
            self.pois.push(node);
            proof {
                assert(poi_node_view(node).1 =~= seq![poi@]);
                assert(self.pois@.drop_last() == before);
                assert(poi_nodes_view(self.pois@) =~= poi_nodes_view(before).push(
                    poi_node_view(node),
                ));
            }
        }
        Ok(())
    }

    pub fn properties_begin(&mut self) -> (result: Result<(), WriterError>)
        requires
            old(self).wf(),
        ensures
            final(self).wf(),
            final(self).filter() == old(self).filter(),
            result is Ok,
            final(self)@ == (PoiWriterView {
                properties: Some(Map::<Seq<char>, PropertyValue>::empty()),
                ..old(self)@
            }),
    {
        self.properties = Some(PropertyMap::new());
        Ok(())
    }

    /// Ends the properties of a feature: the filter decides whether the
    /// feature is read.
    pub fn properties_end(&mut self) -> (result: Result<(), WriterError>)
        requires
            old(self).wf(),
        ensures
            final(self).wf(),
            final(self).filter() == old(self).filter(),
            result is Ok,
            match old(self).properties_map() {
                Some(p) => {
                    &&& old(self)@.properties == Some(p@)
                    &&& old(self).filter().ensures((&p,), final(self)@.include_feature)
                },
                None => {
                    &&& old(self)@.properties is None
                    &&& final(self)@.include_feature == old(self)@.include_feature
                },
            },
            final(self)@ == (PoiWriterView {
                include_feature: final(self)@.include_feature,
                ..old(self)@
            }),
    {
        if let Some(ref properties) = self.properties {
            self.include_feature = (self.property_filter)(properties);
        }
        Ok(())
    }

    /// A property of the current feature; reading never stops early.
    pub fn property(&mut self, i: usize, n: &str, v: ColumnValueClonable) -> (result: Result<
        bool,
        WriterError,
    >)
        requires
            old(self).wf(),
        ensures
            final(self).wf(),
            final(self).filter() == old(self).filter(),
            result == Ok::<bool, WriterError>(false),
            final(self)@ == (PoiWriterView {
                properties: match old(self)@.properties {
                    Some(p) => Some(p.insert(n@, v@)),
                    None => None,
                },
                ..old(self)@
            }),
    {
        if let Some(properties) = self.properties.as_mut() {
            properties.insert(n.to_owned(), v);
        }
        Ok(false)
    }

    /// The number of coordinates of the open point, multi-point or line
    /// string, if one is open.
    pub fn open_coords_len(&self) -> (n: Option<usize>)
        ensures
            match self@.coords {
                Some(cs) => n == Some(cs.len() as usize),
                None => n is None,
            },
    {
        match &self.coords {
            Some(c) => Some(c.len()),
            None => None,
        }
    }

    /// A coordinate of the open point, multi-point or line string.
    pub fn xy(&mut self, x: u64, y: u64, idx: usize) -> (result: Result<(), WriterError>)
        requires
            old(self).wf(),
        ensures
            final(self).wf(),
            final(self).filter() == old(self).filter(),
            ({
                let o = old(self)@;
                if !o.include_feature {
                    result is Ok && final(self)@ == o
                } else if o.coords is None {
                    result == Err::<(), WriterError>(WriterError::NotReadyForCoords) && final(self)@ == o
                } else {
                    &&& result is Ok
                    &&& final(self)@ == (PoiWriterView {
                        coords: Some(o.coords.unwrap().push(Coord { x, y })),
                        ..o
                    })
                }
            }),
    {
        if !self.include_feature {
            return Ok(());
        }
        match self.coords.as_mut() {
            None => Err(WriterError::NotReadyForCoords),
            Some(coords) => {
                coords.push(Coord { x, y });
                Ok(())
            },
        }
    }

    pub fn point_begin(&mut self, idx: usize) -> (result: Result<(), WriterError>)
        requires
            old(self).wf(),
        ensures
            final(self).wf(),
            final(self).filter() == old(self).filter(),
            result is Ok,
            final(self)@ == (PoiWriterView { coords: Some(Seq::empty()), ..old(self)@ }),
    {
        self.coords = Some(Vec::with_capacity(1));
        assert(self@.coords.unwrap() =~= Seq::<Coord<u64>>::empty());
        Ok(())
    }

    /// Closes a point: its first coordinate becomes a point geometry.
    pub fn point_end(&mut self, idx: usize) -> (result: Result<(), WriterError>)
        requires
            old(self).wf(),
            old(self)@.coords is Some ==> old(self)@.coords.unwrap().len() > 0,
        ensures
            final(self).wf(),
            final(self).filter() == old(self).filter(),
            ({
                let o = old(self)@;
                match o.coords {
                    None => result == Err::<(), WriterError>(WriterError::NoCoordsForPoint)
                        && final(self)@ == o,
                    Some(cs) => result is Ok && final(self)@ == with_finished(
                        PoiWriterView { coords: None, ..o },
                        GeometryView::Point(cs[0]),
                    ),
                }
            }),
    {
        match self.coords.take() {
            None => Err(WriterError::NoCoordsForPoint),
            Some(coords) => self.finish_geometry(Geometry::Point(coords[0])),
        }
    }

    pub fn multipoint_begin(&mut self, size: usize, idx: usize) -> (result: Result<(), WriterError>)
        requires
            old(self).wf(),
        ensures
            final(self).wf(),
            final(self).filter() == old(self).filter(),
            result is Ok,
            final(self)@ == (PoiWriterView { coords: Some(Seq::empty()), ..old(self)@ }),
    {
        self.coords = Some(Vec::with_capacity(size));
        assert(self@.coords.unwrap() =~= Seq::<Coord<u64>>::empty());
        Ok(())
    }

    pub fn multipoint_end(&mut self, idx: usize) -> (result: Result<(), WriterError>)
        requires
            old(self).wf(),
        ensures
            final(self).wf(),
            final(self).filter() == old(self).filter(),
            ({
                let o = old(self)@;
                match o.coords {
                    None => result == Err::<(), WriterError>(WriterError::NoCoordsForMultiPoint)
                        && final(self)@ == o,
                    Some(cs) => result is Ok && final(self)@ == with_finished(
                        PoiWriterView { coords: None, ..o },
                        GeometryView::MultiPoint(cs),
                    ),
                }
            }),
    {
        match self.coords.take() {
            None => Err(WriterError::NoCoordsForMultiPoint),
            Some(coords) => self.finish_geometry(Geometry::MultiPoint(coords)),
        }
    }

    pub fn linestring_begin(&mut self, tagged: bool, size: usize, idx: usize) -> (result: Result<
        (),
        WriterError,
    >)
        requires
            old(self).wf(),
        ensures
            final(self).wf(),
            final(self).filter() == old(self).filter(),
            result is Ok,
            final(self)@ == (PoiWriterView { coords: Some(Seq::empty()), ..old(self)@ }),
    {
        self.coords = Some(Vec::with_capacity(size));
        assert(self@.coords.unwrap() =~= Seq::<Coord<u64>>::empty());
        Ok(())
    }

    /// Closes a line string: a tagged one is a geometry of its own, an
    /// untagged one a line of the open multi-line string or a ring of the
    /// open polygon.
    pub fn linestring_end(&mut self, tagged: bool, idx: usize) -> (result: Result<(), WriterError>)
        requires
            old(self).wf(),
        ensures
            final(self).wf(),
            final(self).filter() == old(self).filter(),
            ({
                let o = old(self)@;
                let n = final(self)@;
                if !o.include_feature {
                    result is Ok && n == (PoiWriterView { coords: None, ..o })
                } else if o.coords is None {
                    result == Err::<(), WriterError>(WriterError::NoCoordsInLineString) && n == o
                } else if tagged {
                    result is Ok && n == with_finished(
                        PoiWriterView { coords: None, ..o },
                        GeometryView::LineString(o.coords.unwrap()),
                    )
                } else if o.line_strings is None {
                    &&& result == Err::<(), WriterError>(WriterError::MissingLineStringContainer)
                    &&& n == (PoiWriterView { coords: None, ..o })
                } else {
                    &&& result is Ok
                    &&& n == (PoiWriterView {
                        coords: None,
                        line_strings: Some(o.line_strings.unwrap().push(o.coords.unwrap())),
                        ..o
                    })
                }
            }),
    {
        if !self.include_feature {
            self.coords = None;
            return Ok(());
        }
        let coords = match self.coords.take() {
            None => {
                return Err(WriterError::NoCoordsInLineString);
            },
            Some(coords) => coords,
        };
        if tagged {
            self.finish_geometry(Geometry::LineString(coords))
        } else {
            match self.line_strings.as_mut() {
                None => Err(WriterError::MissingLineStringContainer),
                Some(line_strings) => {
                    let ghost before = line_strings@;
                    line_strings.push(coords);
                    proof {
                        assert(lines_view(line_strings@) =~= lines_view(before).push(coords@));
                    }
                    Ok(())
                },
            }
        }
    }

    pub fn multilinestring_begin(&mut self, size: usize, idx: usize) -> (result: Result<
        (),
        WriterError,
    >)
        requires
            old(self).wf(),
        ensures
            final(self).wf(),
            final(self).filter() == old(self).filter(),
            result is Ok,
            final(self)@ == (PoiWriterView { line_strings: Some(Seq::empty()), ..old(self)@ }),
    {
        self.line_strings = Some(Vec::with_capacity(size));
        assert(self@.line_strings.unwrap() =~= Seq::<Seq<Coord<u64>>>::empty());
        Ok(())
    }

    pub fn multilinestring_end(&mut self, idx: usize) -> (result: Result<(), WriterError>)
        requires
            old(self).wf(),
        ensures
            final(self).wf(),
            final(self).filter() == old(self).filter(),
            ({
                let o = old(self)@;
                match o.line_strings {
                    None => result == Err::<(), WriterError>(
                        WriterError::NoLineStringsForMultiLineString,
                    ) && final(self)@ == o,
                    Some(ls) => result is Ok && final(self)@ == with_finished(
                        PoiWriterView { line_strings: None, ..o },
                        GeometryView::MultiLineString(ls),
                    ),
                }
            }),
    {
        match self.line_strings.take() {
            None => Err(WriterError::NoLineStringsForMultiLineString),
            Some(line_strings) => self.finish_geometry(Geometry::MultiLineString(line_strings)),
        }
    }

    pub fn polygon_begin(&mut self, tagged: bool, size: usize, idx: usize) -> (result: Result<
        (),
        WriterError,
    >)
        requires
            old(self).wf(),
        ensures
            final(self).wf(),
            final(self).filter() == old(self).filter(),
            result is Ok,
            final(self)@ == (PoiWriterView { line_strings: Some(Seq::empty()), ..old(self)@ }),
    {
        self.line_strings = Some(Vec::with_capacity(size));
        assert(self@.line_strings.unwrap() =~= Seq::<Seq<Coord<u64>>>::empty());
        Ok(())
    }

    /// Closes a polygon: its first ring is the exterior, the others are
    /// interiors; with no ring at all the polygon is empty.
    pub fn polygon_end(&mut self, tagged: bool, idx: usize) -> (result: Result<(), WriterError>)
        requires
            old(self).wf(),
        ensures
            final(self).wf(),
            final(self).filter() == old(self).filter(),
            ({
                let o = old(self)@;
                let n = final(self)@;
                let rings = o.line_strings.unwrap();
                let polygon = if rings.len() == 0 {
                    PolygonView { exterior: Seq::empty(), interiors: Seq::empty() }
                } else {
                    PolygonView { exterior: rings[0], interiors: rings.drop_first() }
                };
                if !o.include_feature {
                    result is Ok && n == (PoiWriterView { line_strings: None, ..o })
                } else if o.line_strings is None {
                    result == Err::<(), WriterError>(WriterError::MissingLineStringsForPolygon)
                        && n == o
                } else if tagged {
                    result is Ok && n == with_finished(
                        PoiWriterView { line_strings: None, ..o },
                        GeometryView::Polygon(polygon),
                    )
                } else if o.polygons is None {
                    &&& result == Err::<(), WriterError>(WriterError::MissingPolygonContainer)
                    &&& n == (PoiWriterView { line_strings: None, ..o })
                } else {
                    &&& result is Ok
                    &&& n == (PoiWriterView {
                        line_strings: None,
                        polygons: Some(o.polygons.unwrap().push(polygon)),
                        ..o
                    })
                }
            }),
    {
        if !self.include_feature {
            self.line_strings = None;
            return Ok(());
        }
        let mut line_strings = match self.line_strings.take() {
            None => {
                return Err(WriterError::MissingLineStringsForPolygon);
            },
            Some(line_strings) => line_strings,
        };
        let ghost rings = lines_view(line_strings@);
        let polygon = if line_strings.len() == 0 {
            Polygon { exterior: Vec::new(), interiors: Vec::new() }
        } else {
            let exterior = line_strings.remove(0);
            proof {
                assert(lines_view(line_strings@) =~= rings.drop_first());
            }
            Polygon { exterior, interiors: line_strings }
        };
        proof {
            assert(polygon_view(polygon) =~= (if rings.len() == 0 {
                PolygonView { exterior: Seq::empty(), interiors: Seq::empty() }
            } else {
                PolygonView { exterior: rings[0], interiors: rings.drop_first() }
            }));
        }
        if tagged {
            self.finish_geometry(Geometry::Polygon(polygon))
        } else {
            match self.polygons.as_mut() {
                None => Err(WriterError::MissingPolygonContainer),
                Some(polygons) => {
                    let ghost before = polygons@;
                    polygons.push(polygon);
                    proof {
                        assert(polygons_view(polygons@) =~= polygons_view(before).push(
                            polygon_view(polygon),
                        ));
                    }
                    Ok(())
                },
            }
        }
    }

    pub fn multipolygon_begin(&mut self, size: usize, idx: usize) -> (result: Result<
        (),
        WriterError,
    >)
        requires
            old(self).wf(),
        ensures
            final(self).wf(),
            final(self).filter() == old(self).filter(),
            result is Ok,
            final(self)@ == (PoiWriterView { polygons: Some(Seq::empty()), ..old(self)@ }),
    {
        self.polygons = Some(Vec::with_capacity(size));
        assert(self@.polygons.unwrap() =~= Seq::<PolygonView>::empty());
        Ok(())
    }

    pub fn multipolygon_end(&mut self, idx: usize) -> (result: Result<(), WriterError>)
        requires
            old(self).wf(),
        ensures
            final(self).wf(),
            final(self).filter() == old(self).filter(),
            ({
                let o = old(self)@;
                match o.polygons {
                    None => result == Err::<(), WriterError>(
                        WriterError::MissingPolygonsForMultiPolygon,
                    ) && final(self)@ == o,
                    Some(ps) => result is Ok && final(self)@ == with_finished(
                        PoiWriterView { polygons: None, ..o },
                        GeometryView::MultiPolygon(ps),
                    ),
                }
            }),
    {
        match self.polygons.take() {
            None => Err(WriterError::MissingPolygonsForMultiPolygon),
            Some(polygons) => self.finish_geometry(Geometry::MultiPolygon(polygons)),
        }
    }

    pub fn geometrycollection_begin(&mut self, size: usize, idx: usize) -> (result: Result<
        (),
        WriterError,
    >)
        requires
            old(self).wf(),
        ensures
            final(self).wf(),
            final(self).filter() == old(self).filter(),
            result is Ok,
            final(self)@ == (PoiWriterView {
                collections: old(self)@.collections.push(Seq::empty()),
                ..old(self)@
            }),
    {
        let ghost before = self.collections@;
        self.collections.push(Vec::with_capacity(size));
        proof {
            assert(geometries_view(self.collections@.last()@) =~= Seq::<GeometryView>::empty());
            assert(self@.collections =~= old(self)@.collections.push(Seq::empty()));
        }
        Ok(())
    }

    /// Closes the innermost open geometry collection.
    pub fn geometrycollection_end(&mut self, idx: usize) -> (result: Result<(), WriterError>)
        requires
            old(self).wf(),
        ensures
            final(self).wf(),
            final(self).filter() == old(self).filter(),
            ({
                let o = old(self)@;
                if o.collections.len() == 0 {
                    result == Err::<(), WriterError>(WriterError::UnexpectedGeometryType)
                        && final(self)@ == o
                } else {
                    result is Ok && final(self)@ == with_finished(
                        PoiWriterView { collections: o.collections.drop_last(), ..o },
                        GeometryView::GeometryCollection(o.collections.last()),
                    )
                }
            }),
    {
        let ghost before = self.collections@;
        match self.collections.pop() {
            None => Err(WriterError::UnexpectedGeometryType),
            Some(geometries) => {
                proof {
                    assert(self@.collections =~= old(self)@.collections.drop_last());
                }
                self.finish_geometry(Geometry::GeometryCollection(geometries))
            },
        }
    }
}

} // verus!
