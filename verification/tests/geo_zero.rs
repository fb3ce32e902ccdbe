use burp::input::filters::has_highway_tag;
use burp::input::geo_zero::{canonical, to_ord_coord, GraphWriter, PoiWriter, WriterError};
use burp::input::geometry::Geometry;
use burp::input::properties::{ColumnValueClonable, PropertyMap};
use burp::types::{Amenity, Coord};
use geozero::error::GeozeroError;
use geozero::geojson::read_geojson;
use geozero::{ColumnValue, FeatureProcessor, GeomProcessor, PropertyProcessor};

fn to_value(v: &ColumnValue) -> ColumnValueClonable {
    match v {
        ColumnValue::Bool(i) => ColumnValueClonable::Bool(*i),
        ColumnValue::Binary(i) => ColumnValueClonable::Binary(i.to_vec()),
        ColumnValue::Byte(i) => ColumnValueClonable::Byte(*i),
        ColumnValue::UByte(i) => ColumnValueClonable::UByte(*i),
        ColumnValue::Short(i) => ColumnValueClonable::Short(*i),
        ColumnValue::UShort(i) => ColumnValueClonable::UShort(*i),
        ColumnValue::Int(i) => ColumnValueClonable::Int(*i),
        ColumnValue::UInt(i) => ColumnValueClonable::UInt(*i),
        ColumnValue::Long(i) => ColumnValueClonable::Long(*i),
        ColumnValue::ULong(i) => ColumnValueClonable::ULong(*i),
        ColumnValue::Float(i) => ColumnValueClonable::Float(i.to_bits()),
        ColumnValue::Double(i) => ColumnValueClonable::Double(i.to_bits()),
        ColumnValue::String(i) => ColumnValueClonable::String(i.to_string()),
        ColumnValue::DateTime(i) => ColumnValueClonable::DateTime(i.to_string()),
        ColumnValue::Json(i) => ColumnValueClonable::Json(i.to_string()),
    }
}

fn to_geozero(e: WriterError) -> GeozeroError {
    GeozeroError::Geometry(e.message().to_string())
}

struct Reader<F: Fn(&PropertyMap) -> bool>(GraphWriter<F>);

impl<F: Fn(&PropertyMap) -> bool> GeomProcessor for Reader<F> {
    fn xy(&mut self, x: f64, y: f64, idx: usize) -> geozero::error::Result<()> {
        self.0.xy(x.to_bits(), y.to_bits(), idx).map_err(to_geozero)
    }
    fn point_begin(&mut self, idx: usize) -> geozero::error::Result<()> {
        self.0.point_begin(idx).map_err(to_geozero)
    }
    fn point_end(&mut self, idx: usize) -> geozero::error::Result<()> {
        self.0.point_end(idx).map_err(to_geozero)
    }
    fn linestring_begin(&mut self, tagged: bool, size: usize, idx: usize) -> geozero::error::Result<()> {
        self.0.linestring_begin(tagged, size, idx).map_err(to_geozero)
    }
    fn linestring_end(&mut self, tagged: bool, idx: usize) -> geozero::error::Result<()> {
        assert!(!(self.0.include_feature() && self.0.open_coords_len() == Some(0)));
        self.0.linestring_end(tagged, idx).map_err(to_geozero)
    }
}

impl<F: Fn(&PropertyMap) -> bool> PropertyProcessor for Reader<F> {
    fn property(&mut self, i: usize, n: &str, v: &ColumnValue) -> geozero::error::Result<bool> {
        self.0.property(i, n, to_value(v)).map_err(to_geozero)
    }
}

impl<F: Fn(&PropertyMap) -> bool> FeatureProcessor for Reader<F> {
    fn feature_begin(&mut self, idx: u64) -> geozero::error::Result<()> {
        self.0.feature_begin(idx).map_err(to_geozero)
    }
    fn properties_end(&mut self) -> geozero::error::Result<()> {
        self.0.properties_end().map_err(to_geozero)
    }
}

/// The nodes joined to `node` by an edge in either direction, in the order
/// of the edges, as the road graph lists a node's neighbours.
fn neighbors(edges: &[(usize, usize)], node: usize) -> Vec<usize> {
    edges
        .iter()
        .filter_map(|&(a, b)| if a == node { Some(b) } else if b == node { Some(a) } else { None })
        .collect()
}

fn coord(node: &Coord<u64>) -> (f64, f64) {
    (f64::from_bits(node.x), f64::from_bits(node.y))
}

const WAY: &str = r#" {
        "type": "FeatureCollection",
        "features": [{
            "type": "Feature",
            "geometry": {
                "type": "LineString",
                "coordinates": [
                [13.3530166, 52.5365623],
                [13.3531553, 52.5364245],
                [13.3538338, 52.5364855],
                [13.3542415, 52.536498],
                [13.3546724, 52.5364904],
                [13.355102, 52.5364593]
                ]
            },
            "properties": {
                "osm_id": 54111470,
                "osm_type": "ways_line",
                "tunnel": null,
                "surface": "paving_stones",
                "name": null,
                "width": null,
                "highway": "service",
                "oneway": null,
                "layer": null,
                "bridge": null,
                "smoothness": null
            }
        }]
        }"#;

#[test]
fn line_string() {
    let geojson = r#"{
            "type": "LineString",
            "coordinates": [
                [1875038.447610231,-3269648.6879248763],[1874359.641504197,-3270196.812984864],[1874141.0428635243,-3270953.7840121365],[1874440.1778162003,-3271619.4315206874],[1876396.0598222911,-3274138.747656357],[1876442.0805243007,-3275052.60551469],[1874739.312657555,-3275457.333765534]
            ]
        }"#;
    let mut reader = Reader(GraphWriter::new_from_filter(|_: &PropertyMap| true));
    assert!(read_geojson(geojson.as_bytes(), &mut reader).is_ok());
    let graph = reader.0.get_graph();

    assert_eq!(neighbors(&graph.edges, 0), vec![1]);
    assert_eq!(
        coord(graph.nodes[3].get_coord()),
        (1874440.1778162003, -3271619.4315206874)
    );
}

#[test]
fn multi_polygon() {
    let geojson = r#"{
            "type": "MultiPolygon",
            "coordinates": [[[
                [73.020375,-40.919052],[70.247234,-41.331999],[173.958405,-40.926701],[174.247587,-41.349155],[174.248517,-41.770008],[173.876447,-42.233184],[173.22274,-42.970038],[172.711246,-43.372288],[173.080113,-43.853344],[172.308584,-43.865694],[171.452925,-44.242519],[171.185138,-44.897104],[170.616697,-45.908929],[169.831422,-46.355775],[169.332331,-46.641235],[168.411354,-46.619945],[167.763745,-46.290197],[166.676886,-46.219917],[166.509144,-45.852705],[167.046424,-45.110941],[168.303763,-44.123973],[168.949409,-43.935819],[169.667815,-43.555326],[170.52492,-43.031688],[171.12509,-42.512754],[171.569714,-41.767424],[171.948709,-41.514417],[172.097227,-40.956104],[172.79858,-40.493962],[173.020375,-40.919052],[73.020375,-40.919052]
            ]],[[
                [174.612009,-36.156397],[175.336616,-37.209098],[175.357596,-36.526194],[175.808887,-36.798942],[175.95849,-37.555382],[176.763195,-37.881253],[177.438813,-37.961248],[178.010354,-37.579825],[178.517094,-37.695373],[178.274731,-38.582813],[177.97046,-39.166343],[177.206993,-39.145776],[176.939981,-39.449736],[177.032946,-39.879943],[176.885824,-40.065978],[176.508017,-40.604808],[176.01244,-41.289624],[175.239567,-41.688308],[175.067898,-41.425895],[174.650973,-41.281821],[175.22763,-40.459236],[174.900157,-39.908933],[173.824047,-39.508854],[173.852262,-39.146602],[174.574802,-38.797683],[174.743474,-38.027808],[174.697017,-37.381129],[174.292028,-36.711092],[174.319004,-36.534824],[173.840997,-36.121981],[173.054171,-35.237125],[172.636005,-34.529107],[173.007042,-34.450662],[173.551298,-35.006183],[174.32939,-35.265496],[174.612009,-36.156397]
            ]]]
        }"#;
    let mut reader = Reader(GraphWriter::new_from_filter(|_: &PropertyMap| true));
    assert!(read_geojson(geojson.as_bytes(), &mut reader).is_ok());
    let graph = reader.0.get_graph();

    assert_eq!(neighbors(&graph.edges, 0), vec![1, 29]);
}

#[test]
fn way_filter() {
    let mut reader = Reader(GraphWriter::new_from_filter(has_highway_tag));
    assert!(read_geojson(WAY.as_bytes(), &mut reader).is_ok());
    let graph = reader.0.get_graph();

    assert_eq!(neighbors(&graph.edges, 0), vec![1]);
}

#[test]
fn way_filter_rejects_feature_without_highway() {
    let filter = |p: &PropertyMap| p.contains_key("railway");
    let mut reader = Reader(GraphWriter::new_from_filter(filter));
    assert!(read_geojson(WAY.as_bytes(), &mut reader).is_ok());
    let graph = reader.0.get_graph();
    assert!(graph.nodes.is_empty());
    assert!(graph.edges.is_empty());
}

#[test]
fn repeated_coordinates_share_a_node() {
    let mut w = GraphWriter::new(|_: &PropertyMap| true);
    w.linestring_begin(true, 3, 0).unwrap();
    w.xy(1.0f64.to_bits(), 2.0f64.to_bits(), 0).unwrap();
    w.xy(3.0f64.to_bits(), 4.0f64.to_bits(), 1).unwrap();
    w.xy(1.0f64.to_bits(), 2.0f64.to_bits(), 2).unwrap();
    w.linestring_end(true, 0).unwrap();
    assert_eq!(w.next_id(), 2);
    let graph = w.get_graph();
    assert_eq!(graph.nodes.len(), 2);
    assert_eq!(graph.edges, vec![(0, 1), (1, 0)]);
}

#[test]
fn negative_zero_and_nan_are_identified() {
    assert_eq!(canonical((-0.0f64).to_bits()), 0.0f64.to_bits());
    assert_eq!(canonical(f64::NAN.to_bits()), canonical((-f64::NAN).to_bits()));
    assert_eq!(canonical(1.5f64.to_bits()), 1.5f64.to_bits());
    let a = Coord { x: (-0.0f64).to_bits(), y: 7.0f64.to_bits() };
    let b = Coord { x: 0.0f64.to_bits(), y: 7.0f64.to_bits() };
    assert_eq!(to_ord_coord(&a), to_ord_coord(&b));
    let c = Coord { x: 7.0f64.to_bits(), y: 0.0f64.to_bits() };
    assert_ne!(to_ord_coord(&b), to_ord_coord(&c));
    assert_eq!(to_ord_coord(&b), ((0u128) << 64) | 7.0f64.to_bits() as u128);

    let mut w = GraphWriter::new(|_: &PropertyMap| true);
    w.point_begin(0).unwrap();
    w.xy((-0.0f64).to_bits(), 1.0f64.to_bits(), 0).unwrap();
    w.xy(0.0f64.to_bits(), 1.0f64.to_bits(), 0).unwrap();
    assert_eq!(w.next_id(), 1);
    w.point_end(0).unwrap();
}

#[test]
fn writer_errors() {
    let mut w = GraphWriter::new(|_: &PropertyMap| true);
    assert_eq!(w.xy(0, 0, 0), Err(WriterError::NotReadyForCoords));
    assert_eq!(w.point_end(0), Err(WriterError::NoCoordsForPoint));
    assert_eq!(w.linestring_end(true, 0), Err(WriterError::NoCoordsInLineString));
    assert_eq!(WriterError::NoCoordsInLineString.message(), "No coords in LineSting");
    assert_eq!(WriterError::NoCentroid.message(), "Could not compute centroid for this Feature");
    assert_eq!(w.property(0, "a", ColumnValueClonable::Int(1)), Ok(false));
}

#[test]
fn filtered_feature_adds_nothing() {
    let mut w = GraphWriter::new(|p: &PropertyMap| p.contains_key("highway"));
    w.feature_begin(0).unwrap();
    w.property(0, "name", ColumnValueClonable::String("x".to_string())).unwrap();
    w.properties_end().unwrap();
    assert!(!w.include_feature());
    w.linestring_begin(true, 2, 0).unwrap();
    w.xy(0, 0, 0).unwrap();
    w.xy(1, 1, 1).unwrap();
    assert_eq!(w.open_coords_len(), Some(0));
    w.linestring_end(true, 0).unwrap();
    let graph = w.get_graph();
    assert!(graph.nodes.is_empty());
    assert!(graph.edges.is_empty());
}

#[test]
fn get_graph_keeps_node_ids() {
    let mut w = GraphWriter::new(|_: &PropertyMap| true);
    w.linestring_begin(true, 2, 0).unwrap();
    w.xy(0, 0, 0).unwrap();
    w.xy(1, 1, 1).unwrap();
    w.linestring_end(true, 0).unwrap();
    let first = w.get_graph();
    assert_eq!(first.edges, vec![(0, 1)]);
    w.linestring_begin(true, 2, 0).unwrap();
    w.xy(1, 1, 0).unwrap();
    w.xy(2, 2, 1).unwrap();
    w.linestring_end(true, 0).unwrap();
    let second = w.get_graph();
    assert_eq!(second.nodes.len(), 1);
    assert_eq!(second.edges, vec![(1, 2)]);
}

#[test]
fn poi_writer_reads_named_feature() {
    let mut w = PoiWriter::new(|_: &PropertyMap| true);
    w.feature_begin(0).unwrap();
    w.properties_begin().unwrap();
    w.property(0, "name", ColumnValueClonable::String("Zum Hirschen".to_string())).unwrap();
    w.property(1, "amenity", ColumnValueClonable::String("pub".to_string())).unwrap();
    w.properties_end().unwrap();
    w.point_begin(0).unwrap();
    w.xy(3.0f64.to_bits(), 4.0f64.to_bits(), 0).unwrap();
    w.point_end(0).unwrap();
    assert_eq!(w.geometries().len(), 1);
    assert!(matches!(w.geometries()[0], Geometry::Point(c) if c.x == 3.0f64.to_bits()));
    let center = Coord { x: 3.0f64.to_bits(), y: 4.0f64.to_bits() };
    w.feature_end(0, Some(center)).unwrap();
    assert_eq!(w.geometries().len(), 0);
    let pois = w.pois();
    assert_eq!(pois.len(), 1);
    assert_eq!(*pois[0].get_coord(), center);
    assert_eq!(pois[0].data()[0].name(), "Zum Hirschen");
    assert_eq!(*pois[0].data()[0].amenity(), Amenity::Pub);
}

#[test]
fn poi_writer_skips_unnamed_and_reports_errors() {
    let mut w = PoiWriter::new(|_: &PropertyMap| true);
    w.feature_begin(0).unwrap();
    assert_eq!(w.feature_end(0, None), Err(WriterError::NoCentroid));
    assert_eq!(w.feature_end(0, Some(Coord { x: 0, y: 0 })), Err(WriterError::NoProperties));
    w.properties_begin().unwrap();
    w.property(0, "name", ColumnValueClonable::Int(3)).unwrap();
    assert_eq!(w.feature_end(0, Some(Coord { x: 0, y: 0 })), Ok(()));
    assert!(w.pois().is_empty());

    assert_eq!(w.xy(0, 0, 0), Err(WriterError::NotReadyForCoords));
    assert_eq!(w.multipoint_end(0), Err(WriterError::NoCoordsForMultiPoint));
    assert_eq!(w.multilinestring_end(0), Err(WriterError::NoLineStringsForMultiLineString));
    assert_eq!(w.polygon_end(true, 0), Err(WriterError::MissingLineStringsForPolygon));
    assert_eq!(w.multipolygon_end(0), Err(WriterError::MissingPolygonsForMultiPolygon));
    assert_eq!(w.geometrycollection_end(0), Err(WriterError::UnexpectedGeometryType));
    w.linestring_begin(false, 0, 0).unwrap();
    assert_eq!(w.linestring_end(false, 0), Err(WriterError::MissingLineStringContainer));
    w.polygon_begin(false, 0, 0).unwrap();
    assert_eq!(w.polygon_end(false, 0), Err(WriterError::MissingPolygonContainer));
}

#[test]
fn poi_writer_builds_nested_geometries() {
    let mut w = PoiWriter::new(|_: &PropertyMap| true);
    w.geometrycollection_begin(2, 0).unwrap();
    w.multipolygon_begin(1, 0).unwrap();
    w.polygon_begin(false, 2, 0).unwrap();
    for ring in 0..2u64 {
        w.linestring_begin(false, 2, 0).unwrap();
        w.xy(ring, 0, 0).unwrap();
        w.xy(ring, 1, 1).unwrap();
        w.linestring_end(false, 0).unwrap();
    }
    w.polygon_end(false, 0).unwrap();
    w.multipolygon_end(0).unwrap();
    w.multipoint_begin(2, 0).unwrap();
    w.xy(5, 5, 0).unwrap();
    w.xy(6, 6, 1).unwrap();
    w.multipoint_end(0).unwrap();
    assert_eq!(w.geometries().len(), 0);
    w.geometrycollection_end(0).unwrap();
    assert_eq!(w.geometries().len(), 1);
    match &w.geometries()[0] {
        Geometry::GeometryCollection(inner) => {
            assert_eq!(inner.len(), 2);
            match &inner[0] {
                Geometry::MultiPolygon(ps) => {
                    assert_eq!(ps.len(), 1);
                    assert_eq!(ps[0].exterior, vec![Coord { x: 0, y: 0 }, Coord { x: 0, y: 1 }]);
                    assert_eq!(ps[0].interiors, vec![vec![Coord { x: 1, y: 0 }, Coord { x: 1, y: 1 }]]);
                }
                _ => panic!("expected a multi-polygon"),
            }
            assert!(matches!(&inner[1], Geometry::MultiPoint(cs) if cs.len() == 2));
        }
        _ => panic!("expected a collection"),
    }
}

#[test]
fn poi_writer_filter_drops_coordinates() {
    let mut w = PoiWriter::new(|p: &PropertyMap| p.contains_key("amenity"));
    w.feature_begin(0).unwrap();
    w.properties_begin().unwrap();
    w.property(0, "name", ColumnValueClonable::String("n".to_string())).unwrap();
    w.properties_end().unwrap();
    w.linestring_begin(true, 1, 0).unwrap();
    w.xy(1, 1, 0).unwrap();
    assert_eq!(w.open_coords_len(), Some(0));
    w.linestring_end(true, 0).unwrap();
    assert_eq!(w.geometries().len(), 0);
}
