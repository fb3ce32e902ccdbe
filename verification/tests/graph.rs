use burp::input::geo_zero::GraphWriter;
use burp::input::properties::{ColumnValueClonable, PropertyMap};
use std::collections::HashMap;

use rustc_hash::FxHashSet;
use burp::graph::{beer_path, beer_path_costs, join_beer_path, Error, Label, PoiGraph};
use burp::types::{Amenity, Coord, CoordNode, Poi};

fn node(x: f64, y: f64, data: Vec<Poi>) -> CoordNode<f64, Poi> {
    CoordNode::new(Coord { x, y }, data)
}

fn poi(name: &str) -> Poi {
    Poi::new(name.to_string(), Amenity::Bar)
}

fn graph() -> PoiGraph<f64, Poi> {
    PoiGraph::new(vec![
        node(0.0, 0.0, vec![]),
        node(1.0, 0.0, vec![poi("a")]),
        node(2.0, 0.0, vec![]),
    ])
}

#[test]
fn new_registers_nodes_with_data() {
    let g = graph();
    assert_eq!(g.poi_nodes().len(), 1);
    assert!(g.poi_nodes().contains(&1));
    assert_eq!(g.nodes().len(), 3);
}

#[test]
fn add_node_poi_places_data() {
    let mut g = graph();
    let placed = g.add_node_poi((2, vec![poi("b"), poi("c")]));
    assert_eq!(placed.map(|n| n.data().len()), Some(2));
    assert!(g.poi_nodes().contains(&2));
    assert!(g.add_node_poi((3, vec![poi("d")])).is_none());
    assert_eq!(g.poi_nodes().len(), 2);
    g.add_node_pois(vec![(0, vec![]), (2, vec![poi("e")]), (7, vec![poi("f")])]);
    assert!(g.poi_nodes().contains(&0));
    assert_eq!(g.nodes()[0].data().len(), 0);
    let names: Vec<&str> = g.nodes()[2].data().iter().map(|p| p.name()).collect();
    assert_eq!(names, vec!["b", "c", "e"]);
}

#[test]
fn add_coord_poi_uses_nearest_node() {
    let mut g = graph();
    assert!(g.add_coord_poi(node(1.9, 0.1, vec![poi("x")]), Some(2)).is_ok());
    assert_eq!(g.nodes()[2].data()[0].name(), "x");
    assert!(g.poi_nodes().contains(&2));
    match g.add_coord_poi(node(0.0, 0.0, vec![poi("y")]), None) {
        Err(e) => assert_eq!(e.message(), "No value for \"quad graph empty\""),
        Ok(_) => panic!("expected an error"),
    }
    match g.add_coord_poi(node(0.0, 0.0, vec![poi("y")]), Some(42)) {
        Err(Error::NoValue(m)) => assert_eq!(m, "node: 42"),
        Ok(_) => panic!("expected an error"),
    }
    assert!(g.add_coord_pois(
        vec![node(0.0, 0.0, vec![poi("p")]), node(5.0, 5.0, vec![poi("q")])],
        &[Some(0), None],
    )
    .is_ok());
    assert_eq!(g.nodes()[0].data()[0].name(), "p");
    assert_eq!(g.poi_nodes().len(), 3);
}

#[test]
fn get_node_value_copies_the_node() {
    let g = graph();
    let (id, value) = g.get_node_value(1).unwrap();
    assert_eq!(id, 1);
    assert_eq!(value, node(1.0, 0.0, vec![poi("a")]));
    match g.get_node_value(3) {
        Err(Error::NoValue(m)) => assert_eq!(m, "no node with id 3"),
        Ok(_) => panic!("expected an error"),
    }
}

#[test]
fn beer_path_costs_add_both_legs() {
    let mut pois = FxHashSet::default();
    pois.insert(1);
    pois.insert(4);
    let start: HashMap<usize, f64> = [(1, 2.5), (4, 1.0), (9, 0.5)].into_iter().collect();
    let end: HashMap<usize, f64> = [(1, 1.0), (4, 3.0)].into_iter().collect();
    let costs = beer_path_costs(&pois, &start, &end, |a: f64, b: f64| a + b).unwrap();
    assert_eq!(costs.len(), 2);
    assert_eq!(costs[&1], 3.5);
    assert_eq!(costs[&4], 4.0);
    let partial: HashMap<usize, f64> = [(1, 1.0)].into_iter().collect();
    assert!(beer_path_costs(&pois, &start, &partial, |a: f64, b: f64| a + b).is_none());
    let none = FxHashSet::default();
    assert_eq!(beer_path_costs(&none, &start, &partial, |a: f64, b: f64| a + b).map(|c| c.len()), Some(0));
}

#[test]
fn beer_paths_join_at_the_poi() {
    assert_eq!(join_beer_path(vec![0, 1, 2], vec![5, 4, 2]), vec![0, 1, 2, 2, 4, 5]);
    assert_eq!(join_beer_path(Vec::<u8>::new(), vec![1, 2]), vec![2, 1]);
    let mut pois = FxHashSet::default();
    pois.insert(2);
    assert_eq!(beer_path(&pois, 2, Some(vec![0, 2]), Some(vec![3, 2])), Some(vec![0, 2, 2, 3]));
    assert_eq!(beer_path(&pois, 1, Some(vec![0, 1]), Some(vec![3, 1])), None);
    assert_eq!(beer_path(&pois, 2, None, Some(vec![3, 2])), None);
    assert_eq!(beer_path::<u8>(&pois, 2, Some(vec![0, 2]), None), None);
}

#[test]
fn labels_invert() {
    assert_eq!(Label::Forward.inverse(), Label::Backward);
    assert_eq!(Label::Backward.inverse(), Label::Forward);
    assert_eq!(Label::Poi.inverse(), Label::Poi);
    for l in [Label::Forward, Label::Backward, Label::Poi] {
        assert_eq!(l.inverse().inverse(), l);
    }
}

#[test]
fn error_message_shows_the_text_in_debug_form() {
    let plain = Error::NoValue("no node at (1.0, 2.0) with tolerance 5".to_string());
    assert_eq!(plain.message(), "No value for \"no node at (1.0, 2.0) with tolerance 5\"");
    let quoted = Error::NoValue("say \"hi\"\n".to_string());
    assert_eq!(quoted.message(), "No value for \"say \\\"hi\\\"\\n\"");
}

#[test]
fn node_value_only_for_existing_nodes() {
    let g: PoiGraph<f64, Poi> = PoiGraph::new(vec![node(1.0, 2.0, vec![]), node(3.0, 4.0, vec![poi("a")])]);
    assert_eq!(*g.node_value(1).unwrap().get_coord(), Coord { x: 3.0, y: 4.0 });
    assert_eq!(g.node_value(1).unwrap().data()[0].name(), "a");
    assert!(g.node_value(2).is_none());
}

#[test]
fn missing_node_messages_spell_the_id_in_decimal() {
    let mut g: PoiGraph<f64, Poi> = PoiGraph::new(vec![]);
    match g.add_coord_poi(node(0.0, 0.0, vec![poi("y")]), Some(0)) {
        Err(Error::NoValue(m)) => assert_eq!(m, "node: 0"),
        Ok(_) => panic!("expected an error"),
    }
    match g.add_coord_poi(node(0.0, 0.0, vec![poi("y")]), Some(9_876_543_210)) {
        Err(Error::NoValue(m)) => assert_eq!(m, "node: 9876543210"),
        Ok(_) => panic!("expected an error"),
    }
    match g.get_node_value(10) {
        Err(Error::NoValue(m)) => assert_eq!(m, "no node with id 10"),
        Ok(_) => panic!("expected an error"),
    }
}

#[test]
fn filter_sees_the_recorded_properties() {
    let mut gw = GraphWriter::new(|p: &PropertyMap| p.contains_key("highway"));
    gw.feature_begin(0).unwrap();
    gw.property(0, "highway", ColumnValueClonable::String("service".to_string())).unwrap();
    gw.properties_end().unwrap();
    assert!(gw.include_feature());
    gw.feature_begin(1).unwrap();
    gw.property(0, "footway", ColumnValueClonable::Bool(true)).unwrap();
    gw.properties_end().unwrap();
    assert!(!gw.include_feature());
}
