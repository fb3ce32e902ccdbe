use burp::input::properties::{ColumnValueClonable, PropertyMap};
use burp::input::NodeValue;
use burp::text::str_eq;
use burp::types::{Amenity, Coord, CoordNode, Poi};

#[test]
fn poi_reads_back_what_it_was_made_of() {
    let poi = Poi::new("Biergarten am See".to_string(), Amenity::Biergarten);
    assert_eq!(poi.name(), "Biergarten am See");
    assert_eq!(*poi.amenity(), Amenity::Biergarten);
    let copy = poi.clone();
    assert_eq!(copy, poi);
}

#[test]
fn amenity_tags() {
    assert_eq!(Amenity::from_tag("bar"), Amenity::Bar);
    assert_eq!(Amenity::from_tag("biergarten"), Amenity::Biergarten);
    assert_eq!(Amenity::from_tag("cafe"), Amenity::Cafe);
    assert_eq!(Amenity::from_tag("fast_food"), Amenity::FastFood);
    assert_eq!(Amenity::from_tag("food_court"), Amenity::FoodCourt);
    assert_eq!(Amenity::from_tag("pub"), Amenity::Pub);
    assert_eq!(Amenity::from_tag("ice_cream"), Amenity::IceCream);
    assert_eq!(Amenity::from_tag("restaurant"), Amenity::Restaurant);
    assert_eq!(Amenity::from_tag("Pub"), Amenity::NoAmenity);
    assert_eq!(Amenity::from_tag(""), Amenity::NoAmenity);
    assert_eq!(Amenity::from_tag("restaurants"), Amenity::NoAmenity);
}

#[test]
fn string_equality() {
    assert!(str_eq("", ""));
    assert!(str_eq("näh", "näh"));
    assert!(!str_eq("a", "ab"));
    assert!(!str_eq("ab", "ac"));
}

#[test]
fn coord_node_operations() {
    let mut node: CoordNode<f64, u32> = CoordNode::new(Coord { x: 1.0, y: 2.0 }, vec![]);
    assert!(!node.has_data());
    node.push_data(7);
    assert!(node.has_data());
    let mut more = vec![8, 9];
    node.append_data(&mut more);
    assert!(more.is_empty());
    assert_eq!(node.data(), &vec![7, 8, 9]);
    node.data_mut().push(10);
    assert_eq!(node.data().len(), 4);
    node.set_coord(Coord { x: 5.0, y: 6.0 });
    assert_eq!(*node.get_coord(), Coord { x: 5.0, y: 6.0 });
    node.set_data(vec![1]);
    assert_eq!(node.data(), &vec![1]);
    let copy = node.clone();
    assert_eq!(copy, node);
    let mapped = node.map_coords(|c: f64| (c * 2.0) as i64);
    assert_eq!(*mapped.get_coord(), Coord { x: 10, y: 12 });
    assert_eq!(mapped.data(), &vec![1]);
    let empty: CoordNode<f64, u32> = CoordNode::default();
    assert_eq!(*empty.get_coord(), Coord { x: 0.0, y: 0.0 });
    assert!(!empty.has_data());
}

#[test]
fn node_values() {
    let a: NodeValue<f64> = NodeValue::Coord(Coord { x: 1.0, y: 2.0 });
    let b: NodeValue<f64> = NodeValue::Poi { coord: Coord { x: 3.0, y: 4.0 }, name: "x".to_string() };
    assert_eq!(a.x_y(), (1.0, 2.0));
    assert_eq!(b.x_y(), (3.0, 4.0));
    assert_eq!(b.as_coord(), Coord { x: 3.0, y: 4.0 });
    assert!(matches!(b.clone(), NodeValue::Poi { name, .. } if name == "x"));
    assert!(matches!(NodeValue::zero(), NodeValue::Coord(Coord { x: 0, y: 0 })));
}

#[test]
fn coord_node_components_and_origin() {
    let node: CoordNode<f64, u32> = CoordNode::new(Coord { x: 13.35, y: 52.53 }, vec![1]);
    assert_eq!(node.x_y(), (13.35, 52.53));
    assert_eq!(node.as_coord(), Coord { x: 13.35, y: 52.53 });
    let origin: CoordNode<u64, u32> = CoordNode::zero();
    assert_eq!(origin.x_y(), (0.0f64.to_bits(), 0.0f64.to_bits()));
    assert!(!origin.has_data());
}

#[test]
fn property_map_keeps_last_value() {
    let mut p = PropertyMap::new();
    assert_eq!(p.len(), 0);
    assert!(p.insert("highway".to_string(), ColumnValueClonable::String("service".to_string())).is_none());
    assert!(p.insert("lanes".to_string(), ColumnValueClonable::Int(2)).is_none());
    let old = p.insert("highway".to_string(), ColumnValueClonable::String("path".to_string()));
    assert_eq!(old, Some(ColumnValueClonable::String("service".to_string())));
    assert_eq!(p.len(), 2);
    assert_eq!(p.get("highway"), Some(&ColumnValueClonable::String("path".to_string())));
    assert_eq!(p.get("lanes"), Some(&ColumnValueClonable::Int(2)));
    assert_eq!(p.get("name"), None);
    assert!(p.contains_key("lanes"));
    assert!(!p.contains_key("Lanes"));
}

#[test]
fn column_value_clone() {
    let values = vec![
        ColumnValueClonable::Bool(true),
        ColumnValueClonable::Binary(vec![1, 2, 3]),
        ColumnValueClonable::Byte(-1),
        ColumnValueClonable::UByte(1),
        ColumnValueClonable::Short(-2),
        ColumnValueClonable::UShort(2),
        ColumnValueClonable::Int(-3),
        ColumnValueClonable::UInt(3),
        ColumnValueClonable::Long(-4),
        ColumnValueClonable::ULong(4),
        ColumnValueClonable::Float(1.5f32.to_bits()),
        ColumnValueClonable::Double(2.5f64.to_bits()),
        ColumnValueClonable::String("s".to_string()),
        ColumnValueClonable::DateTime("2024-01-01".to_string()),
        ColumnValueClonable::Json("{}".to_string()),
    ];
    for v in &values {
        assert_eq!(&v.clone(), v);
    }
}
