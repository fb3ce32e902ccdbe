use burp::input::filters::{has_highway_tag, is_highway_way, is_routable_way};
use burp::input::properties::{ColumnValueClonable, PropertyMap};

fn props(entries: &[(&str, ColumnValueClonable)]) -> PropertyMap {
    let mut p = PropertyMap::new();
    for (k, v) in entries {
        p.insert(k.to_string(), v.clone());
    }
    p
}

fn text(s: &str) -> ColumnValueClonable {
    ColumnValueClonable::String(s.to_string())
}

#[test]
fn routable_ways() {
    assert!(is_routable_way(&props(&[("highway", text("residential"))])));
    assert!(is_routable_way(&props(&[("highway", text("service")), ("footway", text("null"))])));
    assert!(is_routable_way(&props(&[("highway", ColumnValueClonable::Int(1))])));
    assert!(!is_routable_way(&props(&[])));
    for kind in ["null", "cycleway", "path", "footway", "steps", "corridor"] {
        assert!(!is_routable_way(&props(&[("highway", text(kind))])));
    }
    assert!(!is_routable_way(&props(&[("highway", text("primary")), ("footway", text("sidewalk"))])));
    assert!(!is_routable_way(&props(&[("highway", text("primary")), ("footway", ColumnValueClonable::Bool(false))])));
}

#[test]
fn highway_ways() {
    assert!(is_highway_way(&props(&[("highway", text("footway"))])));
    assert!(!is_highway_way(&props(&[("highway", text("null"))])));
    assert!(!is_highway_way(&props(&[("name", text("x"))])));
    assert!(!is_highway_way(&props(&[("highway", text("primary")), ("footway", text("crossing"))])));
    assert!(is_highway_way(&props(&[("highway", text("primary")), ("footway", text("null"))])));
}

#[test]
fn highway_tag() {
    assert!(has_highway_tag(&props(&[("highway", text("null"))])));
    assert!(!has_highway_tag(&props(&[("railway", text("rail"))])));
}
