//! Which features of an OpenStreetMap extract become road segments.

use vstd::prelude::*;

use crate::input::properties::{ColumnValueClonable, PropertyMap, PropertyValue};
use crate::text::str_eq;

verus! {

/// Highway kinds that are not routable: missing values, cycle ways, paths,
/// foot ways, steps and corridors.
pub open spec fn unroutable_highway(kind: Seq<char>) -> bool {
    kind == "null"@ || kind == "cycleway"@ || kind == "path"@ || kind == "footway"@ || kind
        == "steps"@ || kind == "corridor"@
}

/// A way passes the `footway` test when it has no `footway` property, or one
/// whose text is `null`.
pub open spec fn footway_allows(properties: Map<Seq<char>, PropertyValue>) -> bool {
    !properties.contains_key("footway"@) || properties["footway"@] == PropertyValue::Text(
        "null"@,
    )
}

/// A routable way: it has a `highway` property that is not an unroutable
/// highway kind, and it passes the `footway` test.
pub open spec fn routable_way(properties: Map<Seq<char>, PropertyValue>) -> bool {
    &&& properties.contains_key("highway"@)
    &&& !(properties["highway"@] matches PropertyValue::Text(kind) && unroutable_highway(kind))
    &&& footway_allows(properties)
}

/// A highway: it has a `highway` property whose text is not `null`, and it
/// passes the `footway` test.
pub open spec fn highway_way(properties: Map<Seq<char>, PropertyValue>) -> bool {
    &&& properties.contains_key("highway"@)
    &&& properties["highway"@] != PropertyValue::Text("null"@)
    &&& footway_allows(properties)
}

fn footway_test(properties: &PropertyMap) -> (allows: bool)
    ensures
        allows == footway_allows(properties@),
{
    match properties.get("footway") {
        None => true,
        Some(ColumnValueClonable::String(s)) => str_eq(s.as_str(), "null"),
        Some(_) => false,
    }
}

/// The filter of the route planner's user interface: keeps routable ways.
pub fn is_routable_way(properties: &PropertyMap) -> (keep: bool)
    ensures
        keep == routable_way(properties@),
{
    match properties.get("highway") {
        None => false,
        Some(ColumnValueClonable::String(s)) => {
            let kind = s.as_str();
            if str_eq(kind, "null") || str_eq(kind, "cycleway") || str_eq(kind, "path") || str_eq(
                kind,
                "footway",
            ) || str_eq(kind, "steps") || str_eq(kind, "corridor") {
                false
            } else {
                footway_test(properties)
            }
        },
        Some(_) => footway_test(properties),
    }
}

/// The filter of the first map viewer: keeps highways that are not foot ways.
pub fn is_highway_way(properties: &PropertyMap) -> (keep: bool)
    ensures
        keep == highway_way(properties@),
{
    match properties.get("highway") {
        None => false,
        Some(ColumnValueClonable::String(s)) => {
            if str_eq(s.as_str(), "null") {
                false
            } else {
                footway_test(properties)
            }
        },
        Some(_) => footway_test(properties),
    }
}

/// Keeps every feature that has a `highway` property, whatever its value.
pub fn has_highway_tag(properties: &PropertyMap) -> (keep: bool)
    ensures
        keep == properties@.contains_key("highway"@),
{
    properties.contains_key("highway")
}

/// Which ways the route planner keeps.  A way without a `highway`
/// property is dropped.  A way whose `highway` text is one of `null`,
/// `cycleway`, `path`, `footway`, `steps` or `corridor` is dropped; any
/// other highway value (`primary`, `residential`, a number, ...) is kept
/// exactly when the way has no `footway` property or its `footway` text is
/// `null`.
pub proof fn law_routable_way_kinds(properties: Map<Seq<char>, PropertyValue>)
    ensures
        !properties.contains_key("highway"@) ==> !routable_way(properties),
        properties.contains_key("highway"@) ==> (routable_way(properties) <==> (!(
        properties["highway"@] == PropertyValue::Text("null"@) || properties["highway"@]
            == PropertyValue::Text("cycleway"@) || properties["highway"@] == PropertyValue::Text(
            "path"@,
        ) || properties["highway"@] == PropertyValue::Text("footway"@) || properties["highway"@]
            == PropertyValue::Text("steps"@) || properties["highway"@] == PropertyValue::Text(
            "corridor"@,
        )) && (!properties.contains_key("footway"@) || properties["footway"@]
            == PropertyValue::Text("null"@)))),
{
}

/// Which ways the map viewer keeps.  A way without a `highway` property, or
/// whose `highway` text is `null`, is dropped; a way with any other highway
/// value is kept exactly when it has no `footway` property or its `footway`
/// text is `null`.
pub proof fn law_highway_way_kinds(properties: Map<Seq<char>, PropertyValue>)
    ensures
        !properties.contains_key("highway"@) ==> !highway_way(properties),
        properties.contains_key("highway"@) ==> (highway_way(properties) <==> (
        properties["highway"@] != PropertyValue::Text("null"@) && (!properties.contains_key(
            "footway"@,
        ) || properties["footway"@] == PropertyValue::Text("null"@)))),
{
}

} // verus!
