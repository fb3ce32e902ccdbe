//! Points of interest and the nodes that carry them.

use vstd::prelude::*;

use crate::text::str_eq;

verus! {

/// The kind of place a point of interest is.
#[derive(Clone, Copy, Debug, PartialEq, Eq, Structural)]
pub enum Amenity {
    NoAmenity,
    Bar,
    Biergarten,
    Cafe,
    FastFood,
    FoodCourt,
    IceCream,
    Pub,
    Restaurant,
}

/// The amenity that an OpenStreetMap `amenity` tag names; unknown tags
/// name no amenity.
pub open spec fn amenity_of_tag(tag: Seq<char>) -> Amenity {
    if tag == "bar"@ {
        Amenity::Bar
    } else if tag == "biergarten"@ {
        Amenity::Biergarten
    } else if tag == "cafe"@ {
        Amenity::Cafe
    } else if tag == "fast_food"@ {
        Amenity::FastFood
    } else if tag == "food_court"@ {
        Amenity::FoodCourt
    } else if tag == "pub"@ {
        Amenity::Pub
    } else if tag == "ice_cream"@ {
        Amenity::IceCream
    } else if tag == "restaurant"@ {
        Amenity::Restaurant
    } else {
        Amenity::NoAmenity
    }
}

impl Amenity {
    /// Reads the value of an `amenity` tag.
    pub fn from_tag(tag: &str) -> (amenity: Amenity)
        ensures
            amenity == amenity_of_tag(tag@),
    {
        if str_eq(tag, "bar") {
            Amenity::Bar
        } else if str_eq(tag, "biergarten") {
            Amenity::Biergarten
        } else if str_eq(tag, "cafe") {
            Amenity::Cafe
        } else if str_eq(tag, "fast_food") {
            Amenity::FastFood
        } else if str_eq(tag, "food_court") {
            Amenity::FoodCourt
        } else if str_eq(tag, "pub") {
            Amenity::Pub
        } else if str_eq(tag, "ice_cream") {
            Amenity::IceCream
        } else if str_eq(tag, "restaurant") {
            Amenity::Restaurant
        } else {
            Amenity::NoAmenity
        }
    }
}

/// A named point of interest.
#[derive(Debug, PartialEq)]
pub struct Poi {
    name: String,
    amenity: Amenity,
}

/// What a point of interest holds.
pub struct PoiView {
    pub name: Seq<char>,
    pub amenity: Amenity,
}

impl View for Poi {
    type V = PoiView;

    closed spec fn view(&self) -> PoiView {
        PoiView { name: self.name@, amenity: self.amenity }
    }
}

impl Poi {
    pub fn new(name: String, amenity: Amenity) -> (poi: Poi)
        ensures
            poi@.name == name@,
            poi@.amenity == amenity,
    {
        Poi { name, amenity }
    }

    pub fn name(&self) -> (name: &str)
        ensures
            name@ == self@.name,
    {
        self.name.as_str()
    }

    pub fn amenity(&self) -> (amenity: &Amenity)
        ensures
            *amenity == self@.amenity,
    {
        &self.amenity
    }
}

impl Clone for Poi {
    fn clone(&self) -> (copy: Poi)
        ensures
            copy == *self,
    {
        Poi { name: self.name.clone(), amenity: self.amenity }
    }
}

/// A planar coordinate.  The library never computes with the components,
/// so the component type is left to the caller.
#[derive(Copy, Debug, PartialEq, Eq)]
pub struct Coord<C> {
    pub x: C,
    pub y: C,
}

impl<C: Copy> Clone for Coord<C> {
    fn clone(&self) -> (copy: Self)
        ensures
            copy == *self,
    {
        *self
    }
}

/// A graph node: a coordinate and the points of interest placed on it.
#[derive(Debug, PartialEq)]
pub struct CoordNode<C, T> {
    coord: Coord<C>,
    data: Vec<T>,
}

/// What a node holds.
pub struct CoordNodeView<C, T> {
    pub coord: Coord<C>,
    pub data: Seq<T>,
}

impl<C, T> View for CoordNode<C, T> {
    type V = CoordNodeView<C, T>;

    closed spec fn view(&self) -> CoordNodeView<C, T> {
        CoordNodeView { coord: self.coord, data: self.data@ }
    }
}

impl<C, T> CoordNode<C, T> {
    pub fn new(coord: Coord<C>, data: Vec<T>) -> (node: Self)
        ensures
            node@.coord == coord,
            node@.data == data@,
    {
        CoordNode { coord, data }
    }

    pub fn set_coord(&mut self, coord: Coord<C>)
        ensures
            final(self)@.coord == coord,
            final(self)@.data == old(self)@.data,
    {
        self.coord = coord;
    }

    pub fn get_coord(&self) -> (coord: &Coord<C>)
        ensures
            *coord == self@.coord,
    {
        &self.coord
    }

    pub fn set_data(&mut self, data: Vec<T>)
        ensures
            final(self)@.coord == old(self)@.coord,
            final(self)@.data == data@,
    {
        self.data = data;
    }

    pub fn push_data(&mut self, data: T)
        ensures
            final(self)@.coord == old(self)@.coord,
            final(self)@.data == old(self)@.data.push(data),
    {
        self.data.push(data);
    }

    /// Moves every element of `data` to the end of this node's data.
    pub fn append_data(&mut self, data: &mut Vec<T>)
        ensures
            final(self)@.coord == old(self)@.coord,
            final(self)@.data == old(self)@.data + old(data)@,
            final(data)@ == Seq::<T>::empty(),
    {
        self.data.append(data);
    }

    pub fn data(&self) -> (data: &Vec<T>)
        ensures
            data@ == self@.data,
    {
        &self.data
    }

    pub fn data_mut(&mut self) -> (data: &mut Vec<T>)
        ensures
            data@ == old(self)@.data,
            final(self)@.coord == old(self)@.coord,
            final(self)@.data == final(data)@,
    {
        &mut self.data
    }

    pub fn has_data(&self) -> (has: bool)
        ensures
            has == (self@.data.len() > 0),
    {
        self.data.len() > 0
    }

    /// Applies `f` to both components of the coordinate, keeping the data.
    pub fn map_coords<F, D>(self, f: F) -> (node: CoordNode<D, T>)
        where
            F: Fn(C) -> D,
        requires
            f.requires((self@.coord.x,)),
            f.requires((self@.coord.y,)),
        ensures
            f.ensures((self@.coord.x,), node@.coord.x),
            f.ensures((self@.coord.y,), node@.coord.y),
            node@.data == self@.data,
    {
        let CoordNode { coord, data } = self;
        let x = f(coord.x);
        let y = f(coord.y);
        CoordNode::new(Coord { x, y }, data)
    }
}

impl<C: Copy, T> CoordNode<C, T> {
    /// The components of the node's coordinate.
    pub fn x_y(&self) -> (xy: (C, C))
        ensures
            xy == (self@.coord.x, self@.coord.y),
    {
        (self.coord.x, self.coord.y)
    }

    /// The node's coordinate.
    pub fn as_coord(&self) -> (coord: Coord<C>)
        ensures
            coord == self@.coord,
    {
        self.coord
    }
}

impl<T> CoordNode<u64, T> {
    /// A node at the origin without data; components are IEEE 754 bit
    /// patterns, and the pattern 0 is positive zero.
    pub fn zero() -> (node: Self)
        ensures
            node@.coord == (Coord { x: 0u64, y: 0u64 }),
            node@.data == Seq::<T>::empty(),
    {
        CoordNode { coord: Coord { x: 0, y: 0 }, data: Vec::new() }
    }
}

impl<C: Copy, T: Clone> Clone for CoordNode<C, T> {
    fn clone(&self) -> (copy: Self)
        ensures
            copy@.coord == self@.coord,
            copy@.data.len() == self@.data.len(),
            forall|i: int| 0 <= i < self@.data.len() ==> cloned(self@.data[i], copy@.data[i]),
    {
        CoordNode { coord: self.coord, data: self.data.clone() }
    }
}

impl<C: Default, T> Default for CoordNode<C, T> {
    fn default() -> (node: Self)
        ensures
            node@.data == Seq::<T>::empty(),
    {
        CoordNode { coord: Coord { x: C::default(), y: C::default() }, data: Vec::new() }
    }
}

} // verus!
