//! Feature properties: the values a GeoJSON feature's properties can take,
//! and the map from property names to values that a feature collects.

use vstd::prelude::*;

use crate::text::str_eq;

verus! {

/// An owned property value.  Floating-point values are kept as their IEEE 754
/// bit patterns, which is all the library ever needs of them.
#[derive(Debug, PartialEq)]
pub enum ColumnValueClonable {
    Bool(bool),
    Binary(Vec<u8>),
    Byte(i8),
    UByte(u8),
    Short(i16),
    UShort(u16),
    Int(i32),
    UInt(u32),
    Long(i64),
    ULong(u64),
    Float(u32),
    Double(u64),
    String(String),
    DateTime(String),
    Json(String),
}

/// What a property value holds.
pub enum PropertyValue {
    Bool(bool),
    Binary(Seq<u8>),
    Byte(i8),
    UByte(u8),
    Short(i16),
    UShort(u16),
    Int(i32),
    UInt(u32),
    Long(i64),
    ULong(u64),
    Float(u32),
    Double(u64),
    Text(Seq<char>),
    DateTime(Seq<char>),
    Json(Seq<char>),
}

impl View for ColumnValueClonable {
    type V = PropertyValue;

    open spec fn view(&self) -> PropertyValue {
        match self {
            ColumnValueClonable::Bool(i) => PropertyValue::Bool(*i),
            ColumnValueClonable::Binary(i) => PropertyValue::Binary(i@),
            ColumnValueClonable::Byte(i) => PropertyValue::Byte(*i),
            ColumnValueClonable::UByte(i) => PropertyValue::UByte(*i),
            ColumnValueClonable::Short(i) => PropertyValue::Short(*i),
            ColumnValueClonable::UShort(i) => PropertyValue::UShort(*i),
            ColumnValueClonable::Int(i) => PropertyValue::Int(*i),
            ColumnValueClonable::UInt(i) => PropertyValue::UInt(*i),
            ColumnValueClonable::Long(i) => PropertyValue::Long(*i),
            ColumnValueClonable::ULong(i) => PropertyValue::ULong(*i),
            ColumnValueClonable::Float(i) => PropertyValue::Float(*i),
            ColumnValueClonable::Double(i) => PropertyValue::Double(*i),
            ColumnValueClonable::String(i) => PropertyValue::Text(i@),
            ColumnValueClonable::DateTime(i) => PropertyValue::DateTime(i@),
            ColumnValueClonable::Json(i) => PropertyValue::Json(i@),
        }
    }
}

/// A fresh copy of a byte vector.
fn copy_bytes(bytes: &Vec<u8>) -> (copy: Vec<u8>)
    ensures
        copy@ == bytes@,
{
    let mut copy: Vec<u8> = Vec::new();
    let mut i: usize = 0;
    while i < bytes.len()
        invariant
            i <= bytes@.len(),
            copy@ == bytes@.subrange(0, i as int),
        decreases bytes@.len() - i,
    {
        copy.push(bytes[i]);
        i = i + 1;
        assert(copy@ =~= bytes@.subrange(0, i as int));
    }
    assert(copy@ =~= bytes@);
    copy
}

impl Clone for ColumnValueClonable {
    fn clone(&self) -> (copy: Self)
        ensures
            copy@ == self@,
    {
        match self {
            ColumnValueClonable::Bool(i) => ColumnValueClonable::Bool(*i),
            ColumnValueClonable::Binary(i) => ColumnValueClonable::Binary(copy_bytes(i)),
            ColumnValueClonable::Byte(i) => ColumnValueClonable::Byte(*i),
            ColumnValueClonable::UByte(i) => ColumnValueClonable::UByte(*i),
            ColumnValueClonable::Short(i) => ColumnValueClonable::Short(*i),
            ColumnValueClonable::UShort(i) => ColumnValueClonable::UShort(*i),
            ColumnValueClonable::Int(i) => ColumnValueClonable::Int(*i),
            ColumnValueClonable::UInt(i) => ColumnValueClonable::UInt(*i),
            ColumnValueClonable::Long(i) => ColumnValueClonable::Long(*i),
            ColumnValueClonable::ULong(i) => ColumnValueClonable::ULong(*i),
            ColumnValueClonable::Float(i) => ColumnValueClonable::Float(*i),
            ColumnValueClonable::Double(i) => ColumnValueClonable::Double(*i),
            ColumnValueClonable::String(i) => ColumnValueClonable::String(i.clone()),
            ColumnValueClonable::DateTime(i) => ColumnValueClonable::DateTime(i.clone()),
            ColumnValueClonable::Json(i) => ColumnValueClonable::Json(i.clone()),
        }
    }
}

/// The map that a sequence of (name, value) entries denotes; a later entry
/// for a name hides an earlier one.
pub open spec fn entries_map(entries: Seq<(String, ColumnValueClonable)>) -> Map<
    Seq<char>,
    PropertyValue,
>
    decreases entries.len(),
{
    if entries.len() == 0 {
        Map::empty()
    } else {
        entries_map(entries.drop_last()).insert(entries.last().0@, entries.last().1@)
    }
}

/// No two entries share a name.
pub open spec fn distinct_names(entries: Seq<(String, ColumnValueClonable)>) -> bool {
    forall|i: int, j: int|
        0 <= i < entries.len() && 0 <= j < entries.len() && i != j ==> entries[i].0@
            != entries[j].0@
}

proof fn lemma_entries_map_domain(entries: Seq<(String, ColumnValueClonable)>, name: Seq<char>)
    ensures
        entries_map(entries).contains_key(name) <==> exists|i: int|
            0 <= i < entries.len() && entries[i].0@ == name,
    decreases entries.len(),
{
    if entries.len() > 0 {
        lemma_entries_map_domain(entries.drop_last(), name);
        if entries_map(entries.drop_last()).contains_key(name) {
            let i = choose|i: int| 0 <= i < entries.len() - 1 && entries.drop_last()[i].0@ == name;
            assert(entries[i].0@ == name);
        }
        if exists|i: int| 0 <= i < entries.len() && entries[i].0@ == name {
            let i = choose|i: int| 0 <= i < entries.len() && entries[i].0@ == name;
            if i < entries.len() - 1 {
                assert(entries.drop_last()[i].0@ == name);
            }
        }
    }
}

proof fn lemma_entries_map_value(entries: Seq<(String, ColumnValueClonable)>, i: int)
    requires
        distinct_names(entries),
        0 <= i < entries.len(),
    ensures
        entries_map(entries).contains_key(entries[i].0@),
        entries_map(entries)[entries[i].0@] == entries[i].1@,
    decreases entries.len(),
{
    if i < entries.len() - 1 {
        let rest = entries.drop_last();
        assert(distinct_names(rest));
        lemma_entries_map_value(rest, i);
        assert(rest[i] == entries[i]);
        assert(entries.last().0@ != entries[i].0@);
    }
}

proof fn lemma_entries_map_update(
    entries: Seq<(String, ColumnValueClonable)>,
    i: int,
    entry: (String, ColumnValueClonable),
)
    requires
        distinct_names(entries),
        0 <= i < entries.len(),
        entries[i].0@ == entry.0@,
    ensures
        distinct_names(entries.update(i, entry)),
        entries_map(entries.update(i, entry)) == entries_map(entries).insert(entry.0@, entry.1@),
{
    let updated = entries.update(i, entry);
    assert(distinct_names(updated));
    let left = entries_map(updated);
    let right = entries_map(entries).insert(entry.0@, entry.1@);
    assert forall|name: Seq<char>| left.contains_key(name) <==> right.contains_key(name) by {
        lemma_entries_map_domain(updated, name);
        lemma_entries_map_domain(entries, name);
        if name == entry.0@ {
            assert(updated[i].0@ == name);
        }
        if right.contains_key(name) && name != entry.0@ {
            let j = choose|j: int| 0 <= j < entries.len() && entries[j].0@ == name;
            assert(updated[j].0@ == name);
        }
        if left.contains_key(name) {
            let j = choose|j: int| 0 <= j < updated.len() && updated[j].0@ == name;
            if j != i {
                assert(entries[j].0@ == name);
            }
        }
    }
    assert(left.dom() =~= right.dom());
    assert forall|name: Seq<char>| #[trigger] left.contains_key(name) implies left[name]
        == right[name] by {
        lemma_entries_map_domain(updated, name);
        let j = choose|j: int| 0 <= j < updated.len() && updated[j].0@ == name;
        lemma_entries_map_value(updated, j);
        if j != i {
            lemma_entries_map_value(entries, j);
        }
    }
    assert(left =~= right);
}

/// The properties of one feature: a map from property names to values.
pub struct PropertyMap {
    entries: Vec<(String, ColumnValueClonable)>,
}

impl View for PropertyMap {
    type V = Map<Seq<char>, PropertyValue>;

    closed spec fn view(&self) -> Map<Seq<char>, PropertyValue> {
        entries_map(self.entries@)
    }
}

impl PropertyMap {
    #[verifier::type_invariant]
    spec fn names_are_distinct(self) -> bool {
        distinct_names(self.entries@)
    }

    pub fn new() -> (map: PropertyMap)
        ensures
            map@ == Map::<Seq<char>, PropertyValue>::empty(),
    {
        PropertyMap { entries: Vec::new() }
    }

    /// The number of named properties.
    pub fn len(&self) -> (n: usize)
        ensures
            n == self@.len(),
    {
        proof {
            use_type_invariant(self);
            self.lemma_len();
        }
        self.entries.len()
    }

    proof fn lemma_len(&self)
        requires
            distinct_names(self.entries@),
        ensures
            self@.len() == self.entries@.len(),
            self@.dom().finite(),
    {
        let entries = self.entries@;
        let keys = entries.map_values(|e: (String, ColumnValueClonable)| e.0@);
        assert forall|name: Seq<char>| self@.dom().contains(name) <==> keys.to_set().contains(name) by {
            lemma_entries_map_domain(entries, name);
            if self@.dom().contains(name) {
                let i = choose|i: int| 0 <= i < entries.len() && entries[i].0@ == name;
                assert(keys[i] == name);
            }
            if keys.to_set().contains(name) {
                let i = choose|i: int| 0 <= i < keys.len() && keys[i] == name;
                assert(entries[i].0@ == name);
            }
        }
        assert(self@.dom() =~= keys.to_set());
        assert(keys.no_duplicates());
        keys.unique_seq_to_set();
    }

    /// A property map has finitely many names.
    proof fn lemma_finite(&self)
        ensures
            self@.dom().finite(),
    {
        let entries = self.entries@;
        let keys = entries.map_values(|e: (String, ColumnValueClonable)| e.0@);
        assert forall|name: Seq<char>| self@.dom().contains(name) <==> keys.to_set().contains(name) by {
            lemma_entries_map_domain(entries, name);
            if self@.dom().contains(name) {
                let i = choose|i: int| 0 <= i < entries.len() && entries[i].0@ == name;
                assert(keys[i] == name);
            }
            if keys.to_set().contains(name) {
                let i = choose|i: int| 0 <= i < keys.len() && keys[i] == name;
                assert(entries[i].0@ == name);
            }
        }
        assert(self@.dom() =~= keys.to_set());
    }

    /// The position of the entry named `name`, if there is one.
    fn position(&self, name: &str) -> (index: Option<usize>)
        ensures
            match index {
                Some(i) => i < self.entries@.len() && self.entries@[i as int].0@ == name@,
                None => forall|i: int|
                    0 <= i < self.entries@.len() ==> self.entries@[i].0@ != name@,
            },
    {
        let mut i: usize = 0;
        while i < self.entries.len()
            invariant
                i <= self.entries@.len(),
                forall|j: int| 0 <= j < i ==> self.entries@[j].0@ != name@,
            decreases self.entries@.len() - i,
        {
            if str_eq(self.entries[i].0.as_str(), name) {
                return Some(i);
            }
            i = i + 1;
        }
        None
    }

    pub fn contains_key(&self, name: &str) -> (found: bool)
        ensures
            found == self@.contains_key(name@),
    {
        proof {
            lemma_entries_map_domain(self.entries@, name@);
        }
        match self.position(name) {
            Some(_) => true,
            None => false,
        }
    }

    pub fn get(&self, name: &str) -> (value: Option<&ColumnValueClonable>)
        ensures
            match value {
                Some(v) => self@.contains_key(name@) && v@ == self@[name@],
                None => !self@.contains_key(name@),
            },
    {
        proof {
            use_type_invariant(self);
            lemma_entries_map_domain(self.entries@, name@);
        }
        match self.position(name) {
            Some(i) => {
                proof {
                    lemma_entries_map_value(self.entries@, i as int);
                }
                Some(&self.entries[i].1)
            },
            None => None,
        }
    }

    /// Sets the value of a property, replacing any earlier value of the same
    /// name, which is returned.
    pub fn insert(&mut self, name: String, value: ColumnValueClonable) -> (previous: Option<
        ColumnValueClonable,
    >)
        ensures
            final(self)@ == old(self)@.insert(name@, value@),
            match previous {
                Some(v) => old(self)@.contains_key(name@) && v@ == old(self)@[name@],
                None => !old(self)@.contains_key(name@),
            },
    {
        proof {
            use_type_invariant(&*self);
            lemma_entries_map_domain(self.entries@, name@);
        }
        match self.position(name.as_str()) {
            Some(i) => {
                proof {
                    lemma_entries_map_value(self.entries@, i as int);
                    lemma_entries_map_update(self.entries@, i as int, (name, value));
                }
                let ghost before = self.entries@;
                let mut entries: Vec<(String, ColumnValueClonable)> = Vec::new();
                std::mem::swap(&mut entries, &mut self.entries);
                let old_entry = entries.remove(i);
                entries.insert(i, (name, value));
                proof {
                    assert(entries@ =~= before.update(i as int, (name, value)));
                }
                self.entries = entries;
                Some(old_entry.1)
            },
            None => {
                let ghost before = self.entries@;
                let mut entries: Vec<(String, ColumnValueClonable)> = Vec::new();
                std::mem::swap(&mut entries, &mut self.entries);
                entries.push((name, value));
                proof {
                    assert(entries@.drop_last() =~= before);
                }
                self.entries = entries;
                None
            },
        }
    }
}

/// Reading back what `insert` wrote.  When `insert(name, value)` turns
/// `before` into `after` and a second `insert(name, later)` turns `after`
/// into `last`: reading `name` from `after` gives `value`, the second write
/// wins, every other name reads in `after` as it did in `before`, and the
/// map grew by one exactly when `name` was new.
pub proof fn law_property_read_after_write(
    before: PropertyMap,
    after: PropertyMap,
    last: PropertyMap,
    name: Seq<char>,
    value: ColumnValueClonable,
    later: ColumnValueClonable,
    other: Seq<char>,
)
    requires
        after@ == before@.insert(name, value@),
        last@ == after@.insert(name, later@),
        other != name,
    ensures
        after@.contains_key(name),
        after@[name] == value@,
        last@[name] == later@,
        after@.contains_key(other) == before@.contains_key(other),
        before@.contains_key(other) ==> after@[other] == before@[other],
        after@.len() == if before@.contains_key(name) {
            before@.len()
        } else {
            before@.len() + 1
        },
{
    before.lemma_finite();
    assert(after@.dom() =~= before@.dom().insert(name));
}

} // verus!
