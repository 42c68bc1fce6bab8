//! A schema: a named collection of typed fields.

use vstd::prelude::*;
use crate::data::{Data, DataView};
use crate::key::precedes;
use crate::sorted_map::{ascending, collected, SortedMap};

verus! {

/// A collection of typed fields, each under its own key, and an identifier.
/// The identifier is given when the schema is made, and nothing looks a
/// schema up by it.
#[derive(Debug, PartialEq)]
pub struct DataSchema {
    id: u32,
    data: SortedMap<Data>,
}

/// A schema as contracts see it.
#[verifier::ext_equal]
pub struct SchemaView {
    pub id: u32,
    pub data: Map<Seq<char>, DataView>,
}

impl SchemaView {
    /// A schema without fields.
    pub open spec fn empty(id: u32) -> SchemaView {
        SchemaView { id, data: Map::empty() }
    }

    /// The schema with `value` under `key`, whatever stood there.
    pub open spec fn with_data(self, key: Seq<char>, value: DataView) -> SchemaView {
        SchemaView { id: self.id, data: self.data.insert(key, value) }
    }

    /// The schema with nothing under `key`.
    pub open spec fn without_data(self, key: Seq<char>) -> SchemaView {
        SchemaView { id: self.id, data: self.data.remove(key) }
    }
}

/// The fields of a schema as contracts see them.
pub open spec fn data_views(fields: Map<Seq<char>, Data>) -> Map<Seq<char>, DataView> {
    Map::new(|k: Seq<char>| fields.contains_key(k), |k: Seq<char>| fields[k]@)
}

impl View for DataSchema {
    type V = SchemaView;

    closed spec fn view(&self) -> SchemaView {
        SchemaView { id: self.id, data: data_views(self.data@) }
    }
}

/// `uid::IdU32::<u32>::new().get()`: the next number of a counter that the
/// process keeps. The counter starts at one and hands out no zero. Which
/// number comes depends on how many were drawn before, so nothing more is
/// claimed. Once the counter has run through all 32-bit numbers the call panics.
#[verifier::external_body]
fn fresh_id() -> (id: u32)
    ensures
        id != 0,
{
    uid::IdU32::<u32>::new().get()
}

impl DataSchema {
    /// A schema without fields, under a fresh identifier.
    pub fn new() -> (schema: DataSchema)
        ensures
            schema@.data == Map::<Seq<char>, DataView>::empty(),
            schema@.id != 0,
    {
        DataSchema::with_id(fresh_id())
    }

    /// A schema without fields, under the identifier `id`.
    pub fn with_id(id: u32) -> (schema: DataSchema)
        ensures
            schema@ == SchemaView::empty(id),
    {
        let schema = DataSchema { id, data: SortedMap::new() };
        assert(schema@ =~= SchemaView::empty(id));
        schema
    }

    /// The schema under the identifier `id` that comes of putting `fields` in
    /// one after another: of two fields under one key the later one stays.
    pub fn from_parts(id: u32, fields: Vec<(String, Data)>) -> (schema: DataSchema)
        ensures
            schema@ == (SchemaView { id, data: data_views(collected(fields@)) }),
    {
        let schema = DataSchema { id, data: SortedMap::from_entries(fields) };
        assert(schema@ =~= (SchemaView { id, data: data_views(collected(fields@)) }));
        schema
    }

    /// The identifier, and the fields in ascending key order. A schema made
    /// of them again is this schema.
    pub fn into_parts(self) -> (parts: (u32, Vec<(String, Data)>))
        ensures
            parts.0 == self@.id,
            ascending(parts.1@),
            data_views(collected(parts.1@)) == self@.data,
    {
        (self.id, self.data.into_entries())
    }

    /// The identifier.
    pub fn id(&self) -> (id: u32)
        ensures
            id == self@.id,
    {
        self.id
    }

    /// The value under `key`, where there is one.
    pub fn get_data_from_schema(&self, key: String) -> (found: Option<&Data>)
        ensures
            found is Some == self@.data.contains_key(key@),
            found matches Some(value) ==> value@ == self@.data[key@],
    {
        self.data.get(key.as_str())
    }

    /// Puts `value` under `key`, in the place of what stood there.
    pub fn add_data_to_schema(&mut self, key: String, value: Data)
        ensures
            final(self)@ == old(self)@.with_data(key@, value@),
    {
        self.data.insert(key, value);
        assert(self@ =~= old(self)@.with_data(key@, value@));
    }

    /// Takes the field under `key` out and hands it back with its key; without
    /// such a field the schema stays as it is.
    pub fn remove_data_from_schema(&mut self, key: String) -> (removed: Option<(String, Data)>)
        ensures
            removed is Some == old(self)@.data.contains_key(key@),
            removed matches Some(field) ==> field.0@ == key@ && field.1@ == old(self)@.data[key@],
            final(self)@ == old(self)@.without_data(key@),
    {
        let removed = self.data.remove_entry(key.as_str());
        assert(self@ =~= old(self)@.without_data(key@));
        removed
    }

    /// Puts `value` under `key`, in the place of what stood there.
    pub fn update_data_in_schema(&mut self, key: String, value: Data)
        ensures
            final(self)@ == old(self)@.with_data(key@, value@),
    {
        self.add_data_to_schema(key, value);
    }

    /// Whether there is a field under `key`.
    pub fn contains_data(&self, key: String) -> (found: bool)
        ensures
            found == self@.data.contains_key(key@),
    {
        self.data.contains_key(key.as_str())
    }

    /// The keys of the fields, each once, in ascending order.
    pub fn keys(&self) -> (out: Vec<String>)
        ensures
            forall|i: int, j: int|
                0 <= i < j < out@.len() ==> precedes(
                    #[trigger] out@[i]@,
                    #[trigger] out@[j]@,
                ),
            forall|k: Seq<char>|
                self@.data.contains_key(k) <==> exists|i: int|
                    0 <= i < out@.len() && #[trigger] out@[i]@ == k,
    {
        self.data.keys()
    }
}

impl Clone for DataSchema {
    /// A schema with the same identifier and the same fields.
    fn clone(&self) -> (copy: DataSchema)
        ensures
            copy@ == self@,
    {
        let copy = DataSchema { id: self.id, data: self.data.clone() };
        proof {
            assert forall|k: Seq<char>| self.data@.contains_key(k) implies copy.data@[k]@
                == self.data@[k]@ by {
                assert(cloned::<Data>(self.data@[k], copy.data@[k]));
            }
            assert(copy@.data =~= self@.data);
        }
        copy
    }
}

} // verus!
