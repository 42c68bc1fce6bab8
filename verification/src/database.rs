//! A database: the schemas of one file, each under its name.

use vstd::prelude::*;
use crate::schema::{DataSchema, SchemaView};
use crate::key::precedes;
use crate::sorted_map::{ascending, collected, SortedMap};

verus! {

/// The path of a file and the schemas kept in it, each under its own name.
#[derive(Debug)]
pub struct Database {
    path: String,
    index: SortedMap<DataSchema>,
}

/// A database as contracts see it.
#[verifier::ext_equal]
pub struct DatabaseView {
    pub path: Seq<char>,
    pub index: Map<Seq<char>, SchemaView>,
}

impl DatabaseView {
    /// A database without schemas.
    pub open spec fn empty(path: Seq<char>) -> DatabaseView {
        DatabaseView { path, index: Map::empty() }
    }

    /// The database with `schema` under `key`, whatever stood there.
    pub open spec fn with_schema(self, key: Seq<char>, schema: SchemaView) -> DatabaseView {
        DatabaseView { path: self.path, index: self.index.insert(key, schema) }
    }

    /// The database with nothing under `key`.
    pub open spec fn without_schema(self, key: Seq<char>) -> DatabaseView {
        DatabaseView { path: self.path, index: self.index.remove(key) }
    }

    /// The database has no schema.
    pub open spec fn is_empty(self) -> bool {
        forall|key: Seq<char>| !self.index.contains_key(key)
    }
}

/// The schemas of a database as contracts see them.
pub open spec fn schema_views(index: Map<Seq<char>, DataSchema>) -> Map<Seq<char>, SchemaView> {
    Map::new(|k: Seq<char>| index.contains_key(k), |k: Seq<char>| index[k]@)
}

impl View for Database {
    type V = DatabaseView;

    closed spec fn view(&self) -> DatabaseView {
        DatabaseView { path: self.path@, index: schema_views(self.index@) }
    }
}

impl Database {
    /// A database without schemas, tied to the file at `path`. The file itself
    /// is the caller's business: nothing is read or written here.
    pub fn open(path: &str) -> (db: Database)
        ensures
            db@ == DatabaseView::empty(path@),
    {
        let db = Database { path: path.to_owned(), index: SortedMap::new() };
        assert(db@ =~= DatabaseView::empty(path@));
        db
    }

    /// The database tied to the file at `path` that comes of putting
    /// `schemas` in one after another: of two schemas under one name the
    /// later one stays.
    pub fn from_parts(path: &str, schemas: Vec<(String, DataSchema)>) -> (db: Database)
        ensures
            db@ == (DatabaseView { path: path@, index: schema_views(collected(schemas@)) }),
    {
        let db = Database { path: path.to_owned(), index: SortedMap::from_entries(schemas) };
        assert(db@ =~= (DatabaseView { path: path@, index: schema_views(collected(schemas@)) }));
        db
    }

    /// The path, and the schemas in ascending order of their names. A
    /// database made of them again is this database.
    pub fn into_parts(self) -> (parts: (String, Vec<(String, DataSchema)>))
        ensures
            parts.0@ == self@.path,
            ascending(parts.1@),
            schema_views(collected(parts.1@)) == self@.index,
    {
        (self.path, self.index.into_entries())
    }

    /// The path of the file that the database is tied to.
    pub fn path(&self) -> (path: &str)
        ensures
            path@ == self@.path,
    {
        self.path.as_str()
    }

    /// Puts `schema` under `key`, in the place of what stood there.
    pub fn add_schema_to_database(&mut self, key: String, schema: DataSchema)
        ensures
            final(self)@ == old(self)@.with_schema(key@, schema@),
    {
        self.index.insert(key, schema);
        assert(self@ =~= old(self)@.with_schema(key@, schema@));
    }

    /// Takes the schema under `key` out and hands it back with its key;
    /// without such a schema the database stays as it is.
    pub fn remove_schema_from_database(&mut self, key: String) -> (removed: Option<
        (String, DataSchema),
    >)
        ensures
            removed is Some == old(self)@.index.contains_key(key@),
            removed matches Some(entry) ==> entry.0@ == key@ && entry.1@ == old(self)@.index[key@],
            final(self)@ == old(self)@.without_schema(key@),
    {
        let removed = self.index.remove_entry(key.as_str());
        assert(self@ =~= old(self)@.without_schema(key@));
        removed
    }

    /// Whether the database has no schema.
    pub fn is_empty(&self) -> (empty: bool)
        ensures
            empty == self@.is_empty(),
    {
        let empty = self.index.is_empty();
        proof {
            if empty {
                assert forall|key: Seq<char>| !self@.index.contains_key(key) by {
                    assert(!self.index@.contains_key(key));
                }
            } else {
                let key = choose|key: Seq<char>| self.index@.contains_key(key);
                assert(self@.index.contains_key(key));
            }
        }
        empty
    }

    /// Whether there is a schema under `key`.
    pub fn contains_schema(&self, key: String) -> (found: bool)
        ensures
            found == self@.index.contains_key(key@),
    {
        self.index.contains_key(key.as_str())
    }

    /// The schema under `key`, where there is one.
    pub fn get_schema(&self, key: String) -> (found: Option<&DataSchema>)
        ensures
            found is Some == self@.index.contains_key(key@),
            found matches Some(schema) ==> schema@ == self@.index[key@],
    {
        self.index.get(key.as_str())
    }

    /// The names of the schemas, each once, in ascending order.
    pub fn keys(&self) -> (out: Vec<String>)
        ensures
            forall|i: int, j: int|
                0 <= i < j < out@.len() ==> precedes(
                    #[trigger] out@[i]@,
                    #[trigger] out@[j]@,
                ),
            forall|k: Seq<char>|
                self@.index.contains_key(k) <==> exists|i: int|
                    0 <= i < out@.len() && #[trigger] out@[i]@ == k,
    {
        self.index.keys()
    }
}

} // verus!
