//! The commands, each as a step from the database that was read to what is
//! to be written or shown. Reading and writing the file is the caller's part.

use vstd::prelude::*;
use crate::args::{
    AddSchema, Commands, CreateDB, DeleteData, DeleteSchema, GetData, GetSchema, InsertData,
    UpdateData,
};
use crate::data::{Data, DataView};
use crate::database::{Database, DatabaseView};
use crate::error::{CommandError, CommandErrorView};
use crate::literal::{decode, decoded};
use crate::schema::{DataSchema, SchemaView};

verus! {

/// What inserting the literal `literal` under `key` in the schema under
/// `schema_key` makes of `db`. A missing schema is told before anything is
/// decoded.
pub open spec fn inserted(
    db: DatabaseView,
    schema_key: Seq<char>,
    key: Seq<char>,
    literal: Seq<char>,
    float: Option<u32>,
) -> Result<DatabaseView, CommandErrorView> {
    if !db.index.contains_key(schema_key) {
        Err(CommandErrorView::MissingSchema(schema_key))
    } else {
        match decoded(literal, float) {
            Ok(value) => Ok(
                db.with_schema(schema_key, db.index[schema_key].with_data(key, value)),
            ),
            Err(e) => Err(CommandErrorView::Decode(e)),
        }
    }
}

/// What stands under `key` in the schema under `schema_key` of `db`.
pub open spec fn looked_up(db: DatabaseView, schema_key: Seq<char>, key: Seq<char>) -> Result<
    Option<DataView>,
    CommandErrorView,
> {
    if !db.index.contains_key(schema_key) {
        Err(CommandErrorView::MissingSchema(schema_key))
    } else if db.index[schema_key].data.contains_key(key) {
        Ok(Some(db.index[schema_key].data[key]))
    } else {
        Ok(None)
    }
}

/// What removing the field under `key` from the schema under `schema_key`
/// makes of `db`.
pub open spec fn deleted(db: DatabaseView, schema_key: Seq<char>, key: Seq<char>) -> Result<
    DatabaseView,
    CommandErrorView,
> {
    if !db.index.contains_key(schema_key) {
        Err(CommandErrorView::MissingSchema(schema_key))
    } else {
        Ok(db.with_schema(schema_key, db.index[schema_key].without_data(key)))
    }
}

/// A command's new database, or its failure, as contracts see it.
pub open spec fn stored_view(r: Result<Database, CommandError>) -> Result<
    DatabaseView,
    CommandErrorView,
> {
    match r {
        Ok(db) => Ok(db@),
        Err(e) => Err(e@),
    }
}

/// A looked-up value, or the failure, as contracts see it.
pub open spec fn value_view(r: Result<Option<&Data>, CommandError>) -> Result<
    Option<DataView>,
    CommandErrorView,
> {
    match r {
        Ok(Some(value)) => Ok(Some(value@)),
        Ok(None) => Ok(None),
        Err(e) => Err(e@),
    }
}

/// What a command leaves to be done with its result.
#[derive(Debug)]
pub enum Outcome {
    /// The database, to be written back to its file.
    Store(Database),
    /// The schema that was asked for, where there is one, to be shown.
    Schema(Option<DataSchema>),
    /// The value that was asked for, where there is one, to be shown.
    Value(Option<Data>),
}

/// An outcome as contracts see it.
pub enum OutcomeView {
    Store(DatabaseView),
    Schema(Option<SchemaView>),
    Value(Option<DataView>),
}

impl View for Outcome {
    type V = OutcomeView;

    open spec fn view(&self) -> OutcomeView {
        match self {
            Outcome::Store(db) => OutcomeView::Store(db@),
            Outcome::Schema(Some(schema)) => OutcomeView::Schema(Some(schema@)),
            Outcome::Schema(None) => OutcomeView::Schema(None),
            Outcome::Value(Some(value)) => OutcomeView::Value(Some(value@)),
            Outcome::Value(None) => OutcomeView::Value(None),
        }
    }
}

/// What a command comes to, as contracts see it.
pub open spec fn outcome_view(r: Result<Outcome, CommandError>) -> Result<
    OutcomeView,
    CommandErrorView,
> {
    match r {
        Ok(outcome) => Ok(outcome@),
        Err(e) => Err(e@),
    }
}

/// A new database is to be stored, a failure stays the failure it is.
pub open spec fn to_store(r: Result<DatabaseView, CommandErrorView>) -> Result<
    OutcomeView,
    CommandErrorView,
> {
    match r {
        Ok(db) => Ok(OutcomeView::Store(db)),
        Err(e) => Err(e),
    }
}

/// A value that was looked up is to be shown, a failure stays the failure it is.
pub open spec fn to_show(r: Result<Option<DataView>, CommandErrorView>) -> Result<
    OutcomeView,
    CommandErrorView,
> {
    match r {
        Ok(value) => Ok(OutcomeView::Value(value)),
        Err(e) => Err(e),
    }
}

/// The schema under `key`, where `db` has one.
pub open spec fn schema_at(db: DatabaseView, key: Seq<char>) -> Option<SchemaView> {
    if db.index.contains_key(key) {
        Some(db.index[key])
    } else {
        None
    }
}

/// An empty database tied to the file at `args.path`.
pub fn create_db(args: CreateDB) -> (db: Database)
    ensures
        db@ == DatabaseView::empty(args.path@),
{
    Database::open(args.path.as_str())
}

/// `db` with a schema without fields under `args.key`, in the place of what
/// stood there. The schema's identifier is a fresh one.
pub fn add_schema_to_database(args: AddSchema, db: Database) -> (out: Database)
    ensures
        out@.index.contains_key(args.key@),
        out@.index[args.key@].id != 0,
        out@ == db@.with_schema(args.key@, SchemaView::empty(out@.index[args.key@].id)),
{
    let mut db = db;
    let schema = DataSchema::new();
    assert(schema@ =~= SchemaView::empty(schema@.id));
    db.add_schema_to_database(args.key, schema);
    db
}

/// `db` without the schema under `args.key`; as it is, where it has none there.
pub fn remove_schema_from_database(args: DeleteSchema, db: Database) -> (out: Database)
    ensures
        out@ == db@.without_schema(args.key@),
{
    let mut db = db;
    let _ = db.remove_schema_from_database(args.key);
    db
}

/// The schema under `args.key`, where `db` has one.
pub fn get_schema<'a>(args: GetSchema, db: &'a Database) -> (found: Option<&'a DataSchema>)
    ensures
        found is Some == db@.index.contains_key(args.key@),
        found matches Some(schema) ==> schema@ == db@.index[args.key@],
{
    db.get_schema(args.key)
}

/// Decodes the literal `value` and puts what it spells under `key` in the
/// schema under `schema_key`.
fn insert_literal(
    db: Database,
    schema_key: String,
    key: String,
    value: String,
    float: Option<u32>,
) -> (r: Result<Database, CommandError>)
    ensures
        stored_view(r) == inserted(db@, schema_key@, key@, value@, float),
{
    let mut db = db;
    let ghost before = db@;
    match db.remove_schema_from_database(schema_key.clone()) {
        None => Err(CommandError::MissingSchema(schema_key)),
        Some((name, schema)) => match decode(value.as_str(), float) {
            Err(e) => Err(CommandError::Decode(e)),
            Ok(data) => {
                let mut schema = schema;
                schema.add_data_to_schema(key, data);
                db.add_schema_to_database(name, schema);
                assert(db@ =~= before.with_schema(
                    schema_key@,
                    before.index[schema_key@].with_data(key@, data@),
                ));
                Ok(db)
            },
        },
    }
}

/// `db` with the value that the literal `args.value` spells under `args.key`
/// in the schema under `args.schema_key`, in the place of what stood there.
/// `float` is what the literal's payload reads as when taken for a 32-bit
/// float, as a bit pattern, and `None` where it does not read as one.
pub fn add_data_to_schema(args: InsertData, db: Database, float: Option<u32>) -> (r: Result<
    Database,
    CommandError,
>)
    ensures
        stored_view(r) == inserted(db@, args.schema_key@, args.key@, args.value@, float),
{
    insert_literal(db, args.schema_key, args.key, args.value, float)
}

/// The value under `args.key` in the schema under `args.schema_key`, where
/// there is one.
pub fn get_data_from_schema<'a>(args: GetData, db: &'a Database) -> (r: Result<
    Option<&'a Data>,
    CommandError,
>)
    ensures
        value_view(r) == looked_up(db@, args.schema_key@, args.key@),
{
    match db.get_schema(args.schema_key.clone()) {
        None => Err(CommandError::MissingSchema(args.schema_key)),
        Some(schema) => Ok(schema.get_data_from_schema(args.key)),
    }
}

/// `db` without the field under `args.key` in the schema under
/// `args.schema_key`; as it is, where the schema has no such field.
pub fn remove_data_from_schema(args: DeleteData, db: Database) -> (r: Result<
    Database,
    CommandError,
>)
    ensures
        stored_view(r) == deleted(db@, args.schema_key@, args.key@),
{
    let mut db = db;
    let ghost before = db@;
    match db.remove_schema_from_database(args.schema_key.clone()) {
        None => Err(CommandError::MissingSchema(args.schema_key)),
        Some((name, schema)) => {
            let mut schema = schema;
            let _ = schema.remove_data_from_schema(args.key);
            db.add_schema_to_database(name, schema);
            assert(db@ =~= before.with_schema(
                args.schema_key@,
                before.index[args.schema_key@].without_data(args.key@),
            ));
            Ok(db)
        },
    }
}

/// The same as `add_data_to_schema`: a value is put in the place of what stood there.
pub fn update_data(args: UpdateData, db: Database, float: Option<u32>) -> (r: Result<
    Database,
    CommandError,
>)
    ensures
        stored_view(r) == inserted(db@, args.schema_key@, args.key@, args.value@, float),
{
    insert_literal(db, args.schema_key, args.key, args.value, float)
}

/// Carries out `command` on `db`, the database as it was read from the
/// command's file, and says what is to be done with the result. `CreateDB`
/// does not look at `db`. `float` is what the payload of the command's
/// literal reads as when taken for a 32-bit float, as a bit pattern, and
/// `None` where it does not read as one or the command has no literal.
///
/// The two queries, `GetSchema` and `GetData`, never hand back a database to
/// be stored: what the file holds stays what it was.
pub fn run(command: Commands, db: Database, float: Option<u32>) -> (r: Result<
    Outcome,
    CommandError,
>)
    ensures
        match command {
            Commands::CreateDB(args) => outcome_view(r) == Ok::<OutcomeView, CommandErrorView>(
                OutcomeView::Store(DatabaseView::empty(args.path@)),
            ),
            Commands::AddSchema(args) => r matches Ok(Outcome::Store(out))
                && out@.index.contains_key(args.key@) && out@.index[args.key@].id != 0 && out@
                == db@.with_schema(args.key@, SchemaView::empty(out@.index[args.key@].id)),
            Commands::RemoveSchema(args) => outcome_view(r) == Ok::<OutcomeView, CommandErrorView>(
                OutcomeView::Store(db@.without_schema(args.key@)),
            ),
            Commands::GetSchema(args) => outcome_view(r) == Ok::<OutcomeView, CommandErrorView>(
                OutcomeView::Schema(schema_at(db@, args.key@)),
            ),
            Commands::GetData(args) => outcome_view(r) == to_show(
                looked_up(db@, args.schema_key@, args.key@),
            ),
            Commands::DeleteData(args) => outcome_view(r) == to_store(
                deleted(db@, args.schema_key@, args.key@),
            ),
            Commands::InsertData(args) => outcome_view(r) == to_store(
                inserted(db@, args.schema_key@, args.key@, args.value@, float),
            ),
            Commands::UpdateData(args) => outcome_view(r) == to_store(
                inserted(db@, args.schema_key@, args.key@, args.value@, float),
            ),
        },
        (command is GetSchema || command is GetData) ==> !(r matches Ok(Outcome::Store(_))),
{
    match command {
        Commands::CreateDB(args) => Ok(Outcome::Store(create_db(args))),
        Commands::AddSchema(args) => Ok(Outcome::Store(add_schema_to_database(args, db))),
        Commands::RemoveSchema(args) => Ok(Outcome::Store(remove_schema_from_database(args, db))),
        Commands::GetSchema(args) => {
            let mut db = db;
            match db.remove_schema_from_database(args.key) {
                Some((_, schema)) => Ok(Outcome::Schema(Some(schema))),
                None => Ok(Outcome::Schema(None)),
            }
        },
        Commands::GetData(args) => {
            let mut db = db;
            match db.remove_schema_from_database(args.schema_key.clone()) {
                None => Err(CommandError::MissingSchema(args.schema_key)),
                Some((_, schema)) => {
                    let mut schema = schema;
                    match schema.remove_data_from_schema(args.key) {
                        Some((_, value)) => Ok(Outcome::Value(Some(value))),
                        None => Ok(Outcome::Value(None)),
                    }
                },
            }
        },
        Commands::DeleteData(args) => match remove_data_from_schema(args, db) {
            Ok(out) => Ok(Outcome::Store(out)),
            Err(e) => Err(e),
        },
        Commands::InsertData(args) => match add_data_to_schema(args, db, float) {
            Ok(out) => Ok(Outcome::Store(out)),
            Err(e) => Err(e),
        },
        Commands::UpdateData(args) => match update_data(args, db, float) {
            Ok(out) => Ok(Outcome::Store(out)),
            Err(e) => Err(e),
        },
    }
}

} // verus!
