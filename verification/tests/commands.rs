use bibi_db::args::{
    AddSchema, Cli, Commands, CreateDB, CreateSchema, DeleteData, DeleteSchema, GetData,
    GetSchema, InsertData, UpdateData,
};
use bibi_db::commands::{
    add_data_to_schema, add_schema_to_database, create_db, get_data_from_schema, get_schema,
    remove_data_from_schema, remove_schema_from_database, run, update_data, Outcome,
};
use bibi_db::error::{CommandError, DecodeError};
use bibi_db::{Data, DataSchema, Database};

fn path() -> String {
    "db.json".to_string()
}

fn insert(schema_key: &str, key: &str, value: &str) -> InsertData {
    InsertData {
        path: path(),
        schema_key: schema_key.to_string(),
        key: key.to_string(),
        value: value.to_string(),
    }
}

fn update(schema_key: &str, key: &str, value: &str) -> UpdateData {
    UpdateData {
        path: path(),
        schema_key: schema_key.to_string(),
        key: key.to_string(),
        value: value.to_string(),
    }
}

fn get(schema_key: &str, key: &str) -> GetData {
    GetData { path: path(), schema_key: schema_key.to_string(), key: key.to_string() }
}

fn delete(schema_key: &str, key: &str) -> DeleteData {
    DeleteData { path: path(), schema_key: schema_key.to_string(), key: key.to_string() }
}

/// A database with the schema `S` (identifier 1), empty, and nothing else.
fn db_with_s() -> Database {
    let mut db = Database::open("db.json");
    db.add_schema_to_database("S".to_string(), DataSchema::with_id(1));
    db
}

/// The whole of a database, for comparing.
fn listing(db: Database) -> (String, Vec<(String, DataSchema)>) {
    db.into_parts()
}

#[test]
fn create_db_makes_an_empty_database_at_the_path() {
    let db = create_db(CreateDB { path: "a/b.json".to_string() });
    assert!(db.is_empty());
    assert_eq!(db.path(), "a/b.json");
}

#[test]
fn add_schema_adds_an_empty_schema() {
    let db = create_db(CreateDB { path: path() });
    let db = add_schema_to_database(AddSchema { path: path(), key: "S".to_string() }, db);
    assert!(!db.is_empty());
    assert_eq!(db.keys(), vec!["S".to_string()]);
    let schema = db.get_schema("S".to_string()).unwrap();
    assert!(schema.keys().is_empty());
    assert_ne!(schema.id(), 0);
    assert_eq!(db.path(), "db.json");
}

#[test]
fn add_schema_replaces_a_schema_that_was_there() {
    let db = db_with_s();
    let db = add_data_to_schema(insert("S", "k", "Int(5)"), db, None).unwrap();
    let db = add_schema_to_database(AddSchema { path: path(), key: "S".to_string() }, db);
    assert_eq!(db.keys(), vec!["S".to_string()]);
    assert!(db.get_schema("S".to_string()).unwrap().keys().is_empty());
}

#[test]
fn remove_schema_removes_it_and_is_quiet_about_a_missing_one() {
    let db = db_with_s();
    let db = remove_schema_from_database(DeleteSchema { path: path(), key: "T".to_string() }, db);
    assert_eq!(db.keys(), vec!["S".to_string()]);
    let db = remove_schema_from_database(DeleteSchema { path: path(), key: "S".to_string() }, db);
    assert!(db.is_empty());
    assert_eq!(db.path(), "db.json");
}

#[test]
fn get_schema_finds_what_is_there() {
    let db = db_with_s();
    assert_eq!(
        get_schema(GetSchema { path: path(), key: "S".to_string() }, &db),
        Some(&DataSchema::with_id(1))
    );
    assert_eq!(get_schema(GetSchema { path: path(), key: "T".to_string() }, &db), None);
}

#[test]
fn insert_then_get_returns_the_integer() {
    let db = db_with_s();
    let db = add_data_to_schema(insert("S", "k", "Int(5)"), db, None).unwrap();
    assert_eq!(get_data_from_schema(get("S", "k"), &db), Ok(Some(&Data::Int(5))));
}

#[test]
fn insert_keeps_the_rest_of_the_database() {
    let mut db = db_with_s();
    db.add_schema_to_database("T".to_string(), DataSchema::with_id(2));
    let db = add_data_to_schema(insert("S", "a", "Text(x)"), db, None).unwrap();
    let db = add_data_to_schema(insert("S", "b", "Bool(true)"), db, None).unwrap();
    let mut s = DataSchema::with_id(1);
    s.add_data_to_schema("a".to_string(), Data::Text("x".to_string()));
    s.add_data_to_schema("b".to_string(), Data::Bool(true));
    assert_eq!(
        listing(db),
        (
            "db.json".to_string(),
            vec![("S".to_string(), s), ("T".to_string(), DataSchema::with_id(2))]
        )
    );
}

#[test]
fn insert_of_a_float_takes_the_bits_it_is_given() {
    let db = db_with_s();
    let bits = 2.5f32.to_bits();
    let db = add_data_to_schema(insert("S", "k", "Float(2.5)"), db, Some(bits)).unwrap();
    assert_eq!(get_data_from_schema(get("S", "k"), &db), Ok(Some(&Data::Float(bits))));
    let failed = add_data_to_schema(insert("S", "k", "Float(two)"), db, None);
    assert_eq!(failed.unwrap_err(), CommandError::Decode(DecodeError::NotAFloat));
}

#[test]
fn inserting_twice_leaves_the_latest_value_only() {
    let db = db_with_s();
    let db = add_data_to_schema(insert("S", "k", "Int(5)"), db, None).unwrap();
    let db = add_data_to_schema(insert("S", "k", "Text(six)"), db, None).unwrap();
    assert_eq!(
        get_data_from_schema(get("S", "k"), &db),
        Ok(Some(&Data::Text("six".to_string())))
    );
    assert_eq!(db.get_schema("S".to_string()).unwrap().keys(), vec!["k".to_string()]);

    let once = add_data_to_schema(insert("S", "k", "Text(six)"), db_with_s(), None).unwrap();
    assert_eq!(listing(db), listing(once));
}

#[test]
fn update_is_insert() {
    let db = update_data(update("S", "k", "Int(5)"), db_with_s(), None).unwrap();
    let other = add_data_to_schema(insert("S", "k", "Int(5)"), db_with_s(), None).unwrap();
    assert_eq!(listing(db), listing(other));

    let db = add_data_to_schema(insert("S", "k", "Int(5)"), db_with_s(), None).unwrap();
    let db = update_data(update("S", "k", "Bool(false)"), db, None).unwrap();
    assert_eq!(get_data_from_schema(get("S", "k"), &db), Ok(Some(&Data::Bool(false))));
    assert_eq!(
        update_data(update("T", "k", "Int(5)"), db, None).unwrap_err(),
        CommandError::MissingSchema("T".to_string())
    );
}

#[test]
fn delete_then_get_reports_absence() {
    let db = add_data_to_schema(insert("S", "k", "Int(5)"), db_with_s(), None).unwrap();
    let db = add_data_to_schema(insert("S", "m", "Int(6)"), db, None).unwrap();
    let db = remove_data_from_schema(delete("S", "k"), db).unwrap();
    assert_eq!(get_data_from_schema(get("S", "k"), &db), Ok(None));
    assert_eq!(get_data_from_schema(get("S", "m"), &db), Ok(Some(&Data::Int(6))));
}

#[test]
fn deleting_a_missing_key_changes_nothing() {
    let db = add_data_to_schema(insert("S", "m", "Int(6)"), db_with_s(), None).unwrap();
    let same = add_data_to_schema(insert("S", "m", "Int(6)"), db_with_s(), None).unwrap();
    let db = remove_data_from_schema(delete("S", "k"), db).unwrap();
    assert_eq!(listing(db), listing(same));
}

#[test]
fn a_missing_schema_is_named() {
    let expected = CommandError::MissingSchema("T".to_string());
    assert_eq!(
        add_data_to_schema(insert("T", "k", "Int(5)"), db_with_s(), None).unwrap_err(),
        expected
    );
    assert_eq!(get_data_from_schema(get("T", "k"), &db_with_s()), Err(expected.clone()));
    assert_eq!(remove_data_from_schema(delete("T", "k"), db_with_s()).unwrap_err(), expected);
    assert_eq!(expected.message(), "No schema under the key T");
}

#[test]
fn a_missing_schema_is_told_before_a_bad_literal() {
    assert_eq!(
        add_data_to_schema(insert("T", "k", "nonsense"), db_with_s(), None).unwrap_err(),
        CommandError::MissingSchema("T".to_string())
    );
}

#[test]
fn a_bad_literal_fails_the_insert() {
    let cases = [
        ("Bool(yes)", DecodeError::NotABool),
        ("Int(x)", DecodeError::NotAnInt),
        ("Float(x)", DecodeError::NotAFloat),
        ("x", DecodeError::InvalidType),
        ("Text(Interest)", DecodeError::NotAnInt),
    ];
    for (literal, error) in cases {
        let failed = add_data_to_schema(insert("S", "k", literal), db_with_s(), None);
        assert_eq!(failed.unwrap_err(), CommandError::Decode(error), "{literal}");
        assert_eq!(CommandError::Decode(error).message(), error.message());
    }
}

#[test]
fn queries_leave_the_database_as_it_was() {
    let db = add_data_to_schema(insert("S", "k", "Int(5)"), db_with_s(), None).unwrap();
    let same = add_data_to_schema(insert("S", "k", "Int(5)"), db_with_s(), None).unwrap();
    let _ = get_schema(GetSchema { path: path(), key: "S".to_string() }, &db);
    let _ = get_data_from_schema(get("S", "k"), &db);
    let _ = get_data_from_schema(get("T", "k"), &db);
    assert_eq!(listing(db), listing(same));
}

#[test]
fn run_hands_back_no_database_for_a_query() {
    let db = add_data_to_schema(insert("S", "k", "Int(5)"), db_with_s(), None).unwrap();
    let shown = run(Commands::GetSchema(GetSchema { path: path(), key: "S".to_string() }), db, None);
    let mut s = DataSchema::with_id(1);
    s.add_data_to_schema("k".to_string(), Data::Int(5));
    assert!(matches!(shown, Ok(Outcome::Schema(Some(ref schema))) if *schema == s));

    let shown = run(
        Commands::GetSchema(GetSchema { path: path(), key: "T".to_string() }),
        db_with_s(),
        None,
    );
    assert!(matches!(shown, Ok(Outcome::Schema(None))));

    let db = add_data_to_schema(insert("S", "k", "Int(5)"), db_with_s(), None).unwrap();
    let shown = run(Commands::GetData(get("S", "k")), db, None);
    assert!(matches!(shown, Ok(Outcome::Value(Some(Data::Int(5))))));
    let shown = run(Commands::GetData(get("S", "m")), db_with_s(), None);
    assert!(matches!(shown, Ok(Outcome::Value(None))));
    let shown = run(Commands::GetData(get("T", "k")), db_with_s(), None);
    assert!(matches!(shown, Err(CommandError::MissingSchema(ref key)) if key == "T"));
}

#[test]
fn run_hands_back_the_database_to_be_stored() {
    let made = run(Commands::CreateDB(CreateDB { path: "x".to_string() }), db_with_s(), None);
    match made {
        Ok(Outcome::Store(db)) => assert_eq!(listing(db), ("x".to_string(), vec![])),
        _ => panic!("no database to store"),
    }

    let added = run(
        Commands::AddSchema(AddSchema { path: path(), key: "T".to_string() }),
        db_with_s(),
        None,
    );
    match added {
        Ok(Outcome::Store(db)) => assert_eq!(db.keys(), vec!["S".to_string(), "T".to_string()]),
        _ => panic!("no database to store"),
    }

    let removed = run(
        Commands::RemoveSchema(DeleteSchema { path: path(), key: "S".to_string() }),
        db_with_s(),
        None,
    );
    match removed {
        Ok(Outcome::Store(db)) => assert!(db.is_empty()),
        _ => panic!("no database to store"),
    }

    let inserted = run(Commands::InsertData(insert("S", "k", "Float(1)")), db_with_s(), Some(9));
    let db = match inserted {
        Ok(Outcome::Store(db)) => db,
        _ => panic!("no database to store"),
    };
    assert_eq!(get_data_from_schema(get("S", "k"), &db), Ok(Some(&Data::Float(9))));

    let updated = run(Commands::UpdateData(update("S", "k", "Int(2)")), db, None);
    let db = match updated {
        Ok(Outcome::Store(db)) => db,
        _ => panic!("no database to store"),
    };
    assert_eq!(get_data_from_schema(get("S", "k"), &db), Ok(Some(&Data::Int(2))));

    let deleted = run(Commands::DeleteData(delete("S", "k")), db, None);
    let db = match deleted {
        Ok(Outcome::Store(db)) => db,
        _ => panic!("no database to store"),
    };
    assert_eq!(get_data_from_schema(get("S", "k"), &db), Ok(None));

    let failed = run(Commands::InsertData(insert("S", "k", "Int(x)")), db, None);
    assert!(matches!(failed, Err(CommandError::Decode(DecodeError::NotAnInt))));
    let failed = run(Commands::DeleteData(delete("T", "k")), db_with_s(), None);
    assert!(matches!(failed, Err(CommandError::MissingSchema(_))));
}

#[test]
fn a_command_line_keeps_its_command() {
    let command = Commands::CreateDB(CreateDB { path: path() });
    let cli = Cli::new(command.clone(), Some("f".to_string()), None);
    assert_eq!(cli.command, command);
    assert_eq!(cli.clone().into_command(), command);
    assert_eq!(CreateSchema { key: "S".to_string() }.key, "S");
}
