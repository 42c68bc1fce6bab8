//! The commands and what each of them is given.

use vstd::prelude::*;

verus! {

/// A command line: the command, and two optional words that no command reads.
#[derive(Debug, Clone, PartialEq, Eq)]
pub struct Cli {
    pub command: Commands,
    file_path: Option<String>,
    schema: Option<String>,
}

impl Cli {
    /// The command.
    pub closed spec fn command_view(self) -> Commands {
        self.command
    }

    /// The first optional word.
    pub closed spec fn file_path_view(self) -> Option<String> {
        self.file_path
    }

    /// The second optional word.
    pub closed spec fn schema_view(self) -> Option<String> {
        self.schema
    }

    /// A command line made of its three parts.
    pub fn new(command: Commands, file_path: Option<String>, schema: Option<String>) -> (cli: Cli)
        ensures
            cli.command_view() == command,
            cli.file_path_view() == file_path,
            cli.schema_view() == schema,
    {
        Cli { command, file_path, schema }
    }

    /// The command, the rest of the line dropped.
    pub fn into_command(self) -> (command: Commands)
        ensures
            command == self.command_view(),
    {
        self.command
    }
}

/// The commands, each with what it is given.
#[derive(Debug, Clone, PartialEq, Eq)]
pub enum Commands {
    CreateDB(CreateDB),
    AddSchema(AddSchema),
    RemoveSchema(DeleteSchema),
    GetSchema(GetSchema),
    GetData(GetData),
    DeleteData(DeleteData),
    InsertData(InsertData),
    UpdateData(UpdateData),
}

/// Make an empty database at `path`.
#[derive(Debug, Clone, PartialEq, Eq)]
pub struct CreateDB {
    pub path: String,
}

/// Add an empty schema under `key`.
#[derive(Debug, Clone, PartialEq, Eq)]
pub struct AddSchema {
    pub path: String,
    pub key: String,
}

/// Remove the schema under `key`.
#[derive(Debug, Clone, PartialEq, Eq)]
pub struct DeleteSchema {
    pub path: String,
    pub key: String,
}

/// Show the schema under `key`.
#[derive(Debug, Clone, PartialEq, Eq)]
pub struct GetSchema {
    pub path: String,
    pub key: String,
}

/// The name of a schema to be made.
#[derive(Debug, Clone, PartialEq, Eq)]
pub struct CreateSchema {
    pub key: String,
}

/// Show the value under `key` in the schema under `schema_key`.
#[derive(Debug, Clone, PartialEq, Eq)]
pub struct GetData {
    pub path: String,
    pub schema_key: String,
    pub key: String,
}

/// Remove the field under `key` from the schema under `schema_key`.
#[derive(Debug, Clone, PartialEq, Eq)]
pub struct DeleteData {
    pub path: String,
    pub schema_key: String,
    pub key: String,
}

/// Put the value that the literal `value` spells under `key` in the schema
/// under `schema_key`.
#[derive(Debug, Clone, PartialEq, Eq)]
pub struct InsertData {
    pub path: String,
    pub schema_key: String,
    pub key: String,
    pub value: String,
}

/// Put the value that the literal `value` spells under `key` in the schema
/// under `schema_key`, in the place of what stood there.
#[derive(Debug, Clone, PartialEq, Eq)]
pub struct UpdateData {
    pub path: String,
    pub schema_key: String,
    pub key: String,
    pub value: String,
}

} // verus!
