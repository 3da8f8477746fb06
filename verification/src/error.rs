//! The errors of the library.
use crate::schema::Field;
use crate::text::join;
use vstd::prelude::*;

verus! {

/// What keeps a document from being a manifest.
#[derive(Clone, Debug, PartialEq, Eq)]
pub enum SchemaError {
    /// The document is not a table.
    NotATable,
    /// The key of the entry at this position is not a text.
    KeyNotText(usize),
    /// An entry has this key, which is the key of no field.
    UnknownField(String),
    /// A second entry has the key of this field. A document that was read from
    /// text has no such entry: both readers keep one entry for each key.
    DuplicateField(Field),
    /// The value of this field is not of the field's kind.
    IllTyped(Field),
    /// This field is required and has no value.
    MissingField(Field),
    /// The branch identifier is empty.
    EmptyRef,
}

/// Model of a `SchemaError`.
pub enum SchemaFault {
    NotATable,
    KeyNotText(int),
    UnknownField(Seq<char>),
    DuplicateField(Field),
    IllTyped(Field),
    MissingField(Field),
    EmptyRef,
}

impl View for SchemaError {
    type V = SchemaFault;

    open spec fn view(&self) -> SchemaFault {
        match self {
            SchemaError::NotATable => SchemaFault::NotATable,
            SchemaError::KeyNotText(i) => SchemaFault::KeyNotText(*i as int),
            SchemaError::UnknownField(name) => SchemaFault::UnknownField(name@),
            SchemaError::DuplicateField(f) => SchemaFault::DuplicateField(*f),
            SchemaError::IllTyped(f) => SchemaFault::IllTyped(*f),
            SchemaError::MissingField(f) => SchemaFault::MissingField(*f),
            SchemaError::EmptyRef => SchemaFault::EmptyRef,
        }
    }
}

impl SchemaFault {
    /// The diagnostic of the fault.
    pub open spec fn spec_message(self) -> Seq<char> {
        match self {
            SchemaFault::NotATable => "manifest is not a mapping"@,
            SchemaFault::KeyNotText(_) => "manifest has a key that is not a string"@,
            SchemaFault::UnknownField(name) => "unknown field: "@ + name,
            SchemaFault::DuplicateField(f) => "duplicate field: "@ + f.spec_name(),
            SchemaFault::IllTyped(f) => "invalid type for field: "@ + f.spec_name(),
            SchemaFault::MissingField(f) => "missing field: "@ + f.spec_name(),
            SchemaFault::EmptyRef => "ref is empty"@,
        }
    }
}

impl SchemaError {
    /// The diagnostic of the error.
    pub fn message(&self) -> (s: String)
        ensures
            s@ == self@.spec_message(),
    {
        match self {
            SchemaError::NotATable => "manifest is not a mapping".to_owned(),
            SchemaError::KeyNotText(_) => "manifest has a key that is not a string".to_owned(),
            SchemaError::UnknownField(name) => join("unknown field: ", name.as_str()),
            SchemaError::DuplicateField(f) => join("duplicate field: ", f.name()),
            SchemaError::IllTyped(f) => join("invalid type for field: ", f.name()),
            SchemaError::MissingField(f) => join("missing field: ", f.name()),
            SchemaError::EmptyRef => "ref is empty".to_owned(),
        }
    }
}

/// Why the driver fails.
#[derive(Clone, Debug, PartialEq, Eq)]
pub enum DriverError {
    /// No argument looks like the path of a manifest.
    NoManifest,
    /// An operation on the file system failed, with this message.
    Io(String),
    /// The manifest is not a document of its dialect; the parser's message.
    ParseError(String),
    /// The manifest is a document, but not one that the schema admits.
    SchemaError(SchemaError),
    /// The manifest asks for what its dialect does not support.
    Unsupported(String),
    /// The composer could not be started, with this message.
    SpawnError(String),
    /// The composer ran and reported failure, with this status.
    ComposerFailed { status: String },
}

/// Model of a `DriverError`.
pub enum DriverFault {
    NoManifest,
    Io(Seq<char>),
    ParseError(Seq<char>),
    SchemaError(SchemaFault),
    Unsupported(Seq<char>),
    SpawnError(Seq<char>),
    ComposerFailed { status: Seq<char> },
}

impl View for DriverError {
    type V = DriverFault;

    open spec fn view(&self) -> DriverFault {
        match self {
            DriverError::NoManifest => DriverFault::NoManifest,
            DriverError::Io(m) => DriverFault::Io(m@),
            DriverError::ParseError(m) => DriverFault::ParseError(m@),
            DriverError::SchemaError(e) => DriverFault::SchemaError(e@),
            DriverError::Unsupported(what) => DriverFault::Unsupported(what@),
            DriverError::SpawnError(m) => DriverFault::SpawnError(m@),
            DriverError::ComposerFailed { status } => DriverFault::ComposerFailed {
                status: status@,
            },
        }
    }
}

impl DriverFault {
    /// The one line that the driver prints for the failure.
    pub open spec fn spec_message(self) -> Seq<char> {
        match self {
            DriverFault::NoManifest => "no manifest in arguments, expected *.yaml or *.json"@,
            DriverFault::Io(m) => m,
            DriverFault::ParseError(m) => m,
            DriverFault::SchemaError(e) => e.spec_message(),
            DriverFault::Unsupported(what) => "not supported: "@ + what,
            DriverFault::SpawnError(m) => m,
            DriverFault::ComposerFailed { status } => "rpm-ostree compose tree failed: "@ + status,
        }
    }
}

impl DriverError {
    /// The one line that the driver prints for the failure.
    pub fn message(&self) -> (s: String)
        ensures
            s@ == self@.spec_message(),
    {
        match self {
            DriverError::NoManifest => {
                "no manifest in arguments, expected *.yaml or *.json".to_owned()
            },
            DriverError::Io(m) => m.clone(),
            DriverError::ParseError(m) => m.clone(),
            DriverError::SchemaError(e) => e.message(),
            DriverError::Unsupported(what) => join("not supported: ", what.as_str()),
            DriverError::SpawnError(m) => m.clone(),
            DriverError::ComposerFailed { status } => join(
                "rpm-ostree compose tree failed: ",
                status.as_str(),
            ),
        }
    }
}

} // verus!
