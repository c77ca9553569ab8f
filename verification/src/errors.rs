use vstd::prelude::*;

verus! {

/// What kind of name occurs twice.
#[derive(Debug, Clone, Copy, PartialEq, Eq)]
pub enum NameKind {
    Table,
    Field,
}

/// Why no types could be generated.
#[derive(Debug, Clone, PartialEq, Eq)]
pub enum ConvexTypeGeneratorError {
    /// The schema file does not exist.
    MissingSchemaFile,
    /// The schema file holds nothing that could be read.
    EmptySchemaFile { file: String },
    /// The schema file exports no schema definition.
    MissingSchemaDefinition,
    /// A call inside a validator is none of the known ones.
    UnrecognizedValidator { path: String },
    /// The key of a record is of a kind that cannot be a key.
    InvalidRecordKey { found: String },
    /// A table or a field is declared twice.
    DuplicateName { kind: NameKind, name: String },
    /// The parser rejected a file.
    SyntaxError { file: String, position: usize, message: String },
    /// A file could not be read or written.
    IOError { file: String, error: String },
}

/// The mathematical value of a [`ConvexTypeGeneratorError`].
pub enum ErrorModel {
    MissingSchemaFile,
    EmptySchemaFile { file: Seq<char> },
    MissingSchemaDefinition,
    UnrecognizedValidator { path: Seq<char> },
    InvalidRecordKey { found: Seq<char> },
    DuplicateName { kind: NameKind, name: Seq<char> },
    SyntaxError { file: Seq<char>, position: int, message: Seq<char> },
    IOError { file: Seq<char>, error: Seq<char> },
}

impl View for ConvexTypeGeneratorError {
    type V = ErrorModel;

    open spec fn view(&self) -> ErrorModel {
        match self {
            ConvexTypeGeneratorError::MissingSchemaFile => ErrorModel::MissingSchemaFile,
            ConvexTypeGeneratorError::EmptySchemaFile { file } => ErrorModel::EmptySchemaFile {
                file: file@,
            },
            ConvexTypeGeneratorError::MissingSchemaDefinition => ErrorModel::MissingSchemaDefinition,
            ConvexTypeGeneratorError::UnrecognizedValidator { path } => {
                ErrorModel::UnrecognizedValidator { path: path@ }
            },
            ConvexTypeGeneratorError::InvalidRecordKey { found } => ErrorModel::InvalidRecordKey {
                found: found@,
            },
            ConvexTypeGeneratorError::DuplicateName { kind, name } => ErrorModel::DuplicateName {
                kind: *kind,
                name: name@,
            },
            ConvexTypeGeneratorError::SyntaxError { file, position, message } => {
                ErrorModel::SyntaxError { file: file@, position: *position as int, message: message@ }
            },
            ConvexTypeGeneratorError::IOError { file, error } => ErrorModel::IOError {
                file: file@,
                error: error@,
            },
        }
    }
}

} // verus!
