//! What can go wrong while storing and retrieving content.

use vstd::prelude::*;
use vstd::std_specs::convert::FromSpec;

verus! {

/// What a database reported when it could not do what it was asked. The text is the database's
/// own.
#[derive(Debug, PartialEq, Eq)]
pub enum DatabaseError {
    /// The key-value database failed.
    RocksDB(String),
    /// The metadata database failed.
    Sqlite(String),
    /// No connection to the metadata database was to be had.
    SqliteConnectionPool(String),
}

/// The error returned by every storage operation that can fail.
#[derive(Debug, PartialEq, Eq)]
pub enum PortalStorageError {
    /// The key-value database failed.
    RocksDB(String),
    /// The metadata database failed.
    Sqlite(String),
    /// No connection to the metadata database was to be had.
    SqliteConnectionPool(String),
    /// The file system failed.
    IOError(String),
    /// The metadata database returned no sum of the content sizes.
    SumError,
    /// Data did not have the size that it must have.
    DataSizeError { doing: String, expected: usize, actual: usize },
    /// A path is not valid Unicode.
    StringError { function_name: String, error: String },
    /// The content lies outside the radius and is not stored.
    OutsideDistanceError,
    /// The content's metadata could not be written.
    InsertError { content_id: Vec<u8> },
    /// The metadata of evicted content could not be removed.
    RemoveError { content_id: Vec<u8> },
}

/// A database's failure, for use in contracts.
pub enum DatabaseErrorView {
    RocksDB(Seq<char>),
    Sqlite(Seq<char>),
    SqliteConnectionPool(Seq<char>),
}

/// A storage error, for use in contracts.
#[verifier::ext_equal]
pub enum ErrorView {
    RocksDB(Seq<char>),
    Sqlite(Seq<char>),
    SqliteConnectionPool(Seq<char>),
    IOError(Seq<char>),
    SumError,
    DataSizeError { doing: Seq<char>, expected: nat, actual: nat },
    StringError { function_name: Seq<char>, error: Seq<char> },
    OutsideDistanceError,
    InsertError { content_id: Seq<u8> },
    RemoveError { content_id: Seq<u8> },
}

impl View for DatabaseError {
    type V = DatabaseErrorView;

    open spec fn view(&self) -> DatabaseErrorView {
        match *self {
            DatabaseError::RocksDB(text) => DatabaseErrorView::RocksDB(text@),
            DatabaseError::Sqlite(text) => DatabaseErrorView::Sqlite(text@),
            DatabaseError::SqliteConnectionPool(text) => DatabaseErrorView::SqliteConnectionPool(
                text@,
            ),
        }
    }
}

impl View for PortalStorageError {
    type V = ErrorView;

    open spec fn view(&self) -> ErrorView {
        match *self {
            PortalStorageError::RocksDB(text) => ErrorView::RocksDB(text@),
            PortalStorageError::Sqlite(text) => ErrorView::Sqlite(text@),
            PortalStorageError::SqliteConnectionPool(text) => ErrorView::SqliteConnectionPool(
                text@,
            ),
            PortalStorageError::IOError(text) => ErrorView::IOError(text@),
            PortalStorageError::SumError => ErrorView::SumError,
            PortalStorageError::DataSizeError { doing, expected, actual } =>
                ErrorView::DataSizeError {
                doing: doing@,
                expected: expected as nat,
                actual: actual as nat,
            },
            PortalStorageError::StringError { function_name, error } => ErrorView::StringError {
                function_name: function_name@,
                error: error@,
            },
            PortalStorageError::OutsideDistanceError => ErrorView::OutsideDistanceError,
            PortalStorageError::InsertError { content_id } => ErrorView::InsertError {
                content_id: content_id@,
            },
            PortalStorageError::RemoveError { content_id } => ErrorView::RemoveError {
                content_id: content_id@,
            },
        }
    }
}

/// The storage error that a database's failure becomes when it is passed on.
pub open spec fn passed_on(error: DatabaseErrorView) -> ErrorView {
    match error {
        DatabaseErrorView::RocksDB(text) => ErrorView::RocksDB(text),
        DatabaseErrorView::Sqlite(text) => ErrorView::Sqlite(text),
        DatabaseErrorView::SqliteConnectionPool(text) => ErrorView::SqliteConnectionPool(text),
    }
}

impl From<DatabaseError> for PortalStorageError {
    fn from(error: DatabaseError) -> (result: PortalStorageError) {
        match error {
            DatabaseError::RocksDB(text) => PortalStorageError::RocksDB(text),
            DatabaseError::Sqlite(text) => PortalStorageError::Sqlite(text),
            DatabaseError::SqliteConnectionPool(text) => PortalStorageError::SqliteConnectionPool(
                text,
            ),
        }
    }
}

impl vstd::std_specs::convert::FromSpecImpl<DatabaseError> for PortalStorageError {
    open spec fn obeys_from_spec() -> bool {
        true
    }

    open spec fn from_spec(error: DatabaseError) -> PortalStorageError {
        match error {
            DatabaseError::RocksDB(text) => PortalStorageError::RocksDB(text),
            DatabaseError::Sqlite(text) => PortalStorageError::Sqlite(text),
            DatabaseError::SqliteConnectionPool(text) => PortalStorageError::SqliteConnectionPool(
                text,
            ),
        }
    }
}

/// A failure that is passed on keeps its kind and its text.
pub proof fn law_passing_on_keeps_kind_and_text(error: DatabaseError)
    ensures
        ({
            let passed: PortalStorageError = FromSpec::from_spec(error);
            match error {
                DatabaseError::RocksDB(text) => {
                    &&& passed == PortalStorageError::RocksDB(text)
                    &&& passed_on(error@) == ErrorView::RocksDB(text@)
                },
                DatabaseError::Sqlite(text) => {
                    &&& passed == PortalStorageError::Sqlite(text)
                    &&& passed_on(error@) == ErrorView::Sqlite(text@)
                },
                DatabaseError::SqliteConnectionPool(text) => {
                    &&& passed == PortalStorageError::SqliteConnectionPool(text)
                    &&& passed_on(error@) == ErrorView::SqliteConnectionPool(text@)
                },
            }
        }),
{
}

/// What contracts say of an error is said of its own kind, texts, numbers and ids.
pub proof fn law_error_view_keeps_everything(error: PortalStorageError)
    ensures
        match error {
            PortalStorageError::RocksDB(text) => error@ == ErrorView::RocksDB(text@),
            PortalStorageError::Sqlite(text) => error@ == ErrorView::Sqlite(text@),
            PortalStorageError::SqliteConnectionPool(text) => error@
                == ErrorView::SqliteConnectionPool(text@),
            PortalStorageError::IOError(text) => error@ == ErrorView::IOError(text@),
            PortalStorageError::SumError => error@ == ErrorView::SumError,
            PortalStorageError::DataSizeError { doing, expected, actual } => {
                &&& error@ matches ErrorView::DataSizeError { doing: text, expected: e, actual: a }
                &&& text == doing@ && e == expected && a == actual
            },
            PortalStorageError::StringError { function_name, error: path } => {
                &&& error@ matches ErrorView::StringError { function_name: name, error: text }
                &&& name == function_name@ && text == path@
            },
            PortalStorageError::OutsideDistanceError => error@ == ErrorView::OutsideDistanceError,
            PortalStorageError::InsertError { content_id } => error@ == (ErrorView::InsertError {
                content_id: content_id@,
            }),
            PortalStorageError::RemoveError { content_id } => error@ == (ErrorView::RemoveError {
                content_id: content_id@,
            }),
        },
{
}

} // verus!
