//! What the storage asks of its databases, and what they answer.
//!
//! Three databases stand behind the storage: the content database, which holds the content that
//! the radius governs; the accumulator database, which holds the master accumulator; and the
//! metadata database, a table with one row for each piece of content in the content database.

use vstd::prelude::*;

use crate::error::passed_on;
use crate::error::{DatabaseError, DatabaseErrorView, ErrorView, PortalStorageError};

verus! {

/// Creates the metadata table.
pub const CREATE_QUERY: &'static str = "create table if not exists content_metadata (
                                content_id_long TEXT PRIMARY KEY,
                                content_id_short INTEGER NOT NULL,
                                content_key TEXT NOT NULL,
                                content_size INTEGER
                            )";

/// Adds a row to the metadata table, in place of the one that it has for that content.
pub const INSERT_QUERY: &'static str =
    "INSERT OR REPLACE INTO content_metadata (content_id_long, content_id_short, content_key, content_size)
                            VALUES (?1, ?2, ?3, ?4)";

/// Removes the row of one piece of content.
pub const DELETE_QUERY: &'static str = "DELETE FROM content_metadata
                            WHERE content_id_long = (?1)";

/// Lists the content that is farthest as far as the first four bytes of the distance tell.
pub const XOR_FIND_FARTHEST_QUERY: &'static str = "SELECT
                                    content_id_long
                                    FROM content_metadata
                                    WHERE ((?1 | content_id_short) - (?1 & content_id_short)) = (
                                        SELECT MAX((?1 | content_id_short) - (?1 & content_id_short))
                                        FROM content_metadata
                                    )";

/// Adds up the recorded content sizes.
pub const TOTAL_DATA_SIZE_QUERY: &'static str = "SELECT SUM(content_size) FROM content_metadata";

/// One row of the metadata table.
#[derive(Debug, PartialEq, Eq)]
pub struct MetadataRow {
    /// The whole content id.
    pub content_id_long: Vec<u8>,
    /// The most significant four bytes of the content id, as a number.
    pub content_id_short: u32,
    /// The content key in hexadecimal.
    pub content_key: String,
    /// The number of bytes of the content.
    pub content_size: usize,
}

/// A row of the metadata table, for use in contracts.
#[verifier::ext_equal]
pub struct MetadataRowView {
    pub content_id_long: Seq<u8>,
    pub content_id_short: u32,
    pub content_key: Seq<char>,
    pub content_size: nat,
}

impl View for MetadataRow {
    type V = MetadataRowView;

    open spec fn view(&self) -> MetadataRowView {
        MetadataRowView {
            content_id_long: self.content_id_long@,
            content_id_short: self.content_id_short,
            content_key: self.content_key@,
            content_size: self.content_size as nat,
        }
    }
}

/// One call of a database.
#[derive(Debug, PartialEq, Eq)]
pub enum StorageRequest {
    /// Write a value into the content database, in place of what it holds under that id.
    PutContent { content_id: [u8; 32], value: Vec<u8> },
    /// Ask whether the content database holds something under that id.
    HasContent { content_id: [u8; 32] },
    /// Read a value from the content database.
    GetContent { content_id: [u8; 32] },
    /// Delete from the content database what it holds under that id.
    DeleteContent { content_id: [u8; 32] },
    /// Write a value into the accumulator database.
    PutAccumulator { content_id: [u8; 32], value: Vec<u8> },
    /// Read a value from the accumulator database.
    GetAccumulator { content_id: [u8; 32] },
    /// Run `INSERT_QUERY` with the row's fields.
    InsertMetadata { row: MetadataRow },
    /// Run `DELETE_QUERY` for that id.
    RemoveMetadata { content_id: [u8; 32] },
    /// Run `TOTAL_DATA_SIZE_QUERY`.
    TotalSize,
    /// Run `XOR_FIND_FARTHEST_QUERY` with that number and return all rows.
    FindFarthest { node_id_short: u32 },
}

/// What came of one call of a database.
#[derive(Debug, PartialEq, Eq)]
pub enum StorageReply {
    /// The answer to a request that changes a database.
    Written(Result<(), DatabaseError>),
    /// Whether the content database holds the content.
    Held(Result<bool, DatabaseError>),
    /// The value, if there is one.
    Bytes(Result<Option<Vec<u8>>, DatabaseError>),
    /// The sum that the query returned, if it returned a row.
    Total(Result<Option<u64>, DatabaseError>),
    /// The content ids that the query returned.
    Ids(Result<Vec<Vec<u8>>, DatabaseError>),
}

/// The kinds of answer.
#[derive(Clone, Copy, Debug, PartialEq, Eq, Structural)]
pub enum ReplyKind {
    Written,
    Held,
    Bytes,
    Total,
    Ids,
}

/// A database call, for use in contracts.
#[verifier::ext_equal]
pub enum RequestView {
    PutContent { content_id: Seq<u8>, value: Seq<u8> },
    HasContent { content_id: Seq<u8> },
    GetContent { content_id: Seq<u8> },
    DeleteContent { content_id: Seq<u8> },
    PutAccumulator { content_id: Seq<u8>, value: Seq<u8> },
    GetAccumulator { content_id: Seq<u8> },
    InsertMetadata { row: MetadataRowView },
    RemoveMetadata { content_id: Seq<u8> },
    TotalSize,
    FindFarthest { node_id_short: u32 },
}

/// A database's answer, for use in contracts.
#[verifier::ext_equal]
pub enum ReplyView {
    Written(Result<(), DatabaseErrorView>),
    Held(Result<bool, DatabaseErrorView>),
    Bytes(Result<Option<Seq<u8>>, DatabaseErrorView>),
    Total(Result<Option<u64>, DatabaseErrorView>),
    Ids(Result<Seq<Seq<u8>>, DatabaseErrorView>),
}

/// The content ids that a list of byte vectors holds.
pub open spec fn ids_view(ids: Vec<Vec<u8>>) -> Seq<Seq<u8>> {
    Seq::new(ids@.len(), |i: int| ids@[i]@)
}

impl View for StorageRequest {
    type V = RequestView;

    open spec fn view(&self) -> RequestView {
        match *self {
            StorageRequest::PutContent { content_id, value } => RequestView::PutContent {
                content_id: content_id@,
                value: value@,
            },
            StorageRequest::HasContent { content_id } => RequestView::HasContent {
                content_id: content_id@,
            },
            StorageRequest::GetContent { content_id } => RequestView::GetContent {
                content_id: content_id@,
            },
            StorageRequest::DeleteContent { content_id } => RequestView::DeleteContent {
                content_id: content_id@,
            },
            StorageRequest::PutAccumulator { content_id, value } => RequestView::PutAccumulator {
                content_id: content_id@,
                value: value@,
            },
            StorageRequest::GetAccumulator { content_id } => RequestView::GetAccumulator {
                content_id: content_id@,
            },
            StorageRequest::InsertMetadata { row } => RequestView::InsertMetadata { row: row@ },
            StorageRequest::RemoveMetadata { content_id } => RequestView::RemoveMetadata {
                content_id: content_id@,
            },
            StorageRequest::TotalSize => RequestView::TotalSize,
            StorageRequest::FindFarthest { node_id_short } => RequestView::FindFarthest {
                node_id_short,
            },
        }
    }
}

impl View for StorageReply {
    type V = ReplyView;

    open spec fn view(&self) -> ReplyView {
        match *self {
            StorageReply::Written(Ok(done)) => ReplyView::Written(Ok(done)),
            StorageReply::Written(Err(error)) => ReplyView::Written(Err(error@)),
            StorageReply::Held(Ok(held)) => ReplyView::Held(Ok(held)),
            StorageReply::Held(Err(error)) => ReplyView::Held(Err(error@)),
            StorageReply::Bytes(Ok(Some(bytes))) => ReplyView::Bytes(Ok(Some(bytes@))),
            StorageReply::Bytes(Ok(None)) => ReplyView::Bytes(Ok(None)),
            StorageReply::Bytes(Err(error)) => ReplyView::Bytes(Err(error@)),
            StorageReply::Total(Ok(total)) => ReplyView::Total(Ok(total)),
            StorageReply::Total(Err(error)) => ReplyView::Total(Err(error@)),
            StorageReply::Ids(Ok(ids)) => ReplyView::Ids(Ok(ids_view(ids))),
            StorageReply::Ids(Err(error)) => ReplyView::Ids(Err(error@)),
        }
    }
}

impl RequestView {
    /// The kind of answer that the call has.
    pub open spec fn reply_kind(self) -> ReplyKind {
        match self {
            RequestView::PutContent { .. } => ReplyKind::Written,
            RequestView::HasContent { .. } => ReplyKind::Held,
            RequestView::GetContent { .. } => ReplyKind::Bytes,
            RequestView::DeleteContent { .. } => ReplyKind::Written,
            RequestView::PutAccumulator { .. } => ReplyKind::Written,
            RequestView::GetAccumulator { .. } => ReplyKind::Bytes,
            RequestView::InsertMetadata { .. } => ReplyKind::Written,
            RequestView::RemoveMetadata { .. } => ReplyKind::Written,
            RequestView::TotalSize => ReplyKind::Total,
            RequestView::FindFarthest { .. } => ReplyKind::Ids,
        }
    }
}

impl ReplyView {
    /// The kind of answer that this is.
    pub open spec fn kind(self) -> ReplyKind {
        match self {
            ReplyView::Written(_) => ReplyKind::Written,
            ReplyView::Held(_) => ReplyKind::Held,
            ReplyView::Bytes(_) => ReplyKind::Bytes,
            ReplyView::Total(_) => ReplyKind::Total,
            ReplyView::Ids(_) => ReplyKind::Ids,
        }
    }
}

impl StorageRequest {
    /// Whether a reply is of the kind that answers this request.
    pub fn is_answered_by(&self, reply: &StorageReply) -> (answered: bool)
        ensures
            answered == (reply@.kind() == self@.reply_kind()),
            answered == match *self {
                StorageRequest::PutContent { .. } => reply is Written,
                StorageRequest::HasContent { .. } => reply is Held,
                StorageRequest::GetContent { .. } => reply is Bytes,
                StorageRequest::DeleteContent { .. } => reply is Written,
                StorageRequest::PutAccumulator { .. } => reply is Written,
                StorageRequest::GetAccumulator { .. } => reply is Bytes,
                StorageRequest::InsertMetadata { .. } => reply is Written,
                StorageRequest::RemoveMetadata { .. } => reply is Written,
                StorageRequest::TotalSize => reply is Total,
                StorageRequest::FindFarthest { .. } => reply is Ids,
            },
    {
        let expected = match self {
            StorageRequest::HasContent { .. } => ReplyKind::Held,
            StorageRequest::GetContent { .. } => ReplyKind::Bytes,
            StorageRequest::GetAccumulator { .. } => ReplyKind::Bytes,
            StorageRequest::FindFarthest { .. } => ReplyKind::Ids,
            StorageRequest::TotalSize => ReplyKind::Total,
            _ => ReplyKind::Written,
        };
        let kind = match reply {
            StorageReply::Written(_) => ReplyKind::Written,
            StorageReply::Held(_) => ReplyKind::Held,
            StorageReply::Bytes(_) => ReplyKind::Bytes,
            StorageReply::Total(_) => ReplyKind::Total,
            StorageReply::Ids(_) => ReplyKind::Ids,
        };
        kind == expected
    }

    /// The SQL statement that the request runs, for a request to the metadata database.
    pub fn statement(&self) -> (statement: Option<&'static str>)
        ensures
            statement == match self@ {
                RequestView::InsertMetadata { .. } => Some(INSERT_QUERY),
                RequestView::RemoveMetadata { .. } => Some(DELETE_QUERY),
                RequestView::TotalSize => Some(TOTAL_DATA_SIZE_QUERY),
                RequestView::FindFarthest { .. } => Some(XOR_FIND_FARTHEST_QUERY),
                _ => None,
            },
            self is InsertMetadata <==> statement == Some(INSERT_QUERY),
            self is RemoveMetadata <==> statement == Some(DELETE_QUERY),
            self is TotalSize <==> statement == Some(TOTAL_DATA_SIZE_QUERY),
            self is FindFarthest <==> statement == Some(XOR_FIND_FARTHEST_QUERY),
    {
        match self {
            StorageRequest::InsertMetadata { .. } => Some(INSERT_QUERY),
            StorageRequest::RemoveMetadata { .. } => Some(DELETE_QUERY),
            StorageRequest::TotalSize => Some(TOTAL_DATA_SIZE_QUERY),
            StorageRequest::FindFarthest { .. } => Some(XOR_FIND_FARTHEST_QUERY),
            _ => None,
        }
    }
}

impl ReplyView {
    /// What came of a call that changes a database; its failure is passed on.
    pub open spec fn written(self) -> Result<(), ErrorView> {
        match self {
            ReplyView::Written(Ok(done)) => Ok(done),
            ReplyView::Written(Err(error)) => Err(passed_on(error)),
            _ => arbitrary(),
        }
    }

    /// Whether the content is held; a failure is passed on.
    pub open spec fn held(self) -> Result<bool, ErrorView> {
        match self {
            ReplyView::Held(Ok(held)) => Ok(held),
            ReplyView::Held(Err(error)) => Err(passed_on(error)),
            _ => arbitrary(),
        }
    }

    /// The bytes that were read, if any; a failure is passed on.
    pub open spec fn bytes(self) -> Result<Option<Seq<u8>>, ErrorView> {
        match self {
            ReplyView::Bytes(Ok(bytes)) => Ok(bytes),
            ReplyView::Bytes(Err(error)) => Err(passed_on(error)),
            _ => arbitrary(),
        }
    }

    /// The sum that was read. A failure is passed on, and a missing row is an error of its own.
    pub open spec fn total(self) -> Result<u64, ErrorView> {
        match self {
            ReplyView::Total(Ok(Some(total))) => Ok(total),
            ReplyView::Total(Ok(None)) => Err(ErrorView::SumError),
            ReplyView::Total(Err(error)) => Err(passed_on(error)),
            _ => arbitrary(),
        }
    }

    /// The content ids that were read; a failure is passed on.
    pub open spec fn ids(self) -> Result<Seq<Seq<u8>>, ErrorView> {
        match self {
            ReplyView::Ids(Ok(ids)) => Ok(ids),
            ReplyView::Ids(Err(error)) => Err(passed_on(error)),
            _ => arbitrary(),
        }
    }
}

/// Whether a storage error is a database's failure: of the same kind, with the same text.
pub open spec fn same_failure(error: PortalStorageError, failure: DatabaseError) -> bool {
    match failure {
        DatabaseError::RocksDB(text) => error == PortalStorageError::RocksDB(text),
        DatabaseError::Sqlite(text) => error == PortalStorageError::Sqlite(text),
        DatabaseError::SqliteConnectionPool(text) => error
            == PortalStorageError::SqliteConnectionPool(text),
    }
}

impl StorageReply {
    /// Reads the answer to a call that changes a database.
    pub fn into_written(self) -> (result: Result<(), PortalStorageError>)
        requires
            self@.kind() == ReplyKind::Written,
        ensures
            match result {
                Ok(done) => self@.written() == Ok::<(), ErrorView>(done),
                Err(error) => self@.written() == Err::<(), ErrorView>(error@),
            },
            match self {
                StorageReply::Written(Ok(_)) => result is Ok,
                StorageReply::Written(Err(error)) => result matches Err(passed) && same_failure(
                    passed,
                    error,
                ),
                _ => false,
            },
    {
        match self {
            StorageReply::Written(Ok(done)) => Ok(done),
            StorageReply::Written(Err(error)) => Err(PortalStorageError::from(error)),
            _ => unreached(),
        }
    }

    /// Reads whether the content is held.
    pub fn into_held(self) -> (result: Result<bool, PortalStorageError>)
        requires
            self@.kind() == ReplyKind::Held,
        ensures
            match result {
                Ok(held) => self@.held() == Ok::<bool, ErrorView>(held),
                Err(error) => self@.held() == Err::<bool, ErrorView>(error@),
            },
            match self {
                StorageReply::Held(Ok(held)) => result == Ok::<bool, PortalStorageError>(held),
                StorageReply::Held(Err(error)) => result matches Err(passed) && same_failure(
                    passed,
                    error,
                ),
                _ => false,
            },
    {
        match self {
            StorageReply::Held(Ok(held)) => Ok(held),
            StorageReply::Held(Err(error)) => Err(PortalStorageError::from(error)),
            _ => unreached(),
        }
    }

    /// Reads the bytes that the call returned.
    pub fn into_bytes(self) -> (result: Result<Option<Vec<u8>>, PortalStorageError>)
        requires
            self@.kind() == ReplyKind::Bytes,
        ensures
            match result {
                Ok(Some(bytes)) => self@.bytes() == Ok::<Option<Seq<u8>>, ErrorView>(Some(bytes@)),
                Ok(None) => self@.bytes() == Ok::<Option<Seq<u8>>, ErrorView>(None),
                Err(error) => self@.bytes() == Err::<Option<Seq<u8>>, ErrorView>(error@),
            },
            match self {
                StorageReply::Bytes(Ok(bytes)) => result == Ok::<
                    Option<Vec<u8>>,
                    PortalStorageError,
                >(bytes),
                StorageReply::Bytes(Err(error)) => result matches Err(passed) && same_failure(
                    passed,
                    error,
                ),
                _ => false,
            },
    {
        match self {
            StorageReply::Bytes(Ok(bytes)) => Ok(bytes),
            StorageReply::Bytes(Err(error)) => Err(PortalStorageError::from(error)),
            _ => unreached(),
        }
    }

    /// Reads the sum of the content sizes.
    pub fn into_total(self) -> (result: Result<u64, PortalStorageError>)
        requires
            self@.kind() == ReplyKind::Total,
        ensures
            match result {
                Ok(total) => self@.total() == Ok::<u64, ErrorView>(total),
                Err(error) => self@.total() == Err::<u64, ErrorView>(error@),
            },
            match self {
                StorageReply::Total(Ok(Some(total))) => result == Ok::<u64, PortalStorageError>(
                    total,
                ),
                StorageReply::Total(Ok(None)) => result == Err::<u64, PortalStorageError>(
                    PortalStorageError::SumError,
                ),
                StorageReply::Total(Err(error)) => result matches Err(passed) && same_failure(
                    passed,
                    error,
                ),
                _ => false,
            },
    {
        match self {
            StorageReply::Total(Ok(Some(total))) => Ok(total),
            StorageReply::Total(Ok(None)) => Err(PortalStorageError::SumError),
            StorageReply::Total(Err(error)) => Err(PortalStorageError::from(error)),
            _ => unreached(),
        }
    }

    /// Reads the content ids that the query returned.
    pub fn into_ids(self) -> (result: Result<Vec<Vec<u8>>, PortalStorageError>)
        requires
            self@.kind() == ReplyKind::Ids,
        ensures
            match result {
                Ok(ids) => self@.ids() == Ok::<Seq<Seq<u8>>, ErrorView>(ids_view(ids)),
                Err(error) => self@.ids() == Err::<Seq<Seq<u8>>, ErrorView>(error@),
            },
            match self {
                StorageReply::Ids(Ok(ids)) => result == Ok::<Vec<Vec<u8>>, PortalStorageError>(ids),
                StorageReply::Ids(Err(error)) => result matches Err(passed) && same_failure(
                    passed,
                    error,
                ),
                _ => false,
            },
    {
        match self {
            StorageReply::Ids(Ok(ids)) => Ok(ids),
            StorageReply::Ids(Err(error)) => Err(PortalStorageError::from(error)),
            _ => unreached(),
        }
    }
}

/// Where an operation stands: it waits for a database, or it is done.
#[derive(Debug, PartialEq, Eq)]
pub enum Step<P, T> {
    /// Perform the request, then go on from `then` with the reply.
    Ask { request: StorageRequest, then: P },
    /// The operation is over.
    Done { result: Result<T, PortalStorageError> },
}

/// Where an operation stands, for use in contracts.
#[verifier::ext_equal]
pub enum StepView<P, T> {
    Ask { request: RequestView, then: P },
    Done { result: Result<T, ErrorView> },
}

impl<P: View, T: View> View for Step<P, T> {
    type V = StepView<P::V, T::V>;

    open spec fn view(&self) -> StepView<P::V, T::V> {
        match *self {
            Step::Ask { request, then } => StepView::Ask { request: request@, then: then@ },
            Step::Done { result: Ok(value) } => StepView::Done { result: Ok(value@) },
            Step::Done { result: Err(error) } => StepView::Done { result: Err(error@) },
        }
    }
}

/// What contracts say of a request is said of the same database call, with the same id, value or
/// row.
pub proof fn law_request_view_keeps_everything(request: StorageRequest)
    ensures
        match request {
            StorageRequest::PutContent { content_id, value } => {
                &&& request@ matches RequestView::PutContent { content_id: id, value: bytes }
                &&& id == content_id@ && bytes == value@
            },
            StorageRequest::HasContent { content_id } => {
                request@ matches RequestView::HasContent { content_id: id } && id == content_id@
            },
            StorageRequest::GetContent { content_id } => {
                request@ matches RequestView::GetContent { content_id: id } && id == content_id@
            },
            StorageRequest::DeleteContent { content_id } => {
                request@ matches RequestView::DeleteContent { content_id: id } && id == content_id@
            },
            StorageRequest::PutAccumulator { content_id, value } => {
                &&& request@ matches RequestView::PutAccumulator { content_id: id, value: bytes }
                &&& id == content_id@ && bytes == value@
            },
            StorageRequest::GetAccumulator { content_id } => {
                request@ matches RequestView::GetAccumulator { content_id: id } && id == content_id@
            },
            StorageRequest::InsertMetadata { row } => {
                &&& request@ matches RequestView::InsertMetadata { row: recorded }
                &&& recorded.content_id_long == row.content_id_long@
                &&& recorded.content_id_short == row.content_id_short
                &&& recorded.content_key == row.content_key@
                &&& recorded.content_size == row.content_size
            },
            StorageRequest::RemoveMetadata { content_id } => {
                request@ matches RequestView::RemoveMetadata { content_id: id } && id == content_id@
            },
            StorageRequest::TotalSize => request@ is TotalSize,
            StorageRequest::FindFarthest { node_id_short } => {
                request@ matches RequestView::FindFarthest { node_id_short: short } && short
                    == node_id_short
            },
        },
{
}

/// What contracts say of a reply is said of the same kind of answer, with the same contents, and of
/// a failure if the reply reports one.
pub proof fn law_reply_view_keeps_everything(reply: StorageReply)
    ensures
        match reply {
            StorageReply::Written(Ok(_)) => {
                reply@ matches ReplyView::Written(Ok(_)) && reply@.written() is Ok
            },
            StorageReply::Written(Err(error)) => reply@.written() == Err::<(), ErrorView>(
                passed_on(error@),
            ),
            StorageReply::Held(Ok(held)) => {
                &&& reply@ == ReplyView::Held(Ok(held))
                &&& reply@.held() == Ok::<bool, ErrorView>(held)
            },
            StorageReply::Held(Err(error)) => reply@.held() == Err::<bool, ErrorView>(
                passed_on(error@),
            ),
            StorageReply::Bytes(Ok(Some(bytes))) => {
                &&& reply@ == ReplyView::Bytes(Ok(Some(bytes@)))
                &&& reply@.bytes() == Ok::<Option<Seq<u8>>, ErrorView>(Some(bytes@))
            },
            StorageReply::Bytes(Ok(None)) => {
                &&& reply@ == ReplyView::Bytes(Ok(None))
                &&& reply@.bytes() == Ok::<Option<Seq<u8>>, ErrorView>(None)
            },
            StorageReply::Bytes(Err(error)) => reply@.bytes() == Err::<
                Option<Seq<u8>>,
                ErrorView,
            >(passed_on(error@)),
            StorageReply::Total(Ok(Some(total))) => {
                &&& reply@ == ReplyView::Total(Ok(Some(total)))
                &&& reply@.total() == Ok::<u64, ErrorView>(total)
            },
            StorageReply::Total(Ok(None)) => reply@.total() == Err::<u64, ErrorView>(
                ErrorView::SumError,
            ),
            StorageReply::Total(Err(error)) => reply@.total() == Err::<u64, ErrorView>(
                passed_on(error@),
            ),
            StorageReply::Ids(Ok(ids)) => {
                &&& reply@ matches ReplyView::Ids(Ok(listed))
                &&& reply@.ids() == Ok::<Seq<Seq<u8>>, ErrorView>(listed)
                &&& listed.len() == ids@.len()
                &&& forall|i: int| 0 <= i < ids@.len() ==> #[trigger] listed[i] == ids@[i]@
            },
            StorageReply::Ids(Err(error)) => reply@.ids() == Err::<Seq<Seq<u8>>, ErrorView>(
                passed_on(error@),
            ),
        },
{
}

/// What contracts say of a step is said of its own request or result.
pub proof fn law_step_view_keeps_everything<P: View, T: View>(step: Step<P, T>)
    ensures
        match (step, step@) {
            (Step::Ask { request, then }, StepView::Ask { request: asked, then: next }) => asked
                == request@ && next == then@,
            (Step::Done { result: Ok(value) }, StepView::Done { result: Ok(shown) }) => shown
                == value@,
            (Step::Done { result: Err(error) }, StepView::Done { result: Err(shown) }) => shown
                == error@,
            _ => false,
        },
{
}

/// The statements that the metadata database runs. A row replaces the one with the same id, a row is
/// removed by its id, the total is taken over all rows, and the farthest rows are those for which
/// the union of the two numbers exceeds their intersection by most.
pub proof fn law_statements_are_these()
    ensures
        CREATE_QUERY@ == "create table if not exists content_metadata (
                                content_id_long TEXT PRIMARY KEY,
                                content_id_short INTEGER NOT NULL,
                                content_key TEXT NOT NULL,
                                content_size INTEGER
                            )"@,
        INSERT_QUERY@ == "INSERT OR REPLACE INTO content_metadata (content_id_long, content_id_short, content_key, content_size)
                            VALUES (?1, ?2, ?3, ?4)"@,
        DELETE_QUERY@ == "DELETE FROM content_metadata
                            WHERE content_id_long = (?1)"@,
        XOR_FIND_FARTHEST_QUERY@ == "SELECT
                                    content_id_long
                                    FROM content_metadata
                                    WHERE ((?1 | content_id_short) - (?1 & content_id_short)) = (
                                        SELECT MAX((?1 | content_id_short) - (?1 & content_id_short))
                                        FROM content_metadata
                                    )"@,
        TOTAL_DATA_SIZE_QUERY@ == "SELECT SUM(content_size) FROM content_metadata"@,
{
}

} // verus!
