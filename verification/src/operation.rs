//! The operations of a storage that take more than one database call, or none.
//!
//! An operation starts with a method of `PortalStorage` that returns its first step. While the
//! step asks for a database call, the caller performs it and hands the answer to the method of the
//! same name that ends in `_reply`, which returns the next step.

use vstd::prelude::*;
use vstd::slice::slice_to_vec;

use crate::distance::{be_value, max_distance, xor_distance, Distance};
use crate::distance::lemma_max_distance_is_largest;
use crate::error::{ErrorView, PortalStorageError};
use crate::request::{ReplyKind, ReplyView, RequestView, StorageReply, StorageRequest};
use crate::request::{same_failure, Step, StepView};
use crate::storage::{copy_bytes, same_id};
use crate::storage::{farthest_in, is_master_accumulator, metadata_row, over_capacity};
use crate::storage::{ContentKey, ContentKeyView, PortalStorage, PortalStorageConfig, StorageState};
use crate::storage::LATEST_MASTER_ACC_CONTENT_ID;

verus! {

/// The decision whether to store some content, waiting for word whether it is held already.
#[derive(Debug)]
pub struct ShouldStoreOp {
    pub content_id: [u8; 32],
}

/// A store operation that waits for a database.
#[derive(Debug)]
pub struct StoreOp {
    pub key: ContentKey,
    pub value: Vec<u8>,
    pub phase: StorePhase,
}

/// What a store operation waits for.
#[derive(Debug)]
pub enum StorePhase {
    /// The master accumulator to be written to the accumulator database.
    PutAccumulator,
    /// What the content database holds under the content's id to be read. If it cannot be read,
    /// the operation goes on as if nothing were held.
    ReadPrevious,
    /// The content to be written to the content database, in place of what was read.
    PutContent { previous: Option<Vec<u8>> },
    /// The content's metadata to be written.
    InsertMetadata { previous: Option<Vec<u8>> },
    /// The content database to be brought back to what it held, as the metadata could not be
    /// written.
    RevertInsert,
    /// The total size of the content.
    Measure { farthest: [u8; 32] },
    /// The content that is to be dropped to be read.
    ReadFarthest { farthest: [u8; 32] },
    /// The content that is to be dropped to be deleted.
    DeleteFarthest { farthest: [u8; 32], value: Option<Vec<u8>> },
    /// The metadata of the dropped content to be removed.
    ForgetFarthest { farthest: [u8; 32], value: Option<Vec<u8>> },
    /// The dropped value to be written back, as the metadata could not be removed.
    RevertRemove { farthest: [u8; 32] },
    /// The farthest content that is left.
    FindFarthest,
}

/// A store operation after a decision, waiting for a database.
#[derive(Debug)]
pub enum StoreIfShouldOp {
    /// The decision is being made.
    Decide { decision: ShouldStoreOp, key: ContentKey, value: Vec<u8> },
    /// The content is being stored.
    Store { op: StoreOp },
}

/// The start of a storage, waiting for the metadata database.
#[derive(Debug)]
pub enum NewOp {
    /// The farthest content is being looked for.
    FindFarthest { storage: PortalStorage },
    /// The total size is being measured.
    Measure { storage: PortalStorage, farthest: [u8; 32] },
}

/// A waiting decision, for use in contracts.
#[verifier::ext_equal]
pub struct ShouldStoreOpView {
    pub content_id: Seq<u8>,
}

/// A waiting store operation, for use in contracts.
#[verifier::ext_equal]
pub struct StoreOpView {
    pub key: ContentKeyView,
    pub value: Seq<u8>,
    pub phase: StorePhaseView,
}

/// What a store operation waits for, for use in contracts.
#[verifier::ext_equal]
pub enum StorePhaseView {
    PutAccumulator,
    ReadPrevious,
    PutContent { previous: Option<Seq<u8>> },
    InsertMetadata { previous: Option<Seq<u8>> },
    RevertInsert,
    Measure { farthest: Seq<u8> },
    ReadFarthest { farthest: Seq<u8> },
    DeleteFarthest { farthest: Seq<u8>, value: Option<Seq<u8>> },
    ForgetFarthest { farthest: Seq<u8>, value: Option<Seq<u8>> },
    RevertRemove { farthest: Seq<u8> },
    FindFarthest,
}

/// A store operation after a decision, for use in contracts.
#[verifier::ext_equal]
pub enum StoreIfShouldOpView {
    Decide { decision: ShouldStoreOpView, key: ContentKeyView, value: Seq<u8> },
    Store { op: StoreOpView },
}

/// The start of a storage, for use in contracts.
#[verifier::ext_equal]
pub enum NewOpView {
    FindFarthest { storage: StorageState },
    Measure { storage: StorageState, farthest: Seq<u8> },
}

impl View for ShouldStoreOp {
    type V = ShouldStoreOpView;

    open spec fn view(&self) -> ShouldStoreOpView {
        ShouldStoreOpView { content_id: self.content_id@ }
    }
}

/// The bytes of an optional vector.
pub open spec fn optional_bytes(bytes: Option<Vec<u8>>) -> Option<Seq<u8>> {
    match bytes {
        Some(bytes) => Some(bytes@),
        None => None,
    }
}

impl View for StorePhase {
    type V = StorePhaseView;

    open spec fn view(&self) -> StorePhaseView {
        match *self {
            StorePhase::PutAccumulator => StorePhaseView::PutAccumulator,
            StorePhase::ReadPrevious => StorePhaseView::ReadPrevious,
            StorePhase::PutContent { previous } => StorePhaseView::PutContent {
                previous: optional_bytes(previous),
            },
            StorePhase::InsertMetadata { previous } => StorePhaseView::InsertMetadata {
                previous: optional_bytes(previous),
            },
            StorePhase::RevertInsert => StorePhaseView::RevertInsert,
            StorePhase::Measure { farthest } => StorePhaseView::Measure { farthest: farthest@ },
            StorePhase::ReadFarthest { farthest } => StorePhaseView::ReadFarthest {
                farthest: farthest@,
            },
            StorePhase::DeleteFarthest { farthest, value } => StorePhaseView::DeleteFarthest {
                farthest: farthest@,
                value: optional_bytes(value),
            },
            StorePhase::ForgetFarthest { farthest, value } => StorePhaseView::ForgetFarthest {
                farthest: farthest@,
                value: optional_bytes(value),
            },
            StorePhase::RevertRemove { farthest } => StorePhaseView::RevertRemove {
                farthest: farthest@,
            },
            StorePhase::FindFarthest => StorePhaseView::FindFarthest,
        }
    }
}

impl View for StoreOp {
    type V = StoreOpView;

    open spec fn view(&self) -> StoreOpView {
        StoreOpView { key: self.key@, value: self.value@, phase: self.phase@ }
    }
}

impl View for StoreIfShouldOp {
    type V = StoreIfShouldOpView;

    open spec fn view(&self) -> StoreIfShouldOpView {
        match *self {
            StoreIfShouldOp::Decide { decision, key, value } => StoreIfShouldOpView::Decide {
                decision: decision@,
                key: key@,
                value: value@,
            },
            StoreIfShouldOp::Store { op } => StoreIfShouldOpView::Store { op: op@ },
        }
    }
}

impl View for NewOp {
    type V = NewOpView;

    open spec fn view(&self) -> NewOpView {
        match *self {
            NewOp::FindFarthest { storage } => NewOpView::FindFarthest { storage: storage@ },
            NewOp::Measure { storage, farthest } => NewOpView::Measure {
                storage: storage@,
                farthest: farthest@,
            },
        }
    }
}

impl StorePhaseView {
    /// The kind of answer that the phase waits for.
    pub open spec fn reply_kind(self) -> ReplyKind {
        match self {
            StorePhaseView::Measure { .. } => ReplyKind::Total,
            StorePhaseView::ReadPrevious => ReplyKind::Bytes,
            StorePhaseView::ReadFarthest { .. } => ReplyKind::Bytes,
            StorePhaseView::FindFarthest => ReplyKind::Ids,
            _ => ReplyKind::Written,
        }
    }
}

impl StoreOpView {
    /// The step that performs a request and then goes on in a phase.
    pub open spec fn ask(self, request: RequestView, phase: StorePhaseView) -> StepView<
        StoreOpView,
        (),
    > {
        StepView::Ask { request, then: StoreOpView { phase, ..self } }
    }

    /// The step that reads what the content database holds under the content's id.
    pub open spec fn read_previous(self) -> StepView<StoreOpView, ()> {
        self.ask(
            RequestView::GetContent { content_id: self.key.content_id },
            StorePhaseView::ReadPrevious,
        )
    }

    /// The request that brings the content database back to what it held under the content's id.
    pub open spec fn revert_insert(self, previous: Option<Seq<u8>>) -> RequestView {
        match previous {
            Some(value) => RequestView::PutContent { content_id: self.key.content_id, value },
            None => RequestView::DeleteContent { content_id: self.key.content_id },
        }
    }

    /// The step that measures the total size, before which some content is known to be farthest.
    pub open spec fn measure(self, farthest: Seq<u8>) -> StepView<StoreOpView, ()> {
        self.ask(RequestView::TotalSize, StorePhaseView::Measure { farthest })
    }
}

impl StoreIfShouldOpView {
    /// The kind of answer that the operation waits for.
    pub open spec fn reply_kind(self) -> ReplyKind {
        match self {
            StoreIfShouldOpView::Decide { .. } => ReplyKind::Held,
            StoreIfShouldOpView::Store { op } => op.phase.reply_kind(),
        }
    }
}

impl NewOpView {
    /// The kind of answer that the operation waits for.
    pub open spec fn reply_kind(self) -> ReplyKind {
        match self {
            NewOpView::FindFarthest { .. } => ReplyKind::Ids,
            NewOpView::Measure { .. } => ReplyKind::Total,
        }
    }
}

/// The end of an operation.
pub open spec fn done<P, T>(result: Result<T, ErrorView>) -> StepView<P, T> {
    StepView::Done { result }
}

/// How a store operation begins. The master accumulator is written to its own database first;
/// other content is refused if it lies outside the radius.
pub open spec fn store_start(
    state: StorageState,
    key: ContentKeyView,
    value: Seq<u8>,
) -> StepView<StoreOpView, ()> {
    let op = StoreOpView { key, value, phase: StorePhaseView::ReadPrevious };
    if is_master_accumulator(key.content_id) {
        op.ask(
            RequestView::PutAccumulator { content_id: key.content_id, value },
            StorePhaseView::PutAccumulator,
        )
    } else if state.distance_to(key.content_id) > state.radius {
        done(Err(ErrorView::OutsideDistanceError))
    } else {
        op.read_previous()
    }
}

/// How a store operation goes on from an answer: the storage's next state, and the next step.
pub open spec fn store_next(state: StorageState, op: StoreOpView, reply: ReplyView) -> (
    StorageState,
    StepView<StoreOpView, ()>,
) {
    let content_id = op.key.content_id;
    match op.phase {
        StorePhaseView::PutAccumulator => match reply.written() {
            Ok(_) => (state, op.read_previous()),
            Err(error) => (state, done(Err(error))),
        },
        StorePhaseView::ReadPrevious => (
            state,
            op.ask(
                RequestView::PutContent { content_id, value: op.value },
                StorePhaseView::PutContent {
                    previous: match reply.bytes() {
                        Ok(previous) => previous,
                        Err(_) => None,
                    },
                },
            ),
        ),
        StorePhaseView::PutContent { previous } => match reply.written() {
            Ok(_) => (
                state,
                op.ask(
                    RequestView::InsertMetadata { row: metadata_row(op.key, op.value) },
                    StorePhaseView::InsertMetadata { previous },
                ),
            ),
            Err(error) => (state, done(Err(error))),
        },
        StorePhaseView::InsertMetadata { previous } => match reply.written() {
            Ok(_) => {
                let farthest = state.farthest_with(content_id);
                (StorageState { farthest: Some(farthest), ..state }, op.measure(farthest))
            },
            Err(_) => (state, op.ask(op.revert_insert(previous), StorePhaseView::RevertInsert)),
        },
        StorePhaseView::RevertInsert => match reply.written() {
            Ok(_) => (state, done(Err(ErrorView::InsertError { content_id }))),
            Err(error) => (state, done(Err(error))),
        },
        StorePhaseView::Measure { farthest } => match over_capacity(state, reply) {
            Ok(true) => (
                state,
                op.ask(
                    RequestView::GetContent { content_id: farthest },
                    StorePhaseView::ReadFarthest { farthest },
                ),
            ),
            Ok(false) => (state, done(Ok(()))),
            Err(error) => (state, done(Err(error))),
        },
        StorePhaseView::ReadFarthest { farthest } => match reply.bytes() {
            Ok(value) => (
                state,
                op.ask(
                    RequestView::DeleteContent { content_id: farthest },
                    StorePhaseView::DeleteFarthest { farthest, value },
                ),
            ),
            Err(error) => (state, done(Err(error))),
        },
        StorePhaseView::DeleteFarthest { farthest, value } => match reply.written() {
            Ok(_) => (
                state,
                op.ask(
                    RequestView::RemoveMetadata { content_id: farthest },
                    StorePhaseView::ForgetFarthest { farthest, value },
                ),
            ),
            Err(error) => (state, done(Err(error))),
        },
        StorePhaseView::ForgetFarthest { farthest, value } => match (reply.written(), value) {
            (Ok(_), _) => (
                state,
                op.ask(state.find_farthest_request(), StorePhaseView::FindFarthest),
            ),
            (Err(_), Some(value)) => (
                state,
                op.ask(
                    RequestView::PutContent { content_id: farthest, value },
                    StorePhaseView::RevertRemove { farthest },
                ),
            ),
            (Err(_), None) => (
                state,
                done(Err(ErrorView::RemoveError { content_id: farthest })),
            ),
        },
        StorePhaseView::RevertRemove { farthest } => match reply.written() {
            Ok(_) => (state, done(Err(ErrorView::RemoveError { content_id: farthest }))),
            Err(error) => (state, done(Err(error))),
        },
        StorePhaseView::FindFarthest => match farthest_in(state, reply) {
            Ok(Some(farthest)) => (
                StorageState {
                    farthest: Some(farthest),
                    radius: state.distance_to(farthest),
                    ..state
                },
                op.measure(farthest),
            ),
            Ok(None) => (StorageState { farthest: None, ..state }, done(Ok(()))),
            Err(error) => (state, done(Err(error))),
        },
    }
}

/// How the decision whether to store some content begins. The master accumulator is always
/// stored; of other content it matters whether it is held already.
pub open spec fn should_store_start(content_id: Seq<u8>) -> StepView<ShouldStoreOpView, bool> {
    if is_master_accumulator(content_id) {
        done(Ok(true))
    } else {
        StepView::Ask {
            request: RequestView::HasContent { content_id },
            then: ShouldStoreOpView { content_id },
        }
    }
}

/// The decision once it is known whether the content is held already.
pub open spec fn should_store_next(
    state: StorageState,
    op: ShouldStoreOpView,
    reply: ReplyView,
) -> Result<bool, ErrorView> {
    match reply.held() {
        Ok(held) => Ok(!held && state.wants(op.content_id)),
        Err(error) => Err(error),
    }
}

/// The step of a store operation as a step of a store operation after a decision.
pub open spec fn storing(step: StepView<StoreOpView, ()>) -> StepView<StoreIfShouldOpView, bool> {
    match step {
        StepView::Ask { request, then } => StepView::Ask {
            request,
            then: StoreIfShouldOpView::Store { op: then },
        },
        StepView::Done { result: Ok(_) } => done(Ok(true)),
        StepView::Done { result: Err(error) } => done(Err(error)),
    }
}

/// How a store operation after a decision goes on from the decision.
pub open spec fn store_if_decided(
    state: StorageState,
    key: ContentKeyView,
    value: Seq<u8>,
    decision: Result<bool, ErrorView>,
) -> StepView<StoreIfShouldOpView, bool> {
    match decision {
        Ok(true) => storing(store_start(state, key, value)),
        Ok(false) => done(Ok(false)),
        Err(error) => done(Err(error)),
    }
}

/// How a store operation after a decision begins.
pub open spec fn store_if_should_start(
    state: StorageState,
    key: ContentKeyView,
    value: Seq<u8>,
) -> StepView<StoreIfShouldOpView, bool> {
    match should_store_start(key.content_id) {
        StepView::Ask { request, then } => StepView::Ask {
            request,
            then: StoreIfShouldOpView::Decide { decision: then, key, value },
        },
        StepView::Done { result } => store_if_decided(state, key, value, result),
    }
}

/// How a store operation after a decision goes on from an answer.
pub open spec fn store_if_should_next(
    state: StorageState,
    op: StoreIfShouldOpView,
    reply: ReplyView,
) -> (StorageState, StepView<StoreIfShouldOpView, bool>) {
    match op {
        StoreIfShouldOpView::Decide { decision, key, value } => (
            state,
            store_if_decided(state, key, value, should_store_next(state, decision, reply)),
        ),
        StoreIfShouldOpView::Store { op } => {
            let (next_state, step) = store_next(state, op, reply);
            (next_state, storing(step))
        },
    }
}

/// The database that is read for some content.
pub open spec fn get_request(content_id: Seq<u8>) -> RequestView {
    if is_master_accumulator(content_id) {
        RequestView::GetAccumulator { content_id }
    } else {
        RequestView::GetContent { content_id }
    }
}

/// The state of a storage that does not know of any content.
pub open spec fn blank_state(config: PortalStorageConfig) -> StorageState {
    StorageState {
        node_id: config.node_id.raw@,
        capacity: (config.storage_capacity_kb * 1000) as nat,
        radius: max_distance(),
        farthest: None,
        distance_function: config.distance_function,
    }
}

/// How a storage goes on to start from an answer. Content that is there already sets the farthest
/// content and, if it exceeds the capacity, the radius.
pub open spec fn new_next(op: NewOpView, reply: ReplyView) -> StepView<NewOpView, StorageState> {
    match op {
        NewOpView::FindFarthest { storage } => match farthest_in(storage, reply) {
            Ok(Some(farthest)) => StepView::Ask {
                request: RequestView::TotalSize,
                then: NewOpView::Measure {
                    storage: StorageState { farthest: Some(farthest), ..storage },
                    farthest,
                },
            },
            Ok(None) => done(Ok(storage)),
            Err(error) => done(Err(error)),
        },
        NewOpView::Measure { storage, farthest } => match over_capacity(storage, reply) {
            Ok(true) => done(
                Ok(StorageState { radius: storage.distance_to(farthest), ..storage }),
            ),
            Ok(false) => done(Ok(storage)),
            Err(error) => done(Err(error)),
        },
    }
}

impl ContentKey {
    /// A copy of the key.
    fn copy(&self) -> (copy: ContentKey)
        ensures
            copy@ == self@,
    {
        ContentKey { content_id: self.content_id, encoded: copy_bytes(&self.encoded) }
    }
}

impl PortalStorage {
    /// Begins to store a value for a content key.
    pub fn store(&self, key: &ContentKey, value: &Vec<u8>) -> (step: Step<StoreOp, ()>)
        ensures
            step@ == store_start(self@, key@, value@),
            match step {
                Step::Ask {
                    request: StorageRequest::PutAccumulator { content_id, value: written },
                    ..
                } => {
                    &&& key.content_id@ == LATEST_MASTER_ACC_CONTENT_ID@
                    &&& content_id == key.content_id
                    &&& written@ == value@
                },
                Step::Ask { request: StorageRequest::GetContent { content_id }, .. } => {
                    &&& key.content_id@ != LATEST_MASTER_ACC_CONTENT_ID@
                    &&& xor_distance(key.content_id@, self.node_id.raw@) <= be_value(
                        self.data_radius.bytes@,
                    )
                    &&& content_id == key.content_id
                },
                Step::Done { result } => {
                    &&& key.content_id@ != LATEST_MASTER_ACC_CONTENT_ID@
                    &&& xor_distance(key.content_id@, self.node_id.raw@) > be_value(
                        self.data_radius.bytes@,
                    )
                    &&& result == Err::<(), PortalStorageError>(
                        PortalStorageError::OutsideDistanceError,
                    )
                },
                _ => false,
            },
    {
        if same_id(&key.content_id, &LATEST_MASTER_ACC_CONTENT_ID) {
            return Step::Ask {
                request: StorageRequest::PutAccumulator {
                    content_id: key.content_id,
                    value: copy_bytes(value),
                },
                then: StoreOp {
                    key: key.copy(),
                    value: copy_bytes(value),
                    phase: StorePhase::PutAccumulator,
                },
            };
        }
        let distance_to_content_id = self.distance_to_content_id(&key.content_id);
        if distance_to_content_id > self.data_radius {
            return Step::Done { result: Err(PortalStorageError::OutsideDistanceError) };
        }
        Step::Ask {
            request: StorageRequest::GetContent { content_id: key.content_id },
            then: StoreOp {
                key: key.copy(),
                value: copy_bytes(value),
                phase: StorePhase::ReadPrevious,
            },
        }
    }

    /// Goes on storing a value once a database has answered.
    pub fn store_reply(&mut self, op: StoreOp, reply: StorageReply) -> (step: Step<StoreOp, ()>)
        requires
            reply@.kind() == op@.phase.reply_kind(),
        ensures
            (final(self)@, step@) == store_next(old(self)@, op@, reply@),
    {
        let StoreOp { key, value, phase } = op;
        match phase {
            StorePhase::PutAccumulator => match reply.into_written() {
                Ok(_) => Step::Ask {
                    request: StorageRequest::GetContent { content_id: key.content_id },
                    then: StoreOp { key, value, phase: StorePhase::ReadPrevious },
                },
                Err(error) => Step::Done { result: Err(error) },
            },
            StorePhase::ReadPrevious => {
                let previous = match reply.into_bytes() {
                    Ok(previous) => previous,
                    Err(_) => None,
                };
                Step::Ask {
                    request: PortalStorage::db_insert(&key.content_id, &value),
                    then: StoreOp { key, value, phase: StorePhase::PutContent { previous } },
                }
            },
            StorePhase::PutContent { previous } => match reply.into_written() {
                Ok(_) => Step::Ask {
                    request: PortalStorage::meta_db_insert(&key, &value),
                    then: StoreOp { key, value, phase: StorePhase::InsertMetadata { previous } },
                },
                Err(error) => Step::Done { result: Err(error) },
            },
            StorePhase::InsertMetadata { previous } => match reply.into_written() {
                Ok(_) => {
                    let farthest = self.update_farthest(&key.content_id);
                    Step::Ask {
                        request: PortalStorage::get_total_storage_usage_in_bytes_from_network(),
                        then: StoreOp { key, value, phase: StorePhase::Measure { farthest } },
                    }
                },
                Err(_) => {
                    let request = match previous {
                        Some(previous) => PortalStorage::db_insert(&key.content_id, &previous),
                        None => StorageRequest::DeleteContent { content_id: key.content_id },
                    };
                    Step::Ask {
                        request,
                        then: StoreOp { key, value, phase: StorePhase::RevertInsert },
                    }
                },
            },
            StorePhase::RevertInsert => match reply.into_written() {
                Ok(_) => Step::Done {
                    result: Err(
                        PortalStorageError::InsertError {
                            content_id: slice_to_vec(key.content_id.as_slice()),
                        },
                    ),
                },
                Err(error) => Step::Done { result: Err(error) },
            },
            StorePhase::Measure { farthest } => match self.capacity_reached(reply) {
                Ok(true) => Step::Ask {
                    request: StorageRequest::GetContent { content_id: farthest },
                    then: StoreOp { key, value, phase: StorePhase::ReadFarthest { farthest } },
                },
                Ok(false) => Step::Done { result: Ok(()) },
                Err(error) => Step::Done { result: Err(error) },
            },
            StorePhase::ReadFarthest { farthest } => match reply.into_bytes() {
                Ok(deleted_value) => Step::Ask {
                    request: StorageRequest::DeleteContent { content_id: farthest },
                    then: StoreOp {
                        key,
                        value,
                        phase: StorePhase::DeleteFarthest { farthest, value: deleted_value },
                    },
                },
                Err(error) => Step::Done { result: Err(error) },
            },
            StorePhase::DeleteFarthest { farthest, value: deleted_value } => match reply.into_written() {
                Ok(_) => Step::Ask {
                    request: PortalStorage::meta_db_remove(&farthest),
                    then: StoreOp {
                        key,
                        value,
                        phase: StorePhase::ForgetFarthest { farthest, value: deleted_value },
                    },
                },
                Err(error) => Step::Done { result: Err(error) },
            },
            StorePhase::ForgetFarthest { farthest, value: deleted_value } => match reply.into_written() {
                Ok(_) => Step::Ask {
                    request: self.find_farthest_content_id(),
                    then: StoreOp { key, value, phase: StorePhase::FindFarthest },
                },
                Err(_) => match deleted_value {
                    Some(deleted_value) => Step::Ask {
                        request: PortalStorage::db_insert(&farthest, &deleted_value),
                        then: StoreOp { key, value, phase: StorePhase::RevertRemove { farthest } },
                    },
                    None => Step::Done { result: Err(PortalStorage::remove_error(&farthest)) },
                },
            },
            StorePhase::RevertRemove { farthest } => match reply.into_written() {
                Ok(_) => Step::Done { result: Err(PortalStorage::remove_error(&farthest)) },
                Err(error) => Step::Done { result: Err(error) },
            },
            StorePhase::FindFarthest => match self.find_farthest_content_id_reply(reply) {
                Ok(Some(farthest)) => {
                    self.farthest_content_id = Some(farthest);
                    self.data_radius = self.distance_to_content_id(&farthest);
                    Step::Ask {
                        request: PortalStorage::get_total_storage_usage_in_bytes_from_network(),
                        then: StoreOp { key, value, phase: StorePhase::Measure { farthest } },
                    }
                },
                Ok(None) => {
                    self.farthest_content_id = None;
                    Step::Done { result: Ok(()) }
                },
                Err(error) => Step::Done { result: Err(error) },
            },
        }
    }

    /// Begins to determine whether some content should be stored by the node. Takes into account
    /// the radius and whether the content is stored already.
    pub fn should_store(&self, key: &ContentKey) -> (step: Step<ShouldStoreOp, bool>)
        ensures
            step@ == should_store_start(key@.content_id),
            match step {
                Step::Done { result } => {
                    &&& key.content_id@ == LATEST_MASTER_ACC_CONTENT_ID@
                    &&& result == Ok::<bool, PortalStorageError>(true)
                },
                Step::Ask { request, then } => {
                    &&& key.content_id@ != LATEST_MASTER_ACC_CONTENT_ID@
                    &&& request == (StorageRequest::HasContent { content_id: key.content_id })
                    &&& then.content_id == key.content_id
                },
            },
    {
        // The master accumulator is always stored.
        if same_id(&key.content_id, &LATEST_MASTER_ACC_CONTENT_ID) {
            return Step::Done { result: Ok(true) };
        }
        Step::Ask {
            request: StorageRequest::HasContent { content_id: key.content_id },
            then: ShouldStoreOp { content_id: key.content_id },
        }
    }

    /// Determines whether some content should be stored once it is known whether it is stored
    /// already.
    pub fn should_store_reply(&self, op: ShouldStoreOp, reply: StorageReply) -> (result: Result<
        bool,
        PortalStorageError,
    >)
        requires
            reply@.kind() == ReplyKind::Held,
        ensures
            match result {
                Ok(should) => should_store_next(self@, op@, reply@) == Ok::<bool, ErrorView>(should),
                Err(error) => should_store_next(self@, op@, reply@) == Err::<bool, ErrorView>(
                    error@,
                ),
            },
            match reply {
                StorageReply::Held(Ok(true)) => result == Ok::<bool, PortalStorageError>(false),
                StorageReply::Held(Ok(false)) => result == Ok::<bool, PortalStorageError>(
                    be_value(self.data_radius.bytes@) == max_distance() || xor_distance(
                        op.content_id@,
                        self.node_id.raw@,
                    ) < be_value(self.data_radius.bytes@),
                ),
                StorageReply::Held(Err(error)) => result matches Err(passed) && same_failure(
                    passed,
                    error,
                ),
                _ => false,
            },
    {
        match reply.into_held() {
            Ok(true) => Ok(false),
            Ok(false) => {
                proof {
                    lemma_max_distance_is_largest(self.data_radius.bytes@);
                }
                if self.data_radius < Distance::max_value() {
                    Ok(self.distance_to_content_id(&op.content_id) < self.data_radius)
                } else {
                    Ok(true)
                }
            },
            Err(error) => Err(error),
        }
    }

    /// Begins to store content if it should be stored. The result says whether it was.
    pub fn store_if_should(&self, key: &ContentKey, value: &Vec<u8>) -> (step: Step<
        StoreIfShouldOp,
        bool,
    >)
        ensures
            step@ == store_if_should_start(self@, key@, value@),
            step matches Step::Ask { request, then } && if key.content_id@
                == LATEST_MASTER_ACC_CONTENT_ID@ {
                &&& request matches StorageRequest::PutAccumulator { content_id, value: written }
                &&& content_id == key.content_id
                &&& written@ == value@
                &&& then is Store
            } else {
                &&& request == (StorageRequest::HasContent { content_id: key.content_id })
                &&& then matches StoreIfShouldOp::Decide { decision, key: kept, value: given }
                &&& decision.content_id == key.content_id
                &&& kept@ == key@
                &&& given@ == value@
            },
    {
        match self.should_store(key) {
            Step::Ask { request, then } => Step::Ask {
                request,
                then: StoreIfShouldOp::Decide {
                    decision: then,
                    key: key.copy(),
                    value: copy_bytes(value),
                },
            },
            Step::Done { result } => self.store_if_decided(key, value, result),
        }
    }

    /// Goes on storing content if it should be stored once a database has answered.
    pub fn store_if_should_reply(&mut self, op: StoreIfShouldOp, reply: StorageReply) -> (step: Step<
        StoreIfShouldOp,
        bool,
    >)
        requires
            reply@.kind() == op@.reply_kind(),
        ensures
            (final(self)@, step@) == store_if_should_next(old(self)@, op@, reply@),
    {
        match op {
            StoreIfShouldOp::Decide { decision, key, value } => {
                let decision = self.should_store_reply(decision, reply);
                self.store_if_decided(&key, &value, decision)
            },
            StoreIfShouldOp::Store { op } => {
                let step = self.store_reply(op, reply);
                PortalStorage::storing(step)
            },
        }
    }

    /// Goes on from the decision whether to store.
    fn store_if_decided(
        &self,
        key: &ContentKey,
        value: &Vec<u8>,
        decision: Result<bool, PortalStorageError>,
    ) -> (step: Step<StoreIfShouldOp, bool>)
        ensures
            step@ == store_if_decided(
                self@,
                key@,
                value@,
                match decision {
                    Ok(should) => Ok(should),
                    Err(error) => Err(error@),
                },
            ),
    {
        match decision {
            Ok(true) => PortalStorage::storing(self.store(key, value)),
            Ok(false) => Step::Done { result: Ok(false) },
            Err(error) => Step::Done { result: Err(error) },
        }
    }

    /// Takes a step of a store operation as one of a store operation after a decision.
    fn storing(step: Step<StoreOp, ()>) -> (result: Step<StoreIfShouldOp, bool>)
        ensures
            result@ == storing(step@),
    {
        match step {
            Step::Ask { request, then } => Step::Ask {
                request,
                then: StoreIfShouldOp::Store { op: then },
            },
            Step::Done { result: Ok(_) } => Step::Done { result: Ok(true) },
            Step::Done { result: Err(error) } => Step::Done { result: Err(error) },
        }
    }

    /// The request that retrieves the stored value for a content key.
    pub fn get(&self, key: &ContentKey) -> (request: StorageRequest)
        ensures
            request@ == get_request(key@.content_id),
            request == if key.content_id@ == LATEST_MASTER_ACC_CONTENT_ID@ {
                StorageRequest::GetAccumulator { content_id: key.content_id }
            } else {
                StorageRequest::GetContent { content_id: key.content_id }
            },
    {
        if same_id(&key.content_id, &LATEST_MASTER_ACC_CONTENT_ID) {
            StorageRequest::GetAccumulator { content_id: key.content_id }
        } else {
            StorageRequest::GetContent { content_id: key.content_id }
        }
    }

    /// Reads the stored value for a content key. If there is none, the result is `Ok(None)`.
    pub fn get_reply(reply: StorageReply) -> (result: Result<Option<Vec<u8>>, PortalStorageError>)
        requires
            reply@.kind() == ReplyKind::Bytes,
        ensures
            match result {
                Ok(value) => reply@.bytes() == Ok::<Option<Seq<u8>>, ErrorView>(
                    optional_bytes(value),
                ),
                Err(error) => reply@.bytes() == Err::<Option<Seq<u8>>, ErrorView>(error@),
            },
            match reply {
                StorageReply::Bytes(Ok(value)) => result == Ok::<
                    Option<Vec<u8>>,
                    PortalStorageError,
                >(value),
                StorageReply::Bytes(Err(error)) => result matches Err(passed) && same_failure(
                    passed,
                    error,
                ),
                _ => false,
            },
    {
        reply.into_bytes()
    }

    /// Begins to start a storage. Checks whether its databases hold content already.
    pub fn new(config: PortalStorageConfig) -> (step: Step<NewOp, PortalStorage>)
        requires
            config.storage_capacity_kb * 1000 <= u64::MAX,
        ensures
            step@ == (StepView::<NewOpView, StorageState>::Ask {
                request: blank_state(config).find_farthest_request(),
                then: NewOpView::FindFarthest { storage: blank_state(config) },
            }),
            step matches Step::Ask { request, then: NewOp::FindFarthest { storage } } && {
                &&& request matches StorageRequest::FindFarthest { node_id_short }
                &&& node_id_short == config.node_id.raw@[0] * 0x1000000 + config.node_id.raw@[1]
                    * 0x10000 + config.node_id.raw@[2] * 0x100 + config.node_id.raw@[3]
                &&& storage.node_id == config.node_id
                &&& storage.storage_capacity_in_bytes == config.storage_capacity_kb * 1000
                &&& forall|i: int| 0 <= i < 32 ==> storage.data_radius.bytes@[i] == 255
                &&& storage.farthest_content_id is None
                &&& storage.distance_function == config.distance_function
            },
    {
        let storage = PortalStorage {
            node_id: config.node_id,
            storage_capacity_in_bytes: config.storage_capacity_kb * 1000,
            data_radius: Distance::max_value(),
            farthest_content_id: None,
            distance_function: config.distance_function,
        };
        Step::Ask {
            request: storage.find_farthest_content_id(),
            then: NewOp::FindFarthest { storage },
        }
    }

    /// Goes on starting a storage once the metadata database has answered.
    pub fn new_reply(op: NewOp, reply: StorageReply) -> (step: Step<NewOp, PortalStorage>)
        requires
            reply@.kind() == op@.reply_kind(),
        ensures
            step@ == new_next(op@, reply@),
            (op, reply) matches (
                NewOp::Measure { storage, farthest },
                StorageReply::Total(Ok(Some(total))),
            ) ==> {
                &&& step matches Step::Done { result: Ok(started) }
                &&& started.node_id == storage.node_id
                &&& started.storage_capacity_in_bytes == storage.storage_capacity_in_bytes
                &&& started.farthest_content_id == storage.farthest_content_id
                &&& if total > storage.storage_capacity_in_bytes {
                    forall|i: int|
                        0 <= i < 32 ==> #[trigger] started.data_radius.bytes@[i] == farthest@[i]
                            ^ storage.node_id.raw@[i]
                } else {
                    started.data_radius == storage.data_radius
                }
            },
    {
        match op {
            NewOp::FindFarthest { storage } => match storage.find_farthest_content_id_reply(reply) {
                Ok(Some(farthest)) => {
                    let mut storage = storage;
                    storage.farthest_content_id = Some(farthest);
                    Step::Ask {
                        request: PortalStorage::get_total_storage_usage_in_bytes_from_network(),
                        then: NewOp::Measure { storage, farthest },
                    }
                },
                Ok(None) => Step::Done { result: Ok(storage) },
                Err(error) => Step::Done { result: Err(error) },
            },
            NewOp::Measure { storage, farthest } => match storage.capacity_reached(reply) {
                Ok(true) => {
                    let mut storage = storage;
                    storage.data_radius = storage.distance_to_content_id(&farthest);
                    Step::Done { result: Ok(storage) }
                },
                Ok(false) => Step::Done { result: Ok(storage) },
                Err(error) => Step::Done { result: Err(error) },
            },
        }
    }

    /// Records added content as the farthest if it is the first or farther than the farthest so
    /// far, and returns the farthest.
    fn update_farthest(&mut self, content_id: &[u8; 32]) -> (farthest: [u8; 32])
        ensures
            farthest@ == old(self)@.farthest_with(content_id@),
            final(self)@ == (StorageState { farthest: Some(farthest@), ..old(self)@ }),
    {
        let farthest = match self.farthest_content_id {
            None => *content_id,
            Some(farthest) => {
                if self.distance_to_content_id(content_id) > self.distance_to_content_id(&farthest) {
                    *content_id
                } else {
                    farthest
                }
            },
        };
        self.farthest_content_id = Some(farthest);
        farthest
    }

    /// The error when the metadata of dropped content could not be removed.
    fn remove_error(content_id: &[u8; 32]) -> (error: PortalStorageError)
        ensures
            error@ == (ErrorView::RemoveError { content_id: content_id@ }),
    {
        PortalStorageError::RemoveError { content_id: slice_to_vec(content_id.as_slice()) }
    }
}

/// What contracts say of a store operation is said of its own key, value and phase, and of the ids
/// and values that the phase carries.
pub proof fn law_store_view_keeps_everything(op: StoreOp)
    ensures
        op@.key.content_id == op.key.content_id@,
        op@.key.encoded == op.key.encoded@,
        op@.value == op.value@,
        match (op.phase, op@.phase) {
            (StorePhase::PutAccumulator, StorePhaseView::PutAccumulator) => true,
            (StorePhase::ReadPrevious, StorePhaseView::ReadPrevious) => true,
            (
                StorePhase::PutContent { previous },
                StorePhaseView::PutContent { previous: bytes },
            ) => same_bytes(previous, bytes),
            (
                StorePhase::InsertMetadata { previous },
                StorePhaseView::InsertMetadata { previous: bytes },
            ) => same_bytes(previous, bytes),
            (StorePhase::RevertInsert, StorePhaseView::RevertInsert) => true,
            (
                StorePhase::Measure { farthest },
                StorePhaseView::Measure { farthest: id },
            ) => farthest@ == id,
            (
                StorePhase::ReadFarthest { farthest },
                StorePhaseView::ReadFarthest { farthest: id },
            ) => farthest@ == id,
            (
                StorePhase::DeleteFarthest { farthest, value },
                StorePhaseView::DeleteFarthest { farthest: id, value: bytes },
            ) => farthest@ == id && same_bytes(value, bytes),
            (
                StorePhase::ForgetFarthest { farthest, value },
                StorePhaseView::ForgetFarthest { farthest: id, value: bytes },
            ) => farthest@ == id && same_bytes(value, bytes),
            (
                StorePhase::RevertRemove { farthest },
                StorePhaseView::RevertRemove { farthest: id },
            ) => farthest@ == id,
            (StorePhase::FindFarthest, StorePhaseView::FindFarthest) => true,
            _ => false,
        },
{
}

/// Whether an optional vector holds some bytes, or neither is there.
pub open spec fn same_bytes(vec: Option<Vec<u8>>, bytes: Option<Seq<u8>>) -> bool {
    match (vec, bytes) {
        (Some(vec), Some(bytes)) => vec@ == bytes,
        (None, None) => true,
        _ => false,
    }
}

/// What contracts say of the other operations is said of their own contents.
pub proof fn law_operation_views_keep_everything(
    should_store: ShouldStoreOp,
    store_if_should: StoreIfShouldOp,
    new: NewOp,
)
    ensures
        should_store@.content_id == should_store.content_id@,
        match (store_if_should, store_if_should@) {
            (
                StoreIfShouldOp::Decide { decision, key, value },
                StoreIfShouldOpView::Decide { decision: waiting, key: kept, value: given },
            ) => waiting == decision@ && kept == key@ && given == value@,
            (StoreIfShouldOp::Store { op }, StoreIfShouldOpView::Store { op: store }) => store
                == op@,
            _ => false,
        },
        match (new, new@) {
            (NewOp::FindFarthest { storage }, NewOpView::FindFarthest { storage: state }) => state
                == storage@,
            (
                NewOp::Measure { storage, farthest },
                NewOpView::Measure { storage: state, farthest: id },
            ) => state == storage@ && id == farthest@,
            _ => false,
        },
{
}

} // verus!
