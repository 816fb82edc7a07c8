//! Laws that hold of the storage's decisions.

use vstd::prelude::*;

use crate::databases::{is_failure, law_find_farthest, total_size, Databases};
use crate::distance::{lemma_max_distance_is_largest, max_distance, xor_bytes, xor_distance};
use crate::error::{passed_on, DatabaseErrorView, ErrorView};
use crate::operation::{blank_state, new_next, should_store_next, should_store_start};
use crate::operation::{store_if_should_next, store_if_should_start, store_next, store_start};
use crate::operation::{get_request, storing};
use crate::operation::{NewOpView, ShouldStoreOpView, StoreIfShouldOpView, StoreOpView};
use crate::request::{ReplyKind, ReplyView, RequestView, StepView};
use crate::storage::{is_first_misfit, law_farthest_of_is_farthest, over_capacity};
use crate::storage::{is_master_accumulator, ContentKeyView, PortalStorageConfig, StorageState};
use crate::store_run::{farthest_recorded, tracks, within_radius};

verus! {

/// Whoever answers the requests of a store operation answers with the kind of reply that the
/// operation goes on from.
pub proof fn law_store_requests_fit(
    state: StorageState,
    key: ContentKeyView,
    value: Seq<u8>,
    op: StoreOpView,
    reply: ReplyView,
)
    ensures
        store_start(state, key, value) matches StepView::Ask { request, then }
            ==> request.reply_kind() == then.phase.reply_kind(),
        store_next(state, op, reply).1 matches StepView::Ask { request, then }
            ==> request.reply_kind() == then.phase.reply_kind(),
{
}

/// The same holds of a store operation after a decision, and of the decision.
pub proof fn law_store_if_should_requests_fit(
    state: StorageState,
    key: ContentKeyView,
    value: Seq<u8>,
    op: StoreIfShouldOpView,
    reply: ReplyView,
)
    ensures
        should_store_start(key.content_id) matches StepView::Ask { request, .. }
            ==> request.reply_kind() == ReplyKind::Held,
        store_if_should_start(state, key, value) matches StepView::Ask { request, then }
            ==> request.reply_kind() == then.reply_kind(),
        store_if_should_next(state, op, reply).1 matches StepView::Ask { request, then }
            ==> request.reply_kind() == then.reply_kind(),
{
}

/// The same holds of the start of a storage.
pub proof fn law_new_requests_fit(storage: StorageState, op: NewOpView, reply: ReplyView)
    ensures
        storage.find_farthest_request().reply_kind() == (NewOpView::FindFarthest {
            storage,
        }).reply_kind(),
        new_next(op, reply) matches StepView::Ask { request, then } ==> request.reply_kind()
            == then.reply_kind(),
{
}

/// Of any other content than the master accumulator it is asked first whether it is held.
pub proof fn law_other_content_is_looked_up_first(content_id: Seq<u8>)
    requires
        !is_master_accumulator(content_id),
    ensures
        should_store_start(content_id) matches StepView::Ask { request, then } && {
            &&& request matches RequestView::HasContent { content_id: id }
            &&& id == content_id
            &&& then.content_id == content_id
        },
{
}

/// Content should be stored if it is not held yet, and either the radius is the largest distance or
/// the content is nearer than the radius. Asking changes nothing.
pub proof fn law_should_store_decides(
    databases: Databases,
    state: StorageState,
    content_id: Seq<u8>,
    reply: ReplyView,
    after: Databases,
)
    requires
        databases.answer(RequestView::HasContent { content_id }, reply, after),
        !is_failure(reply),
    ensures
        after == databases,
        should_store_next(state, ShouldStoreOpView { content_id }, reply) == Ok::<bool, ErrorView>(
            !databases.content.contains_key(content_id) && (state.radius >= max_distance()
                || xor_distance(content_id, state.node_id) < state.radius),
        ),
{
}

/// Whether content should be stored depends on the node's id and the radius alone, and on whether
/// the content is held: not on the storage's capacity, nor on the farthest content that it knows.
pub proof fn law_should_store_depends_on_id_and_radius(
    x: StorageState,
    y: StorageState,
    content_id: Seq<u8>,
    reply: ReplyView,
)
    requires
        x.node_id == y.node_id,
        x.radius == y.radius,
    ensures
        should_store_next(x, ShouldStoreOpView { content_id }, reply) == should_store_next(
            y,
            ShouldStoreOpView { content_id },
            reply,
        ),
{
}

/// If content should be stored, so should any content that is nearer and not held.
pub proof fn law_nearer_content_should_be_stored_too(
    state: StorageState,
    near: Seq<u8>,
    far: Seq<u8>,
    reply: ReplyView,
)
    requires
        xor_distance(near, state.node_id) <= xor_distance(far, state.node_id),
        reply.kind() == ReplyKind::Held,
        should_store_next(state, ShouldStoreOpView { content_id: far }, reply) == Ok::<
            bool,
            ErrorView,
        >(true),
    ensures
        should_store_next(state, ShouldStoreOpView { content_id: near }, reply) == Ok::<
            bool,
            ErrorView,
        >(true),
{
}

/// A failure to tell whether content is held is passed on by the decision.
pub proof fn law_should_store_passes_failures_on(
    state: StorageState,
    content_id: Seq<u8>,
    error: DatabaseErrorView,
)
    ensures
        should_store_next(state, ShouldStoreOpView { content_id }, ReplyView::Held(Err(error)))
            == Err::<bool, ErrorView>(passed_on(error)),
{
}

/// Retrieving content gives what its database holds under its id: the accumulator database for the
/// master accumulator, the content database for all other content. Retrieving changes nothing.
pub proof fn law_get_reads_what_is_held(
    databases: Databases,
    content_id: Seq<u8>,
    reply: ReplyView,
    after: Databases,
)
    requires
        databases.answer(get_request(content_id), reply, after),
        !is_failure(reply),
    ensures
        after == databases,
        ({
            let database = if is_master_accumulator(content_id) {
                databases.accumulator
            } else {
                databases.content
            };
            reply.bytes() == Ok::<Option<Seq<u8>>, ErrorView>(
                if database.contains_key(content_id) {
                    Some(database[content_id])
                } else {
                    None
                },
            )
        }),
{
}

/// The measured total is the sum of the recorded sizes, whatever it is, and the storage is over its
/// capacity exactly if that sum exceeds it.
pub proof fn law_measured_total_is_the_recorded_total(
    databases: Databases,
    state: StorageState,
    reply: ReplyView,
    after: Databases,
)
    requires
        databases.answer(RequestView::TotalSize, reply, after),
        !is_failure(reply),
    ensures
        after == databases,
        reply.total() matches Ok(total) && total == total_size(databases.metadata),
        over_capacity(state, reply) == Ok::<bool, ErrorView>(
            total_size(databases.metadata) > state.capacity,
        ),
{
}

/// Any sum that the metadata database reports is read as it is.
pub proof fn law_reported_total_is_read_as_it_is(total: u64, state: StorageState)
    ensures
        ReplyView::Total(Ok(Some(total))).total() == Ok::<u64, ErrorView>(total),
        over_capacity(state, ReplyView::Total(Ok(Some(total)))) == Ok::<bool, ErrorView>(
            total > state.capacity,
        ),
{
}

/// The master accumulator should be stored however far away it is, and is never refused.
pub proof fn law_master_accumulator_is_always_stored(
    state: StorageState,
    key: ContentKeyView,
    value: Seq<u8>,
)
    requires
        is_master_accumulator(key.content_id),
    ensures
        should_store_start(key.content_id) == (StepView::<ShouldStoreOpView, bool>::Done {
            result: Ok(true),
        }),
        store_start(state, key, value) is Ask,
{
}

/// Content that the node wants is not refused.
pub proof fn law_wanted_content_is_not_refused(
    state: StorageState,
    key: ContentKeyView,
    value: Seq<u8>,
)
    requires
        key.content_id.len() == 32,
        state.radius <= max_distance(),
        state.radius == max_distance() || xor_distance(key.content_id, state.node_id)
            < state.radius,
    ensures
        store_start(state, key, value) is Ask,
{
    lemma_max_distance_is_largest(xor_bytes(key.content_id, state.node_id));
}

/// Content is never refused once it has been decided to store it.
pub proof fn law_store_if_should_is_never_refused(
    state: StorageState,
    key: ContentKeyView,
    value: Seq<u8>,
    op: StoreIfShouldOpView,
    reply: ReplyView,
)
    requires
        key.content_id.len() == 32,
        state.radius <= max_distance(),
        op matches StoreIfShouldOpView::Decide { decision, key: decided, .. } ==> {
            &&& decision.content_id == decided.content_id
            &&& decided.content_id.len() == 32
        },
        reply.kind() == op.reply_kind(),
    ensures
        store_if_should_start(state, key, value) != (StepView::<StoreIfShouldOpView, bool>::Done {
            result: Err(ErrorView::OutsideDistanceError),
        }),
        store_if_should_next(state, op, reply).1 != (StepView::<StoreIfShouldOpView, bool>::Done {
            result: Err(ErrorView::OutsideDistanceError),
        }),
{
    match op {
        StoreIfShouldOpView::Decide { decision, key: decided, .. } => {
            if state.wants(decided.content_id) {
                law_wanted_content_is_not_refused(state, decided, value);
            }
        },
        StoreIfShouldOpView::Store { .. } => {
            if let ReplyView::Ids(Ok(ids)) = reply {
                law_farthest_of_is_farthest(state, ids);
            }
        },
    }
}

/// A store operation after a decision stores content that is not held yet and that the node wants,
/// and the master accumulator. It leaves other content alone, and says so.
pub proof fn law_store_if_should_stores_what_should_be_stored(
    databases: Databases,
    state: StorageState,
    key: ContentKeyView,
    value: Seq<u8>,
    reply: ReplyView,
    after: Databases,
)
    requires
        databases.answer(RequestView::HasContent { content_id: key.content_id }, reply, after),
        !is_failure(reply),
    ensures
        match store_if_should_start(state, key, value) {
            StepView::Ask { request, then } if !is_master_accumulator(key.content_id) => {
                &&& request == RequestView::HasContent { content_id: key.content_id }
                &&& after == databases
                &&& store_if_should_next(state, then, reply) == (
                    state,
                    if !databases.content.contains_key(key.content_id) && (state.radius
                        >= max_distance() || xor_distance(key.content_id, state.node_id)
                        < state.radius) {
                        storing(store_start(state, key, value))
                    } else {
                        StepView::Done { result: Ok(false) }
                    },
                )
            },
            step => {
                &&& is_master_accumulator(key.content_id)
                &&& step == storing(store_start(state, key, value))
            },
        },
{
    law_should_store_decides(databases, state, key.content_id, reply, after);
}

/// What comes of starting a storage, given what the metadata database answers when it is asked for
/// the farthest content and, if there is any, for the total size.
pub open spec fn new_outcome(
    config: PortalStorageConfig,
    found: ReplyView,
    measured: ReplyView,
) -> Result<StorageState, ErrorView> {
    match new_next(NewOpView::FindFarthest { storage: blank_state(config) }, found) {
        StepView::Done { result } => result,
        StepView::Ask { then, .. } => match new_next(then, measured) {
            StepView::Done { result } => result,
            StepView::Ask { .. } => arbitrary(),
        },
    }
}

/// Whether the metadata database answers what a storage asks when it starts. With nothing recorded,
/// the total size is not asked for.
pub open spec fn new_answered(
    config: PortalStorageConfig,
    databases: Databases,
    found: ReplyView,
    measured: ReplyView,
) -> bool {
    &&& databases.answer(blank_state(config).find_farthest_request(), found, databases)
    &&& !is_failure(found)
    &&& databases.metadata.dom().len() > 0 ==> {
        &&& databases.answer(RequestView::TotalSize, measured, databases)
        &&& !is_failure(measured)
    }
}

/// A storage that starts takes up what is stored. With nothing recorded it starts blank. Otherwise
/// its farthest content is the recorded content that is farthest from the node, and its radius is
/// that content's distance if the total size exceeds the capacity, and the largest distance if not.
pub proof fn law_new_takes_up_what_is_stored(
    config: PortalStorageConfig,
    databases: Databases,
    found: ReplyView,
    measured: ReplyView,
)
    requires
        databases.well_formed(),
        new_answered(config, databases, found, measured),
    ensures
        new_outcome(config, found, measured) matches Ok(state) && {
            &&& state.node_id == config.node_id.raw@
            &&& state.capacity == config.storage_capacity_kb * 1000
            &&& state.distance_function == config.distance_function
            &&& match state.farthest {
                Some(farthest) => {
                    &&& databases.metadata.contains_key(farthest)
                    &&& forall|id: Seq<u8>| #[trigger]
                        databases.metadata.contains_key(id) ==> state.distance_to(id)
                            <= state.distance_to(farthest)
                    &&& state.radius == if total_size(databases.metadata) > state.capacity {
                        state.distance_to(farthest)
                    } else {
                        max_distance()
                    }
                },
                None => {
                    &&& databases.metadata.dom().len() == 0
                    &&& state.radius == max_distance()
                },
            }
            &&& tracks(state, databases)
            &&& farthest_recorded(state, databases)
            &&& within_radius(state, databases)
        },
{
    let blank = blank_state(config);
    law_find_farthest(databases, blank, found, databases);
    match new_next(NewOpView::FindFarthest { storage: blank }, found) {
        StepView::Done { .. } => {
            assert(databases.metadata.dom() =~= Set::empty());
        },
        StepView::Ask { then, .. } => {
            assert(databases.metadata.dom().contains(then->Measure_farthest));
            assert forall|id: Seq<u8>| id.len() == 32 implies #[trigger] blank.distance_to(id)
                <= max_distance() by {
                lemma_max_distance_is_largest(xor_bytes(id, blank.node_id));
            }
            let state = new_outcome(config, found, measured)->Ok_0;
            assert forall|id: Seq<u8>| #[trigger] state.distance_to(id) == blank.distance_to(id) by {}
        },
    }
}

/// If the metadata database fails while a storage starts, the storage does not start, and the
/// failure is passed on. The same holds if it reports no sum, or an id that has not 32 bytes.
pub proof fn law_new_passes_failures_on(
    config: PortalStorageConfig,
    found: ReplyView,
    measured: ReplyView,
    cause: DatabaseErrorView,
    ids: Seq<Seq<u8>>,
    i: int,
)
    ensures
        new_outcome(config, ReplyView::Ids(Err(cause)), measured) == Err::<StorageState, ErrorView>(
            passed_on(cause),
        ),
        is_first_misfit(ids, i) ==> new_outcome(config, ReplyView::Ids(Ok(ids)), measured) == Err::<
            StorageState,
            ErrorView,
        >(
            ErrorView::DataSizeError {
                doing: "finding farthest content id"@,
                expected: 32,
                actual: ids[i].len(),
            },
        ),
        new_next(NewOpView::FindFarthest { storage: blank_state(config) }, found) is Ask ==> {
            &&& new_outcome(config, found, ReplyView::Total(Err(cause))) == Err::<
                StorageState,
                ErrorView,
            >(passed_on(cause))
            &&& new_outcome(config, found, ReplyView::Total(Ok(None))) == Err::<
                StorageState,
                ErrorView,
            >(ErrorView::SumError)
        },
{
    let state = blank_state(config);
    if is_first_misfit(ids, i) {
        law_farthest_of_is_farthest(state, ids);
        if let Err(error) = state.farthest_of(ids) {
            let k = choose|k: int| #[trigger]
                is_first_misfit(ids, k) && error == (ErrorView::DataSizeError {
                    doing: "finding farthest content id"@,
                    expected: 32,
                    actual: ids[k].len(),
                });
            assert(k == i);
        } else {
            assert(ids[i].len() == 32);
        }
    }
}

} // verus!
