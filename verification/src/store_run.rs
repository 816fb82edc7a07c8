//! Whole runs of the store operation, from its first request to its result.

use vstd::prelude::*;

use crate::databases::{failure, is_failure, law_find_farthest, lemma_total_size_remove};
use crate::databases::{lookup, part_of, total_size, Databases};
use crate::distance::xor_distance;
use crate::error::{passed_on, DatabaseErrorView, ErrorView};
use crate::hex_text::hex_digit;
use crate::operation::{get_request, should_store_next, store_next, store_start};
use crate::operation::{ShouldStoreOpView, StoreOpView, StorePhaseView};
use crate::request::{MetadataRowView, ReplyView, RequestView, StepView};
use crate::storage::{is_first_misfit, law_farthest_of_is_farthest, law_row_describes_its_content};
use crate::storage::{is_master_accumulator, metadata_row, ContentKeyView, StorageState};

verus! {

/// What a store operation starts from.
pub struct StoreStart {
    pub state: StorageState,
    pub databases: Databases,
    pub key: ContentKeyView,
    pub value: Seq<u8>,
}

/// A store operation under way: where storage, databases and operation stand.
#[verifier::ext_equal]
pub struct StoreRun {
    pub state: StorageState,
    pub databases: Databases,
    pub step: StepView<StoreOpView, ()>,
}

/// A database's answer to a request, and what the databases hold after it.
pub struct Exchange {
    pub reply: ReplyView,
    pub after: Databases,
}

/// Whether a storage's idea of its farthest content fits what is recorded: no recorded content lies
/// farther away, and where the storage knows of none, none is recorded.
pub open spec fn tracks(state: StorageState, databases: Databases) -> bool {
    match state.farthest {
        Some(farthest) => {
            &&& farthest.len() == 32
            &&& forall|id: Seq<u8>| #[trigger]
                databases.metadata.contains_key(id) ==> state.distance_to(id) <= state.distance_to(
                    farthest,
                )
        },
        None => forall|id: Seq<u8>| !#[trigger] databases.metadata.contains_key(id),
    }
}

/// Whether the content that a storage takes for the farthest is recorded.
pub open spec fn farthest_recorded(state: StorageState, databases: Databases) -> bool {
    state.farthest matches Some(farthest) ==> databases.metadata.contains_key(farthest)
}

/// Whether all recorded content, and the content that the storage takes for the farthest, lies
/// within the radius. The master accumulator may lie anywhere.
pub open spec fn within_radius(state: StorageState, databases: Databases) -> bool {
    &&& forall|id: Seq<u8>| #[trigger]
        databases.metadata.contains_key(id) && !is_master_accumulator(id) ==> state.distance_to(id)
            <= state.radius
    &&& state.farthest matches Some(farthest) ==> is_master_accumulator(farthest)
        || state.distance_to(farthest) <= state.radius
}

impl StoreStart {
    /// The operation before its first request is answered.
    pub open spec fn run(self) -> StoreRun {
        StoreRun {
            state: self.state,
            databases: self.databases,
            step: store_start(self.state, self.key, self.value),
        }
    }

    /// The content database once the new content has been written.
    pub open spec fn content(self) -> Map<Seq<u8>, Seq<u8>> {
        self.databases.content.insert(self.key.content_id, self.value)
    }

    /// The metadata table once the new content has been recorded.
    pub open spec fn metadata(self) -> Map<Seq<u8>, MetadataRowView> {
        self.databases.metadata.insert(self.key.content_id, metadata_row(self.key, self.value))
    }

    /// The accumulator database once the new content has been written there, if it belongs there.
    pub open spec fn accumulator(self) -> Map<Seq<u8>, Seq<u8>> {
        if is_master_accumulator(self.key.content_id) {
            self.databases.accumulator.insert(self.key.content_id, self.value)
        } else {
            self.databases.accumulator
        }
    }

    /// The databases as they were, but for the accumulator database.
    pub open spec fn written_to_accumulator(self) -> Databases {
        Databases { accumulator: self.accumulator(), ..self.databases }
    }

    /// The request that brings the content database back to what it held under the new content's
    /// id.
    pub open spec fn revert_insert(self) -> RequestView {
        let content_id = self.key.content_id;
        match lookup(self.databases.content, content_id) {
            Some(value) => RequestView::PutContent { content_id, value },
            None => RequestView::DeleteContent { content_id },
        }
    }

    /// Ids have 32 bytes, the metadata table is well formed, and the storage keeps track of it.
    pub open spec fn valid(self) -> bool {
        &&& self.key.content_id.len() == 32
        &&& self.state.node_id.len() == 32
        &&& self.databases.well_formed()
        &&& tracks(self.state, self.databases)
    }

    /// The content that is the first to be dropped, if any must be.
    pub open spec fn first(self) -> Seq<u8> {
        self.state.farthest_with(self.key.content_id)
    }

    /// The databases hold the new content and what they held before, less some recorded content of
    /// which both value and record are gone. Content without a record stays, unless the storage
    /// took it for the farthest.
    pub open spec fn retained_in(self, databases: Databases) -> bool {
        &&& databases.accumulator == self.accumulator()
        &&& part_of(databases.content, self.content())
        &&& part_of(databases.metadata, self.metadata())
        &&& forall|id: Seq<u8>|
            #![trigger databases.content.contains_key(id)]
            #![trigger databases.metadata.contains_key(id)]
            self.content().contains_key(id) && self.metadata().contains_key(id) ==> (
            databases.content.contains_key(id) <==> databases.metadata.contains_key(id))
        &&& forall|id: Seq<u8>| #[trigger]
            self.content().contains_key(id) && !self.metadata().contains_key(id)
                && self.state.farthest != Some(id) ==> databases.content.contains_key(id)
    }

    /// No value but that of the new content has been altered or added.
    pub open spec fn others_unaltered_in(self, databases: Databases) -> bool {
        forall|id: Seq<u8>| #[trigger]
            databases.content.contains_key(id) && id != self.key.content_id
                ==> self.databases.content.contains_key(id) && databases.content[id]
                == self.databases.content[id]
    }

    /// No record but that of the new content has been altered or added.
    pub open spec fn other_records_unaltered_in(self, databases: Databases) -> bool {
        forall|id: Seq<u8>| #[trigger]
            databases.metadata.contains_key(id) ==> {
                ||| self.databases.metadata.contains_key(id) && databases.metadata[id]
                    == self.databases.metadata[id]
                ||| id == self.key.content_id && databases.metadata[id] == metadata_row(
                    self.key,
                    self.value,
                )
            }
    }

    /// Whether some recorded content has been dropped.
    pub open spec fn dropped(self, databases: Databases, id: Seq<u8>) -> bool {
        self.metadata().contains_key(id) && !databases.metadata.contains_key(id)
    }

    /// No dropped content is nearer than content that was kept.
    pub open spec fn farthest_dropped_from(self, databases: Databases) -> bool {
        forall|gone: Seq<u8>, kept: Seq<u8>| #[trigger]
            self.dropped(databases, gone) && #[trigger] databases.metadata.contains_key(kept)
                ==> self.state.distance_to(kept) <= self.state.distance_to(gone)
    }

    /// Whether some content has been dropped, and no content nearer than it.
    pub open spec fn nearest_dropped(self, databases: Databases, id: Seq<u8>) -> bool {
        &&& self.dropped(databases, id)
        &&& forall|gone: Seq<u8>| #[trigger]
            self.dropped(databases, gone) ==> self.state.distance_to(id) <= self.state.distance_to(
                gone,
            )
    }

    /// Where content was dropped, the nearest of it would not have fitted in with what was kept.
    pub open spec fn needed_room_in(self, databases: Databases) -> bool {
        databases.metadata == self.metadata() || exists|gone: Seq<u8>| #[trigger]
            self.nearest_dropped(databases, gone) && total_size(
                databases.metadata.insert(gone, self.metadata()[gone]),
            ) > self.state.capacity
    }

    /// All of the above: what holds while content is being dropped, and after.
    pub open spec fn stored_in(self, databases: Databases) -> bool {
        &&& self.retained_in(databases)
        &&& self.farthest_dropped_from(databases)
        &&& self.needed_room_in(databases)
    }

    /// The radius is what it was if the new content fits in. If it does not, the radius is the
    /// distance of the farthest content that is left. Where none is left, the radius stays what it
    /// was before the last content was dropped: what it was at first if no other content had been
    /// dropped, and otherwise the distance of the last content.
    pub open spec fn radius_set(self, state: StorageState, databases: Databases) -> bool {
        if total_size(self.metadata()) <= self.state.capacity {
            state.radius == self.state.radius
        } else if databases.metadata.dom().len() > 0 {
            &&& state.farthest matches Some(farthest)
            &&& databases.metadata.contains_key(farthest)
            &&& forall|id: Seq<u8>| #[trigger]
                databases.metadata.contains_key(id) ==> state.distance_to(id) <= state.distance_to(
                    farthest,
                )
            &&& state.radius == state.distance_to(farthest)
        } else {
            &&& state.farthest is None
            &&& if self.metadata().remove(self.first()).dom().len() == 0 {
                state.radius == self.state.radius
            } else {
                exists|gone: Seq<u8>| #[trigger]
                    self.nearest_dropped(databases, gone) && state.radius == state.distance_to(gone)
            }
        }
    }
}

impl StoreRun {
    /// Whether an exchange answers what the operation asks.
    pub open spec fn takes(self, exchange: Exchange) -> bool {
        self.step matches StepView::Ask { request, .. } && self.databases.answer(
            request,
            exchange.reply,
            exchange.after,
        )
    }

    /// The operation after an exchange.
    pub open spec fn after(self, exchange: Exchange) -> StoreRun {
        let (state, step) = store_next(self.state, self.step->then, exchange.reply);
        StoreRun { state, databases: exchange.after, step }
    }

    /// Whether a sequence of exchanges leads from here to some end.
    pub open spec fn reaches(self, exchanges: Seq<Exchange>, end: StoreRun) -> bool
        decreases exchanges.len(),
    {
        if exchanges.len() == 0 {
            end == self
        } else {
            self.takes(exchanges[0]) && self.after(exchanges[0]).reaches(exchanges.skip(1), end)
        }
    }
}

/// The databases before the deletion of some content's value.
spec fn with_value(databases: Databases, id: Seq<u8>, value: Option<Seq<u8>>) -> Databases {
    match value {
        Some(value) => Databases { content: databases.content.insert(id, value), ..databases },
        None => databases,
    }
}

/// What holds while content may have to be dropped, with `farthest` next.
spec fn dropping(start: StoreStart, state: StorageState, databases: Databases, farthest: Seq<u8>) -> bool {
    &&& state.farthest == Some(farthest)
    &&& start.stored_in(databases)
    &&& if farthest == start.first() {
        &&& databases.content == start.content()
        &&& databases.metadata == start.metadata()
        &&& state.radius == start.state.radius
    } else {
        &&& databases.metadata.contains_key(farthest)
        &&& !databases.metadata.contains_key(start.first())
        &&& state.radius == start.state.distance_to(farthest)
        &&& total_size(start.metadata()) > start.state.capacity
    }
}

/// The same once the total size has been found to exceed the capacity.
spec fn over(start: StoreStart, state: StorageState, databases: Databases, farthest: Seq<u8>) -> bool {
    &&& dropping(start, state, databases, farthest)
    &&& total_size(databases.metadata) > start.state.capacity
}

/// What holds between two answers.
spec fn invariant_holds(start: StoreStart, run: StoreRun) -> bool {
    &&& run.databases.well_formed()
    &&& tracks(run.state, run.databases)
    &&& run.state.node_id == start.state.node_id
    &&& run.state.capacity == start.state.capacity
    &&& run.state.distance_function == start.state.distance_function
    &&& start.others_unaltered_in(run.databases)
    &&& start.other_records_unaltered_in(run.databases)
    &&& run.databases.accumulator == start.databases.accumulator || run.databases.accumulator
        == start.accumulator()
    &&& match run.step {
        StepView::Ask { request, then } => {
            &&& then.key == start.key
            &&& then.value == start.value
            &&& invariant_while(start, run.state, run.databases, request, then.phase)
        },
        StepView::Done { result } => invariant_at_end(start, run.state, run.databases, result),
    }
}

/// What holds while an answer is awaited.
spec fn invariant_while(
    start: StoreStart,
    state: StorageState,
    databases: Databases,
    request: RequestView,
    phase: StorePhaseView,
) -> bool {
    let content_id = start.key.content_id;
    let held = lookup(start.databases.content, content_id);
    match phase {
        StorePhaseView::PutAccumulator => {
            &&& request == RequestView::PutAccumulator { content_id, value: start.value }
            &&& is_master_accumulator(content_id)
            &&& state == start.state
            &&& databases == start.databases
        },
        StorePhaseView::ReadPrevious => {
            &&& request == RequestView::GetContent { content_id }
            &&& state == start.state
            &&& databases == start.written_to_accumulator()
        },
        StorePhaseView::PutContent { previous } => {
            &&& request == RequestView::PutContent { content_id, value: start.value }
            &&& previous == held || previous is None
            &&& state == start.state
            &&& databases == start.written_to_accumulator()
        },
        StorePhaseView::InsertMetadata { previous } => {
            &&& request == RequestView::InsertMetadata {
                row: metadata_row(start.key, start.value),
            }
            &&& previous == held || previous is None
            &&& state == start.state
            &&& databases == (Databases {
                content: start.content(),
                ..start.written_to_accumulator()
            })
        },
        StorePhaseView::RevertInsert => {
            &&& request == start.revert_insert() || request == (RequestView::DeleteContent {
                content_id,
            })
            &&& state == start.state
            &&& databases == (Databases {
                content: start.content(),
                ..start.written_to_accumulator()
            })
        },
        StorePhaseView::Measure { farthest } => {
            &&& request == RequestView::TotalSize
            &&& databases.metadata.dom().len() > 0
            &&& dropping(start, state, databases, farthest)
        },
        StorePhaseView::ReadFarthest { farthest } => {
            &&& request == RequestView::GetContent { content_id: farthest }
            &&& over(start, state, databases, farthest)
        },
        StorePhaseView::DeleteFarthest { farthest, value } => {
            &&& request == RequestView::DeleteContent { content_id: farthest }
            &&& over(start, state, databases, farthest)
            &&& value == lookup(databases.content, farthest)
        },
        StorePhaseView::ForgetFarthest { farthest, value } => {
            let before = with_value(databases, farthest, value);
            &&& request == RequestView::RemoveMetadata { content_id: farthest }
            &&& over(start, state, before, farthest)
            &&& databases.content == before.content.remove(farthest)
            &&& value == lookup(before.content, farthest)
        },
        StorePhaseView::RevertRemove { farthest } => {
            &&& request matches RequestView::PutContent { content_id: id, value }
            &&& id == farthest
            &&& over(start, state, with_value(databases, farthest, Some(value)), farthest)
        },
        StorePhaseView::FindFarthest => {
            &&& request == start.state.find_farthest_request()
            &&& state.farthest matches Some(farthest)
            &&& !databases.metadata.contains_key(farthest)
            &&& !databases.metadata.contains_key(start.first())
            &&& start.stored_in(databases)
            &&& total_size(start.metadata()) > start.state.capacity
            &&& if farthest == start.first() {
                &&& databases.metadata == start.metadata().remove(farthest)
                &&& state.radius == start.state.radius
            } else {
                &&& start.nearest_dropped(databases, farthest)
                &&& state.radius == start.state.distance_to(farthest)
            }
        },
    }
}

/// What holds of each result.
spec fn invariant_at_end(
    start: StoreStart,
    state: StorageState,
    databases: Databases,
    result: Result<(), ErrorView>,
) -> bool {
    let content_id = start.key.content_id;
    match result {
        Ok(_) => {
            &&& start.stored_in(databases)
            &&& start.radius_set(state, databases)
            &&& total_size(databases.metadata) <= start.state.capacity
                || databases.metadata.dom().len() == 0
            &&& total_size(start.metadata()) <= start.state.capacity ==> {
                &&& databases.content == start.content()
                &&& databases.metadata == start.metadata()
                &&& state.farthest == Some(start.first())
            }
        },
        Err(ErrorView::OutsideDistanceError) => {
            &&& !is_master_accumulator(content_id)
            &&& start.state.distance_to(content_id) > start.state.radius
            &&& state == start.state
            &&& databases == start.databases
        },
        Err(ErrorView::InsertError { content_id: id }) => {
            &&& id == content_id
            &&& state == start.state
            &&& databases == start.written_to_accumulator() || databases == (Databases {
                content: start.databases.content.remove(content_id),
                ..start.written_to_accumulator()
            })
        },
        Err(ErrorView::RemoveError { content_id: id }) => over(start, state, databases, id),
        Err(_) => true,
    }
}

/// A table holds no more than one that contains it.
proof fn lemma_total_size_monotonic(
    part: Map<Seq<u8>, MetadataRowView>,
    whole: Map<Seq<u8>, MetadataRowView>,
)
    requires
        part.dom().finite(),
        whole.dom().finite(),
        part_of(part, whole),
    ensures
        total_size(part) <= total_size(whole),
    decreases part.dom().len(),
{
    if part.dom().len() > 0 {
        let id = part.dom().choose();
        assert(part.contains_key(id));
        assert(whole.contains_key(id));
        lemma_total_size_remove(part, id);
        lemma_total_size_remove(whole, id);
        assert(part_of(part.remove(id), whole.remove(id)));
        lemma_total_size_monotonic(part.remove(id), whole.remove(id));
    }
}

/// The invariant holds before the first answer.
proof fn lemma_invariant_begins(start: StoreStart)
    requires
        start.valid(),
    ensures
        invariant_holds(start, start.run()),
{
}

/// Every answer preserves the invariant.
proof fn lemma_invariant_preserved(start: StoreStart, run: StoreRun, exchange: Exchange)
    requires
        start.valid(),
        invariant_holds(start, run),
        run.takes(exchange),
    ensures
        invariant_holds(start, run.after(exchange)),
{
    let op = run.step->then;
    match op.phase {
        StorePhaseView::PutAccumulator => {},
        StorePhaseView::ReadPrevious => {},
        StorePhaseView::PutContent { previous } => {},
        StorePhaseView::InsertMetadata { previous } => {
            lemma_inserted(start, run, exchange);
        },
        StorePhaseView::RevertInsert => {
            if !is_failure(exchange.reply) {
                assert(exchange.after.content =~= start.databases.content
                    || exchange.after.content =~= start.databases.content.remove(
                    start.key.content_id,
                ));
            }
        },
        StorePhaseView::Measure { farthest } => {
            lemma_total_size_monotonic(run.databases.metadata, start.metadata());
        },
        StorePhaseView::ReadFarthest { farthest } => {},
        StorePhaseView::DeleteFarthest { farthest, value } => {
            lemma_deleted(start, run, exchange);
        },
        StorePhaseView::ForgetFarthest { farthest, value } => {
            lemma_forgotten(start, run, exchange);
        },
        StorePhaseView::RevertRemove { farthest } => {},
        StorePhaseView::FindFarthest => {
            lemma_found(start, run, exchange);
        },
    }
}

proof fn lemma_inserted(start: StoreStart, run: StoreRun, exchange: Exchange)
    requires
        start.valid(),
        invariant_holds(start, run),
        run.takes(exchange),
        run.step->then.phase is InsertMetadata,
    ensures
        invariant_holds(start, run.after(exchange)),
{
    if !is_failure(exchange.reply) {
        assert(exchange.after.metadata == start.metadata());
        assert(exchange.after.metadata.dom().contains(start.key.content_id));
        assert(start.stored_in(exchange.after));
        assert(tracks(run.after(exchange).state, exchange.after));
    }
}

proof fn lemma_deleted(start: StoreStart, run: StoreRun, exchange: Exchange)
    requires
        start.valid(),
        invariant_holds(start, run),
        run.takes(exchange),
        run.step->then.phase is DeleteFarthest,
    ensures
        invariant_holds(start, run.after(exchange)),
{
    let op = run.step->then;
    let farthest = op.phase->DeleteFarthest_farthest;
    let value = op.phase->DeleteFarthest_value;
    if !is_failure(exchange.reply) {
        assert(with_value(exchange.after, farthest, value) =~= run.databases);
    }
}

proof fn lemma_forgotten(start: StoreStart, run: StoreRun, exchange: Exchange)
    requires
        start.valid(),
        invariant_holds(start, run),
        run.takes(exchange),
        run.step->then.phase is ForgetFarthest,
    ensures
        invariant_holds(start, run.after(exchange)),
{
    let op = run.step->then;
    let farthest = op.phase->ForgetFarthest_farthest;
    let value = op.phase->ForgetFarthest_value;
    let before = with_value(run.databases, farthest, value);
    let after = exchange.after;
    if !is_failure(exchange.reply) {
        assert(after.content == before.content.remove(farthest));
        assert(after.metadata == before.metadata.remove(farthest));
        assert forall|id: Seq<u8>|
            start.content().contains_key(id) && start.metadata().contains_key(id) implies (
        #[trigger] after.content.contains_key(id) <==> #[trigger] after.metadata.contains_key(id)) by {
            assert(before.content.contains_key(id) <==> before.metadata.contains_key(id));
        }
        assert forall|id: Seq<u8>| #[trigger]
            start.content().contains_key(id) && !start.metadata().contains_key(id)
                && start.state.farthest != Some(id) implies after.content.contains_key(id) by {
            assert(before.content.contains_key(id));
        }
        assert(start.retained_in(after));
        assert forall|gone: Seq<u8>, kept: Seq<u8>| #[trigger]
            start.dropped(after, gone) && #[trigger] after.metadata.contains_key(
                kept,
            ) implies start.state.distance_to(kept) <= start.state.distance_to(gone) by {
            assert(before.metadata.contains_key(kept));
            if gone != farthest {
                assert(start.dropped(before, gone));
            }
        }
        if before.metadata.contains_key(farthest) {
            assert forall|gone: Seq<u8>| #[trigger]
                start.dropped(after, gone) implies start.state.distance_to(farthest)
                <= start.state.distance_to(gone) by {
                if gone != farthest {
                    assert(start.dropped(before, gone));
                }
            }
            assert(start.nearest_dropped(after, farthest));
            assert(after.metadata.insert(farthest, start.metadata()[farthest]) =~= before.metadata);
        } else {
            assert(after.metadata =~= before.metadata);
        }
        assert(start.needed_room_in(after));
    } else if value is None {
        assert(before == after);
    }
}

proof fn lemma_found(start: StoreStart, run: StoreRun, exchange: Exchange)
    requires
        start.valid(),
        invariant_holds(start, run),
        run.takes(exchange),
        run.step->then.phase is FindFarthest,
    ensures
        invariant_holds(start, run.after(exchange)),
{
    if !is_failure(exchange.reply) {
        law_find_farthest(run.databases, run.state, exchange.reply, exchange.after);
        let after = run.after(exchange);
        match after.state.farthest {
            Some(farthest) => {
                assert(after.databases.metadata.dom().contains(farthest));
            },
            None => {
                assert(after.databases.metadata.dom() =~= Set::empty());
            },
        }
    }
}

/// The invariant holds wherever a run gets to.
proof fn lemma_invariant_reached(
    start: StoreStart,
    run: StoreRun,
    exchanges: Seq<Exchange>,
    end: StoreRun,
)
    requires
        start.valid(),
        invariant_holds(start, run),
        run.reaches(exchanges, end),
    ensures
        invariant_holds(start, end),
    decreases exchanges.len(),
{
    if exchanges.len() > 0 {
        lemma_invariant_preserved(start, run, exchanges[0]);
        lemma_invariant_reached(start, run.after(exchanges[0]), exchanges.skip(1), end);
    }
}

/// The number of rounds in which content can still be dropped.
spec fn rounds(databases: Databases, farthest: Seq<u8>) -> int {
    if databases.metadata.contains_key(farthest) {
        databases.metadata.dom().len() as int
    } else {
        databases.metadata.dom().len() + 1int
    }
}

/// A bound on the answers that a run still waits for.
spec fn answers_left(run: StoreRun) -> int {
    let rows = run.databases.metadata.dom().len() as int;
    match run.step {
        StepView::Done { .. } => 0,
        StepView::Ask { then, .. } => match then.phase {
            StorePhaseView::PutAccumulator => 5 * rows + 15,
            StorePhaseView::ReadPrevious => 5 * rows + 14,
            StorePhaseView::PutContent { .. } => 5 * rows + 13,
            StorePhaseView::InsertMetadata { .. } => 5 * rows + 12,
            StorePhaseView::RevertInsert => 1,
            StorePhaseView::Measure { farthest } => 5 * rounds(run.databases, farthest) + 1,
            StorePhaseView::ReadFarthest { farthest } => 5 * rounds(run.databases, farthest),
            StorePhaseView::DeleteFarthest { farthest, .. } => 5 * rounds(run.databases, farthest) - 1,
            StorePhaseView::ForgetFarthest { farthest, .. } => 5 * rounds(run.databases, farthest) - 2,
            StorePhaseView::RevertRemove { .. } => 1,
            StorePhaseView::FindFarthest => 5 * rows + 2,
        },
    }
}

/// Every answer leaves fewer to wait for.
proof fn lemma_answers_left_decreases(start: StoreStart, run: StoreRun, exchange: Exchange)
    requires
        start.valid(),
        invariant_holds(start, run),
        run.takes(exchange),
    ensures
        0 <= answers_left(run.after(exchange)) < answers_left(run),
{
    let op = run.step->then;
    match op.phase {
        StorePhaseView::InsertMetadata { .. } => {
            assert(exchange.after.metadata.dom().len() <= run.databases.metadata.dom().len() + 1);
        },
        StorePhaseView::Measure { farthest } => {
            lemma_rounds(run.databases, farthest);
        },
        StorePhaseView::ReadFarthest { farthest } => {
            lemma_rounds(run.databases, farthest);
        },
        StorePhaseView::DeleteFarthest { farthest, .. } => {
            lemma_rounds(run.databases, farthest);
        },
        StorePhaseView::ForgetFarthest { farthest, .. } => {
            lemma_rounds(run.databases, farthest);
        },
        StorePhaseView::FindFarthest => {
            if !is_failure(exchange.reply) {
                law_find_farthest(run.databases, run.state, exchange.reply, exchange.after);
            }
        },
        _ => {},
    }
}

/// There is at least one round, and removing the farthest content takes one away.
proof fn lemma_rounds(databases: Databases, farthest: Seq<u8>)
    requires
        databases.metadata.dom().finite(),
    ensures
        rounds(databases, farthest) >= 1,
        databases.metadata.remove(farthest).dom().len() == rounds(databases, farthest) - 1,
{
    if !databases.metadata.contains_key(farthest) {
        assert(databases.metadata.remove(farthest) =~= databases.metadata);
    }
}

proof fn lemma_run_is_bounded(
    start: StoreStart,
    run: StoreRun,
    exchanges: Seq<Exchange>,
    end: StoreRun,
)
    requires
        start.valid(),
        invariant_holds(start, run),
        answers_left(run) >= 0,
        run.reaches(exchanges, end),
    ensures
        exchanges.len() <= answers_left(run),
    decreases exchanges.len(),
{
    if exchanges.len() > 0 {
        lemma_invariant_preserved(start, run, exchanges[0]);
        lemma_answers_left_decreases(start, run, exchanges[0]);
        lemma_run_is_bounded(start, run.after(exchanges[0]), exchanges.skip(1), end);
    }
}

/// A store operation ends: it takes no more answers than fifteen, and five for each piece of
/// content that was recorded when it began.
pub proof fn law_store_ends(start: StoreStart, exchanges: Seq<Exchange>, end: StoreRun)
    requires
        start.valid(),
        start.run().reaches(exchanges, end),
    ensures
        exchanges.len() <= 5 * start.databases.metadata.dom().len() + 15,
{
    lemma_invariant_begins(start);
    lemma_run_is_bounded(start, start.run(), exchanges, end);
}

/// No answer but a failure makes an operation fail.
proof fn lemma_success_preserved(start: StoreStart, run: StoreRun, exchange: Exchange)
    requires
        start.valid(),
        invariant_holds(start, run),
        run.takes(exchange),
        !is_failure(exchange.reply),
        run.step->then.phase !is RevertInsert,
        run.step->then.phase !is RevertRemove,
    ensures
        match run.after(exchange).step {
            StepView::Ask { then, .. } => then.phase !is RevertInsert && then.phase !is RevertRemove,
            StepView::Done { result } => result is Ok,
        },
{
    if run.step->then.phase is FindFarthest {
        law_find_farthest(run.databases, run.state, exchange.reply, exchange.after);
    }
}

proof fn lemma_success_reached(
    start: StoreStart,
    run: StoreRun,
    exchanges: Seq<Exchange>,
    end: StoreRun,
)
    requires
        start.valid(),
        invariant_holds(start, run),
        run.reaches(exchanges, end),
        forall|i: int| 0 <= i < exchanges.len() ==> !is_failure(#[trigger] exchanges[i].reply),
        match run.step {
            StepView::Ask { then, .. } => then.phase !is RevertInsert && then.phase !is RevertRemove,
            StepView::Done { result } => result is Ok,
        },
    ensures
        end.step matches StepView::Done { result } ==> result is Ok,
    decreases exchanges.len(),
{
    if exchanges.len() > 0 {
        lemma_invariant_preserved(start, run, exchanges[0]);
        lemma_success_preserved(start, run, exchanges[0]);
        assert forall|i: int| 0 <= i < exchanges.skip(1).len() implies !is_failure(
            #[trigger] exchanges.skip(1)[i].reply,
        ) by {
            assert(exchanges.skip(1)[i] == exchanges[i + 1]);
        }
        lemma_success_reached(start, run.after(exchanges[0]), exchanges.skip(1), end);
    }
}

/// Storing content that is not refused succeeds if no database fails.
pub proof fn law_store_succeeds(start: StoreStart, exchanges: Seq<Exchange>, end: StoreRun)
    requires
        start.valid(),
        start.run().reaches(exchanges, end),
        end.step is Done,
        forall|i: int| 0 <= i < exchanges.len() ==> !is_failure(#[trigger] exchanges[i].reply),
        is_master_accumulator(start.key.content_id) || start.state.distance_to(
            start.key.content_id,
        ) <= start.state.radius,
    ensures
        end.step == (StepView::<StoreOpView, ()>::Done { result: Ok(()) }),
{
    lemma_invariant_begins(start);
    lemma_success_reached(start, start.run(), exchanges, end);
    assert(end.step->result->Ok_0 == ());
}

/// The total size is only asked for while some content is recorded.
pub proof fn law_total_size_is_asked_of_recorded_content(
    start: StoreStart,
    exchanges: Seq<Exchange>,
    end: StoreRun,
)
    requires
        start.valid(),
        start.run().reaches(exchanges, end),
        end.step matches StepView::Ask { request, .. } && request == RequestView::TotalSize,
    ensures
        end.databases.metadata.dom().len() > 0,
{
    lemma_invariant_begins(start);
    lemma_invariant_reached(start, start.run(), exchanges, end);
}

/// Wherever a store operation gets to, and whatever fails on the way, the metadata table stays well
/// formed, no recorded content lies farther away than what the storage takes for the farthest, no
/// value and no record but that of the new content has been altered or added, and only storing the
/// master accumulator touches the accumulator database.
pub proof fn law_store_keeps_track(start: StoreStart, exchanges: Seq<Exchange>, end: StoreRun)
    requires
        start.valid(),
        start.run().reaches(exchanges, end),
    ensures
        end.databases.well_formed(),
        tracks(end.state, end.databases),
        end.state.node_id == start.state.node_id,
        end.state.capacity == start.state.capacity,
        end.state.distance_function == start.state.distance_function,
        start.others_unaltered_in(end.databases),
        start.other_records_unaltered_in(end.databases),
        !is_master_accumulator(start.key.content_id) ==> end.databases.accumulator
            == start.databases.accumulator,
{
    lemma_invariant_begins(start);
    lemma_invariant_reached(start, start.run(), exchanges, end);
}

/// Whether no attempt to read a value has failed.
pub open spec fn reads_succeed(exchanges: Seq<Exchange>) -> bool {
    forall|i: int|
        0 <= i < exchanges.len() ==> !(#[trigger] exchanges[i].reply matches ReplyView::Bytes(Err(_)))
}

/// Whether an operation stored the content, found that it should not be stored, refused it, or took
/// back what it had done when the metadata database failed. The other results are failures that
/// were passed on. Content whose record could not be written is taken back in full if what was held
/// under its id could be read.
pub open spec fn settled<P, T>(exchanges: Seq<Exchange>, step: StepView<P, T>) -> bool {
    step matches StepView::Done { result } && match result {
        Ok(_) => true,
        Err(ErrorView::OutsideDistanceError) => true,
        Err(ErrorView::InsertError { .. }) => reads_succeed(exchanges),
        Err(ErrorView::RemoveError { .. }) => true,
        Err(_) => false,
    }
}

/// Whether an operation that may have to take the new content back knows what was held under its
/// id, or has taken it back in full.
spec fn revertible(start: StoreStart, run: StoreRun) -> bool {
    let held = lookup(start.databases.content, start.key.content_id);
    match run.step {
        StepView::Ask { request, then } => match then.phase {
            StorePhaseView::PutContent { previous } => previous == held,
            StorePhaseView::InsertMetadata { previous } => previous == held,
            StorePhaseView::RevertInsert => request == start.revert_insert(),
            _ => true,
        },
        StepView::Done { result: Err(ErrorView::InsertError { .. }) } => run.databases.content
            == start.databases.content,
        StepView::Done { .. } => true,
    }
}

proof fn lemma_revertible(
    start: StoreStart,
    run: StoreRun,
    exchanges: Seq<Exchange>,
    end: StoreRun,
)
    requires
        start.valid(),
        invariant_holds(start, run),
        revertible(start, run),
        run.reaches(exchanges, end),
        reads_succeed(exchanges),
    ensures
        revertible(start, end),
    decreases exchanges.len(),
{
    if exchanges.len() > 0 {
        let after = run.after(exchanges[0]);
        let rest = exchanges.skip(1);
        lemma_invariant_preserved(start, run, exchanges[0]);
        assert(!(exchanges[0].reply matches ReplyView::Bytes(Err(_))));
        if run.step->then.phase is RevertInsert && !is_failure(exchanges[0].reply) {
            assert(after.databases.content =~= start.databases.content);
        }
        if run.step->then.phase is FindFarthest && !is_failure(exchanges[0].reply) {
            law_find_farthest(run.databases, run.state, exchanges[0].reply, exchanges[0].after);
        }
        assert forall|i: int| 0 <= i < rest.len() implies !(#[trigger] rest[i].reply matches ReplyView::Bytes(Err(_))) by {
            assert(rest[i] == exchanges[i + 1]);
        }
        lemma_revertible(start, after, rest, end);
    }
}

/// A store operation that is settled leaves the farthest content recorded, and leaves the content
/// database and the metadata table with the same content, if that was so before.
pub proof fn law_settled_store_leaves_the_databases_in_step(
    start: StoreStart,
    exchanges: Seq<Exchange>,
    end: StoreRun,
)
    requires
        start.valid(),
        start.run().reaches(exchanges, end),
        settled(exchanges, end.step),
    ensures
        farthest_recorded(start.state, start.databases) ==> farthest_recorded(
            end.state,
            end.databases,
        ),
        start.databases.mirrored() ==> end.databases.mirrored(),
{
    lemma_invariant_begins(start);
    lemma_invariant_reached(start, start.run(), exchanges, end);
    if reads_succeed(exchanges) {
        lemma_revertible(start, start.run(), exchanges, end);
    }
    if start.databases.mirrored() && start.stored_in(end.databases) {
        assert forall|id: Seq<u8>|
            start.content().contains_key(id) == #[trigger] start.metadata().contains_key(id) by {
            assert(start.databases.content.dom().contains(id)
                == start.databases.metadata.dom().contains(id));
        }
        assert forall|id: Seq<u8>|
            end.databases.content.dom().contains(id) == end.databases.metadata.dom().contains(
                id,
            ) by {
            if end.databases.content.contains_key(id) {
                assert(start.content().contains_key(id));
                assert(start.metadata().contains_key(id));
            }
            if end.databases.metadata.contains_key(id) {
                assert(start.metadata().contains_key(id));
            }
        }
        assert(end.databases.content.dom() =~= end.databases.metadata.dom());
    }
    assert(start.metadata().contains_key(start.key.content_id));
}

/// Once content has been stored, the total size does not exceed the capacity, unless nothing is
/// left at all.
pub proof fn law_store_keeps_within_capacity(
    start: StoreStart,
    exchanges: Seq<Exchange>,
    end: StoreRun,
)
    requires
        start.valid(),
        start.run().reaches(exchanges, end),
        end.step == (StepView::<StoreOpView, ()>::Done { result: Ok(()) }),
    ensures
        total_size(end.databases.metadata) <= start.state.capacity
            || end.databases.metadata.dom().len() == 0,
{
    lemma_invariant_begins(start);
    lemma_invariant_reached(start, start.run(), exchanges, end);
}

/// Once content has been stored, what was dropped to make room was the farthest content, and no
/// more of it than had to go: the nearest of it would not have fitted in with what was kept. What
/// was not dropped is held as before.
pub proof fn law_store_drops_the_farthest(
    start: StoreStart,
    exchanges: Seq<Exchange>,
    end: StoreRun,
)
    requires
        start.valid(),
        start.run().reaches(exchanges, end),
        end.step == (StepView::<StoreOpView, ()>::Done { result: Ok(()) }),
    ensures
        start.retained_in(end.databases),
        start.farthest_dropped_from(end.databases),
        start.needed_room_in(end.databases),
{
    lemma_invariant_begins(start);
    lemma_invariant_reached(start, start.run(), exchanges, end);
}

/// Whether every record gives the size of the value that is held.
pub open spec fn sizes_recorded(databases: Databases) -> bool {
    forall|id: Seq<u8>| #[trigger]
        databases.metadata.contains_key(id) ==> {
            &&& databases.content.contains_key(id)
            &&& databases.content[id].len() == databases.metadata[id].content_size
        }
}

/// The sum of the sizes of the values that a database holds.
pub open spec fn held_size(content: Map<Seq<u8>, Seq<u8>>) -> nat
    decreases content.dom().len(),
    when content.dom().finite()
{
    if content.dom().len() == 0 {
        0
    } else {
        let content_id = content.dom().choose();
        held_size(content.remove(content_id)) + content[content_id].len()
    }
}

/// Where the content database and the metadata table list the same content, and the recorded sizes
/// are those of the values, the total size that is measured is that of all content that is held.
pub proof fn law_total_size_is_that_of_the_held_content(databases: Databases)
    requires
        databases.metadata.dom().finite(),
        databases.mirrored(),
        sizes_recorded(databases),
    ensures
        total_size(databases.metadata) == held_size(databases.content),
    decreases databases.metadata.dom().len(),
{
    if databases.metadata.dom().len() > 0 {
        let id = databases.metadata.dom().choose();
        assert(databases.metadata.contains_key(id));
        let rest = Databases {
            content: databases.content.remove(id),
            metadata: databases.metadata.remove(id),
            ..databases
        };
        assert(rest.content.dom() =~= rest.metadata.dom());
        assert forall|other: Seq<u8>| #[trigger] rest.metadata.contains_key(other) implies {
            &&& rest.content.contains_key(other)
            &&& rest.content[other].len() == rest.metadata[other].content_size
        } by {
            assert(databases.metadata.contains_key(other));
        }
        law_total_size_is_that_of_the_held_content(rest);
    }
}

/// Storing content keeps the recorded sizes those of the values that are held, also where content
/// is stored again, and where the operation is refused or taken back.
pub proof fn law_store_records_sizes(start: StoreStart, exchanges: Seq<Exchange>, end: StoreRun)
    requires
        start.valid(),
        start.run().reaches(exchanges, end),
        settled(exchanges, end.step),
        sizes_recorded(start.databases),
    ensures
        sizes_recorded(end.databases),
{
    lemma_invariant_begins(start);
    lemma_invariant_reached(start, start.run(), exchanges, end);
    if reads_succeed(exchanges) {
        lemma_revertible(start, start.run(), exchanges, end);
    }
    if start.stored_in(end.databases) {
        assert forall|id: Seq<u8>| #[trigger] end.databases.metadata.contains_key(id) implies {
            &&& end.databases.content.contains_key(id)
            &&& end.databases.content[id].len() == end.databases.metadata[id].content_size
        } by {
            assert(start.metadata().contains_key(id));
            if id != start.key.content_id {
                assert(start.databases.metadata.contains_key(id));
            }
            assert(start.content().contains_key(id));
        }
    }
}

/// Once content has been stored, the radius is what it was if the content fits in, and otherwise
/// the distance of the farthest content that is left.
pub proof fn law_store_sets_the_radius(start: StoreStart, exchanges: Seq<Exchange>, end: StoreRun)
    requires
        start.valid(),
        start.run().reaches(exchanges, end),
        end.step == (StepView::<StoreOpView, ()>::Done { result: Ok(()) }),
    ensures
        start.radius_set(end.state, end.databases),
{
    lemma_invariant_begins(start);
    lemma_invariant_reached(start, start.run(), exchanges, end);
}

/// Storing content that fits in drops nothing and leaves the radius alone: afterwards the databases
/// hold the new content, its record, and all that they held before.
pub proof fn law_store_that_fits_drops_nothing(
    start: StoreStart,
    exchanges: Seq<Exchange>,
    end: StoreRun,
)
    requires
        start.valid(),
        start.run().reaches(exchanges, end),
        end.step == (StepView::<StoreOpView, ()>::Done { result: Ok(()) }),
        total_size(start.metadata()) <= start.state.capacity,
    ensures
        end.databases == (Databases {
            content: start.content(),
            metadata: start.metadata(),
            accumulator: start.accumulator(),
        }),
        end.state.radius == start.state.radius,
{
    lemma_invariant_begins(start);
    lemma_invariant_reached(start, start.run(), exchanges, end);
}

/// Once content has been stored, retrieving it gives back the stored value as long as its record is
/// there, and nothing if it was dropped at once. The master accumulator is given back in any case.
pub proof fn law_get_gives_back_what_was_stored(
    start: StoreStart,
    exchanges: Seq<Exchange>,
    end: StoreRun,
    reply: ReplyView,
    after: Databases,
)
    requires
        start.valid(),
        start.run().reaches(exchanges, end),
        end.step == (StepView::<StoreOpView, ()>::Done { result: Ok(()) }),
        end.databases.answer(get_request(start.key.content_id), reply, after),
        !is_failure(reply),
    ensures
        after == end.databases,
        reply.bytes() == Ok::<Option<Seq<u8>>, ErrorView>(
            if is_master_accumulator(start.key.content_id)
                || end.databases.metadata.contains_key(start.key.content_id) {
                Some(start.value)
            } else {
                None
            },
        ),
        total_size(start.metadata()) <= start.state.capacity
            ==> end.databases.metadata.contains_key(start.key.content_id),
{
    lemma_invariant_begins(start);
    lemma_invariant_reached(start, start.run(), exchanges, end);
    assert(start.content().contains_key(start.key.content_id));
    assert(start.metadata().contains_key(start.key.content_id));
}

/// An operation that does not ask to write to the accumulator database never does.
proof fn lemma_accumulator_untouched(run: StoreRun, exchanges: Seq<Exchange>, end: StoreRun)
    requires
        run.reaches(exchanges, end),
        run.step matches StepView::Ask { request, .. } ==> request !is PutAccumulator,
    ensures
        end.databases.accumulator == run.databases.accumulator,
    decreases exchanges.len(),
{
    if exchanges.len() > 0 {
        lemma_accumulator_untouched(run.after(exchanges[0]), exchanges.skip(1), end);
    }
}

/// Storing other content than the master accumulator, wherever it gets to and whatever state it
/// starts from, leaves the accumulator database alone.
pub proof fn law_store_leaves_the_accumulator_alone(
    start: StoreStart,
    exchanges: Seq<Exchange>,
    end: StoreRun,
)
    requires
        start.run().reaches(exchanges, end),
        !is_master_accumulator(start.key.content_id),
    ensures
        end.databases.accumulator == start.databases.accumulator,
{
    lemma_accumulator_untouched(start.run(), exchanges, end);
}

/// Storing other content, whatever comes of it, does not change what retrieving the master
/// accumulator gives.
pub proof fn law_master_accumulator_outlasts_other_content(
    start: StoreStart,
    exchanges: Seq<Exchange>,
    end: StoreRun,
    content_id: Seq<u8>,
    reply: ReplyView,
    after: Databases,
)
    requires
        start.run().reaches(exchanges, end),
        !is_master_accumulator(start.key.content_id),
        is_master_accumulator(content_id),
        end.databases.answer(get_request(content_id), reply, after),
        !is_failure(reply),
    ensures
        reply.bytes() == Ok::<Option<Seq<u8>>, ErrorView>(
            lookup(start.databases.accumulator, content_id),
        ),
{
    law_store_leaves_the_accumulator_alone(start, exchanges, end);
}

/// What an operation that is over says of the last answer.
proof fn lemma_last_answer(
    start: StoreStart,
    run: StoreRun,
    exchanges: Seq<Exchange>,
    end: StoreRun,
    error: ErrorView,
)
    requires
        start.valid(),
        invariant_holds(start, run),
        run.reaches(exchanges, end),
        run.step is Ask,
        end.step == (StepView::<StoreOpView, ()>::Done { result: Err(error) }),
        error !is InsertError,
        error !is RemoveError,
    ensures
        exchanges.len() > 0,
        failure(exchanges.last().reply) matches Some(cause) && error == passed_on(cause),
    decreases exchanges.len(),
{
    reveal_with_fuel(StoreRun::reaches, 2);
    let after = run.after(exchanges[0]);
    let rest = exchanges.skip(1);
    lemma_invariant_preserved(start, run, exchanges[0]);
    if after.step is Ask {
        lemma_last_answer(start, after, rest, end, error);
        assert(rest.last() == exchanges.last());
    } else {
        assert(rest.len() == 0);
        if run.step->then.phase is FindFarthest && !is_failure(exchanges[0].reply) {
            law_find_farthest(run.databases, run.state, exchanges[0].reply, exchanges[0].after);
        }
    }
}

/// A store operation that neither succeeds nor is refused nor takes anything back has passed on the
/// failure of the last database call, as it was.
pub proof fn law_store_passes_failures_on(
    start: StoreStart,
    exchanges: Seq<Exchange>,
    end: StoreRun,
    error: ErrorView,
)
    requires
        start.valid(),
        start.run().reaches(exchanges, end),
        end.step == (StepView::<StoreOpView, ()>::Done { result: Err(error) }),
        error != ErrorView::OutsideDistanceError,
        error !is InsertError,
        error !is RemoveError,
    ensures
        exchanges.len() > 0,
        failure(exchanges.last().reply) matches Some(cause) && error == passed_on(cause),
{
    lemma_invariant_begins(start);
    lemma_last_answer(start, start.run(), exchanges, end, error);
}

/// Content is not refused once a database has been asked.
proof fn lemma_not_refused_later(run: StoreRun, exchanges: Seq<Exchange>, end: StoreRun)
    requires
        run.reaches(exchanges, end),
        match run.step {
            StepView::Ask { request, then } => request.reply_kind() == then.phase.reply_kind(),
            StepView::Done { result } => result != Err::<(), ErrorView>(
                ErrorView::OutsideDistanceError,
            ),
        },
    ensures
        end.step != (StepView::<StoreOpView, ()>::Done {
            result: Err(ErrorView::OutsideDistanceError),
        }),
    decreases exchanges.len(),
{
    if exchanges.len() > 0 {
        if let ReplyView::Ids(Ok(ids)) = exchanges[0].reply {
            law_farthest_of_is_farthest(run.state, ids);
        }
        lemma_not_refused_later(run.after(exchanges[0]), exchanges.skip(1), end);
    }
}

/// Content outside the radius is refused, other than the master accumulator, and no other content
/// is. Refusing it changes nothing.
pub proof fn law_store_refuses_what_lies_outside(
    start: StoreStart,
    exchanges: Seq<Exchange>,
    end: StoreRun,
)
    requires
        start.run().reaches(exchanges, end),
    ensures
        end.step == (StepView::<StoreOpView, ()>::Done {
            result: Err(ErrorView::OutsideDistanceError),
        }) <==> {
            &&& !is_master_accumulator(start.key.content_id)
            &&& start.state.distance_to(start.key.content_id) > start.state.radius
        },
        end.step == (StepView::<StoreOpView, ()>::Done {
            result: Err(ErrorView::OutsideDistanceError),
        }) ==> end.state == start.state && end.databases == start.databases,
{
    if start.run().step is Ask {
        lemma_not_refused_later(start.run(), exchanges, end);
    } else {
        assert(exchanges.len() == 0);
    }
}

/// Every answer keeps the content within the radius and the radius from growing.
proof fn lemma_radius_preserved(start: StoreStart, run: StoreRun, exchange: Exchange)
    requires
        start.valid(),
        invariant_holds(start, run),
        run.takes(exchange),
        within_radius(run.state, run.databases),
        is_master_accumulator(start.key.content_id) || start.state.distance_to(start.key.content_id)
            <= start.state.radius,
    ensures
        within_radius(run.after(exchange).state, exchange.after),
        run.after(exchange).state.radius <= run.state.radius,
{
    if run.step->then.phase is FindFarthest && !is_failure(exchange.reply) {
        law_find_farthest(run.databases, run.state, exchange.reply, exchange.after);
    }
}

proof fn lemma_radius_reached(
    start: StoreStart,
    run: StoreRun,
    exchanges: Seq<Exchange>,
    end: StoreRun,
)
    requires
        start.valid(),
        invariant_holds(start, run),
        within_radius(run.state, run.databases),
        run.reaches(exchanges, end),
        run.step is Done || is_master_accumulator(start.key.content_id) || start.state.distance_to(
            start.key.content_id,
        ) <= start.state.radius,
    ensures
        within_radius(end.state, end.databases),
        end.state.radius <= run.state.radius,
    decreases exchanges.len(),
{
    if exchanges.len() > 0 {
        lemma_invariant_preserved(start, run, exchanges[0]);
        lemma_radius_preserved(start, run, exchanges[0]);
        lemma_radius_reached(start, run.after(exchanges[0]), exchanges.skip(1), end);
    }
}

/// Whatever a store operation comes to, the recorded content stays within the radius, but for the
/// master accumulator, and the radius does not grow.
pub proof fn law_store_does_not_widen_the_radius(
    start: StoreStart,
    exchanges: Seq<Exchange>,
    end: StoreRun,
)
    requires
        start.valid(),
        within_radius(start.state, start.databases),
        start.run().reaches(exchanges, end),
    ensures
        within_radius(end.state, end.databases),
        end.state.radius <= start.state.radius,
{
    lemma_invariant_begins(start);
    lemma_radius_reached(start, start.run(), exchanges, end);
}

/// If the metadata of new content cannot be written, the content is taken back: all is as it was,
/// but for the accumulator database if the master accumulator was being stored. If what was held
/// under the content's id could not be read, nothing is held under it after.
pub proof fn law_failed_insert_is_taken_back(
    start: StoreStart,
    exchanges: Seq<Exchange>,
    end: StoreRun,
    content_id: Seq<u8>,
)
    requires
        start.valid(),
        start.run().reaches(exchanges, end),
        end.step == (StepView::<StoreOpView, ()>::Done {
            result: Err(ErrorView::InsertError { content_id }),
        }),
    ensures
        content_id == start.key.content_id,
        end.state == start.state,
        end.databases.metadata == start.databases.metadata,
        end.databases.accumulator == start.accumulator(),
        reads_succeed(exchanges) ==> end.databases.content == start.databases.content,
        end.databases.content == start.databases.content || end.databases.content
            == start.databases.content.remove(content_id),
{
    lemma_invariant_begins(start);
    lemma_invariant_reached(start, start.run(), exchanges, end);
    if reads_succeed(exchanges) {
        lemma_revertible(start, start.run(), exchanges, end);
    }
}

/// If the metadata of content that is to be dropped cannot be removed, the error names that content
/// and its value is put back: the databases hold the new content and what they held before, less
/// the farther content that was dropped already. If it was the first to be dropped, they hold all
/// of it.
pub proof fn law_failed_removal_is_taken_back(
    start: StoreStart,
    exchanges: Seq<Exchange>,
    end: StoreRun,
    content_id: Seq<u8>,
)
    requires
        start.valid(),
        start.run().reaches(exchanges, end),
        end.step == (StepView::<StoreOpView, ()>::Done {
            result: Err(ErrorView::RemoveError { content_id }),
        }),
    ensures
        end.state.farthest == Some(content_id),
        total_size(end.databases.metadata) > start.state.capacity,
        start.retained_in(end.databases),
        start.farthest_dropped_from(end.databases),
        start.needed_room_in(end.databases),
        content_id == start.first() ==> {
            &&& end.databases.content == start.content()
            &&& end.databases.metadata == start.metadata()
            &&& end.state.radius == start.state.radius
        },
        content_id != start.first() ==> {
            &&& end.databases.metadata.contains_key(content_id)
            &&& end.state.radius == start.state.distance_to(content_id)
            &&& start.dropped(end.databases, start.first()) || !start.metadata().contains_key(
                start.first(),
            )
        },
{
    lemma_invariant_begins(start);
    lemma_invariant_reached(start, start.run(), exchanges, end);
}

/// An operation that cannot write the metadata of new content, and can take the content back, ends
/// in an error that names the content.
pub proof fn law_failed_insert_names_the_new_content(
    start: StoreStart,
    exchanges: Seq<Exchange>,
    run: StoreRun,
    row: MetadataRowView,
    failed: Exchange,
    reverted: Exchange,
)
    requires
        start.valid(),
        start.run().reaches(exchanges, run),
        run.step matches StepView::Ask { request, .. } && request == (RequestView::InsertMetadata {
            row,
        }),
        run.takes(failed),
        is_failure(failed.reply),
        run.after(failed).takes(reverted),
        !is_failure(reverted.reply),
    ensures
        run.after(failed).after(reverted).step == (StepView::<StoreOpView, ()>::Done {
            result: Err(ErrorView::InsertError { content_id: start.key.content_id }),
        }),
{
    lemma_invariant_begins(start);
    lemma_invariant_reached(start, start.run(), exchanges, run);
}

/// An operation that cannot remove the metadata of content that is to be dropped, and can put the
/// content back if it was held, ends in an error that names that content.
pub proof fn law_failed_removal_names_the_dropped_content(
    start: StoreStart,
    exchanges: Seq<Exchange>,
    run: StoreRun,
    content_id: Seq<u8>,
    failed: Exchange,
    reverted: Exchange,
)
    requires
        start.valid(),
        start.run().reaches(exchanges, run),
        run.step matches StepView::Ask { request, .. } && request == (RequestView::RemoveMetadata {
            content_id,
        }),
        run.takes(failed),
        is_failure(failed.reply),
        run.after(failed).step is Ask ==> run.after(failed).takes(reverted) && !is_failure(
            reverted.reply,
        ),
    ensures
        ({
            let end = if run.after(failed).step is Ask {
                run.after(failed).after(reverted)
            } else {
                run.after(failed)
            };
            end.step == (StepView::<StoreOpView, ()>::Done {
                result: Err(ErrorView::RemoveError { content_id }),
            })
        }),
{
    lemma_invariant_begins(start);
    lemma_invariant_reached(start, start.run(), exchanges, run);
}

/// The row that a store operation records holds the new content's whole id, the first four bytes of
/// it as a number, the hexadecimal digits of every byte of its encoded key, and the size of its
/// value.
pub proof fn law_recorded_row_describes_the_new_content(
    start: StoreStart,
    exchanges: Seq<Exchange>,
    run: StoreRun,
    row: MetadataRowView,
)
    requires
        start.valid(),
        start.run().reaches(exchanges, run),
        run.step matches StepView::Ask { request, .. } && request == (RequestView::InsertMetadata {
            row,
        }),
    ensures
        row.content_id_long == start.key.content_id,
        row.content_id_short == start.key.content_id[0] * 0x1000000 + start.key.content_id[1]
            * 0x10000 + start.key.content_id[2] * 0x100 + start.key.content_id[3],
        row.content_key.len() == 2 * start.key.encoded.len(),
        forall|i: int| #![trigger start.key.encoded[i]]
            0 <= i < start.key.encoded.len() ==> {
                &&& row.content_key[2 * i] == hex_digit(start.key.encoded[i] as int / 16)
                &&& row.content_key[2 * i + 1] == hex_digit(start.key.encoded[i] as int % 16)
            },
        row.content_size == start.value.len(),
{
    lemma_invariant_begins(start);
    lemma_invariant_reached(start, start.run(), exchanges, run);
    law_row_describes_its_content(start.key, start.value);
}

/// A database call that fails changes nothing in the storage. It ends the operation with its own
/// failure, but for three: content is stored though what was held under its id could not be read,
/// and where a record could not be written or removed, what was done before is taken back.
pub proof fn law_failed_call_ends_the_store(
    start: StoreStart,
    exchanges: Seq<Exchange>,
    run: StoreRun,
    failed: Exchange,
    request: RequestView,
    cause: DatabaseErrorView,
)
    requires
        start.valid(),
        start.run().reaches(exchanges, run),
        run.step matches StepView::Ask { request: asked, .. } && asked == request,
        run.takes(failed),
        failure(failed.reply) == Some(cause),
    ensures
        run.after(failed).state == run.state,
        run.after(failed).databases == run.databases,
        match request {
            RequestView::InsertMetadata { .. } => run.after(failed).step matches StepView::Ask {
                request: next,
                ..
            } && (next is PutContent || next is DeleteContent),
            RequestView::RemoveMetadata { content_id } => match run.after(failed).step {
                StepView::Ask { request: next, .. } => {
                    next matches RequestView::PutContent { content_id: id, .. } && id == content_id
                },
                StepView::Done { result } => result == Err::<(), ErrorView>(
                    ErrorView::RemoveError { content_id },
                ),
            },
            RequestView::GetContent { .. } if run.step->then.phase is ReadPrevious => {
                run.after(failed).step matches StepView::Ask { request: next, .. } && next == (
                RequestView::PutContent { content_id: start.key.content_id, value: start.value })
            },
            _ => run.after(failed).step == (StepView::<StoreOpView, ()>::Done {
                result: Err(passed_on(cause)),
            }),
        },
{
    lemma_invariant_begins(start);
    lemma_invariant_reached(start, start.run(), exchanges, run);
}

/// If the metadata database reports no sum, or an id that has not 32 bytes, the operation ends with
/// an error that says so.
pub proof fn law_odd_answers_end_the_store(
    state: StorageState,
    op: StoreOpView,
    ids: Seq<Seq<u8>>,
    i: int,
)
    ensures
        op.phase is Measure ==> store_next(state, op, ReplyView::Total(Ok(None))) == (
            state,
            StepView::<StoreOpView, ()>::Done { result: Err(ErrorView::SumError) },
        ),
        op.phase is FindFarthest && is_first_misfit(ids, i) ==> store_next(
            state,
            op,
            ReplyView::Ids(Ok(ids)),
        ) == (
            state,
            StepView::<StoreOpView, ()>::Done {
                result: Err(
                    ErrorView::DataSizeError {
                        doing: "finding farthest content id"@,
                        expected: 32,
                        actual: ids[i].len(),
                    },
                ),
            },
        ),
{
    if is_first_misfit(ids, i) {
        law_farthest_of_is_farthest(state, ids);
        if let Err(error) = state.farthest_of(ids) {
            let k = choose|k: int| #[trigger]
                is_first_misfit(ids, k) && error == (ErrorView::DataSizeError {
                    doing: "finding farthest content id"@,
                    expected: 32,
                    actual: ids[k].len(),
                });
            assert(k == i);
        } else {
            assert(ids[i].len() == 32);
        }
    }
}

/// Once content has been recorded, the farthest content is the new content or the farthest so far,
/// neither of them is farther than it, and nothing else about the storage changes.
pub proof fn law_recording_updates_the_farthest(state: StorageState, op: StoreOpView)
    requires
        op.phase is InsertMetadata,
    ensures
        ({
            let content_id = op.key.content_id;
            let (next, step) = store_next(state, op, ReplyView::Written(Ok(())));
            &&& step matches StepView::Ask { request, .. }
            &&& request is TotalSize
            &&& next.node_id == state.node_id
            &&& next.capacity == state.capacity
            &&& next.radius == state.radius
            &&& next.farthest matches Some(farthest)
            &&& farthest == content_id || state.farthest == Some(farthest)
            &&& xor_distance(content_id, state.node_id) <= xor_distance(farthest, state.node_id)
            &&& state.farthest matches Some(previous) ==> xor_distance(previous, state.node_id)
                <= xor_distance(farthest, state.node_id)
        }),
{
}

/// Once content has been dropped, the farthest content is the farthest that is left and the radius
/// is its distance. If none is left, the operation ends, and the radius stays what it is.
pub proof fn law_dropping_updates_farthest_and_radius(
    state: StorageState,
    op: StoreOpView,
    ids: Seq<Seq<u8>>,
)
    requires
        op.phase is FindFarthest,
        forall|i: int| 0 <= i < ids.len() ==> (#[trigger] ids[i]).len() == 32,
    ensures
        ({
            let (next, step) = store_next(state, op, ReplyView::Ids(Ok(ids)));
            &&& next.node_id == state.node_id
            &&& next.capacity == state.capacity
            &&& if ids.len() == 0 {
                &&& next.farthest is None
                &&& next.radius == state.radius
                &&& step matches StepView::Done { result }
                &&& result is Ok
            } else {
                &&& step matches StepView::Ask { request, .. }
                &&& request is TotalSize
                &&& next.farthest matches Some(farthest)
                &&& ids.contains(farthest)
                &&& forall|i: int|
                    0 <= i < ids.len() ==> xor_distance(#[trigger] ids[i], state.node_id)
                        <= xor_distance(farthest, state.node_id)
                &&& next.radius == xor_distance(farthest, state.node_id)
            }
        }),
{
    law_farthest_of_is_farthest(state, ids);
}

/// Content that has been stored and not been dropped should not be stored again, unless it is the
/// master accumulator.
pub proof fn law_stored_content_should_not_be_stored_again(
    start: StoreStart,
    exchanges: Seq<Exchange>,
    end: StoreRun,
    reply: ReplyView,
    after: Databases,
)
    requires
        start.valid(),
        start.run().reaches(exchanges, end),
        end.step == (StepView::<StoreOpView, ()>::Done { result: Ok(()) }),
        end.databases.metadata.contains_key(start.key.content_id),
        end.databases.answer(
            RequestView::HasContent { content_id: start.key.content_id },
            reply,
            after,
        ),
        !is_failure(reply),
    ensures
        should_store_next(
            end.state,
            ShouldStoreOpView { content_id: start.key.content_id },
            reply,
        ) == Ok::<bool, ErrorView>(false),
{
    law_store_drops_the_farthest(start, exchanges, end);
    assert(start.content().contains_key(start.key.content_id));
    assert(start.metadata().contains_key(start.key.content_id));
}

} // verus!
