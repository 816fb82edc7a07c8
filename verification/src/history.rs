//! Any number of store operations, one after the other.

use vstd::prelude::*;

use crate::databases::Databases;
use crate::error::ErrorView;
use crate::laws::{law_new_takes_up_what_is_stored, new_answered, new_outcome};
use crate::request::ReplyView;
use crate::storage::{is_master_accumulator, PortalStorageConfig, StorageState};
use crate::store_if_should_run::{decided, law_store_if_should_runs_as_store, StoreIfShouldRun};
use crate::store_run::law_settled_store_leaves_the_databases_in_step;
use crate::store_run::law_store_leaves_the_accumulator_alone;
use crate::store_run::{farthest_recorded, reads_succeed, settled, tracks, within_radius};
use crate::store_run::{law_store_does_not_widen_the_radius, law_store_keeps_track};
use crate::store_run::{law_store_records_sizes, sizes_recorded};
use crate::store_run::{Exchange, StoreRun, StoreStart};

verus! {

/// An operation that has run, as far as it got.
pub enum PastOperation {
    /// Content was to be stored.
    Store { start: StoreStart, exchanges: Seq<Exchange>, end: StoreRun },
    /// Content was to be stored if it should be.
    StoreIfShould { start: StoreStart, exchanges: Seq<Exchange>, decided_end: StoreIfShouldRun },
}

impl PastOperation {
    /// What the operation started from.
    pub open spec fn start(self) -> StoreStart {
        match self {
            PastOperation::Store { start, .. } => start,
            PastOperation::StoreIfShould { start, .. } => start,
        }
    }

    /// The storage where the operation ended.
    pub open spec fn end_state(self) -> StorageState {
        match self {
            PastOperation::Store { end, .. } => end.state,
            PastOperation::StoreIfShould { decided_end, .. } => decided_end.state,
        }
    }

    /// The databases where the operation ended.
    pub open spec fn end_databases(self) -> Databases {
        match self {
            PastOperation::Store { end, .. } => end.databases,
            PastOperation::StoreIfShould { decided_end, .. } => decided_end.databases,
        }
    }

    /// The operation was given a key with a proper id, and its exchanges led it to where it ended.
    pub open spec fn happened(self) -> bool {
        &&& self.start().key.content_id.len() == 32
        &&& match self {
            PastOperation::Store { start, exchanges, end } => start.run().reaches(exchanges, end),
            PastOperation::StoreIfShould { start, exchanges, decided_end } =>
                start.run_if_should().reaches(exchanges, decided_end),
        }
    }

    /// The operation ended without passing a failure on, and what it took back, it took back in
    /// full.
    pub open spec fn settled(self) -> bool {
        match self {
            PastOperation::Store { exchanges, end, .. } => settled(exchanges, end.step),
            PastOperation::StoreIfShould { exchanges, decided_end, .. } => settled(
                exchanges,
                decided_end.step,
            ),
        }
    }

    /// A run of the store operation ends where this operation did. It is settled if the operation
    /// is, unless it never began.
    spec fn ends_as(self, exchanges: Seq<Exchange>, run: StoreRun) -> bool {
        &&& self.start().run().reaches(exchanges, run)
        &&& run.state == self.end_state()
        &&& run.databases == self.end_databases()
        &&& self.settled() ==> settled(exchanges, run.step) || {
            &&& run.state == self.start().state
            &&& run.databases == self.start().databases
        }
    }
}

/// Some run of the store operation ends where an operation did.
proof fn lemma_ends_as_store(past: PastOperation) -> (store: (Seq<Exchange>, StoreRun))
    requires
        past.happened(),
    ensures
        past.ends_as(store.0, store.1),
{
    match past {
        PastOperation::Store { exchanges, end, .. } => (exchanges, end),
        PastOperation::StoreIfShould { start, exchanges, decided_end: end } => {
            law_store_if_should_runs_as_store(start, exchanges, end);
            let rest = exchanges.skip(1);
            if exchanges.len() > 0 && reads_succeed(exchanges) {
                assert forall|i: int| 0 <= i < rest.len() implies !(#[trigger] rest[i].reply matches ReplyView::Bytes(Err(_))) by {
                    assert(rest[i] == exchanges[i + 1]);
                }
            }
            if start.stores(exchanges, end) {
                let run = choose|run: StoreRun| #[trigger]
                    start.run().reaches(exchanges, run) && end == decided(run);
                (exchanges, run)
            } else if start.stores(rest, end) && exchanges.len() > 0 {
                let run = choose|run: StoreRun| #[trigger]
                    start.run().reaches(rest, run) && end == decided(run);
                (rest, run)
            } else {
                let none = Seq::<Exchange>::empty();
                assert(start.run().reaches(none, start.run()));
                (none, start.run())
            }
        },
    }
}

/// Whether some operations, each starting where the one before it ended, lead from one state of
/// storage and databases to another. An operation may have ended in an error.
pub open spec fn leads(
    state: StorageState,
    databases: Databases,
    history: Seq<PastOperation>,
    end_state: StorageState,
    end_databases: Databases,
) -> bool
    decreases history.len(),
{
    if history.len() == 0 {
        end_state == state && end_databases == databases
    } else {
        let last = history.last();
        &&& leads(state, databases, history.drop_last(), last.start().state, last.start().databases)
        &&& last.happened()
        &&& end_state == last.end_state()
        &&& end_databases == last.end_databases()
    }
}

/// However many operations have run, and whatever they came to, the metadata table is well formed,
/// and no recorded content lies farther away than what the storage takes for the farthest. If all
/// recorded content but the master accumulator lay within the radius at first, it still does, and
/// the radius has not grown.
pub proof fn law_any_history_keeps_the_storage_sound(
    state: StorageState,
    databases: Databases,
    history: Seq<PastOperation>,
    end_state: StorageState,
    end_databases: Databases,
)
    requires
        state.node_id.len() == 32,
        databases.well_formed(),
        tracks(state, databases),
        leads(state, databases, history, end_state, end_databases),
    ensures
        end_state.node_id == state.node_id,
        end_state.capacity == state.capacity,
        end_databases.well_formed(),
        tracks(end_state, end_databases),
        within_radius(state, databases) ==> within_radius(end_state, end_databases)
            && end_state.radius <= state.radius,
    decreases history.len(),
{
    if history.len() > 0 {
        let last = history.last();
        law_any_history_keeps_the_storage_sound(
            state,
            databases,
            history.drop_last(),
            last.start().state,
            last.start().databases,
        );
        let (exchanges, run) = lemma_ends_as_store(last);
        law_store_keeps_track(last.start(), exchanges, run);
        if within_radius(last.start().state, last.start().databases) {
            law_store_does_not_widen_the_radius(last.start(), exchanges, run);
        }
    }
}

/// As long as only other content than the master accumulator is stored, the accumulator database is
/// what it was, whatever the operations came to and whatever they started from.
pub proof fn law_other_content_leaves_the_accumulator_alone(
    state: StorageState,
    databases: Databases,
    history: Seq<PastOperation>,
    end_state: StorageState,
    end_databases: Databases,
)
    requires
        leads(state, databases, history, end_state, end_databases),
        forall|i: int|
            0 <= i < history.len() ==> !is_master_accumulator(
                (#[trigger] history[i]).start().key.content_id,
            ),
    ensures
        end_databases.accumulator == databases.accumulator,
    decreases history.len(),
{
    if history.len() > 0 {
        let last = history.last();
        let earlier = history.drop_last();
        assert forall|i: int| 0 <= i < earlier.len() implies !is_master_accumulator(
            (#[trigger] earlier[i]).start().key.content_id,
        ) by {
            assert(earlier[i] == history[i]);
        }
        law_other_content_leaves_the_accumulator_alone(
            state,
            databases,
            earlier,
            last.start().state,
            last.start().databases,
        );
        assert(last == history[history.len() - 1]);
        let (exchanges, run) = lemma_ends_as_store(last);
        law_store_leaves_the_accumulator_alone(last.start(), exchanges, run);
    }
}

/// Whether no operation passed a failure on, and all took back in full what they took back.
pub open spec fn all_settled(history: Seq<PastOperation>) -> bool {
    forall|i: int| 0 <= i < history.len() ==> (#[trigger] history[i]).settled()
}

/// As long as no failure has been passed on, the content database and the metadata table list the
/// same content, the farthest content is recorded, and the recorded sizes are those of the values
/// that are held, if that was so at first.
pub proof fn law_settled_history_keeps_the_databases_in_step(
    state: StorageState,
    databases: Databases,
    history: Seq<PastOperation>,
    end_state: StorageState,
    end_databases: Databases,
)
    requires
        state.node_id.len() == 32,
        databases.well_formed(),
        tracks(state, databases),
        leads(state, databases, history, end_state, end_databases),
        all_settled(history),
    ensures
        databases.mirrored() ==> end_databases.mirrored(),
        farthest_recorded(state, databases) ==> farthest_recorded(end_state, end_databases),
        sizes_recorded(databases) ==> sizes_recorded(end_databases),
    decreases history.len(),
{
    if history.len() > 0 {
        let last = history.last();
        let earlier = history.drop_last();
        assert forall|i: int| 0 <= i < earlier.len() implies (#[trigger] earlier[i]).settled() by {
            assert(earlier[i] == history[i]);
        }
        law_settled_history_keeps_the_databases_in_step(
            state,
            databases,
            earlier,
            last.start().state,
            last.start().databases,
        );
        law_any_history_keeps_the_storage_sound(
            state,
            databases,
            earlier,
            last.start().state,
            last.start().databases,
        );
        assert(history[history.len() - 1].settled());
        let (exchanges, run) = lemma_ends_as_store(last);
        if settled(exchanges, run.step) {
            law_settled_store_leaves_the_databases_in_step(last.start(), exchanges, run);
            if sizes_recorded(last.start().databases) {
                law_store_records_sizes(last.start(), exchanges, run);
            }
        }
    }
}

/// All content that is held lies within the radius, but for the master accumulator, in a storage
/// that was started on databases that list the same content and has only run operations of which
/// none passed a failure on.
pub proof fn law_held_content_lies_within_the_radius(
    config: PortalStorageConfig,
    databases: Databases,
    found: ReplyView,
    measured: ReplyView,
    state: StorageState,
    history: Seq<PastOperation>,
    end_state: StorageState,
    end_databases: Databases,
    id: Seq<u8>,
)
    requires
        databases.well_formed(),
        databases.mirrored(),
        new_answered(config, databases, found, measured),
        new_outcome(config, found, measured) == Ok::<StorageState, ErrorView>(state),
        leads(state, databases, history, end_state, end_databases),
        all_settled(history),
        end_databases.content.contains_key(id),
        !is_master_accumulator(id),
    ensures
        end_state.distance_to(id) <= end_state.radius,
{
    law_new_takes_up_what_is_stored(config, databases, found, measured);
    law_any_history_keeps_the_storage_sound(state, databases, history, end_state, end_databases);
    law_settled_history_keeps_the_databases_in_step(
        state,
        databases,
        history,
        end_state,
        end_databases,
    );
    assert(end_databases.content.dom().contains(id));
    assert(end_databases.metadata.contains_key(id));
}

} // verus!
